//! The daemon panel: how the log of a daemon process is cleaned up for display,
//! how the runtime lock owner is read, and the panel's decisions.
use std::collections::VecDeque;

use vstd::prelude::*;
use vstd::string::{StrSliceExecFns, StringExecFns, StringSliceAdditionalSpecFns};
use vstd::utf8::encode_utf8;

use crate::text::{
    byte_len, byte_len_capped, char_is_alnum, chars_of, find, find_chars, is_alnum,
    dec_str, lemma_find_from_some, opt_str_view, opt_view, parse_u32, parse_u32_chars, push_char,
    push_decimal, push_signed_decimal, push_str, signed_dec_str, str_eq, string_of,
    string_of_all, sub_chars, trim, trim_chars, trim_start,
    trim_start_chars,
};

verus! {

// ---------------------------------------------------------------------------
// ANSI escape removal (byte level)
// ---------------------------------------------------------------------------

pub open spec fn is_alpha_byte(b: u8) -> bool {
    (0x41 <= b <= 0x5A) || (0x61 <= b <= 0x7A)
}

/// The text of `b` with ANSI escapes removed. Each byte that is kept becomes the
/// character with that code (a multi-byte UTF-8 sequence becomes several characters).
/// An ESC byte is dropped; ESC followed by `[` starts a control sequence that runs
/// up to and including the next ASCII letter (or to the end).
pub open spec fn ansi_stripped(b: Seq<u8>) -> Seq<char>
    decreases b.len(), 1int,
{
    if b.len() == 0 {
        seq![]
    } else if b[0] == 0x1b {
        if b.len() >= 2 && b[1] == 0x5b {
            ansi_csi_rest(b.skip(2))
        } else {
            ansi_stripped(b.skip(1))
        }
    } else {
        seq![b[0] as char] + ansi_stripped(b.skip(1))
    }
}

/// Inside a control sequence: skip up to and including the next ASCII letter.
pub open spec fn ansi_csi_rest(b: Seq<u8>) -> Seq<char>
    decreases b.len(), 0int,
{
    if b.len() == 0 {
        seq![]
    } else if is_alpha_byte(b[0]) {
        ansi_stripped(b.skip(1))
    } else {
        ansi_csi_rest(b.skip(1))
    }
}

/// No ESC character is left once escapes are removed (from the text, or from the
/// rest of a control sequence).
pub proof fn lemma_no_escape_left(b: Seq<u8>)
    ensures
        forall|i: int| 0 <= i < ansi_stripped(b).len() ==> ansi_stripped(b)[i] != '\x1b',
        forall|i: int| 0 <= i < ansi_csi_rest(b).len() ==> ansi_csi_rest(b)[i] != '\x1b',
    decreases b.len(),
{
    if b.len() == 0 {
        assert(ansi_stripped(b) =~= Seq::<char>::empty());
        assert(ansi_csi_rest(b) =~= Seq::<char>::empty());
    } else {
        lemma_no_escape_left(b.skip(1));
        if is_alpha_byte(b[0]) {
            assert(ansi_csi_rest(b) == ansi_stripped(b.skip(1)));
        } else {
            assert(ansi_csi_rest(b) == ansi_csi_rest(b.skip(1)));
        }
        if b[0] == 0x1b {
            if b.len() >= 2 && b[1] == 0x5b {
                lemma_no_escape_left(b.skip(2));
                assert(ansi_stripped(b) == ansi_csi_rest(b.skip(2)));
            } else {
                assert(ansi_stripped(b) == ansi_stripped(b.skip(1)));
            }
        } else {
            let s = ansi_stripped(b);
            let t = ansi_stripped(b.skip(1));
            assert(s == seq![b[0] as char] + t);
            assert forall|i: int| 0 <= i < s.len() implies s[i] != '\x1b' by {
                if i > 0 {
                    assert(s[i] == t[i - 1]);
                } else {
                    assert(b[0] as char as u32 == b[0] as u32);
                }
            }
        }
    }
}

/// Removes ANSI escape sequences (colours and the like) from a log line.
pub fn strip_ansi(input: &str) -> (r: String)
    ensures
        r@ == ansi_stripped(input.spec_bytes()),
        forall|i: int| 0 <= i < r@.len() ==> r@[i] != '\x1b',
{
    proof {
        lemma_no_escape_left(input.spec_bytes());
    }
    let bytes = input.as_bytes();
    let ghost b = bytes@;
    let n = bytes.len();
    let mut out = String::new();
    let mut i: usize = 0;
    assert(b.skip(0) =~= b);
    while i < n
        invariant
            n == b.len(),
            b == bytes@,
            b == input.spec_bytes(),
            i <= n,
            out@ + ansi_stripped(b.skip(i as int)) == ansi_stripped(b),
        decreases n - i,
    {
        let ghost before = b.skip(i as int);
        if bytes[i] == 0x1b {
            i = i + 1;
            if i < n && bytes[i] == 0x5b {
                assert(before.skip(2) =~= b.skip(i + 1));
                i = i + 1;
                let ghost i0 = i;
                let mut done = false;
                while i < n && !done
                    invariant
                        i0 <= i,
                        n == b.len(),
                        b == bytes@,
                        i <= n,
                        !done ==> out@ + ansi_csi_rest(b.skip(i as int)) == ansi_stripped(b),
                        done ==> out@ + ansi_stripped(b.skip(i as int)) == ansi_stripped(b),
                    decreases n - i, (if done { 0int } else { 1int }),
                {
                    let c = bytes[i];
                    assert(b.skip(i as int).skip(1) =~= b.skip(i + 1));
                    i = i + 1;
                    if (0x41 <= c && c <= 0x5A) || (0x61 <= c && c <= 0x7A) {
                        done = true;
                    }
                }
                if !done {
                    assert(b.skip(i as int) =~= Seq::<u8>::empty());
                    assert(ansi_csi_rest(b.skip(i as int)) =~= ansi_stripped(b.skip(i as int)));
                }
            } else {
                assert(before.skip(1) =~= b.skip(i as int));
            }
        } else {
            let ghost o = out@;
            push_char(&mut out, bytes[i] as char);
            assert(before.skip(1) =~= b.skip(i + 1));
            assert(ansi_stripped(before) == seq![b[i as int] as char] + ansi_stripped(before.skip(1)));
            assert(out@ + ansi_stripped(b.skip(i + 1)) =~= o + ansi_stripped(before));
            i = i + 1;
        }
    }
    assert(b.skip(n as int).len() == 0);
    assert(out@ + ansi_stripped(b.skip(n as int)) =~= out@);
    out
}


// ---------------------------------------------------------------------------
// Log levels
// ---------------------------------------------------------------------------

/// The level names searched for, in this order.
pub open spec fn level_names() -> Seq<Seq<char>> {
    seq![
        seq!['T', 'R', 'A', 'C', 'E'],
        seq!['D', 'E', 'B', 'U', 'G'],
        seq!['I', 'N', 'F', 'O'],
        seq!['W', 'A', 'R', 'N'],
        seq!['E', 'R', 'R', 'O', 'R'],
    ]
}

/// Where the first occurrence of `level` in `s` stands as a word of its own
/// (no ASCII letter or digit right before or right after it): `(start, end)`.
/// Only the first occurrence is looked at.
pub open spec fn level_match(s: Seq<char>, level: Seq<char>) -> Option<(int, int)> {
    match find(s, level) {
        Some(idx) => {
            let end = idx + level.len();
            if (idx == 0 || !is_alnum(s[idx - 1])) && (end >= s.len() || !is_alnum(s[end])) {
                Some((idx, end))
            } else {
                None
            }
        },
        None => None,
    }
}

/// The first level name, from `k` on, that `level_match` accepts.
pub open spec fn level_split_from(s: Seq<char>, k: int) -> Option<(int, int)>
    decreases 5 - k,
{
    if k < 0 || k >= 5 {
        None
    } else {
        match level_match(s, level_names()[k]) {
            Some(p) => Some(p),
            None => level_split_from(s, k + 1),
        }
    }
}

/// The text before and after the log level of a line, if it has one.
pub open spec fn level_split(s: Seq<char>) -> Option<(Seq<char>, Seq<char>)> {
    match level_split_from(s, 0) {
        Some((i, e)) => Some((s.take(i), s.skip(e))),
        None => None,
    }
}

fn level_name(k: usize) -> (r: Vec<char>)
    requires
        k < 5,
    ensures
        r@ == level_names()[k as int],
{
    let r = if k == 0 {
        vec!['T', 'R', 'A', 'C', 'E']
    } else if k == 1 {
        vec!['D', 'E', 'B', 'U', 'G']
    } else if k == 2 {
        vec!['I', 'N', 'F', 'O']
    } else if k == 3 {
        vec!['W', 'A', 'R', 'N']
    } else {
        vec!['E', 'R', 'R', 'O', 'R']
    };
    assert(r@ =~= level_names()[k as int]);
    r
}

/// Positions `(start, end)` of the log level in `s`.
fn level_bounds(s: &Vec<char>) -> (r: Option<(usize, usize)>)
    ensures
        r matches Some((i, e)) ==> level_split_from(s@, 0) == Some((i as int, e as int)) && i
            <= e <= s.len(),
        r is None ==> level_split_from(s@, 0) is None,
{
    let mut k: usize = 0;
    while k < 5
        invariant
            k <= 5,
            level_split_from(s@, 0) == level_split_from(s@, k as int),
        decreases 5 - k,
    {
        let level = level_name(k);
        match find_chars(s, &level, 0) {
            Some(idx) => {
                proof {
                    lemma_find_from_some(s@, level@, 0);
                }
                let end = idx + level.len();
                let start_ok = idx == 0 || !char_is_alnum(s[idx - 1]);
                let end_ok = end >= s.len() || !char_is_alnum(s[end]);
                if start_ok && end_ok {
                    return Some((idx, end));
                }
            },
            None => {},
        }
        k = k + 1;
    }
    None
}

/// Splits a log line around its level name (`TRACE`, `DEBUG`, `INFO`, `WARN` or
/// `ERROR`): the text before it and the text after it.
pub fn split_after_level(input: &str) -> (r: Option<(&str, &str)>)
    ensures
        r matches Some((a, b)) ==> level_split(input@) == Some((a@, b@)),
        r is None ==> level_split(input@) is None,
{
    let v = chars_of(input);
    match level_bounds(&v) {
        Some((i, e)) => {
            let a = input.substring_char(0, i);
            let b = input.substring_char(e, v.len());
            assert(a@ =~= input@.take(i as int));
            assert(b@ =~= input@.skip(e as int));
            Some((a, b))
        },
        None => None,
    }
}


// ---------------------------------------------------------------------------
// Message extraction
// ---------------------------------------------------------------------------

pub open spec fn is_boilerplate_char(c: char) -> bool {
    is_alnum(c) || c == '_' || c == '-' || c == '.' || c == '[' || c == ']' || c == '(' || c
        == ')' || c == '{' || c == '}' || c == '='
}

/// A prefix such as a module path or a target name: non-empty once trimmed, at
/// most 80 bytes, and either holding `::` or made only of ASCII letters, digits
/// and `_-.[](){}=`.
pub open spec fn is_boilerplate(prefix: Seq<char>) -> bool {
    let t = trim(prefix);
    if t.len() == 0 || byte_len(t) > 80 {
        false
    } else if find(t, seq![':', ':']) is Some {
        true
    } else {
        forall|i: int| 0 <= i < t.len() ==> is_boilerplate_char(#[trigger] t[i])
    }
}

/// A message too short to be worth showing: empty, or at most 3 bytes with no
/// ASCII letter or digit.
pub open spec fn is_noise(message: Seq<char>) -> bool {
    if message.len() == 0 {
        true
    } else if byte_len(message) > 3 {
        false
    } else {
        forall|i: int| 0 <= i < message.len() ==> !is_alnum(#[trigger] message[i])
    }
}

fn boilerplate_chars(v: &Vec<char>) -> (r: bool)
    ensures
        r == is_boilerplate(v@),
{
    let t = trim_chars(v);
    if t.len() == 0 {
        return false;
    }
    if byte_len_capped(&t, 80) > 80 {
        return false;
    }
    let sep = vec![':', ':'];
    assert(sep@ =~= seq![':', ':']);
    if find_chars(&t, &sep, 0).is_some() {
        return true;
    }
    let mut i: usize = 0;
    while i < t.len()
        invariant
            i <= t.len(),
            t@ == trim(v@),
            t.len() > 0,
            byte_len(t@) <= 80,
            find(t@, seq![':', ':']) is None,
            forall|k: int| 0 <= k < i ==> is_boilerplate_char(#[trigger] t@[k]),
        decreases t.len() - i,
    {
        let c = t[i];
        if !(char_is_alnum(c) || c == '_' || c == '-' || c == '.' || c == '[' || c == ']' || c
            == '(' || c == ')' || c == '{' || c == '}' || c == '=') {
            assert(!is_boilerplate_char(t@[i as int]));
            return false;
        }
        i = i + 1;
    }
    true
}

/// Whether `prefix` looks like a module path or target name that precedes the message.
pub fn is_boilerplate_prefix(prefix: &str) -> (r: bool)
    ensures
        r == is_boilerplate(prefix@),
{
    boilerplate_chars(&chars_of(prefix))
}

fn noise_chars(m: &Vec<char>) -> (r: bool)
    ensures
        r == is_noise(m@),
{
    if m.len() == 0 {
        return true;
    }
    if byte_len_capped(m, 3) > 3 {
        return false;
    }
    let mut i: usize = 0;
    while i < m.len()
        invariant
            i <= m.len(),
            m.len() > 0,
            byte_len(m@) <= 3,
            forall|k: int| 0 <= k < i ==> !is_alnum(#[trigger] m@[k]),
        decreases m.len() - i,
    {
        if char_is_alnum(m[i]) {
            return false;
        }
        i = i + 1;
    }
    true
}

/// Whether a cleaned-up message is too short to be worth showing.
pub fn looks_like_noise(message: &str) -> (r: bool)
    ensures
        r == is_noise(message@),
{
    noise_chars(&chars_of(message))
}

/// One step of prefix removal: after leading white space, a `[...] ` tag, or a
/// boilerplate prefix ended by ` - ` or `: `. `None` when there is nothing to remove.
pub open spec fn strip_step(rest: Seq<char>) -> Option<Seq<char>> {
    let t = trim_start(rest);
    let bracket = find(t, seq![']', ' ']);
    let dash = find(t, seq![' ', '-', ' ']);
    let colon = find(t, seq![':', ' ']);
    if bracket is Some && t.len() > 0 && t[0] == '[' && bracket->0 > 1 {
        Some(t.skip(bracket->0 + 2))
    } else if dash is Some && is_boilerplate(t.take(dash->0)) {
        Some(t.skip(dash->0 + 3))
    } else if colon is Some && is_boilerplate(t.take(colon->0)) {
        Some(t.skip(colon->0 + 2))
    } else {
        None
    }
}

/// At most `n` steps of prefix removal; where no step applies, the text with its
/// leading white space removed.
pub open spec fn strip_prefixes(rest: Seq<char>, n: nat) -> Seq<char>
    decreases n,
{
    if n == 0 {
        rest
    } else {
        match strip_step(rest) {
            Some(r) => strip_prefixes(r, (n - 1) as nat),
            None => trim_start(rest),
        }
    }
}

/// Text that, once its leading white space is removed, does not start with `[`
/// and holds neither ` - ` nor `: ` is never cut: no step applies to it, and
/// prefix removal only drops its leading white space, however many steps are
/// allowed. In particular a `] ` inside such a message stays.
pub proof fn lemma_plain_text_not_cut(rest: Seq<char>)
    requires
        trim_start(rest).len() == 0 || trim_start(rest)[0] != '[',
        find(trim_start(rest), seq![' ', '-', ' ']) is None,
        find(trim_start(rest), seq![':', ' ']) is None,
    ensures
        strip_step(rest) is None,
        forall|n: nat| n > 0 ==> #[trigger] strip_prefixes(rest, n) == trim_start(rest),
{
    assert forall|n: nat| n > 0 implies #[trigger] strip_prefixes(rest, n) == trim_start(rest) by {
        assert(strip_step(rest) is None);
    }
}

/// Every cut that a step of prefix removal makes is one of three: a `[...] ` tag
/// at the very start of the text (after leading white space), a boilerplate
/// prefix ended by ` - `, or a boilerplate prefix ended by `: `. What is left is
/// the text after that end marker.
pub proof fn lemma_cuts_are_tags_or_prefixes(rest: Seq<char>)
    ensures
        strip_step(rest) matches Some(r) ==> exists|k: int|
            #![trigger trim_start(rest).skip(k)]
            0 <= k <= trim_start(rest).len() && r == trim_start(rest).skip(k) && {
                let t = trim_start(rest);
                ||| (t[0] == '[' && k >= 4 && t.subrange(k - 2, k) == seq![']', ' '])
                ||| (k >= 3 && t.subrange(k - 3, k) == seq![' ', '-', ' '] && is_boilerplate(
                    t.take(k - 3),
                ))
                ||| (k >= 2 && t.subrange(k - 2, k) == seq![':', ' '] && is_boilerplate(
                    t.take(k - 2),
                ))
            },
{
    let t = trim_start(rest);
    lemma_find_from_some(t, seq![']', ' '], 0);
    lemma_find_from_some(t, seq![' ', '-', ' '], 0);
    lemma_find_from_some(t, seq![':', ' '], 0);
    let bracket = find(t, seq![']', ' ']);
    let dash = find(t, seq![' ', '-', ' ']);
    let colon = find(t, seq![':', ' ']);
    if bracket is Some && t.len() > 0 && t[0] == '[' && bracket->0 > 1 {
        let k = bracket->0 + 2;
        assert(t.subrange(k - 2, k) == seq![']', ' ']);
        assert(t.skip(k) == t.skip(k));
    } else if dash is Some && is_boilerplate(t.take(dash->0)) {
        let k = dash->0 + 3;
        assert(t.subrange(k - 3, k) == seq![' ', '-', ' ']);
        assert(t.take(k - 3) == t.take(dash->0));
        assert(t.skip(k) == t.skip(k));
    } else if colon is Some && is_boilerplate(t.take(colon->0)) {
        let k = colon->0 + 2;
        assert(t.subrange(k - 2, k) == seq![':', ' ']);
        assert(t.take(k - 2) == t.take(colon->0));
        assert(t.skip(k) == t.skip(k));
    }
}

proof fn lemma_no_white(p: Seq<char>)
    requires
        p.len() > 0,
        forall|i: int| 0 <= i < p.len() ==> !crate::text::is_white(#[trigger] p[i]),
    ensures
        trim(p) == p,
{
    crate::text::lemma_trim_start_at(p, 0);
    assert(p.skip(0) =~= p);
    crate::text::lemma_trim_end_at(p, p.len() as int);
    assert(p.take(p.len() as int) =~= p);
}

proof fn lemma_path_msg_no_dash(path: Seq<char>, msg: Seq<char>)
    requires
        forall|i: int| 0 <= i < path.len() ==> !crate::text::is_white(#[trigger] path[i]),
        msg.len() > 0,
        msg[0] != '-',
        find(msg, seq![' ', '-', ' ']) is None,
    ensures
        find(path + seq![':', ' '] + msg, seq![' ', '-', ' ']) is None,
{
    let t = path + seq![':', ' '] + msg;
    let n = path.len() as int;
    let dash = seq![' ', '-', ' '];
    lemma_find_from_some(t, dash, 0);
    if let Some(m) = find(t, dash) {
        assert(crate::text::occurs_at(t, dash, m));
        let w = t.subrange(m, m + 3);
        assert(w[0] == t[m] && w[1] == t[m + 1] && w[2] == t[m + 2]);
        assert(t[m] == ' ' && t[m + 1] == '-');
        if m < n {
            assert(t[m] == path[m]);
            assert(crate::text::is_white(path[m]));
        } else if m == n {
            assert(t[m] == ':');
        } else if m == n + 1 {
            assert(t[m + 1] == msg[0]);
        } else {
            let j = m - n - 2;
            assert(msg.subrange(j, j + 3) =~= w);
            assert(crate::text::occurs_at(msg, dash, j));
            lemma_find_from_some(msg, dash, 0);
        }
    }
}

proof fn lemma_path_colon_first(path: Seq<char>, msg: Seq<char>)
    requires
        forall|i: int| 0 <= i < path.len() ==> !crate::text::is_white(#[trigger] path[i]),
    ensures
        find(path + seq![':', ' '] + msg, seq![':', ' ']) == Some(path.len() as int),
{
    let t = path + seq![':', ' '] + msg;
    let n = path.len() as int;
    let colon = seq![':', ' '];
    lemma_find_from_some(t, colon, 0);
    assert(crate::text::occurs_at(t, colon, n)) by {
        assert(t.subrange(n, n + 2) =~= colon);
    }
    if let Some(k) = find(t, colon) {
        if k < n {
            assert(crate::text::occurs_at(t, colon, k));
            assert(t[k + 1] == ' ') by {
                assert(t.subrange(k, k + 2)[1] == t[k + 1]);
            }
            if k + 1 < n {
                assert(t[k + 1] == path[k + 1]);
                assert(crate::text::is_white(path[k + 1]));
            } else {
                assert(t[k + 1] == ':');
            }
        } else if k > n {
            assert(!crate::text::occurs_at(t, colon, n));
        }
    }
}

/// After the level, a module path `path` (holding `::`, no white space, at most
/// 80 bytes, not starting with `[`), `: ` and a message `msg` that starts with a
/// visible character other than `[` and `-` and holds neither ` - ` nor `: `:
/// prefix removal drops exactly the module path, and the message is `msg` as
/// written, `] ` and all.
pub proof fn lemma_module_prefix_dropped(path: Seq<char>, msg: Seq<char>)
    requires
        path.len() > 0,
        forall|i: int| 0 <= i < path.len() ==> !crate::text::is_white(#[trigger] path[i]),
        path[0] != '[',
        find(path, seq![':', ':']) is Some,
        byte_len(path) <= 80,
        msg.len() > 0,
        !crate::text::is_white(msg[0]),
        msg[0] != '[',
        msg[0] != '-',
        find(msg, seq![' ', '-', ' ']) is None,
        find(msg, seq![':', ' ']) is None,
    ensures
        strip_prefixes(seq![' '] + path + seq![':', ' '] + msg, 3) == msg,
{
    let rest = seq![' '] + path + seq![':', ' '] + msg;
    let t = path + seq![':', ' '] + msg;
    let n = path.len() as int;
    assert(crate::text::is_white(rest[0]));
    assert(rest[1] == path[0]);
    crate::text::lemma_trim_start_at(rest, 1);
    assert(rest.skip(1) =~= t);
    assert(t[0] == path[0]);
    lemma_path_msg_no_dash(path, msg);
    lemma_path_colon_first(path, msg);
    assert(t.take(n) =~= path);
    lemma_no_white(path);
    assert(is_boilerplate(path));
    assert(t.skip(n + 2) =~= msg);
    assert(strip_step(rest) == Some(msg));
    crate::text::lemma_trim_start_at(msg, 0);
    assert(msg.skip(0) =~= msg);
    lemma_plain_text_not_cut(msg);
    assert(strip_prefixes(msg, 2) == trim_start(msg));
}

/// The message shown for a raw log line: the text after the log level, with up to
/// three tag or boilerplate prefixes removed and trimmed; the whole trimmed line
/// where it has no level or what is left is noise.
pub open spec fn extracted_message(raw: Seq<u8>) -> Seq<char> {
    let text = trim(ansi_stripped(raw));
    match level_split(text) {
        None => text,
        Some((_, rest)) => {
            let message = trim(strip_prefixes(rest, 3));
            if is_noise(message) {
                text
            } else {
                message
            }
        },
    }
}

fn strip_step_chars(rest: &Vec<char>) -> (r: Option<Vec<char>>)
    ensures
        r matches Some(v) ==> strip_step(rest@) == Some(v@),
        r is None ==> strip_step(rest@) is None,
{
    let t = trim_start_chars(rest);
    let bracket_pat = vec![']', ' '];
    let dash_pat = vec![' ', '-', ' '];
    let colon_pat = vec![':', ' '];
    assert(bracket_pat@ =~= seq![']', ' ']);
    assert(dash_pat@ =~= seq![' ', '-', ' ']);
    assert(colon_pat@ =~= seq![':', ' ']);
    let bracket = find_chars(&t, &bracket_pat, 0);
    proof {
        lemma_find_from_some(t@, bracket_pat@, 0);
    }
    if let Some(end) = bracket {
        if t.len() > 0 && t[0] == '[' && end > 1 {
            return Some(sub_chars(&t, end + 2, t.len()));
        }
    }
    let dash = find_chars(&t, &dash_pat, 0);
    proof {
        lemma_find_from_some(t@, dash_pat@, 0);
    }
    if let Some(pos) = dash {
        let prefix = sub_chars(&t, 0, pos);
        assert(prefix@ =~= t@.take(pos as int));
        if boilerplate_chars(&prefix) {
            return Some(sub_chars(&t, pos + 3, t.len()));
        }
    }
    let colon = find_chars(&t, &colon_pat, 0);
    proof {
        lemma_find_from_some(t@, colon_pat@, 0);
    }
    if let Some(pos) = colon {
        let prefix = sub_chars(&t, 0, pos);
        assert(prefix@ =~= t@.take(pos as int));
        if boilerplate_chars(&prefix) {
            return Some(sub_chars(&t, pos + 2, t.len()));
        }
    }
    None
}

/// The message of a raw daemon log line, without colours, level, timestamps and
/// module prefixes.
pub fn extract_log_message(raw: &str) -> (r: String)
    ensures
        r@ == extracted_message(raw.spec_bytes()),
{
    let stripped = strip_ansi(raw);
    let text = trim_chars(&chars_of(stripped.as_str()));
    let bounds = level_bounds(&text);
    match bounds {
        None => string_of_all(&text),
        Some((_i, e)) => {
            let mut rest = sub_chars(&text, e, text.len());
            assert(rest@ =~= text@.skip(e as int));
            let ghost rest0 = rest@;
            let mut n: usize = 3;
            let mut done = false;
            while n > 0 && !done
                invariant
                    n <= 3,
                    !done ==> strip_prefixes(rest0, 3) == strip_prefixes(rest@, n as nat),
                    done ==> strip_prefixes(rest0, 3) == rest@,
                decreases n, (if done { 0int } else { 1int }),
            {
                match strip_step_chars(&rest) {
                    Some(next) => {
                        rest = next;
                        n = n - 1;
                    },
                    None => {
                        rest = trim_start_chars(&rest);
                        done = true;
                    },
                }
            }
            let message = trim_chars(&rest);
            if noise_chars(&message) {
                string_of_all(&text)
            } else {
                string_of_all(&message)
            }
        },
    }
}


// ---------------------------------------------------------------------------
// Runtime lock owner
// ---------------------------------------------------------------------------

/// The owner recorded in the daemon's runtime lock: an owner token and a process id.
pub struct LockOwner {
    pub token: Option<String>,
    pub pid: Option<u32>,
}

pub open spec fn pid_separator() -> Seq<char> {
    seq!['|', 'p', 'i', 'd', ':']
}

pub open spec fn pid_prefix() -> Seq<char> {
    seq!['p', 'i', 'd', ':']
}

/// Token of a lock owner value: the text before the first `|pid:`; none for a
/// value of the form `pid:<n>`; otherwise the whole value.
pub open spec fn owner_token(owner: Seq<char>) -> Option<Seq<char>> {
    match find(owner, pid_separator()) {
        Some(p) => Some(owner.take(p)),
        None => if owner.len() >= 4 && owner.take(4) == pid_prefix() {
            None
        } else {
            Some(owner)
        },
    }
}

/// Process id of a lock owner value: the trimmed number after the first `|pid:`,
/// or after a leading `pid:`.
pub open spec fn owner_pid(owner: Seq<char>) -> Option<u32> {
    match find(owner, pid_separator()) {
        Some(p) => parse_u32(trim(owner.skip(p + 5))),
        None => if owner.len() >= 4 && owner.take(4) == pid_prefix() {
            parse_u32(trim(owner.skip(4)))
        } else {
            None
        },
    }
}

/// Parses the value stored in the daemon runtime lock.
pub fn parse_lock_owner(owner: &str) -> (r: LockOwner)
    ensures
        r.token matches Some(t) ==> owner_token(owner@) == Some(t@),
        r.token is None ==> owner_token(owner@) is None,
        r.pid == owner_pid(owner@),
{
    let v = chars_of(owner);
    let sep = vec!['|', 'p', 'i', 'd', ':'];
    assert(sep@ =~= pid_separator());
    match find_chars(&v, &sep, 0) {
        Some(p) => {
            proof {
                lemma_find_from_some(v@, sep@, 0);
            }
            let token = string_of(&v, 0, p);
            let tail = sub_chars(&v, p + 5, v.len());
            let t = trim_chars(&tail);
            assert(t@ =~= trim(v@.skip(p + 5))) by {
                assert(tail@ =~= v@.skip(p + 5));
            }
            assert(token@ =~= v@.take(p as int));
            let pid = parse_u32_chars(&t, 0, t.len());
            assert(t@.subrange(0, t.len() as int) =~= t@);
            LockOwner { token: Some(token), pid }
        },
        None => {
            let pre = vec!['p', 'i', 'd', ':'];
            assert(pre@ =~= pid_prefix());
            if v.len() >= 4 && v[0] == 'p' && v[1] == 'i' && v[2] == 'd' && v[3] == ':' {
                assert(v@.take(4) =~= pid_prefix());
                let tail = sub_chars(&v, 4, v.len());
                assert(tail@ =~= v@.skip(4));
                let t = trim_chars(&tail);
                let pid = parse_u32_chars(&t, 0, t.len());
                assert(t@.subrange(0, t.len() as int) =~= t@);
                LockOwner { token: None, pid }
            } else {
                proof {
                    if v.len() >= 4 && v@.take(4) == pid_prefix() {
                        assert(v@.take(4)[0] == 'p');
                        assert(v@.take(4)[1] == 'i');
                        assert(v@.take(4)[2] == 'd');
                        assert(v@.take(4)[3] == ':');
                    }
                }
                LockOwner { token: Some(string_of_all(&v)), pid: None }
            }
        },
    }
}

/// Whether the lock owner value names the GUI instance `owner_id`: its token
/// equals `owner_id`, or, where it has no token, the whole value does.
pub open spec fn owner_matches(owner: Seq<char>, owner_id: Seq<char>) -> bool {
    match owner_token(owner) {
        Some(t) => t == owner_id,
        None => owner == owner_id,
    }
}

/// The lock value of a daemon started with owner id `owner_id` and process id `pid`.
pub open spec fn lock_value_for(owner_id: Seq<char>, pid: u32) -> Seq<char> {
    owner_id + pid_separator() + dec_str(pid as nat)
}

/// A daemon started by a GUI instance whose owner id holds no `|` writes the lock
/// value `<owner id>|pid:<pid>`; that GUI reads it back as its own daemon
/// (status Running, releasable) with that process id.
pub proof fn lemma_own_lock_value_recognised(owner_id: Seq<char>, pid: u32)
    requires
        forall|i: int| 0 <= i < owner_id.len() ==> owner_id[i] != '|',
    ensures
        owner_token(lock_value_for(owner_id, pid)) == Some(owner_id),
        owner_pid(lock_value_for(owner_id, pid)) == Some(pid),
        owner_matches(lock_value_for(owner_id, pid), owner_id),
        owned_by(lock_value_for(owner_id, pid), owner_id),
        status_of(Some(lock_value_for(owner_id, pid)), owner_id) == DaemonStatus::Running,
{
    let v = lock_value_for(owner_id, pid);
    let n = owner_id.len() as int;
    lemma_separator_found(owner_id, dec_str(pid as nat));
    assert(v.take(n) =~= owner_id);
    assert(v.skip(n + 5) =~= dec_str(pid as nat));
    crate::text::lemma_parse_dec_str(pid);
}

/// In `<text without |>|pid:<rest>` the first `|pid:` follows the text.
proof fn lemma_separator_found(owner_id: Seq<char>, rest: Seq<char>)
    requires
        forall|i: int| 0 <= i < owner_id.len() ==> owner_id[i] != '|',
    ensures
        find(owner_id + pid_separator() + rest, pid_separator()) == Some(owner_id.len() as int),
{
    let v = owner_id + pid_separator() + rest;
    let p = pid_separator();
    let n = owner_id.len() as int;
    assert(v.subrange(n, n + 5) =~= p);
    lemma_find_from_some(v, p, 0);
    assert forall|m: int| 0 <= m < n implies !crate::text::occurs_at(v, p, m) by {
        if crate::text::occurs_at(v, p, m) {
            assert(v.subrange(m, m + 5)[0] == p[0]);
            assert(v[m] == owner_id[m]);
        }
    }
    assert(crate::text::occurs_at(v, p, n));
    match find(v, p) {
        Some(k) => {
            if k < n {
                assert(!crate::text::occurs_at(v, p, k));
            } else if k > n {
                assert(!crate::text::occurs_at(v, p, n));
            }
        },
        None => {
            assert(!crate::text::occurs_at(v, p, n));
        },
    }
}

/// Owner ids built by `owner_id_for` hold no `|`.
pub proof fn lemma_owner_id_has_no_bar(pid: u32, ts: i64)
    ensures
        forall|i: int| 0 <= i < owner_id_text(pid, ts).len() ==> owner_id_text(pid, ts)[i] != '|',
{
    let a = dec_str(pid as nat);
    crate::text::lemma_dec_str_digits(pid as nat);
    let b = signed_dec_str(ts as int);
    if ts < 0 {
        crate::text::lemma_dec_str_digits((-ts) as nat);
    } else {
        crate::text::lemma_dec_str_digits(ts as nat);
    }
    reveal_strlit("gui:");
    let t = owner_id_text(pid, ts);
    assert forall|i: int| 0 <= i < t.len() implies t[i] != '|' by {
        if i < 4 {
        } else if i < 4 + a.len() {
            assert(t[i] == a[i - 4]);
            assert(crate::text::is_digit(a[i - 4]));
        } else if i == 4 + a.len() {
        } else {
            let j = i - 5 - a.len();
            assert(t[i] == b[j]);
            if ts < 0 {
                if j > 0 {
                    assert(b[j] == dec_str((-ts) as nat)[j - 1]);
                    assert(crate::text::is_digit(dec_str((-ts) as nat)[j - 1]));
                }
            } else {
                assert(crate::text::is_digit(dec_str(ts as nat)[j]));
            }
        }
    }
}

/// Whether the daemon holding the runtime lock was started by this GUI instance.
pub fn lock_owner_matches_tui(owner: &str, owner_id: &str) -> (r: bool)
    ensures
        r == owner_matches(owner@, owner_id@),
{
    let parsed = parse_lock_owner(owner);
    match parsed.token {
        Some(token) => str_eq(token.as_str(), owner_id),
        None => str_eq(owner, owner_id),
    }
}


// ---------------------------------------------------------------------------
// Daemon status
// ---------------------------------------------------------------------------

/// Where the daemon runs, as seen by this GUI instance.
#[derive(Debug, Clone, Copy, PartialEq, Eq, Structural)]
pub enum DaemonStatus {
    /// A daemon holds the lock but was not started by this GUI.
    Outside,
    /// The daemon started by this GUI holds the lock.
    Running,
    /// No daemon holds the lock.
    Stopped,
}

/// The status given the runtime lock's value (`None` when the lock is free or
/// cannot be read) and this GUI's owner id.
pub open spec fn status_of(lock_owner: Option<Seq<char>>, owner_id: Seq<char>) -> DaemonStatus {
    match lock_owner {
        Some(o) => if owner_matches(o, owner_id) {
            DaemonStatus::Running
        } else {
            DaemonStatus::Outside
        },
        None => DaemonStatus::Stopped,
    }
}

/// The daemon's status from the value of the runtime lock.
pub fn compute_status(lock_owner: Option<&str>, owner_id: &str) -> (r: DaemonStatus)
    ensures
        r == status_of(opt_str_view(lock_owner), owner_id@),
{
    match lock_owner {
        Some(owner) => if lock_owner_matches_tui(owner, owner_id) {
            DaemonStatus::Running
        } else {
            DaemonStatus::Outside
        },
        None => DaemonStatus::Stopped,
    }
}

/// The word shown for a status.
pub fn status_text(status: DaemonStatus) -> (r: &'static str)
    ensures
        r@ == match status {
            DaemonStatus::Outside => "outside"@,
            DaemonStatus::Running => "running"@,
            DaemonStatus::Stopped => "stopped"@,
        },
{
    match status {
        DaemonStatus::Outside => "outside",
        DaemonStatus::Running => "running",
        DaemonStatus::Stopped => "stopped",
    }
}

/// Whether the lock value names this GUI instance as its owner, for releasing it:
/// its token is `owner_id`, or the whole value is.
pub open spec fn owned_by(owner: Seq<char>, owner_id: Seq<char>) -> bool {
    owner_token(owner) == Some(owner_id) || owner == owner_id
}

/// Whether the runtime lock was taken by the daemon this GUI started.
pub fn lock_owned_by_gui(owner: &str, owner_id: &str) -> (r: bool)
    ensures
        r == owned_by(owner@, owner_id@),
{
    let parsed = parse_lock_owner(owner);
    let token_matches = match &parsed.token {
        Some(t) => str_eq(t.as_str(), owner_id),
        None => false,
    };
    token_matches || str_eq(owner, owner_id)
}

/// What cleaning up the runtime lock does: release the lock value (when this
/// GUI's daemon holds it) and, when asked to, terminate the process it names.
#[derive(Debug, Clone, PartialEq, Eq)]
pub struct CleanupPlan {
    /// The lock value to release, if the lock is this GUI's.
    pub release: Option<String>,
    /// The process to terminate first.
    pub kill: Option<u32>,
}

/// The cleanup of the runtime lock whose value is `lock_owner` (`None` when it is
/// free or cannot be read): only a lock owned by this GUI is touched; its
/// process is terminated only when `stop_pid` is asked for and the value names one.
pub fn cleanup_plan(lock_owner: Option<&str>, owner_id: &str, stop_pid: bool) -> (r: CleanupPlan)
    ensures
        match lock_owner {
            Some(o) if owned_by(o@, owner_id@) => {
                &&& opt_view(r.release) == Some(o@)
                &&& r.kill == (if stop_pid {
                    owner_pid(o@)
                } else {
                    None
                })
            },
            _ => r.release is None && r.kill is None,
        },
{
    match lock_owner {
        Some(o) => {
            if lock_owned_by_gui(o, owner_id) {
                let kill = if stop_pid {
                    parse_lock_owner(o).pid
                } else {
                    None
                };
                CleanupPlan { release: Some(String::from_str(o)), kill }
            } else {
                CleanupPlan { release: None, kill: None }
            }
        },
        None => CleanupPlan { release: None, kill: None },
    }
}

/// How a daemon started outside the GUI is stopped.
#[derive(Debug, Clone, PartialEq, Eq)]
pub enum OutsideStop {
    /// The lock is free: nothing to stop.
    NotRunning,
    /// The lock value holds no process id.
    NoPid,
    /// Terminate this process.
    Terminate(u32),
}

/// The plan for stopping a daemon started outside the GUI, from the lock value.
pub fn outside_stop_plan(lock_owner: Option<&str>) -> (r: OutsideStop)
    ensures
        lock_owner is None ==> r == OutsideStop::NotRunning,
        lock_owner is Some ==> match owner_pid(lock_owner->0@) {
            Some(pid) => r == OutsideStop::Terminate(pid),
            None => r == OutsideStop::NoPid,
        },
{
    match lock_owner {
        None => OutsideStop::NotRunning,
        Some(owner) => match parse_lock_owner(owner).pid {
            Some(pid) => OutsideStop::Terminate(pid),
            None => OutsideStop::NoPid,
        },
    }
}

// ---------------------------------------------------------------------------
// Log entries
// ---------------------------------------------------------------------------

/// Most log lines the panel keeps.
pub const MAX_LOG_LINES: usize = 2000;

/// The log after appending `entry`, keeping the last `MAX_LOG_LINES` lines.
pub open spec fn log_after_push(logs: Seq<String>, entry: String) -> Seq<String> {
    let l = logs.push(entry);
    if l.len() > MAX_LOG_LINES {
        l.skip(l.len() - MAX_LOG_LINES)
    } else {
        l
    }
}

/// The text of a log entry stamped `ts` for the raw line `line`: the time, a
/// space and the message of the line.
pub open spec fn log_entry_text(ts: Seq<char>, line: Seq<char>) -> Seq<char> {
    ts + seq![' '] + extracted_message(encode_utf8(line))
}

/// `after` is the log `before` with one more entry, stamped `ts`, for the raw
/// line `line`.
pub open spec fn log_gained(
    before: Seq<String>,
    after: Seq<String>,
    ts: Seq<char>,
    line: Seq<char>,
) -> bool {
    exists|e: String| after == #[trigger] log_after_push(before, e) && e@ == log_entry_text(ts, line)
}

/// A log entry stamped `ts` (the local time as `%Y-%m-%d %H:%M:%S`): the time, a
/// space and the message of the raw line.
pub fn format_log_entry(ts: &str, raw: &str) -> (r: String)
    ensures
        r@ == ts@ + seq![' '] + extracted_message(raw.spec_bytes()),
{
    let mut r = String::from_str(ts);
    push_char(&mut r, ' ');
    let msg = extract_log_message(raw);
    push_str(&mut r, msg.as_str());
    r
}

/// The owner id of a GUI instance: `gui:<pid>:<unix time>`.
pub open spec fn owner_id_text(pid: u32, ts: i64) -> Seq<char> {
    "gui:"@ + dec_str(pid as nat) + seq![':'] + signed_dec_str(ts as int)
}

/// Builds the owner id of a GUI instance.
pub fn owner_id_for(pid: u32, ts: i64) -> (r: String)
    ensures
        r@ == owner_id_text(pid, ts),
{
    let mut r = String::from_str("gui:");
    push_decimal(&mut r, pid as u64);
    push_char(&mut r, ':');
    push_signed_decimal(&mut r, ts);
    r
}

/// The state of the daemon panel.
pub struct DaemonView {
    pub logs: VecDeque<String>,
    pub owner_id: String,
    pub status: Option<DaemonStatus>,
    pub debug_enabled: bool,
    pub keep_running: bool,
    /// When the last automatic restart was tried, in milliseconds of a monotonic clock.
    pub last_restart_attempt_ms: Option<u64>,
}

/// Milliseconds between two automatic restarts of the daemon.
pub const RESTART_BACKOFF_MS: u64 = 5000;

impl DaemonView {
    /// An empty panel.
    pub fn new() -> (r: Self)
        ensures
            r.logs@.len() == 0,
            r.owner_id@.len() == 0,
            r.status is None,
            !r.debug_enabled,
            !r.keep_running,
            r.last_restart_attempt_ms is None,
    {
        DaemonView {
            logs: VecDeque::new(),
            owner_id: String::new(),
            status: None,
            debug_enabled: false,
            keep_running: false,
            last_restart_attempt_ms: None,
        }
    }

    /// Appends a finished entry to the log, dropping the oldest beyond `MAX_LOG_LINES`.
    pub fn push_log_entry(&mut self, entry: String)
        ensures
            final(self).logs@ == log_after_push(old(self).logs@, entry),
            final(self).logs@.len() <= MAX_LOG_LINES,
            final(self).owner_id == old(self).owner_id,
            final(self).keep_running == old(self).keep_running,
            final(self).debug_enabled == old(self).debug_enabled,
    {
        let ghost l = self.logs@.push(entry);
        self.logs.push_back(entry);
        while self.logs.len() > MAX_LOG_LINES
            invariant
                l.len() >= self.logs@.len(),
                self.logs@ == l.skip(l.len() - self.logs@.len()),
                l.len() > MAX_LOG_LINES ==> self.logs@.len() >= MAX_LOG_LINES,
                l.len() <= MAX_LOG_LINES ==> self.logs@.len() == l.len(),
                self.owner_id == old(self).owner_id,
                self.keep_running == old(self).keep_running,
                self.debug_enabled == old(self).debug_enabled,
                l == old(self).logs@.push(entry),
            decreases self.logs@.len(),
        {
            let ghost before = self.logs@;
            self.logs.pop_front();
            assert(self.logs@ =~= l.skip(l.len() - self.logs@.len()));
        }
        proof {
            if l.len() <= MAX_LOG_LINES {
                assert(l.skip(0) =~= l);
            }
        }
    }

    /// Appends a raw line to the log, stamped `ts` (the local time).
    pub fn push_log(&mut self, line: &str, ts: &str)
        ensures
            final(self).logs@.len() <= MAX_LOG_LINES,
            log_gained(old(self).logs@, final(self).logs@, ts@, line@),
            final(self).owner_id == old(self).owner_id,
            final(self).keep_running == old(self).keep_running,
            final(self).debug_enabled == old(self).debug_enabled,
    {
        let entry = format_log_entry(ts, line);
        let ghost e = entry;
        self.push_log_entry(entry);
        assert(self.logs@ == log_after_push(old(self).logs@, e));
        assert(line.spec_bytes() == encode_utf8(line@));
    }

    /// Gives the panel its owner id (`gui:<pid>:<ts>`, `ts` the Unix time in
    /// seconds) if it has none yet.
    pub fn ensure_owner_id(&mut self, pid: u32, ts: i64)
        ensures
            old(self).owner_id@.len() != 0 ==> final(self).owner_id == old(self).owner_id,
            old(self).owner_id@.len() == 0 ==> final(self).owner_id@ == owner_id_text(pid, ts),
            final(self).logs == old(self).logs,
            final(self).keep_running == old(self).keep_running,
            final(self).debug_enabled == old(self).debug_enabled,
    {
        if self.owner_id.as_str().is_empty() {
            self.owner_id = owner_id_for(pid, ts);
            assert(self.owner_id@ == owner_id_text(pid, ts));
        }
    }

    /// The log level the daemon is started with.
    pub fn loglevel(&self) -> (r: &'static str)
        ensures
            r@ == if self.debug_enabled {
                "DEBUG"@
            } else {
                "INFO"@
            },
    {
        if self.debug_enabled {
            "DEBUG"
        } else {
            "INFO"
        }
    }

    /// Whether the daemon is restarted at `now_ms`: it should keep running, has
    /// stopped, and no restart was tried in the last 5 seconds.
    pub fn restart_due(&self, status: DaemonStatus, now_ms: u64) -> (r: bool)
        ensures
            r == (self.keep_running && status == DaemonStatus::Stopped && match self.last_restart_attempt_ms {
                Some(last) => !(now_ms >= last && now_ms - last < RESTART_BACKOFF_MS),
                None => true,
            }),
    {
        if !self.keep_running || status != DaemonStatus::Stopped {
            return false;
        }
        match self.last_restart_attempt_ms {
            Some(last) => !(now_ms >= last && now_ms - last < RESTART_BACKOFF_MS),
            None => true,
        }
    }

    /// Records an automatic restart tried at `now_ms`.
    pub fn note_restart_attempt(&mut self, now_ms: u64)
        ensures
            final(self).last_restart_attempt_ms == Some(now_ms),
            final(self).keep_running == old(self).keep_running,
    {
        self.last_restart_attempt_ms = Some(now_ms);
    }

    /// After the daemon process was started: keep it running and log the start.
    /// The answer is `daemon running`.
    pub fn mark_started(&mut self, ts: &str) -> (r: String)
        ensures
            final(self).keep_running,
            r@ == "daemon running"@,
            final(self).logs@.len() <= MAX_LOG_LINES,
            log_gained(
                old(self).logs@,
                final(self).logs@,
                ts@,
                "daemon process started (loglevel="@ + (if old(self).debug_enabled {
                    "DEBUG"@
                } else {
                    "INFO"@
                }) + ")"@,
            ),
    {
        self.keep_running = true;
        let mut line = String::from_str("daemon process started (loglevel=");
        push_str(&mut line, self.loglevel());
        push_str(&mut line, ")");
        self.push_log(line.as_str(), ts);
        String::from_str("daemon running")
    }

    /// A stop was asked for: the daemon is no longer kept running.
    pub fn begin_stop(&mut self)
        ensures
            !final(self).keep_running,
            final(self).logs == old(self).logs,
    {
        self.keep_running = false;
    }

    /// The daemon started by the GUI was stopped: log it. The answer is `daemon stopped`.
    pub fn finish_stop(&mut self, ts: &str) -> (r: String)
        ensures
            r@ == "daemon stopped"@,
            final(self).keep_running == old(self).keep_running,
            log_gained(old(self).logs@, final(self).logs@, ts@, "daemon stop requested"@),
    {
        self.push_log("daemon stop requested", ts);
        String::from_str("daemon stopped")
    }

    /// The answer of an automatic start on GUI launch, given the answer of the
    /// start: a successful start keeps the daemon running and is reported as
    /// `daemon auto-started`; otherwise the start's answer is passed on.
    pub fn after_auto_start(&mut self, start_msg: String, ts: &str) -> (r: String)
        ensures
            start_msg@ == "daemon running"@ ==> r@ == "daemon auto-started"@
                && final(self).keep_running && log_gained(
                old(self).logs@,
                final(self).logs@,
                ts@,
                "daemon auto-started by GUI"@,
            ),
            start_msg@ != "daemon running"@ ==> r == start_msg && final(self).keep_running == old(
                self,
            ).keep_running && final(self).logs == old(self).logs,
    {
        if str_eq(start_msg.as_str(), "daemon running") {
            self.keep_running = true;
            self.push_log("daemon auto-started by GUI", ts);
            String::from_str("daemon auto-started")
        } else {
            start_msg
        }
    }

    /// The answer of stopping a daemon started outside the GUI, given the plan,
    /// the lock value and whether terminating the process succeeded. A stopped
    /// process is logged, stamped `ts`.
    pub fn finish_outside_stop(&mut self, plan: &OutsideStop, owner: &str, stopped: bool, ts: &str) -> (r:
        String)
        ensures
            match *plan {
                OutsideStop::NotRunning => r@ == "daemon is not running"@ && final(self).logs
                    == old(self).logs,
                OutsideStop::NoPid => r@ == "cannot stop outside daemon (owner="@ + owner@ + ")"@
                    && final(self).logs == old(self).logs,
                OutsideStop::Terminate(pid) => if stopped {
                    r@ == "outside daemon stopped"@ && log_gained(
                        old(self).logs@,
                        final(self).logs@,
                        ts@,
                        "stopped outside daemon pid="@ + dec_str(pid as nat),
                    )
                } else {
                    r@ == "failed to stop outside daemon pid="@ + dec_str(pid as nat)
                        && final(self).logs == old(self).logs
                },
            },
            final(self).keep_running == old(self).keep_running,
            final(self).owner_id == old(self).owner_id,
    {
        match plan {
            OutsideStop::NotRunning => String::from_str("daemon is not running"),
            OutsideStop::NoPid => {
                let mut r = String::from_str("cannot stop outside daemon (owner=");
                push_str(&mut r, owner);
                push_str(&mut r, ")");
                r
            },
            OutsideStop::Terminate(pid) => {
                if stopped {
                    let mut line = String::from_str("stopped outside daemon pid=");
                    push_decimal(&mut line, *pid as u64);
                    self.push_log(line.as_str(), ts);
                    String::from_str("outside daemon stopped")
                } else {
                    let mut r = String::from_str("failed to stop outside daemon pid=");
                    push_decimal(&mut r, *pid as u64);
                    r
                }
            },
        }
    }
}

/// How the daemon is started from the GUI.
#[derive(Debug, Clone)]
pub enum StartPlan {
    /// The daemon this GUI started already holds the lock: `daemon already running`.
    AlreadyRunning,
    /// Run this program again with `args`, the environment variable `owner_var`
    /// set to `owner_id`, no standard input, and standard output and error read
    /// line by line into the log.
    Spawn { args: Vec<String>, owner_var: String, owner_id: String },
}

/// The arguments of a daemon process started with the log level `level`.
pub open spec fn daemon_args(level: Seq<char>) -> Seq<Seq<char>> {
    seq!["--daemon"@, "--loglevel"@, level]
}

/// Decides how to start the daemon for a status, the DEBUG toggle and this GUI's
/// owner id.
pub fn start_plan(status: DaemonStatus, debug: bool, owner_id: &str) -> (r: StartPlan)
    ensures
        status == DaemonStatus::Running ==> r is AlreadyRunning,
        status != DaemonStatus::Running ==> match r {
            StartPlan::Spawn { args, owner_var, owner_id: o } => {
                &&& args@.map_values(|a: String| a@) == daemon_args(
                    if debug {
                        "DEBUG"@
                    } else {
                        "INFO"@
                    },
                )
                &&& owner_var@ == "LAZYTIME_DAEMON_OWNER"@
                &&& o@ == owner_id@
            },
            _ => false,
        },
{
    if status == DaemonStatus::Running {
        return StartPlan::AlreadyRunning;
    }
    let level = if debug {
        "DEBUG"
    } else {
        "INFO"
    };
    let mut args: Vec<String> = Vec::new();
    args.push(String::from_str("--daemon"));
    args.push(String::from_str("--loglevel"));
    args.push(String::from_str(level));
    let ghost lv = if debug {
        "DEBUG"@
    } else {
        "INFO"@
    };
    assert(args@.map_values(|a: String| a@) =~= daemon_args(lv));
    StartPlan::Spawn {
        args,
        owner_var: String::from_str("LAZYTIME_DAEMON_OWNER"),
        owner_id: String::from_str(owner_id),
    }
}

/// The answer when starting the daemon failed: `failed to locate executable: <err>`
/// when this program could not be found, else `failed to start daemon: <err>`.
pub fn start_failed_message(locating: bool, err: &str) -> (r: String)
    ensures
        r@ == (if locating {
            "failed to locate executable: "@
        } else {
            "failed to start daemon: "@
        }) + err@,
{
    let mut r = if locating {
        String::from_str("failed to locate executable: ")
    } else {
        String::from_str("failed to start daemon: ")
    };
    push_str(&mut r, err);
    r
}

/// Whether the GUI starts the daemon on launch (or when onboarding has just been
/// finished): only after onboarding, and only when no daemon holds the lock.
pub fn auto_start_wanted(onboarding_done: bool, status: DaemonStatus) -> (r: bool)
    ensures
        r == (onboarding_done && status == DaemonStatus::Stopped),
{
    onboarding_done && status == DaemonStatus::Stopped
}

/// The answer of a restart, from the answers of its stop and its start:
/// `daemon restarted (<level>)` when the start succeeded, else both joined by `; `.
pub fn restart_message(stop_msg: &str, start_msg: &str, loglevel: &str) -> (r: String)
    ensures
        start_msg@ == "daemon running"@ ==> r@ == "daemon restarted ("@ + loglevel@ + ")"@,
        start_msg@ != "daemon running"@ ==> r@ == stop_msg@ + "; "@ + start_msg@,
{
    if str_eq(start_msg, "daemon running") {
        let mut r = String::from_str("daemon restarted (");
        push_str(&mut r, loglevel);
        push_str(&mut r, ")");
        r
    } else {
        let mut r = String::from_str(stop_msg);
        push_str(&mut r, "; ");
        push_str(&mut r, start_msg);
        r
    }
}

/// The buttons and toggles of the panel for a status: start only when stopped,
/// stop otherwise; changing the log level restarts a daemon that runs.
pub fn panel_controls(status: DaemonStatus, debug_changed: bool) -> (r: (bool, bool, bool))
    ensures
        r.0 == (status == DaemonStatus::Stopped),
        r.1 == (status != DaemonStatus::Stopped),
        r.2 == (debug_changed && status != DaemonStatus::Stopped),
{
    let can_start = status == DaemonStatus::Stopped;
    (can_start, !can_start, debug_changed && !can_start)
}

} // verus!
