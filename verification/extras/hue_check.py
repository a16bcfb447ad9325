"""Evaluates, in single precision, the HSL to RGB conversion used for project
colours (saturation 0.6, lightness 0.5) for every integer hue, and compares the
result with the integer channel formula of `hue_rgb` in src/gui/color.rs.

Run with: python3 extras/hue_check.py
"""
import math
import struct


def f32(x):
    return struct.unpack("f", struct.pack("f", x))[0]


def round_half_away(v):
    return math.floor(v + 0.5) if v >= 0 else -math.floor(-v + 0.5)


def hsl_f32(h, s=f32(0.60), l=f32(0.50)):
    h = f32(h)
    c = f32(f32(1.0 - abs(f32(f32(2.0 * l) - 1.0))) * s)
    x = f32(c * f32(1.0 - abs(f32(math.fmod(f32(h / 60.0), 2.0) - 1.0))))
    m = f32(l - f32(c / 2.0))
    if 0 <= h < 60:
        rgb = (c, x, 0.0)
    elif 60 <= h < 120:
        rgb = (x, c, 0.0)
    elif 120 <= h < 180:
        rgb = (0.0, c, x)
    elif 180 <= h < 240:
        rgb = (0.0, x, c)
    elif 240 <= h < 300:
        rgb = (x, 0.0, c)
    else:
        rgb = (c, 0.0, x)

    def to_u8(v):
        t = min(max(f32(v + m), 0.0), 1.0)
        return int(round_half_away(f32(t * 255.0)))

    return tuple(to_u8(v) for v in rgb)


def hue_rgb(h):
    r = h % 120
    k = r if r <= 60 else 120 - r
    x = (5100 + 255 * k + 50) // 100
    if h in (110, 170, 190, 250, 350):
        x -= 1
    return [(204, x, 51), (x, 204, 51), (51, 204, x), (51, x, 204), (x, 51, 204), (204, 51, x)][h // 60]


def main():
    bad = [h for h in range(360) if hsl_f32(h) != hue_rgb(h)]
    print("hues that differ:", bad)
    assert not bad


if __name__ == "__main__":
    main()
