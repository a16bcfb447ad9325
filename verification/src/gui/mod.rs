//! The graphical front end's own logic.
pub mod app;
pub mod color;
pub mod macos_status;
pub mod views;

use vstd::prelude::*;
use vstd::string::StringExecFns;

use crate::config::Config;

verus! {

/// Why the GUI could not be run.
#[derive(Debug, Clone, Copy, PartialEq, Eq, Structural)]
pub enum GuiError {
    /// This build carries no graphical toolkit (the `popup-ui` feature).
    PopupUiDisabled,
}

impl GuiError {
    /// The error's text.
    pub fn message(&self) -> (r: String)
        ensures
            r@ == "GUI support requires the popup-ui feature"@,
    {
        match self {
            GuiError::PopupUiDisabled => String::from_str("GUI support requires the popup-ui feature"),
        }
    }
}

/// Runs the GUI. This library carries no graphical toolkit, so the answer is
/// always that GUI support requires the `popup-ui` feature.
pub fn run(config: &Config, config_path: Option<&str>) -> (r: Result<(), GuiError>)
    ensures
        r == Err::<(), GuiError>(GuiError::PopupUiDisabled),
{
    Err(GuiError::PopupUiDisabled)
}

} // verus!
