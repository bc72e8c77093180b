//! Command-line options.
use vstd::prelude::*;

verus! {

/// The command-line options.
pub struct Args {
    /// Open the interactive setup.
    pub setup: bool,
    /// Apply the named preset palette and exit.
    pub preset: Option<String>,
    /// List the preset palettes.
    pub list_presets: bool,
    /// Rebuild and reinstall from source.
    pub update: bool,
    /// Phone rendering mode: card, bios, companion or ascii.
    pub mode: Option<String>,
    /// Delete the configuration and run the setup again.
    pub reset: bool,
    /// Print only the art, without system information.
    pub just_ascii: bool,
}

} // verus!
