//! The user configuration: logo, title, separator, panel geometry and the
//! fields shown on each side.
use vstd::prelude::*;
use crate::theme::Color;

verus! {

/// One information field shown in a panel.
pub struct FieldDef {
    /// Key of the value in `SysInfo` (e.g. `"os"`).
    pub field: String,
    /// Icon glyph drawn before the label.
    pub icon: String,
    /// Short label.
    pub label: String,
    /// Whether the field is shown.
    pub enabled: bool,
}

impl FieldDef {
    /// A copy of this field definition.
    pub fn copy(&self) -> (r: FieldDef)
        ensures
            r.field@ == self.field@,
            r.icon@ == self.icon@,
            r.label@ == self.label@,
            r.enabled == self.enabled,
    {
        FieldDef {
            field: crate::text::to_string(self.field.as_str()),
            icon: crate::text::to_string(self.icon.as_str()),
            label: crate::text::to_string(self.label.as_str()),
            enabled: self.enabled,
        }
    }
}

/// Panel geometry and colours.
pub struct PanelConfig {
    pub left_pad: usize,
    pub right_pad: usize,
    pub gap: usize,
    pub max_shift: usize,
    pub max_val_width: usize,
    pub sep_color: String,
    pub val_color: String,
}

/// Which ASCII logo to show and how to colour it.
pub struct LogoConfig {
    /// Built-in logo key; empty to use `path`.
    pub key: String,
    /// Path of a logo file.
    pub path: String,
    /// Palette applied to the logo and the panels.
    pub colors: Vec<Color>,
    /// `"vertical"` colours by column, anything else by row.
    pub color_dir: String,
}

/// Title line (`{user}` and `{host}` are substituted).
pub struct TitleConfig {
    pub format: String,
    pub color: String,
}

/// Separator line under the title.
pub struct SeparatorConfig {
    pub char: String,
    pub length: usize,
    pub color: String,
}

/// Fields on the left and right of the logo.
pub struct DisplayConfig {
    pub left: Vec<FieldDef>,
    pub right: Vec<FieldDef>,
}

/// The whole configuration.
pub struct Config {
    pub logo: LogoConfig,
    pub title: TitleConfig,
    pub separator: SeparatorConfig,
    pub panel: PanelConfig,
    pub display: DisplayConfig,
}

} // verus!
