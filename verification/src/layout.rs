//! Spacing presets that position the logo and the panels.
use vstd::prelude::*;

verus! {

/// How the ASCII art and the panels are placed relative to each other.
#[derive(Debug, Clone, Copy, PartialEq, Eq, Structural)]
pub enum AppLayout {
    /// Logo centred, panels on the left and right.
    Centered,
    /// Smaller gap, tighter spacing.
    Compact,
    /// Panels far apart.
    Wide,
    /// No logo, panels only.
    Minimal,
    /// Like `Centered` with extra room around the logo.
    Balanced,
    /// Logo on the left, both panels stacked on the right.
    Mobile,
    /// No logo, panels in one column.
    MobileNarrow,
}

impl AppLayout {
    /// The layouts offered on desktop terminals.
    pub fn pc_variants() -> (r: &'static [AppLayout])
        ensures
            r@ == seq![
                AppLayout::Centered,
                AppLayout::Compact,
                AppLayout::Wide,
                AppLayout::Minimal,
                AppLayout::Balanced,
            ],
    {
        &[
            AppLayout::Centered,
            AppLayout::Compact,
            AppLayout::Wide,
            AppLayout::Minimal,
            AppLayout::Balanced,
        ]
    }

    /// The layouts offered on phones.
    pub fn mobile_variants() -> (r: &'static [AppLayout])
        ensures
            r@ == seq![AppLayout::Mobile, AppLayout::MobileNarrow],
    {
        &[AppLayout::Mobile, AppLayout::MobileNarrow]
    }

    /// Display name.
    pub fn name(&self) -> (r: &'static str)
        ensures
            r@ == match *self {
                AppLayout::Centered => "Centered"@,
                AppLayout::Compact => "Compact"@,
                AppLayout::Wide => "Wide"@,
                AppLayout::Minimal => "Minimal"@,
                AppLayout::Balanced => "Balanced"@,
                AppLayout::Mobile => "Mobile"@,
                AppLayout::MobileNarrow => "Mobile Narrow"@,
            },
    {
        match self {
            AppLayout::Centered => "Centered",
            AppLayout::Compact => "Compact",
            AppLayout::Wide => "Wide",
            AppLayout::Minimal => "Minimal",
            AppLayout::Balanced => "Balanced",
            AppLayout::Mobile => "Mobile",
            AppLayout::MobileNarrow => "Mobile Narrow",
        }
    }

    /// One-line description.
    pub fn description(&self) -> (r: &'static str)
        ensures
            r@ == match *self {
                AppLayout::Centered => "ASCII centered, left/right powerline panels"@,
                AppLayout::Compact => "Tight spacing for smaller terminals"@,
                AppLayout::Wide => "Extra breathing room around elements"@,
                AppLayout::Minimal => "Panels only — no ASCII art"@,
                AppLayout::Balanced => "Like Centered with extra logo spacing"@,
                AppLayout::Mobile => "ASCII left, panels stacked right — for phones"@,
                AppLayout::MobileNarrow => "Single column panels — for narrow phones"@,
            },
    {
        match self {
            AppLayout::Centered => "ASCII centered, left/right powerline panels",
            AppLayout::Compact => "Tight spacing for smaller terminals",
            AppLayout::Wide => "Extra breathing room around elements",
            AppLayout::Minimal => "Panels only — no ASCII art",
            AppLayout::Balanced => "Like Centered with extra logo spacing",
            AppLayout::Mobile => "ASCII left, panels stacked right — for phones",
            AppLayout::MobileNarrow => "Single column panels — for narrow phones",
        }
    }

    /// Columns between the logo edge and a panel.
    pub fn gap(&self) -> (r: usize)
        ensures
            r == match *self {
                AppLayout::Centered => 2usize,
                AppLayout::Compact => 1,
                AppLayout::Wide => 4,
                AppLayout::Minimal => 2,
                AppLayout::Balanced => 3,
                AppLayout::Mobile => 1,
                AppLayout::MobileNarrow => 1,
            },
    {
        match self {
            AppLayout::Centered => 2,
            AppLayout::Compact => 1,
            AppLayout::Wide => 4,
            AppLayout::Minimal => 2,
            AppLayout::Balanced => 3,
            AppLayout::Mobile => 1,
            AppLayout::MobileNarrow => 1,
        }
    }

    /// Padding left and right of the panels.
    pub fn padding(&self) -> (r: usize)
        ensures
            r == match *self {
                AppLayout::Centered => 3usize,
                AppLayout::Compact => 1,
                AppLayout::Wide => 4,
                AppLayout::Minimal => 2,
                AppLayout::Balanced => 3,
                AppLayout::Mobile => 1,
                AppLayout::MobileNarrow => 1,
            },
    {
        match self {
            AppLayout::Centered => 3,
            AppLayout::Compact => 1,
            AppLayout::Wide => 4,
            AppLayout::Minimal => 2,
            AppLayout::Balanced => 3,
            AppLayout::Mobile => 1,
            AppLayout::MobileNarrow => 1,
        }
    }

    /// Widest a single panel may be; only `Compact` forces truncation.
    pub fn max_panel_width(&self) -> (r: usize)
        ensures
            r == (if *self == AppLayout::Compact { 35usize } else { 999 }),
    {
        match self {
            AppLayout::Compact => 35,
            _ => 999,
        }
    }
}

} // verus!
