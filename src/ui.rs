use vstd::prelude::*;

verus! {

/// A color with a consistent meaning across all themes.
#[derive(Clone, Copy, Debug, Default, PartialEq, Eq, Structural)]
pub enum Color {
    #[default]
    Default,
    Muted,
    Hidden,
    Accent,
    Error,
    Warning,
    Disabled,
    Selected,
}

/// The color of a tab's label: the default color when the tab is selected,
/// muted otherwise.
pub fn tab_label_color(selected: bool) -> (r: Color)
    ensures
        r == (if selected {
            Color::Default
        } else {
            Color::Muted
        }),
{
    if selected {
        Color::Default
    } else {
        Color::Muted
    }
}

/// A step of the spacing scale, relative to the UI font size.
#[derive(Clone, Copy, Debug, PartialEq, Eq, PartialOrd, Ord, Hash, Structural)]
pub enum Spacing {
    /// No spacing.
    Zero,
    /// One pixel at the base size.
    XXSmall,
    /// Two pixels at the base size.
    XSmall,
    /// Four pixels at the base size.
    Small,
    /// Six pixels at the base size.
    Medium,
    /// Eight pixels at the base size.
    Large,
    XLarge,
    XXLarge,
}

/// The size, in pixels, against which the spacing scale is given.
pub const BASE_REM_SIZE_IN_PX: u32 = 16;

pub open spec fn spacing_px(s: Spacing) -> u32 {
    match s {
        Spacing::Zero => 0,
        Spacing::XXSmall => 1,
        Spacing::XSmall => 2,
        Spacing::Small => 4,
        Spacing::Medium => 6,
        Spacing::Large => 8,
        Spacing::XLarge => 12,
        Spacing::XXLarge => 16,
    }
}

impl Spacing {
    /// The step in pixels when a rem is `BASE_REM_SIZE_IN_PX` pixels; its
    /// ratio to a rem is this over `BASE_REM_SIZE_IN_PX`.
    pub fn base_px(self) -> (r: u32)
        ensures
            r == spacing_px(self),
            r <= BASE_REM_SIZE_IN_PX,
    {
        match self {
            Spacing::Zero => 0,
            Spacing::XXSmall => 1,
            Spacing::XSmall => 2,
            Spacing::Small => 4,
            Spacing::Medium => 6,
            Spacing::Large => 8,
            Spacing::XLarge => 12,
            Spacing::XXLarge => 16,
        }
    }
}

} // verus!
