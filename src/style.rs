use vstd::prelude::*;

verus! {

/// Colour roles of the theme.
#[derive(Debug, Clone, Copy, PartialEq, Eq, Structural)]
pub enum WidgetColorRole {
    Primary,
    OnPrimary,
    PrimaryContainer,
    OnPrimaryContainer,
    Secondary,
    OnSecondary,
    SecondaryContainer,
    OnSecondaryContainer,
    Tertiary,
    OnTertiary,
    TertiaryContainer,
    OnTertiaryContainer,
    Error,
    OnError,
    ErrorContainer,
    OnErrorContainer,
    Surface,
    OnSurface,
    SurfaceContainerHighest,
    SurfaceContainerHigh,
    SurfaceContainer,
    SurfaceContainerLow,
    SurfaceContainerLowest,
    Outline,
    OutlineVariant,
}

impl WidgetColorRole {
    pub open spec fn spec_on_color(self) -> WidgetColorRole {
        match self {
            WidgetColorRole::Primary => WidgetColorRole::OnPrimary,
            WidgetColorRole::PrimaryContainer => WidgetColorRole::OnPrimaryContainer,
            WidgetColorRole::Secondary => WidgetColorRole::OnSecondary,
            WidgetColorRole::SecondaryContainer => WidgetColorRole::OnSecondaryContainer,
            WidgetColorRole::Tertiary => WidgetColorRole::OnTertiary,
            WidgetColorRole::TertiaryContainer => WidgetColorRole::OnTertiaryContainer,
            WidgetColorRole::Error => WidgetColorRole::OnError,
            WidgetColorRole::ErrorContainer => WidgetColorRole::OnErrorContainer,
            _ => WidgetColorRole::OnSurface,
        }
    }

    /// The role for content drawn on top of this one.
    pub fn on_color(&self) -> (r: WidgetColorRole)
        ensures
            r == self.spec_on_color(),
    {
        match self {
            WidgetColorRole::Primary => WidgetColorRole::OnPrimary,
            WidgetColorRole::PrimaryContainer => WidgetColorRole::OnPrimaryContainer,
            WidgetColorRole::Secondary => WidgetColorRole::OnSecondary,
            WidgetColorRole::SecondaryContainer => WidgetColorRole::OnSecondaryContainer,
            WidgetColorRole::Tertiary => WidgetColorRole::OnTertiary,
            WidgetColorRole::TertiaryContainer => WidgetColorRole::OnTertiaryContainer,
            WidgetColorRole::Error => WidgetColorRole::OnError,
            WidgetColorRole::ErrorContainer => WidgetColorRole::OnErrorContainer,
            _ => WidgetColorRole::OnSurface,
        }
    }
}

/// The role for text inside a widget filled with `fill`: on-surface without a fill.
pub fn text_color_role(fill: Option<WidgetColorRole>) -> (r: WidgetColorRole)
    ensures
        r == match fill {
            Some(role) => role.spec_on_color(),
            None => WidgetColorRole::OnSurface,
        },
{
    match fill {
        Some(role) => role.on_color(),
        None => WidgetColorRole::OnSurface,
    }
}

} // verus!
