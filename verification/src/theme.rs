//! Light and dark appearance: which one a theme mode asks for.

use vstd::prelude::*;

verus! {

/// The appearance the user picked: follow the system, or always dark or
/// light.
#[derive(Clone, Copy, Debug, PartialEq, Eq, Structural)]
pub enum ThemeMode {
    System,
    Dark,
    Light,
}

impl Default for ThemeMode {
    fn default() -> (r: ThemeMode)
        ensures
            r == ThemeMode::System,
    {
        ThemeMode::System
    }
}

/// Whether windows are dark, given the value of the system setting
/// `AppsUseLightTheme` where it could be read (0 asks for dark): dark
/// where it could not.
pub fn light_theme_value_is_dark(value: Option<u32>) -> (r: bool)
    ensures
        r == match value {
            Some(v) => v == 0,
            None => true,
        },
{
    match value {
        Some(v) => v == 0,
        None => true,
    }
}

/// Whether the system asks for dark windows, where it has no setting to
/// read: dark.
pub fn detect_system_is_dark() -> (r: bool)
    ensures
        r,
{
    light_theme_value_is_dark(None)
}

impl ThemeMode {
    /// The mode the theme button switches to: the opposite of what is
    /// shown now.
    pub fn toggled(self, system_is_dark: bool) -> (r: ThemeMode)
        ensures
            r == match self {
                ThemeMode::Dark => ThemeMode::Light,
                ThemeMode::Light => ThemeMode::Dark,
                ThemeMode::System => if system_is_dark {
                    ThemeMode::Light
                } else {
                    ThemeMode::Dark
                },
            },
    {
        match self {
            ThemeMode::Dark => ThemeMode::Light,
            ThemeMode::Light => ThemeMode::Dark,
            ThemeMode::System => if system_is_dark {
                ThemeMode::Light
            } else {
                ThemeMode::Dark
            },
        }
    }

    /// Whether the dark palette is used: always for `Dark`, never for
    /// `Light`, and for `System` when the system is in dark mode.
    pub fn is_dark(self, system_is_dark: bool) -> (r: bool)
        ensures
            r == match self {
                ThemeMode::Dark => true,
                ThemeMode::Light => false,
                ThemeMode::System => system_is_dark,
            },
    {
        match self {
            ThemeMode::Dark => true,
            ThemeMode::Light => false,
            ThemeMode::System => system_is_dark,
        }
    }
}

} // verus!
