//! The settings of the user interface.
use vstd::prelude::*;

verus! {

/// The colours of the terminal that the interface is made for.
#[derive(Debug, Clone, Copy, PartialEq, Eq, Structural)]
pub enum Theme {
    Default,
    Light,
    Dark,
}

/// The name of a theme, as it is chosen in the menu.
pub open spec fn theme_name(theme: Theme) -> Seq<char> {
    match theme {
        Theme::Default => "default"@,
        Theme::Light => "light"@,
        Theme::Dark => "dark"@,
    }
}

impl Theme {
    /// The name of the theme.
    pub fn name(&self) -> (name: &'static str)
        ensures
            name@ == theme_name(*self),
    {
        match self {
            Theme::Default => "default",
            Theme::Light => "light",
            Theme::Dark => "dark",
        }
    }
}

/// The settings of the user interface.
#[derive(Debug)]
pub struct AppConfig {
    pub theme: Theme,
    pub output_style: String,
    pub tips: bool,
}

/// What the settings are.
pub struct ConfigView {
    pub theme: Theme,
    pub output_style: Seq<char>,
    pub tips: bool,
}

impl AppConfig {
    /// What the settings are.
    pub open spec fn view(&self) -> ConfigView {
        ConfigView { theme: self.theme, output_style: self.output_style@, tips: self.tips }
    }
}

} // verus!
