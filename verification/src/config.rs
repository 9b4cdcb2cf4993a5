//! The configuration data model: display settings, theme choice, and the
//! registered game directories.

use vstd::prelude::*;

use crate::game::{Game, GameView};

verus! {

/// The launcher a registered directory came from.
#[derive(Debug, Clone, Copy, PartialEq, Eq, Structural)]
pub enum Launcher {
    Steam,
    Epic,
    Custom,
}

/// One registered folder of installed games.
#[derive(Debug, Clone)]
pub struct GameDirectory {
    pub launcher: Launcher,
    pub path: String,
    pub icon: String,
    pub games: Vec<Game>,
}

/// The mathematical value of a [`GameDirectory`].
#[verifier::ext_equal]
pub struct GameDirectoryView {
    pub launcher: Launcher,
    pub path: Seq<char>,
    pub icon: Seq<char>,
    pub games: Seq<GameView>,
}

impl View for GameDirectory {
    type V = GameDirectoryView;

    open spec fn view(&self) -> GameDirectoryView {
        GameDirectoryView {
            launcher: self.launcher,
            path: self.path@,
            icon: self.icon@,
            games: self.games.deep_view(),
        }
    }
}

impl DeepView for GameDirectory {
    type V = GameDirectoryView;

    open spec fn deep_view(&self) -> GameDirectoryView {
        self.view()
    }
}

/// Window geometry and placement, part of the persisted configuration.
#[derive(Debug, Clone, Copy, PartialEq, Eq, Structural)]
pub struct DisplaySettings {
    pub width: u32,
    pub height: u32,
    pub centered: bool,
}

/// A window size, as the display settings describe it.
#[derive(Debug, Clone, Copy, PartialEq, Eq, Structural)]
pub struct Size {
    pub width: u32,
    pub height: u32,
}

/// Where the window is placed on startup.
#[derive(Debug, Clone, Copy, PartialEq, Eq, Structural)]
pub enum WindowPosition {
    Centered,
    Automatic,
}

impl Default for DisplaySettings {
    fn default() -> (d: Self)
        ensures
            d == (DisplaySettings { width: 1160, height: 768, centered: true }),
    {
        DisplaySettings { width: 1160, height: 768, centered: true }
    }
}

impl DisplaySettings {
    pub fn size(&self) -> (s: Size)
        ensures
            s.width == self.width,
            s.height == self.height,
    {
        Size { width: self.width, height: self.height }
    }

    pub fn position(&self) -> (p: WindowPosition)
        ensures
            p == (if self.centered {
                WindowPosition::Centered
            } else {
                WindowPosition::Automatic
            }),
    {
        if self.centered {
            WindowPosition::Centered
        } else {
            WindowPosition::Automatic
        }
    }
}

/// The available color themes, by name in the configuration file.
#[derive(Debug, Clone, Copy, PartialEq, Eq, Structural)]
pub enum Theme {
    CatppuccinMocha,
    CatppuccinFrappe,
    TokyoNight,
}

/// The single persisted configuration document.
#[derive(Debug, Clone)]
pub struct Config {
    pub display: DisplaySettings,
    pub theme: String,
    pub run_on_startup: bool,
    pub directories: Vec<GameDirectory>,
}

/// The mathematical value of a [`Config`].
#[verifier::ext_equal]
pub struct ConfigView {
    pub display: DisplaySettings,
    pub theme: Seq<char>,
    pub run_on_startup: bool,
    pub directories: Seq<GameDirectoryView>,
}

impl View for Config {
    type V = ConfigView;

    open spec fn view(&self) -> ConfigView {
        ConfigView {
            display: self.display,
            theme: self.theme@,
            run_on_startup: self.run_on_startup,
            directories: self.directories.deep_view(),
        }
    }
}

/// The configuration a fresh installation starts from, and the one a missing
/// or unreadable configuration file falls back to.
pub open spec fn default_config() -> ConfigView {
    ConfigView {
        display: DisplaySettings { width: 1160, height: 768, centered: true },
        theme: "CatppuccinMocha"@,
        run_on_startup: false,
        directories: Seq::empty(),
    }
}

impl Default for Config {
    fn default() -> (c: Self)
        ensures
            c@ == default_config(),
    {
        let c = Config {
            display: DisplaySettings::default(),
            theme: "CatppuccinMocha".to_owned(),
            run_on_startup: false,
            directories: Vec::new(),
        };
        proof {
            assert(c@ =~= default_config());
        }
        c
    }
}

/// Which [`Theme`] a theme name in the configuration selects; unknown names
/// select the default theme.
pub open spec fn spec_theme(name: Seq<char>) -> Theme {
    if name == "Light"@ {
        Theme::CatppuccinFrappe
    } else if name == "Dark"@ {
        Theme::TokyoNight
    } else {
        Theme::CatppuccinMocha
    }
}

impl Config {
    pub fn theme(&self) -> (t: Theme)
        ensures
            t == spec_theme(self@.theme),
    {
        if self.theme == "Light".to_owned() {
            Theme::CatppuccinFrappe
        } else if self.theme == "Dark".to_owned() {
            Theme::TokyoNight
        } else {
            Theme::CatppuccinMocha
        }
    }
}

} // verus!
