//! The application root: which page is showing, and the update step that
//! dispatches a message to the next state and the effect to perform.

use vstd::prelude::*;

use crate::config::{Config, GameDirectory, GameDirectoryView, Launcher};
use crate::error::LoadoutError;
use crate::setup::{DirectorySelection, SetupPage};

verus! {

/// The pages the application can show.
#[derive(Debug, Clone)]
pub enum Page {
    Library,
    AddDirectory(SetupPage),
    Settings,
}

/// What the user asked the setup page to do.
#[derive(Debug, Clone)]
pub enum Action {
    SelectDirectory(DirectorySelection),
    Cancel,
}

/// A message dispatched by an interaction.
#[derive(Debug, Clone)]
pub enum Message {
    NavigateTo(Page),
    DirectoryAction(Action),
}

/// What the caller of [`Loadout::update`] must do after the step: nothing,
/// persist the configuration, or surface a warning.
#[derive(Debug, Clone)]
pub enum Effect {
    Nothing,
    SaveConfig,
    Warn(LoadoutError),
}

/// The application state: the loaded configuration and the current page.
#[derive(Debug, Clone)]
pub struct Loadout {
    pub config: Config,
    pub current_page: Page,
}

/// What the root view renders: the library header with its directory count,
/// the settings text, or the setup page.
#[derive(Debug, Clone)]
pub enum AppView {
    Library { directory_count: usize },
    Settings,
    Setup,
}

/// The directory entry that registering a validated path appends: a custom
/// launcher, no icon, and no discovered games yet.
pub open spec fn new_directory_view(path: Seq<char>) -> GameDirectoryView {
    GameDirectoryView {
        launcher: Launcher::Custom,
        path: path,
        icon: Seq::empty(),
        games: Seq::empty(),
    }
}

impl Loadout {
    /// Starts on the setup page when no directory is registered yet, and on
    /// the library otherwise.
    pub fn new(config: Config) -> (app: Self)
        ensures
            app.config == config,
            config@.directories.len() == 0 ==> (app.current_page matches Page::AddDirectory(p)
                && p@.len() == 0),
            config@.directories.len() > 0 ==> app.current_page matches Page::Library,
    {
        let current_page = if config.directories.is_empty() {
            Page::AddDirectory(SetupPage::new())
        } else {
            Page::Library
        };
        Self { config, current_page }
    }

    /// One step of the message dispatch loop. Navigation swaps the page.
    /// On the setup page, a validated non-empty selection appends the new
    /// directory, moves to the library and asks for the configuration to be
    /// saved; every other outcome leaves the configuration unchanged, and a
    /// failed selection surfaces its error as a warning. Cancel returns to
    /// the library only when a directory is already registered.
    pub fn update(&mut self, message: Message) -> (effect: Effect)
        ensures
            (match message {
                Message::NavigateTo(page) => final(self).current_page == page && final(self).config@ == old(self).config@ && (effect matches Effect::Nothing),
                Message::DirectoryAction(action) => match old(self).current_page {
                    Page::AddDirectory(p0) => match action {
                        Action::Cancel => final(self).config@ == old(self).config@ && (
                        effect matches Effect::Nothing) && (old(self).config@.directories.len() > 0
                            ==> (final(self).current_page matches Page::Library)) && (old(self).config@.directories.len() == 0 ==> final(self).current_page == old(self).current_page),
                        Action::SelectDirectory(selection) => match selection {
                            DirectorySelection::NoSelection => final(self).config@ == old(self).config@ && (final(self).current_page matches Page::AddDirectory(p1)
                                && p1@ == p0@) && (effect matches Effect::Warn(
                                LoadoutError::NoDirectorySelected,
                            )),
                            DirectorySelection::Invalid(bad) => final(self).config@ == old(self).config@ && (final(self).current_page matches Page::AddDirectory(p1)
                                && p1@ == p0@) && (effect matches Effect::Warn(
                                LoadoutError::InvalidDirectory(q),
                            ) && q@ == bad@),
                            DirectorySelection::Selected(path) => if path@.len() > 0 {
                                final(self).config@.directories == old(self).config@.directories.push(new_directory_view(path@)) && final(self).config@.display == old(self).config@.display && final(self).config@.theme == old(self).config@.theme && final(self).config@.run_on_startup == old(self).config@.run_on_startup && (
                                final(self).current_page matches Page::Library) && (
                                effect matches Effect::SaveConfig)
                            } else {
                                final(self).config@ == old(self).config@ && (final(self).current_page matches Page::AddDirectory(p1) && p1@ == path@) && (
                                effect matches Effect::Nothing)
                            },
                        },
                    },
                    _ => final(self).config@ == old(self).config@ && final(self).current_page
                        == old(self).current_page && (effect matches Effect::Nothing),
                },
            }),
    {
        match message {
            Message::NavigateTo(page) => {
                self.current_page = page;
                Effect::Nothing
            },
            Message::DirectoryAction(action) => {
                let on_setup_path: Option<String> = match &self.current_page {
                    Page::AddDirectory(page) => Some(page.directory_path.clone()),
                    _ => None,
                };
                match on_setup_path {
                    None => Effect::Nothing,
                    Some(path0) => {
                        let mut page = SetupPage { directory_path: path0 };
                        match action {
                            Action::SelectDirectory(selection) => {
                                match page.select_directory(selection) {
                                    Ok(_) => {
                                        if !page.directory_path.as_str().is_empty() {
                                            let new_dir = GameDirectory {
                                                launcher: Launcher::Custom,
                                                path: page.directory_path.clone(),
                                                icon: String::new(),
                                                games: Vec::new(),
                                            };
                                            let ghost old_dirs = self.config@.directories;
                                            proof {
                                                assert(new_dir@ =~~= new_directory_view(
                                                    page.directory_path@,
                                                ));
                                            }
                                            self.config.directories.push(new_dir);
                                            proof {
                                                assert(self.config@.directories =~= old_dirs.push(
                                                    new_dir@,
                                                ));
                                            }
                                            self.current_page = Page::Library;
                                            Effect::SaveConfig
                                        } else {
                                            self.current_page = Page::AddDirectory(page);
                                            Effect::Nothing
                                        }
                                    },
                                    Err(e) => {
                                        self.current_page = Page::AddDirectory(page);
                                        Effect::Warn(e)
                                    },
                                }
                            },
                            Action::Cancel => {
                                if !self.config.directories.is_empty() {
                                    self.current_page = Page::Library;
                                }
                                Effect::Nothing
                            },
                        }
                    },
                }
            },
        }
    }

    /// The view model of the current page.
    pub fn view(&self) -> (v: AppView)
        ensures
            self.current_page matches Page::Library ==> v matches AppView::Library {
                directory_count,
            } && directory_count == self.config@.directories.len(),
            self.current_page matches Page::Settings ==> v matches AppView::Settings,
            self.current_page matches Page::AddDirectory(_) ==> v matches AppView::Setup,
    {
        match &self.current_page {
            Page::Library => AppView::Library { directory_count: self.config.directories.len() },
            Page::Settings => AppView::Settings,
            Page::AddDirectory(_) => AppView::Setup,
        }
    }
}

} // verus!
