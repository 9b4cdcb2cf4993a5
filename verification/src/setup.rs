//! The one-screen setup flow: picking a game directory and validating it.

use vstd::prelude::*;

use crate::error::LoadoutError;

verus! {

/// The outcome of the folder picker together with the file-system checks on
/// what it returned: nothing was picked, the picked path does not exist or is
/// not a directory, or the picked path was validated and canonicalized.
#[derive(Debug, Clone)]
pub enum DirectorySelection {
    NoSelection,
    Invalid(String),
    Selected(String),
}

/// The wizard page that registers a new game directory.
#[derive(Debug)]
pub struct SetupPage {
    pub directory_path: String,
}

impl View for SetupPage {
    type V = Seq<char>;

    open spec fn view(&self) -> Seq<char> {
        self.directory_path@
    }
}

impl Clone for SetupPage {
    fn clone(&self) -> (c: Self)
        ensures
            c@ == self@,
    {
        SetupPage { directory_path: self.directory_path.clone() }
    }
}

/// What the setup page emits on interaction.
#[derive(Debug, Clone)]
pub enum SetupPageEvent {
    DirectorySelected(String),
}

impl SetupPage {
    pub fn new() -> (p: Self)
        ensures
            p@.len() == 0,
    {
        Self { directory_path: String::new() }
    }

    /// Registers the outcome of the folder picker. A validated selection
    /// becomes the page's directory path; no selection and an invalid
    /// selection each surface their own error and leave the page unchanged.
    pub fn select_directory(&mut self, selection: DirectorySelection) -> (r: Result<
        (),
        LoadoutError,
    >)
        ensures
            selection matches DirectorySelection::NoSelection ==> final(self)@ == old(self)@ && (
            r matches Err(LoadoutError::NoDirectorySelected)),
            selection matches DirectorySelection::Invalid(p) ==> final(self)@ == old(self)@ && (
            r matches Err(LoadoutError::InvalidDirectory(q)) && q@ == p@),
            selection matches DirectorySelection::Selected(p) ==> final(self)@ == p@ && (
            r matches Ok(_)),
    {
        match selection {
            DirectorySelection::NoSelection => Err(LoadoutError::NoDirectorySelected),
            DirectorySelection::Invalid(path) => Err(LoadoutError::InvalidDirectory(path)),
            DirectorySelection::Selected(path) => {
                self.directory_path = path;
                Ok(())
            },
        }
    }
}

impl Default for SetupPage {
    fn default() -> (p: Self)
        ensures
            p@.len() == 0,
    {
        Self::new()
    }
}

} // verus!
