//! The library's error type.

use vstd::prelude::*;
use vstd::string::StringExecFns;

verus! {

/// Everything that can go wrong while loading, saving or registering game
/// directories. Errors that wrap a file-system failure carry the failure's
/// own text in `source`.
#[derive(Debug, Clone)]
pub enum LoadoutError {
    ConfigDirNotFound,
    ConfigReadError { path: String, source: String },
    ConfigParseError,
    ConfigWriteError { path: String, source: String },
    ConfigDirCreateError { path: String, source: String },
    NoDirectorySelected,
    InvalidDirectory(String),
    GameLaunchError { path: String, source: String },
}

/// The text [`LoadoutError::message`] renders for each error.
pub open spec fn spec_message(e: LoadoutError) -> Seq<char> {
    match e {
        LoadoutError::ConfigDirNotFound => "Could not find config directory"@,
        LoadoutError::ConfigReadError { path, source } => "Failed to read config file at "@
            + path@ + ": "@ + source@,
        LoadoutError::ConfigParseError => "Failed to parse config file"@,
        LoadoutError::ConfigWriteError { path, source } => "Failed to write config file at "@
            + path@ + ": "@ + source@,
        LoadoutError::ConfigDirCreateError { path, source } => (
        "Failed to create config directory at "@ + path@ + ": "@ + source@),
        LoadoutError::NoDirectorySelected => "No directory selected"@,
        LoadoutError::InvalidDirectory(path) => "Invalid directory path: "@ + path@,
        LoadoutError::GameLaunchError { path, source } => "Failed to launch game at "@ + path@
            + ": "@ + source@,
    }
}

impl LoadoutError {
    /// A human-readable description of the error.
    pub fn message(&self) -> (m: String)
        ensures
            m@ == spec_message(*self),
    {
        match self {
            LoadoutError::ConfigDirNotFound => "Could not find config directory".to_owned(),
            LoadoutError::ConfigReadError { path, source } => {
                let m = "Failed to read config file at ".to_owned().concat(path.as_str()).concat(
                    ": ",
                ).concat(source.as_str());
                proof {
                    assert(m@ =~= spec_message(*self));
                }
                m
            },
            LoadoutError::ConfigParseError => "Failed to parse config file".to_owned(),
            LoadoutError::ConfigWriteError { path, source } => {
                let m = "Failed to write config file at ".to_owned().concat(path.as_str()).concat(
                    ": ",
                ).concat(source.as_str());
                proof {
                    assert(m@ =~= spec_message(*self));
                }
                m
            },
            LoadoutError::ConfigDirCreateError { path, source } => {
                let m = "Failed to create config directory at ".to_owned().concat(
                    path.as_str(),
                ).concat(": ").concat(source.as_str());
                proof {
                    assert(m@ =~= spec_message(*self));
                }
                m
            },
            LoadoutError::NoDirectorySelected => "No directory selected".to_owned(),
            LoadoutError::InvalidDirectory(path) => {
                let m = "Invalid directory path: ".to_owned().concat(path.as_str());
                proof {
                    assert(m@ =~= spec_message(*self));
                }
                m
            },
            LoadoutError::GameLaunchError { path, source } => {
                let m = "Failed to launch game at ".to_owned().concat(path.as_str()).concat(
                    ": ",
                ).concat(source.as_str());
                proof {
                    assert(m@ =~= spec_message(*self));
                }
                m
            },
        }
    }
}

} // verus!
