//! A desktop game-launcher library: a persisted configuration of registered
//! game directories, a JSON codec for that configuration with a proved
//! round trip, the setup-flow state machine, and the view models that the
//! library screen renders.

pub mod config;
pub mod codec;
pub mod error;
pub mod game;
pub mod json;
pub mod laws;
pub mod library;
pub mod setup;
pub mod state;

pub use config::Config;
pub use config::ConfigView;
pub use config::DisplaySettings;
pub use config::GameDirectory;
pub use config::GameDirectoryView;
pub use config::Launcher;
pub use config::Size;
pub use config::Theme;
pub use config::WindowPosition;
pub use config::default_config;
pub use config::spec_theme;
pub use error::LoadoutError;
pub use error::spec_message;
pub use game::Artwork;
pub use game::ArtworkView;
pub use game::Game;
pub use game::GameCard;
pub use game::GameCardView;
pub use game::GameView;
pub use game::LaunchCommand;
pub use game::spec_card;
pub use json::config_json;
pub use json::parse_config_doc;
pub use laws::config_round_trip;
pub use library::LibraryPage;
pub use library::LibraryView;
pub use library::grid_rows_ok;
pub use setup::DirectorySelection;
pub use setup::SetupPage;
pub use setup::SetupPageEvent;
pub use state::Action;
pub use state::AppView;
pub use state::Effect;
pub use state::Loadout;
pub use state::Message;
pub use state::Page;
pub use state::new_directory_view;
