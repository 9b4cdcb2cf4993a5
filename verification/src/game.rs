//! Games and the display card the library screen builds for each of them.

use vstd::prelude::*;

verus! {

/// One installed game inside a registered directory.
#[derive(Debug, Clone)]
pub struct Game {
    pub title: String,
    pub cover_art: String,
    pub directory: String,
}

/// The mathematical value of a [`Game`].
#[verifier::ext_equal]
pub struct GameView {
    pub title: Seq<char>,
    pub cover_art: Seq<char>,
    pub directory: Seq<char>,
}

impl View for Game {
    type V = GameView;

    open spec fn view(&self) -> GameView {
        GameView { title: self.title@, cover_art: self.cover_art@, directory: self.directory@ }
    }
}

impl DeepView for Game {
    type V = GameView;

    open spec fn deep_view(&self) -> GameView {
        self.view()
    }
}

/// What a game card shows where the cover art would stand: either a
/// placeholder, or the image at the given path.
#[derive(Debug, Clone)]
pub enum Artwork {
    Placeholder,
    Image(String),
}

/// The mathematical value of an [`Artwork`].
pub enum ArtworkView {
    Placeholder,
    Image(Seq<char>),
}

impl View for Artwork {
    type V = ArtworkView;

    open spec fn view(&self) -> ArtworkView {
        match self {
            Artwork::Placeholder => ArtworkView::Placeholder,
            Artwork::Image(path) => ArtworkView::Image(path@),
        }
    }
}

impl DeepView for Artwork {
    type V = ArtworkView;

    open spec fn deep_view(&self) -> ArtworkView {
        self.view()
    }
}

/// Everything the library screen shows on one game's card: the artwork, the
/// title under it, and the directory the launch button opens.
#[derive(Debug, Clone)]
pub struct GameCard {
    pub artwork: Artwork,
    pub title: String,
    pub launch_directory: String,
}

/// The mathematical value of a [`GameCard`].
#[verifier::ext_equal]
pub struct GameCardView {
    pub artwork: ArtworkView,
    pub title: Seq<char>,
    pub launch_directory: Seq<char>,
}

impl View for GameCard {
    type V = GameCardView;

    open spec fn view(&self) -> GameCardView {
        GameCardView {
            artwork: self.artwork@,
            title: self.title@,
            launch_directory: self.launch_directory@,
        }
    }
}

impl DeepView for GameCard {
    type V = GameCardView;

    open spec fn deep_view(&self) -> GameCardView {
        self.view()
    }
}

/// The card the library screen shows for a game: a placeholder stands in for
/// an empty cover-art path, and the card's launch button opens the game's
/// directory.
pub open spec fn spec_card(g: GameView) -> GameCardView {
    GameCardView {
        artwork: if g.cover_art.len() == 0 {
            ArtworkView::Placeholder
        } else {
            ArtworkView::Image(g.cover_art)
        },
        title: g.title,
        launch_directory: g.directory,
    }
}

/// The program and arguments that open a game's directory, on the host's
/// native desktop shell.
#[derive(Debug, Clone)]
pub struct LaunchCommand {
    pub program: String,
    pub args: Vec<String>,
}

impl Game {
    pub fn new(title: &str, cover_art: String, directory: String) -> (g: Self)
        ensures
            g@.title == title@,
            g@.cover_art == cover_art@,
            g@.directory == directory@,
    {
        let title = title.to_owned();
        Self { title, cover_art, directory }
    }

    /// The display card for this game.
    pub fn build_display_card(&self) -> (card: GameCard)
        ensures
            card@ == spec_card(self@),
    {
        let artwork = if self.cover_art.as_str().is_empty() {
            Artwork::Placeholder
        } else {
            Artwork::Image(self.cover_art.clone())
        };
        let card = GameCard {
            artwork,
            title: self.title.clone(),
            launch_directory: self.directory.clone(),
        };
        proof {
            assert(card@ =~= spec_card(self@));
        }
        card
    }

    /// The command that launches this game: on Windows the command
    /// interpreter opens the directory, elsewhere the desktop opener does.
    pub fn launch_command(&self, windows: bool) -> (cmd: LaunchCommand)
        ensures
            windows ==> cmd.program@ == "cmd"@ && cmd.args.deep_view() =~= seq![
                "/C"@,
                self@.directory,
            ],
            !windows ==> cmd.program@ == "xdg-open"@ && cmd.args.deep_view() =~= seq![
                self@.directory,
            ],
    {
        if windows {
            let mut args: Vec<String> = Vec::new();
            args.push("/C".to_owned());
            args.push(self.directory.clone());
            LaunchCommand { program: "cmd".to_owned(), args }
        } else {
            let mut args: Vec<String> = Vec::new();
            args.push(self.directory.clone());
            LaunchCommand { program: "xdg-open".to_owned(), args }
        }
    }
}

} // verus!
