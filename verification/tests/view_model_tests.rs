use loadout::{
    Artwork, Config, DisplaySettings, Game, LibraryPage, LibraryView, LoadoutError, Theme,
    WindowPosition,
};

fn game(n: usize) -> Game {
    Game::new(
        format!("Game {}", n).as_str(),
        format!("/covers/{}.png", n),
        format!("/games/{}", n),
    )
}

#[test]
fn empty_library_shows_the_empty_state() {
    let page = LibraryPage::new(Vec::new());
    assert!(matches!(page.view(), LibraryView::EmptyState));
}

#[test]
fn five_games_make_a_row_of_four_and_a_row_of_one() {
    let games: Vec<Game> = (0..5).map(game).collect();
    let page = LibraryPage::new(games);
    match page.view() {
        LibraryView::Grid(rows) => {
            assert_eq!(rows.len(), 2);
            assert_eq!(rows[0].len(), 4);
            assert_eq!(rows[1].len(), 1);
            assert_eq!(rows[0][0].title, "Game 0");
            assert_eq!(rows[0][3].title, "Game 3");
            assert_eq!(rows[1][0].title, "Game 4");
            assert_eq!(rows[1][0].launch_directory, "/games/4");
        },
        LibraryView::EmptyState => panic!("five games must make a grid"),
    }
}

#[test]
fn eight_games_make_two_full_rows() {
    let games: Vec<Game> = (0..8).map(game).collect();
    let page = LibraryPage::new(games);
    match page.view() {
        LibraryView::Grid(rows) => {
            assert_eq!(rows.len(), 2);
            assert_eq!(rows[0].len(), 4);
            assert_eq!(rows[1].len(), 4);
        },
        LibraryView::EmptyState => panic!("eight games must make a grid"),
    }
}

#[test]
fn one_game_makes_one_card() {
    let page = LibraryPage::new(vec![game(7)]);
    match page.view() {
        LibraryView::Grid(rows) => {
            assert_eq!(rows.len(), 1);
            assert_eq!(rows[0].len(), 1);
            assert!(matches!(&rows[0][0].artwork, Artwork::Image(p) if p.as_str() == "/covers/7.png"));
        },
        LibraryView::EmptyState => panic!("one game must make a grid"),
    }
}

#[test]
fn card_without_cover_art_shows_the_placeholder() {
    let g = Game::new("Bare", String::new(), "/games/bare".to_string());
    let card = g.build_display_card();
    assert!(matches!(card.artwork, Artwork::Placeholder));
    assert_eq!(card.title, "Bare");
    assert_eq!(card.launch_directory, "/games/bare");
}

#[test]
fn card_with_cover_art_shows_the_image() {
    let g = Game::new("Art", "/covers/art.png".to_string(), "/games/art".to_string());
    let card = g.build_display_card();
    assert!(matches!(card.artwork, Artwork::Image(p) if p.as_str() == "/covers/art.png"));
}

#[test]
fn launch_command_per_platform() {
    let g = Game::new("Any", String::new(), "/games/any".to_string());
    let windows = g.launch_command(true);
    assert_eq!(windows.program, "cmd");
    assert_eq!(windows.args, vec!["/C".to_string(), "/games/any".to_string()]);
    let other = g.launch_command(false);
    assert_eq!(other.program, "xdg-open");
    assert_eq!(other.args, vec!["/games/any".to_string()]);
}

#[test]
fn theme_names_map_to_themes() {
    let mut config = Config::default();
    assert!(matches!(config.theme(), Theme::CatppuccinMocha));
    config.theme = "Light".to_string();
    assert!(matches!(config.theme(), Theme::CatppuccinFrappe));
    config.theme = "Dark".to_string();
    assert!(matches!(config.theme(), Theme::TokyoNight));
    config.theme = "NoSuchTheme".to_string();
    assert!(matches!(config.theme(), Theme::CatppuccinMocha));
}

#[test]
fn display_defaults_size_and_position() {
    let d = DisplaySettings::default();
    assert_eq!(d.width, 1160);
    assert_eq!(d.height, 768);
    assert!(d.centered);
    let s = d.size();
    assert_eq!(s.width, 1160);
    assert_eq!(s.height, 768);
    assert!(matches!(d.position(), WindowPosition::Centered));
    let off = DisplaySettings { width: 640, height: 480, centered: false };
    assert!(matches!(off.position(), WindowPosition::Automatic));
}

#[test]
fn error_messages_read_as_documented() {
    assert_eq!(
        LoadoutError::ConfigDirNotFound.message(),
        "Could not find config directory"
    );
    assert_eq!(
        LoadoutError::ConfigReadError {
            path: "/c/config.json".to_string(),
            source: "denied".to_string(),
        }
        .message(),
        "Failed to read config file at /c/config.json: denied"
    );
    assert_eq!(LoadoutError::ConfigParseError.message(), "Failed to parse config file");
    assert_eq!(LoadoutError::NoDirectorySelected.message(), "No directory selected");
    assert_eq!(
        LoadoutError::InvalidDirectory("/nope".to_string()).message(),
        "Invalid directory path: /nope"
    );
    assert_eq!(
        LoadoutError::GameLaunchError {
            path: "/games/x".to_string(),
            source: "spawn failed".to_string(),
        }
        .message(),
        "Failed to launch game at /games/x: spawn failed"
    );
}
