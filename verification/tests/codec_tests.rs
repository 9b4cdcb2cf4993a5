use loadout::{Config, DisplaySettings, Game, GameDirectory, Launcher, LoadoutError};

fn sample_config() -> Config {
    let game_a = Game::new(
        "Portal",
        "/covers/portal.png".to_string(),
        "/games/portal".to_string(),
    );
    let game_b = Game::new("Half\"Life \\ 3\n", String::new(), "/games/hl3".to_string());
    let dir_a = GameDirectory {
        launcher: Launcher::Steam,
        path: "/games".to_string(),
        icon: "steam.png".to_string(),
        games: vec![game_a, game_b],
    };
    let dir_b = GameDirectory {
        launcher: Launcher::Custom,
        path: "/mnt/other".to_string(),
        icon: String::new(),
        games: Vec::new(),
    };
    Config {
        display: DisplaySettings { width: 800, height: 600, centered: false },
        theme: "Dark".to_string(),
        run_on_startup: true,
        directories: vec![dir_a, dir_b],
    }
}

fn assert_configs_equal(a: &Config, b: &Config) {
    assert_eq!(a.display.width, b.display.width);
    assert_eq!(a.display.height, b.display.height);
    assert_eq!(a.display.centered, b.display.centered);
    assert_eq!(a.theme, b.theme);
    assert_eq!(a.run_on_startup, b.run_on_startup);
    assert_eq!(a.directories.len(), b.directories.len());
    for (da, db) in a.directories.iter().zip(b.directories.iter()) {
        assert!(matches!(
            (da.launcher, db.launcher),
            (Launcher::Steam, Launcher::Steam)
                | (Launcher::Epic, Launcher::Epic)
                | (Launcher::Custom, Launcher::Custom)
        ));
        assert_eq!(da.path, db.path);
        assert_eq!(da.icon, db.icon);
        assert_eq!(da.games.len(), db.games.len());
        for (ga, gb) in da.games.iter().zip(db.games.iter()) {
            assert_eq!(ga.title, gb.title);
            assert_eq!(ga.cover_art, gb.cover_art);
            assert_eq!(ga.directory, gb.directory);
        }
    }
}

#[test]
fn round_trip_preserves_every_field() {
    let config = sample_config();
    let saved = config.to_json();
    let loaded = Config::from_json(saved.as_str()).expect("saved document must parse");
    assert_configs_equal(&config, &loaded);
}

#[test]
fn round_trip_of_default_config() {
    let config = Config::default();
    let saved = config.to_json();
    let loaded = Config::from_json(saved.as_str()).expect("saved document must parse");
    assert_configs_equal(&config, &loaded);
}

#[test]
fn default_document_is_exactly_this() {
    let config = Config::default();
    let expected = "{\"display\":{\"width\":1160,\"height\":768,\"centered\":true},\"theme\":\"CatppuccinMocha\",\"run_on_startup\":false,\"directories\":[]}";
    assert_eq!(config.to_json(), expected);
}

#[test]
fn special_characters_are_escaped() {
    let mut config = Config::default();
    config.theme = "a\"b\\c\nd".to_string();
    let saved = config.to_json();
    assert!(saved.contains("\"theme\":\"a\\\"b\\\\c\\u000ad\""));
    let loaded = Config::from_json(saved.as_str()).expect("escapes must parse back");
    assert_eq!(loaded.theme, "a\"b\\c\nd");
}

#[test]
fn missing_file_loads_default() {
    let config = Config::load(None);
    assert_configs_equal(&config, &Config::default());
}

#[test]
fn corrupt_content_loads_default() {
    let config = Config::load(Some("{\"display\":{\"width\":oops"));
    assert_configs_equal(&config, &Config::default());
    let config = Config::load(Some(""));
    assert_configs_equal(&config, &Config::default());
}

#[test]
fn valid_content_loads_its_value() {
    let saved = sample_config().to_json();
    let config = Config::load(Some(saved.as_str()));
    assert_configs_equal(&config, &sample_config());
}

#[test]
fn trailing_garbage_is_a_parse_error() {
    let mut saved = Config::default().to_json();
    saved.push_str(" ");
    let r = Config::from_json(saved.as_str());
    assert!(matches!(r, Err(LoadoutError::ConfigParseError)));
}

#[test]
fn parse_error_variant_on_corrupt_document() {
    let r = Config::from_json("not a config");
    assert!(matches!(r, Err(LoadoutError::ConfigParseError)));
}

#[test]
fn numbers_at_the_edges_survive() {
    let mut config = Config::default();
    config.display.width = 0;
    config.display.height = u32::MAX;
    let loaded = Config::from_json(config.to_json().as_str()).expect("extreme sizes must parse");
    assert_eq!(loaded.display.width, 0);
    assert_eq!(loaded.display.height, u32::MAX);
}

#[test]
fn every_launcher_survives_the_trip() {
    for launcher in [Launcher::Steam, Launcher::Epic, Launcher::Custom] {
        let mut config = Config::default();
        config.directories.push(GameDirectory {
            launcher,
            path: "/p".to_string(),
            icon: String::new(),
            games: Vec::new(),
        });
        let loaded = Config::from_json(config.to_json().as_str()).expect("must parse");
        assert_configs_equal(&config, &loaded);
    }
}

#[test]
fn titles_beyond_ascii_survive_the_trip() {
    let mut config = Config::default();
    config.directories.push(GameDirectory {
        launcher: Launcher::Epic,
        path: "/jeux".to_string(),
        icon: String::new(),
        games: vec![Game::new("Cœur de Dragon \u{65e5}\u{672c}", String::new(), "/jeux/cdd".to_string())],
    });
    let loaded = Config::from_json(config.to_json().as_str()).expect("unicode titles must parse");
    assert_eq!(loaded.directories[0].games[0].title, "Cœur de Dragon \u{65e5}\u{672c}");
}
