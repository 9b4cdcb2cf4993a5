use loadout::{
    Action, AppView, Config, DirectorySelection, Effect, Launcher, LoadoutError, Message, Page,
    Loadout, SetupPage, SetupPageEvent,
};

#[test]
fn empty_config_starts_on_setup_page() {
    let app = Loadout::new(Config::default());
    assert!(matches!(app.current_page, Page::AddDirectory(_)));
    assert!(matches!(app.view(), AppView::Setup));
}

#[test]
fn configured_app_starts_on_library_page() {
    let mut config = Config::default();
    let mut app = Loadout::new(config.clone());
    let effect = app.update(Message::DirectoryAction(Action::SelectDirectory(
        DirectorySelection::Selected("/games".to_string()),
    )));
    assert!(matches!(effect, Effect::SaveConfig));
    config = app.config.clone();
    let app = Loadout::new(config);
    assert!(matches!(app.current_page, Page::Library));
    match app.view() {
        AppView::Library { directory_count } => assert_eq!(directory_count, 1),
        _ => panic!("expected the library view"),
    }
}

#[test]
fn selected_directory_is_appended_and_saved() {
    let mut app = Loadout::new(Config::default());
    let effect = app.update(Message::DirectoryAction(Action::SelectDirectory(
        DirectorySelection::Selected("/home/me/games".to_string()),
    )));
    assert!(matches!(effect, Effect::SaveConfig));
    assert!(matches!(app.current_page, Page::Library));
    assert_eq!(app.config.directories.len(), 1);
    let dir = &app.config.directories[0];
    assert!(matches!(dir.launcher, Launcher::Custom));
    assert_eq!(dir.path, "/home/me/games");
    assert_eq!(dir.icon, "");
    assert_eq!(dir.games.len(), 0);
}

#[test]
fn no_selection_warns_and_changes_nothing() {
    let mut app = Loadout::new(Config::default());
    let effect = app.update(Message::DirectoryAction(Action::SelectDirectory(
        DirectorySelection::NoSelection,
    )));
    assert!(matches!(effect, Effect::Warn(LoadoutError::NoDirectorySelected)));
    assert_eq!(app.config.directories.len(), 0);
    assert!(matches!(app.current_page, Page::AddDirectory(_)));
}

#[test]
fn invalid_selection_warns_with_the_path() {
    let mut app = Loadout::new(Config::default());
    let effect = app.update(Message::DirectoryAction(Action::SelectDirectory(
        DirectorySelection::Invalid("/no/such/dir".to_string()),
    )));
    match effect {
        Effect::Warn(LoadoutError::InvalidDirectory(p)) => assert_eq!(p, "/no/such/dir"),
        _ => panic!("expected an invalid-directory warning"),
    }
    assert_eq!(app.config.directories.len(), 0);
    assert!(matches!(app.current_page, Page::AddDirectory(_)));
}

#[test]
fn empty_selected_path_registers_nothing() {
    let mut app = Loadout::new(Config::default());
    let effect = app.update(Message::DirectoryAction(Action::SelectDirectory(
        DirectorySelection::Selected(String::new()),
    )));
    assert!(matches!(effect, Effect::Nothing));
    assert_eq!(app.config.directories.len(), 0);
    assert!(matches!(app.current_page, Page::AddDirectory(_)));
}

#[test]
fn cancel_without_directories_stays_on_setup() {
    let mut app = Loadout::new(Config::default());
    let effect = app.update(Message::DirectoryAction(Action::Cancel));
    assert!(matches!(effect, Effect::Nothing));
    assert!(matches!(app.current_page, Page::AddDirectory(_)));
}

#[test]
fn cancel_with_directories_returns_to_library() {
    let mut app = Loadout::new(Config::default());
    app.update(Message::DirectoryAction(Action::SelectDirectory(
        DirectorySelection::Selected("/games".to_string()),
    )));
    app.update(Message::NavigateTo(Page::AddDirectory(SetupPage::new())));
    let effect = app.update(Message::DirectoryAction(Action::Cancel));
    assert!(matches!(effect, Effect::Nothing));
    assert!(matches!(app.current_page, Page::Library));
}

#[test]
fn navigation_swaps_the_page() {
    let mut app = Loadout::new(Config::default());
    let effect = app.update(Message::NavigateTo(Page::Settings));
    assert!(matches!(effect, Effect::Nothing));
    assert!(matches!(app.current_page, Page::Settings));
    assert!(matches!(app.view(), AppView::Settings));
}

#[test]
fn directory_actions_off_the_setup_page_do_nothing() {
    let mut app = Loadout::new(Config::default());
    app.update(Message::NavigateTo(Page::Settings));
    let effect = app.update(Message::DirectoryAction(Action::SelectDirectory(
        DirectorySelection::Selected("/games".to_string()),
    )));
    assert!(matches!(effect, Effect::Nothing));
    assert_eq!(app.config.directories.len(), 0);
    assert!(matches!(app.current_page, Page::Settings));
}

#[test]
fn select_directory_outcomes() {
    let mut page = SetupPage::new();
    assert_eq!(page.directory_path, "");

    let r = page.select_directory(DirectorySelection::NoSelection);
    assert!(matches!(r, Err(LoadoutError::NoDirectorySelected)));
    assert_eq!(page.directory_path, "");

    let r = page.select_directory(DirectorySelection::Invalid("/bad".to_string()));
    match r {
        Err(LoadoutError::InvalidDirectory(p)) => assert_eq!(p, "/bad"),
        _ => panic!("expected the invalid-directory error"),
    }
    assert_eq!(page.directory_path, "");

    let r = page.select_directory(DirectorySelection::Selected("/good".to_string()));
    assert!(r.is_ok());
    assert_eq!(page.directory_path, "/good");
}

#[test]
fn setup_page_event_carries_the_chosen_path() {
    let event = SetupPageEvent::DirectorySelected("/picked".to_string());
    match event {
        SetupPageEvent::DirectorySelected(path) => assert_eq!(path, "/picked"),
    }
}
