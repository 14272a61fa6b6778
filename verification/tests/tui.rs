use xrpg::tui::{App, AppState, Key, MenuEntries, TabsState};

#[test]
fn tabs_start_at_the_first() {
    let tabs = TabsState::new(vec!["a", "b", "c"]);
    assert_eq!(tabs.index, 0);
    assert_eq!(tabs.titles, vec!["a", "b", "c"]);
}

#[test]
fn tabs_go_round_to_the_right() {
    let mut tabs = TabsState::new(vec!["a", "b", "c"]);
    tabs.next();
    assert_eq!(tabs.index, 1);
    tabs.next();
    assert_eq!(tabs.index, 2);
    tabs.next();
    assert_eq!(tabs.index, 0);
}

#[test]
fn tabs_go_round_to_the_left() {
    let mut tabs = TabsState::new(vec!["a", "b", "c"]);
    tabs.previous();
    assert_eq!(tabs.index, 2);
    tabs.previous();
    assert_eq!(tabs.index, 1);
    tabs.previous();
    assert_eq!(tabs.index, 0);
}

#[test]
fn single_tab_stays() {
    let mut tabs = TabsState::new(vec!["only"]);
    tabs.next();
    assert_eq!(tabs.index, 0);
    tabs.previous();
    assert_eq!(tabs.index, 0);
}

#[test]
fn menu_starts_with_the_first_selected() {
    let menu = MenuEntries::new(vec!["x", "y"]);
    assert_eq!(menu.index, 0);
    assert_eq!(menu.list_state.selected(), Some(0));
    assert_eq!(menu.list_state.offset(), 0);
}

#[test]
fn menu_selection_follows_the_cursor() {
    let mut menu = MenuEntries::new(vec!["x", "y", "z"]);
    menu.next();
    assert_eq!(menu.index, 1);
    assert_eq!(menu.list_state.selected(), Some(1));
    menu.next();
    menu.next();
    assert_eq!(menu.index, 0);
    assert_eq!(menu.list_state.selected(), Some(0));
    menu.previous();
    assert_eq!(menu.index, 2);
    assert_eq!(menu.list_state.selected(), Some(2));
    menu.previous();
    assert_eq!(menu.index, 1);
    assert_eq!(menu.list_state.selected(), Some(1));
}

#[test]
fn menu_keeps_the_scroll_offset() {
    let mut menu = MenuEntries::new(vec!["x", "y", "z"]);
    *menu.list_state.offset_mut() = 2;
    menu.next();
    assert_eq!(menu.list_state.offset(), 2);
    menu.previous();
    assert_eq!(menu.list_state.offset(), 2);
}

#[test]
fn app_starts_on_the_menu() {
    let app = App::new("xrpg");
    assert_eq!(app.title, "xrpg");
    assert_eq!(app.app_state, AppState::MainMenu);
    assert_eq!(app.tabs.titles, vec!["Alpha", "Bravo", "Charlie", "Delta"]);
    assert_eq!(app.tabs.index, 0);
    assert_eq!(app.main_menu_list.titles, vec!["Start", "Options", "Quit"]);
    assert_eq!(app.main_menu_list.index, 0);
    assert_eq!(app.main_menu_list.list_state.selected(), Some(0));
}

#[test]
fn enter_on_start_opens_the_main_window() {
    let mut app = App::new("xrpg");
    app.on_key(Key::Enter);
    assert_eq!(app.app_state, AppState::MainWindow);
}

#[test]
fn enter_on_options_does_nothing() {
    let mut app = App::new("xrpg");
    app.on_key(Key::Down);
    assert_eq!(app.main_menu_list.index, 1);
    app.on_key(Key::Enter);
    assert_eq!(app.app_state, AppState::MainMenu);
    assert_eq!(app.main_menu_list.index, 1);
}

#[test]
fn enter_on_quit_stops() {
    let mut app = App::new("xrpg");
    app.on_key(Key::Up);
    assert_eq!(app.main_menu_list.index, 2);
    assert_eq!(app.main_menu_list.list_state.selected(), Some(2));
    app.on_key(Key::Enter);
    assert_eq!(app.app_state, AppState::Quit);
    for key in [Key::Up, Key::Down, Key::Enter, Key::Esc, Key::Tab, Key::BackTab, Key::Other] {
        app.on_key(key);
        assert_eq!(app.app_state, AppState::Quit);
        assert_eq!(app.main_menu_list.index, 2);
        assert_eq!(app.tabs.index, 0);
    }
}

#[test]
fn menu_ignores_other_keys() {
    let mut app = App::new("xrpg");
    for key in [Key::Esc, Key::Tab, Key::BackTab, Key::Other] {
        app.on_key(key);
        assert_eq!(app.app_state, AppState::MainMenu);
        assert_eq!(app.main_menu_list.index, 0);
        assert_eq!(app.tabs.index, 0);
    }
}

#[test]
fn main_window_keys() {
    let mut app = App::new("xrpg");
    app.on_key(Key::Enter);
    app.on_key(Key::Tab);
    assert_eq!(app.tabs.index, 1);
    app.on_key(Key::BackTab);
    app.on_key(Key::BackTab);
    assert_eq!(app.tabs.index, 3);
    app.on_key(Key::Tab);
    assert_eq!(app.tabs.index, 0);
    for key in [Key::Up, Key::Down, Key::Enter, Key::Other] {
        app.on_key(key);
        assert_eq!(app.app_state, AppState::MainWindow);
        assert_eq!(app.tabs.index, 0);
        assert_eq!(app.main_menu_list.index, 0);
    }
    app.on_key(Key::Esc);
    assert_eq!(app.app_state, AppState::MainMenu);
}

#[test]
fn tick_changes_nothing() {
    let mut app = App::new("xrpg");
    app.on_key(Key::Down);
    app.on_tick();
    assert_eq!(app.app_state, AppState::MainMenu);
    assert_eq!(app.main_menu_list.index, 1);
    assert_eq!(app.main_menu_list.list_state.selected(), Some(1));
    assert_eq!(app.tabs.index, 0);
}
