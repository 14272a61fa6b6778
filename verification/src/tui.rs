//! The state of the terminal front end: the tab bar, the main menu, and
//! what a key press does to them. Drawing is not done here.

use ratatui::widgets::ListState;
use vstd::prelude::*;

verus! {

/// The list widget's state, as `ratatui` keeps it.
#[verifier::external_type_specification]
#[verifier::external_body]
pub struct ExListState(ListState);

/// What `ListState::selected` returns for a state: the index of the
/// selected row, if any.
pub uninterp spec fn selected_of(state: ListState) -> Option<usize>;

/// What `ListState::offset` returns for a state: the index of the first
/// row that is shown.
pub uninterp spec fn offset_of(state: ListState) -> usize;

/// `ListState::default`: nothing is selected and the list is not scrolled.
pub assume_specification[ <ListState as Default>::default ]() -> (state: ListState)
    ensures
        selected_of(state) == None::<usize>,
        offset_of(state) == 0,
;

/// `ListState::with_selected`: the same state with the given selection; the
/// offset stays.
pub assume_specification[ ListState::with_selected ](
    state: ListState,
    selected: Option<usize>,
) -> (r: ListState)
    ensures
        selected_of(r) == selected,
        offset_of(r) == offset_of(state),
;

/// `ListState::select`: sets the selection; selecting nothing also scrolls
/// back to the top.
pub assume_specification[ ListState::select ](state: &mut ListState, index: Option<usize>)
    ensures
        selected_of(*final(state)) == index,
        offset_of(*final(state)) == if index is None {
            0
        } else {
            offset_of(*old(state))
        },
;

/// `str`'s equality: two strings are equal exactly if they hold the same
/// characters.
#[verifier::external_body]
fn same_text(a: &str, b: &str) -> (r: bool)
    ensures
        r == (a@ == b@),
{
    a == b
}

/// The position after `index` in a ring of `len` positions.
pub open spec fn ring_next(index: usize, len: usize) -> int {
    (index + 1) % (len as int)
}

/// The position before `index` in a ring of `len` positions.
pub open spec fn ring_previous(index: usize, len: usize) -> int {
    if index > 0 {
        index - 1
    } else {
        len - 1
    }
}

/// A row of tabs and the one that is open.
pub struct TabsState<'a> {
    pub titles: Vec<&'a str>,
    pub index: usize,
}

impl<'a> TabsState<'a> {
    /// The given tabs, with the first one open.
    pub fn new(titles: Vec<&'a str>) -> (r: Self)
        ensures
            r.titles == titles,
            r.index == 0,
    {
        Self { titles, index: 0 }
    }

    /// Opens the tab to the right, going round from the last to the first.
    pub fn next(&mut self)
        requires
            old(self).titles.len() > 0,
            old(self).index < usize::MAX,
        ensures
            final(self).titles == old(self).titles,
            final(self).index == ring_next(old(self).index, old(self).titles.len()),
    {
        self.index = (self.index + 1) % self.titles.len();
    }

    /// Opens the tab to the left, going round from the first to the last.
    pub fn previous(&mut self)
        requires
            old(self).index > 0 || old(self).titles.len() > 0,
        ensures
            final(self).titles == old(self).titles,
            final(self).index == ring_previous(old(self).index, old(self).titles.len()),
    {
        if self.index > 0 {
            self.index -= 1;
        } else {
            self.index = self.titles.len() - 1;
        }
    }
}

/// The entries of a menu, the one the cursor is on, and the list widget's
/// state, which follows the cursor.
pub struct MenuEntries<'a> {
    pub titles: Vec<&'a str>,
    pub list_state: ListState,
    pub index: usize,
}

impl<'a> MenuEntries<'a> {
    /// The given entries, with the cursor on the first.
    pub fn new(titles: Vec<&'a str>) -> (r: Self)
        ensures
            r.titles == titles,
            r.index == 0,
            selected_of(r.list_state) == Some(0usize),
            offset_of(r.list_state) == 0,
    {
        let list_state = ListState::default().with_selected(Some(0));
        Self { titles, list_state, index: 0 }
    }

    /// Moves the cursor down, going round from the last entry to the first.
    pub fn next(&mut self)
        requires
            old(self).titles.len() > 0,
            old(self).index < usize::MAX,
        ensures
            final(self).titles == old(self).titles,
            final(self).index == ring_next(old(self).index, old(self).titles.len()),
            selected_of(final(self).list_state) == Some(final(self).index),
            offset_of(final(self).list_state) == offset_of(old(self).list_state),
    {
        self.index = (self.index + 1) % self.titles.len();
        self.list_state.select(Some(self.index));
    }

    /// Moves the cursor up, going round from the first entry to the last.
    pub fn previous(&mut self)
        requires
            old(self).index > 0 || old(self).titles.len() > 0,
        ensures
            final(self).titles == old(self).titles,
            final(self).index == ring_previous(old(self).index, old(self).titles.len()),
            selected_of(final(self).list_state) == Some(final(self).index),
            offset_of(final(self).list_state) == offset_of(old(self).list_state),
    {
        if self.index > 0 {
            self.index -= 1;
            self.list_state.select(Some(self.index));
        } else {
            self.index = self.titles.len() - 1;
            self.list_state.select(Some(self.index));
        }
    }
}

/// Which screen the front end shows, or that it is to stop.
#[derive(Debug, Clone, Copy, PartialEq, Eq, Structural)]
pub enum AppState {
    MainMenu,
    MainWindow,
    Quit,
}

/// A key press, as far as the front end tells keys apart.
#[derive(Debug, Clone, Copy, PartialEq, Eq, Structural)]
pub enum Key {
    Up,
    Down,
    Enter,
    Esc,
    Tab,
    BackTab,
    Other,
}

/// The state of the front end. The game's own data is kept apart from it.
pub struct App<'a> {
    pub title: &'a str,
    pub app_state: AppState,
    pub tabs: TabsState<'a>,
    pub main_menu_list: MenuEntries<'a>,
}

impl<'a> App<'a> {
    /// Both cursors stand on an entry.
    pub open spec fn valid(self) -> bool {
        &&& self.tabs.index < self.tabs.titles.len()
        &&& self.main_menu_list.index < self.main_menu_list.titles.len()
    }

    /// Whether the menu can take `key`: the cursor it moves has somewhere
    /// to go, and the entry it picks exists.
    pub open spec fn menu_accepts(self, key: Key) -> bool {
        match key {
            Key::Up => self.main_menu_list.index > 0 || self.main_menu_list.titles.len() > 0,
            Key::Down => self.main_menu_list.titles.len() > 0 && self.main_menu_list.index
                < usize::MAX,
            Key::Enter => self.main_menu_list.index < self.main_menu_list.titles.len(),
            _ => true,
        }
    }

    /// Whether the main window can take `key`: the tab it moves to exists.
    pub open spec fn window_accepts(self, key: Key) -> bool {
        match key {
            Key::Tab => self.tabs.titles.len() > 0 && self.tabs.index < usize::MAX,
            Key::BackTab => self.tabs.index > 0 || self.tabs.titles.len() > 0,
            _ => true,
        }
    }

    /// Whether `key` can be handled on the screen that is shown.
    pub open spec fn accepts(self, key: Key) -> bool {
        match self.app_state {
            AppState::MainMenu => self.menu_accepts(key),
            AppState::MainWindow => self.window_accepts(key),
            AppState::Quit => true,
        }
    }

    /// What the menu does with `key`, whatever screen is shown: `Up` and
    /// `Down` move the cursor round the entries and the selection with it;
    /// `Enter` on "Start" opens the main window and on "Quit" stops; nothing
    /// else changes.
    pub open spec fn menu_steps_to(self, key: Key, after: Self) -> bool {
        &&& after.title == self.title
        &&& after.tabs == self.tabs
        &&& after.main_menu_list.titles == self.main_menu_list.titles
        &&& after.app_state == if key == Key::Enter {
            let entry = self.main_menu_list.titles[self.main_menu_list.index as int];
            if entry@ == "Start"@ {
                AppState::MainWindow
            } else if entry@ == "Quit"@ {
                AppState::Quit
            } else {
                self.app_state
            }
        } else {
            self.app_state
        }
        &&& after.main_menu_list.index == match key {
            Key::Down => ring_next(self.main_menu_list.index, self.main_menu_list.titles.len()),
            Key::Up => ring_previous(self.main_menu_list.index, self.main_menu_list.titles.len()),
            _ => self.main_menu_list.index as int,
        }
        &&& if key == Key::Up || key == Key::Down {
            &&& selected_of(after.main_menu_list.list_state) == Some(after.main_menu_list.index)
            &&& offset_of(after.main_menu_list.list_state) == offset_of(
                self.main_menu_list.list_state,
            )
        } else {
            after.main_menu_list.list_state == self.main_menu_list.list_state
        }
    }

    /// What the main window does with `key`, whatever screen is shown:
    /// `Esc` goes back to the menu, `Tab` and `BackTab` move round the tabs;
    /// nothing else changes.
    pub open spec fn window_steps_to(self, key: Key, after: Self) -> bool {
        &&& after.title == self.title
        &&& after.main_menu_list == self.main_menu_list
        &&& after.tabs.titles == self.tabs.titles
        &&& after.app_state == if key == Key::Esc {
            AppState::MainMenu
        } else {
            self.app_state
        }
        &&& after.tabs.index == match key {
            Key::Tab => ring_next(self.tabs.index, self.tabs.titles.len()),
            Key::BackTab => ring_previous(self.tabs.index, self.tabs.titles.len()),
            _ => self.tabs.index as int,
        }
    }

    /// What one key press does: what the screen that is shown does with
    /// it, and nothing once the state is `Quit`.
    pub open spec fn steps_to(self, key: Key, after: Self) -> bool {
        match self.app_state {
            AppState::MainMenu => self.menu_steps_to(key, after),
            AppState::MainWindow => self.window_steps_to(key, after),
            AppState::Quit => after == self,
        }
    }

    /// The front end as it starts: on the main menu, with four tabs and the
    /// entries "Start", "Options" and "Quit".
    pub fn new(title: &'a str) -> (r: Self)
        ensures
            r.title == title,
            r.app_state == AppState::MainMenu,
            r.tabs.titles@ == seq!["Alpha", "Bravo", "Charlie", "Delta"],
            r.tabs.index == 0,
            r.main_menu_list.titles@ == seq!["Start", "Options", "Quit"],
            r.main_menu_list.index == 0,
            selected_of(r.main_menu_list.list_state) == Some(0usize),
            offset_of(r.main_menu_list.list_state) == 0,
            r.valid(),
    {
        App {
            title,
            app_state: AppState::MainMenu,
            tabs: TabsState::new(vec!["Alpha", "Bravo", "Charlie", "Delta"]),
            main_menu_list: MenuEntries::new(vec!["Start", "Options", "Quit"]),
        }
    }

    /// Whether `key` can be handled on the screen that is shown.
    pub fn can_handle(&self, key: Key) -> (r: bool)
        ensures
            r == self.accepts(key),
    {
        match self.app_state {
            AppState::MainMenu => match key {
                Key::Up => self.main_menu_list.index > 0 || self.main_menu_list.titles.len() > 0,
                Key::Down => self.main_menu_list.titles.len() > 0 && self.main_menu_list.index
                    < usize::MAX,
                Key::Enter => self.main_menu_list.index < self.main_menu_list.titles.len(),
                _ => true,
            },
            AppState::MainWindow => match key {
                Key::Tab => self.tabs.titles.len() > 0 && self.tabs.index < usize::MAX,
                Key::BackTab => self.tabs.index > 0 || self.tabs.titles.len() > 0,
                _ => true,
            },
            AppState::Quit => true,
        }
    }

    fn main_menu_on_key(&mut self, key: Key)
        requires
            old(self).menu_accepts(key),
        ensures
            old(self).menu_steps_to(key, *final(self)),
    {
        match key {
            Key::Up => self.main_menu_list.previous(),
            Key::Down => self.main_menu_list.next(),
            Key::Enter => {
                let entry = self.main_menu_list.titles[self.main_menu_list.index];
                if same_text(entry, "Start") {
                    self.app_state = AppState::MainWindow;
                } else if same_text(entry, "Quit") {
                    self.app_state = AppState::Quit;
                }
            },
            _ => {},
        }
    }

    fn main_window_on_key(&mut self, key: Key)
        requires
            old(self).window_accepts(key),
        ensures
            old(self).window_steps_to(key, *final(self)),
    {
        match key {
            Key::Esc => self.app_state = AppState::MainMenu,
            Key::Tab => self.tabs.next(),
            Key::BackTab => self.tabs.previous(),
            _ => {},
        }
    }

    /// Handles one key press, by the screen that is shown. Once the state
    /// is `Quit`, keys do nothing.
    pub fn on_key(&mut self, key: Key)
        requires
            old(self).accepts(key),
        ensures
            old(self).steps_to(key, *final(self)),
            old(self).valid() ==> final(self).valid(),
    {
        match self.app_state {
            AppState::MainMenu => self.main_menu_on_key(key),
            AppState::MainWindow => self.main_window_on_key(key),
            AppState::Quit => {},
        }
    }

    /// What the passing of time does to the front end: nothing.
    pub fn on_tick(&mut self)
        ensures
            *final(self) == *old(self),
    {
    }
}

/// While both cursors stand on an entry, every key can be handled.
pub proof fn lemma_valid_accepts(app: App, key: Key)
    requires
        app.valid(),
    ensures
        app.accepts(key),
{
}

} // verus!
