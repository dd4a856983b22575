//! The mode controller and application state: a catalog, a query buffer, the
//! visible (filtered) items with their cursor, and the browse/search mode
//! that decides how a keystroke is interpreted. One function, `handle_key`,
//! takes the state through one keystroke; its whole behaviour is pinned by
//! the `step` transition function.

use crate::filter::{filter, filter_spec, lemma_filter_empty_query};
use crate::list::{advance_cursor, reset_cursor, retreat_cursor, wf_cursor, SelectableList};
use vstd::prelude::*;

verus! {

/// Whether keystrokes are navigation commands (`Browse`) or text-edit input
/// (`Search`).
#[derive(Clone, Copy, PartialEq, Eq, Structural, Debug)]
pub enum Mode {
    Browse,
    Search,
}

/// A keystroke, reduced to what the state machine distinguishes.
#[derive(Clone, Copy, Debug)]
pub enum Key {
    /// A printable character: text in `Search` mode, a command in `Browse`.
    Char(char),
    /// Delete the last query character.
    Backspace,
    /// Leave `Search` mode.
    Esc,
    /// Move the cursor one item up.
    Up,
    /// Move the cursor one item down.
    Down,
    /// Any key the state machine ignores.
    Other,
}

/// The application state, as the contracts speak of it.
pub ghost struct AppState {
    pub catalog: Seq<String>,
    pub query: Seq<char>,
    pub mode: Mode,
    pub visible: Seq<String>,
    pub cursor: Option<usize>,
}

impl AppState {
    /// The state invariant: the cursor invariant holds of the visible items,
    /// and the visible items are exactly the filtered catalog.
    pub open spec fn inv(self) -> bool {
        &&& wf_cursor(self.cursor, self.visible.len())
        &&& self.visible == filter_spec(self.catalog, self.query)
    }
}

/// The navigation part of one keystroke: cursor keys move the cursor in
/// either mode; every other key leaves the state alone.
pub open spec fn nav_step(s: AppState, key: Key) -> AppState {
    match key {
        Key::Down => AppState { cursor: advance_cursor(s.cursor, s.visible.len()), ..s },
        Key::Up => AppState { cursor: retreat_cursor(s.cursor, s.visible.len()), ..s },
        _ => s,
    }
}

/// One query edit: the visible items are recomputed from the new query and
/// the cursor is reset to the first of them.
pub open spec fn edit_step(s: AppState, query: Seq<char>) -> AppState {
    let visible = filter_spec(s.catalog, query);
    AppState { query, visible, cursor: reset_cursor(visible.len()), ..s }
}

/// The mode-dependent part of one keystroke, and whether it quits: in
/// `Browse`, `e` enters `Search` and `q` quits; in `Search`, a printable
/// character or a deletion edits the query and `Esc` returns to `Browse`,
/// keeping query and visible items as they are.
pub open spec fn mode_step(s: AppState, key: Key) -> (AppState, bool) {
    match s.mode {
        Mode::Browse => match key {
            Key::Char(c) => if c == 'e' {
                (AppState { mode: Mode::Search, ..s }, false)
            } else if c == 'q' {
                (s, true)
            } else {
                (s, false)
            },
            _ => (s, false),
        },
        Mode::Search => match key {
            Key::Char(c) => (edit_step(s, s.query.push(c)), false),
            Key::Backspace => (
                edit_step(
                    s,
                    if s.query.len() == 0 {
                        s.query
                    } else {
                        s.query.drop_last()
                    },
                ),
                false,
            ),
            Key::Esc => (AppState { mode: Mode::Browse, ..s }, false),
            _ => (s, false),
        },
    }
}

/// One keystroke: navigation first, then the mode-dependent handling of the
/// same key.
pub open spec fn step(s: AppState, key: Key) -> (AppState, bool) {
    mode_step(nav_step(s, key), key)
}

/// The whole interactive state: catalog, query, mode, and the visible items
/// with their cursor.
pub struct App {
    pub catalog: Vec<String>,
    pub query: Vec<char>,
    pub mode: Mode,
    pub list: SelectableList,
}

impl View for App {
    type V = AppState;

    open spec fn view(&self) -> AppState {
        AppState {
            catalog: self.catalog@,
            query: self.query@,
            mode: self.mode,
            visible: self.list.items@,
            cursor: self.list.cursor,
        }
    }
}

impl App {
    /// The state invariant, on the executable state.
    pub open spec fn wf(self) -> bool {
        self@.inv()
    }

    /// Recompute the visible items from the catalog and the query, and reset
    /// the cursor to the first of them.
    fn refilter(&mut self)
        ensures
            final(self)@ == edit_step(old(self)@, old(self)@.query),
            final(self).wf(),
    {
        let visible = filter(&self.catalog, &self.query);
        self.list.reset_selection(visible);
    }

    /// Take the state through one keystroke, per the transition table:
    /// cursor keys move the cursor in either mode; in `Browse`, `e` enters
    /// `Search` and `q` asks to quit; in `Search`, printable characters and
    /// deletions edit the query, refilter the catalog and reset the cursor,
    /// and `Esc` returns to `Browse` with query and visible items retained.
    /// Returns whether the program should quit.
    pub fn handle_key(&mut self, key: Key) -> (quit: bool)
        requires
            old(self).wf(),
        ensures
            final(self).wf(),
            final(self)@ == step(old(self)@, key).0,
            quit == step(old(self)@, key).1,
    {
        match key {
            Key::Down => self.list.advance(),
            Key::Up => self.list.retreat(),
            _ => {},
        }
        let mut quit = false;
        match self.mode {
            Mode::Browse => {
                match key {
                    Key::Char(c) => {
                        if c == 'e' {
                            self.mode = Mode::Search;
                        } else if c == 'q' {
                            quit = true;
                        }
                    },
                    _ => {},
                }
            },
            Mode::Search => {
                match key {
                    Key::Char(c) => {
                        self.query.push(c);
                        self.refilter();
                    },
                    Key::Backspace => {
                        if self.query.len() > 0 {
                            self.query.pop();
                        }
                        proof {
                            assert(self.query@ == (if old(self).query@.len() == 0 {
                                old(self).query@
                            } else {
                                old(self).query@.drop_last()
                            }));
                        }
                        self.refilter();
                    },
                    Key::Esc => {
                        self.mode = Mode::Browse;
                    },
                    _ => {},
                }
            },
        }
        quit
    }
}

impl Default for App {
    /// The starting state: the seed catalog in ascending order, an empty
    /// query, `Browse` mode, every item visible, and the cursor on the first
    /// item.
    fn default() -> (r: App)
        ensures
            r.wf(),
            r.mode == Mode::Browse,
            r.query@ == Seq::<char>::empty(),
            r.catalog@.len() == 3,
            r.catalog@[0]@ == "php"@,
            r.catalog@[1]@ == "python"@,
            r.catalog@[2]@ == "rust"@,
            r.list.items@ == r.catalog@,
            r.list.cursor == Some(0usize),
    {
        let mut catalog: Vec<String> = Vec::new();
        catalog.push("php".to_owned());
        catalog.push("python".to_owned());
        catalog.push("rust".to_owned());
        let query: Vec<char> = Vec::new();
        let visible = filter(&catalog, &query);
        proof {
            lemma_filter_empty_query(catalog@);
        }
        let mut list = SelectableList { items: Vec::new(), cursor: None };
        list.reset_selection(visible);
        App { catalog, query, mode: Mode::Browse, list }
    }
}

} // verus!
