//! The main menu: a short list of the tool's screens.
use vstd::prelude::*;
use crate::tui::{AppMode, Key, wrap_next, wrap_prev, wrap_next_exec, wrap_prev_exec};
use crate::pm::builtin::strs;

verus! {

/// What the menu asks for.
#[derive(Debug, Clone, Copy, PartialEq, Eq, Structural)]
pub enum MenuAction {
    PackMan,
    FileManager,
    ColorTheme,
    Quit,
}

/// The menu's state: its entries and the selected one.
#[derive(Debug)]
pub struct MenuState {
    pub selected: Option<usize>,
    pub items: Vec<String>,
}

/// The menu's entries.
pub open spec fn menu_items() -> Seq<Seq<char>> {
    seq!["📦  Package Manager"@, "📁  File Manager"@, "🎨  Color Theme"@]
}

/// The selection as an optional integer.
pub open spec fn sel_int(s: Option<usize>) -> Option<int> {
    match s {
        Some(i) => Some(i as int),
        None => None,
    }
}

/// The action that enter asks for on entry `i`: the screen listed there, or
/// nothing past the listed screens.
pub open spec fn entry_action(i: int) -> Option<MenuAction> {
    if i == 0 {
        Some(MenuAction::PackMan)
    } else if i == 1 {
        Some(MenuAction::FileManager)
    } else if i == 2 {
        Some(MenuAction::ColorTheme)
    } else {
        None
    }
}

/// The screen that a menu action opens; `None` to quit.
pub open spec fn screen_for(a: MenuAction) -> Option<AppMode> {
    match a {
        MenuAction::PackMan => Some(AppMode::PackManSearch),
        MenuAction::FileManager => Some(AppMode::FileManager),
        MenuAction::ColorTheme => Some(AppMode::ColorTheme),
        MenuAction::Quit => None,
    }
}

/// The screen that a menu action opens (see [`screen_for`]).
pub fn screen_for_exec(a: MenuAction) -> (r: Option<AppMode>)
    ensures
        r == screen_for(a),
{
    match a {
        MenuAction::PackMan => Some(AppMode::PackManSearch),
        MenuAction::FileManager => Some(AppMode::FileManager),
        MenuAction::ColorTheme => Some(AppMode::ColorTheme),
        MenuAction::Quit => None,
    }
}

impl MenuState {
    /// The menu with its first entry selected.
    pub fn new() -> (r: MenuState)
        ensures
            r.selected == Some(0usize),
            strs(r.items@) == menu_items(),
    {
        let mut items: Vec<String> = Vec::new();
        items.push("📦  Package Manager".to_owned());
        items.push("📁  File Manager".to_owned());
        items.push("🎨  Color Theme".to_owned());
        assert(strs(items@) =~= menu_items());
        MenuState { selected: Some(0), items }
    }

    /// Select the next entry, wrapping to the first.
    pub fn next(&mut self)
        requires
            old(self).items@.len() >= 1,
        ensures
            final(self).selected == Some(
                wrap_next(sel_int(old(self).selected), old(self).items@.len() as int) as usize,
            ),
            final(self).items == old(self).items,
    {
        let i = wrap_next_exec(self.selected, self.items.len());
        self.selected = Some(i);
    }

    /// Select the previous entry, wrapping to the last.
    pub fn previous(&mut self)
        requires
            old(self).items@.len() >= 1,
        ensures
            final(self).selected == Some(
                wrap_prev(sel_int(old(self).selected), old(self).items@.len() as int) as usize,
            ),
            final(self).items == old(self).items,
    {
        let i = wrap_prev_exec(self.selected, self.items.len());
        self.selected = Some(i);
    }

    /// Handle a key: down or `j` and up or `k` move the selection; enter
    /// opens the selected entry (the first when none is selected); `q` or
    /// escape quits.
    pub fn handle_key(&mut self, key: Key) -> (r: Option<MenuAction>)
        requires
            old(self).items@.len() >= 1,
        ensures
            final(self).items == old(self).items,
            (key == Key::Down || key == Key::Char('j')) ==> r is None && final(self).selected
                == Some(wrap_next(sel_int(old(self).selected), old(self).items@.len() as int) as usize),
            (key == Key::Up || key == Key::Char('k')) ==> r is None && final(self).selected == Some(
                wrap_prev(sel_int(old(self).selected), old(self).items@.len() as int) as usize,
            ),
            key == Key::Enter ==> final(self).selected == old(self).selected && r == entry_action(
                match old(self).selected {
                    Some(i) => i as int,
                    None => 0,
                },
            ),
            (key == Key::Char('q') || key == Key::Esc) ==> final(self).selected == old(self).selected
                && r == Some(MenuAction::Quit),
            !(key == Key::Down || key == Key::Char('j') || key == Key::Up || key == Key::Char('k')
                || key == Key::Enter || key == Key::Char('q') || key == Key::Esc) ==> final(self).selected
                == old(self).selected && r is None,
    {
        match key {
            Key::Down | Key::Char('j') => {
                self.next();
                None
            },
            Key::Up | Key::Char('k') => {
                self.previous();
                None
            },
            Key::Enter => {
                let selected = match self.selected {
                    Some(i) => i,
                    None => 0,
                };
                if selected == 0 {
                    Some(MenuAction::PackMan)
                } else if selected == 1 {
                    Some(MenuAction::FileManager)
                } else if selected == 2 {
                    Some(MenuAction::ColorTheme)
                } else {
                    None
                }
            },
            Key::Char('q') | Key::Esc => Some(MenuAction::Quit),
            _ => None,
        }
    }
}

} // verus!
