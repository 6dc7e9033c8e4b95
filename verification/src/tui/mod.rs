//! The screens of the tool: their state, navigation and layout decisions.
use vstd::prelude::*;

pub mod theme;
pub mod search;
pub mod tabs;
pub mod paginator;
pub mod grid_table;
pub mod menu;
pub mod color_picker;
pub mod file_manager;
pub mod installed;
pub mod source_picker;

verus! {

/// A key press, as the screens see it.
#[derive(Clone, Copy, PartialEq, Eq, Structural, Debug)]
pub enum Key {
    Char(char),
    Backspace,
    Delete,
    Left,
    Right,
    Up,
    Down,
    Home,
    End,
    Enter,
    Tab,
    BackTab,
    Esc,
    Other,
}

/// The screens of the main interface.
#[derive(Clone, Copy, PartialEq, Eq, Structural, Debug)]
pub enum AppMode {
    Menu,
    FileManager,
    ColorTheme,
    PackManSearch,
    PackManProgress,
}

/// The row after `sel` in a list of `n` rows, wrapping from the last to the
/// first; the first row when none is selected.
pub open spec fn wrap_next(sel: Option<int>, n: int) -> int {
    match sel {
        Some(i) => if i >= n - 1 { 0 } else { i + 1 },
        None => 0,
    }
}

/// The row before `sel` in a list of `n` rows, wrapping from the first to the
/// last; the first row when none is selected.
pub open spec fn wrap_prev(sel: Option<int>, n: int) -> int {
    match sel {
        Some(i) => if i == 0 { n - 1 } else { i - 1 },
        None => 0,
    }
}

/// The row after `sel` (see [`wrap_next`]).
pub fn wrap_next_exec(sel: Option<usize>, n: usize) -> (r: usize)
    requires
        n >= 1,
    ensures
        r == wrap_next(match sel { Some(i) => Some(i as int), None => None }, n as int),
{
    match sel {
        Some(i) => if i >= n - 1 {
            0
        } else {
            i + 1
        },
        None => 0,
    }
}

/// The row before `sel` (see [`wrap_prev`]).
pub fn wrap_prev_exec(sel: Option<usize>, n: usize) -> (r: usize)
    requires
        n >= 1,
    ensures
        r == wrap_prev(match sel { Some(i) => Some(i as int), None => None }, n as int),
{
    match sel {
        Some(i) => if i == 0 {
            n - 1
        } else {
            i - 1
        },
        None => 0,
    }
}

/// Moving down then up, or up then down, in a list returns to the row that
/// was selected; either move keeps the selection within the list.
pub proof fn wrap_moves_undo(i: int, n: int)
    requires
        0 <= i < n,
    ensures
        wrap_prev(Some(wrap_next(Some(i), n)), n) == i,
        wrap_next(Some(wrap_prev(Some(i), n)), n) == i,
        0 <= wrap_next(Some(i), n) < n,
        0 <= wrap_prev(Some(i), n) < n,
{
}

} // verus!
