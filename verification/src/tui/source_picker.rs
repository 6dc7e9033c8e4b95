//! The picker that chooses one of several sources offering the same package.
use vstd::prelude::*;
use crate::tui::Key;

verus! {

/// What a key press in the source picker leads to.
#[derive(Debug, Clone, Copy, PartialEq, Eq, Structural)]
pub enum PickerStep {
    /// Keep picking, with this row highlighted.
    Stay(usize),
    /// The row is picked.
    Pick(usize),
    /// Nothing is picked.
    Cancel,
}

/// The step after `key` with row `selected` of `count` highlighted: up moves
/// to the row above, staying on the first; down moves to the row below,
/// staying on the last; enter picks the highlighted row; `q` or escape
/// cancel; other keys change nothing.
pub open spec fn picker_spec(selected: usize, count: usize, key: Key) -> PickerStep {
    match key {
        Key::Up => PickerStep::Stay(if selected > 0 { (selected - 1) as usize } else { 0 }),
        Key::Down => PickerStep::Stay(if selected + 1 < count { (selected + 1) as usize } else { selected }),
        Key::Enter => PickerStep::Pick(selected),
        Key::Char('q') | Key::Esc => PickerStep::Cancel,
        _ => PickerStep::Stay(selected),
    }
}

/// The step after a key press in the source picker (see [`picker_spec`]).
pub fn picker_step(selected: usize, count: usize, key: Key) -> (r: PickerStep)
    requires
        selected < count,
    ensures
        r == picker_spec(selected, count, key),
        r matches PickerStep::Stay(i) ==> i < count,
        r matches PickerStep::Pick(i) ==> i < count,
{
    match key {
        Key::Up => PickerStep::Stay(if selected > 0 { selected - 1 } else { 0 }),
        Key::Down => PickerStep::Stay(if selected + 1 < count { selected + 1 } else { selected }),
        Key::Enter => PickerStep::Pick(selected),
        Key::Char('q') | Key::Esc => PickerStep::Cancel,
        _ => PickerStep::Stay(selected),
    }
}

} // verus!
