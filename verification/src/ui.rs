//! The inline progress display for installs, removals and updates run from
//! the command line.
use vstd::prelude::*;
use crate::text::{chars_of, dec, dec_exec, append_chars, append_str};
use crate::sys::string_of;
use crate::pm::builtin::{strs, copy_strings};

verus! {

/// The operation that the inline display shows.
#[derive(Debug, Clone, Copy, PartialEq, Eq, Structural)]
pub enum UIOperation {
    Install,
    Remove,
    Update,
}

/// The spinner's frames.
pub open spec fn spinner_frames() -> Seq<Seq<char>> {
    seq!["⠋"@, "⠙"@, "⠹"@, "⠸"@, "⠼"@, "⠴"@, "⠦"@, "⠧"@, "⠇"@, "⠏"@]
}

/// The spinner's frame at step `i`: the frames in turn.
pub fn spinner_frame(i: u64) -> (r: &'static str)
    ensures
        r@ == spinner_frames()[(i % 10) as int],
{
    let k = i % 10;
    if k == 0 { "⠋" } else if k == 1 { "⠙" } else if k == 2 { "⠹" } else if k == 3 { "⠸" }
    else if k == 4 { "⠼" } else if k == 5 { "⠴" } else if k == 6 { "⠦" } else if k == 7 { "⠧" }
    else if k == 8 { "⠇" } else { "⠏" }
}

/// The items that the display works through: one per package, or
/// `System Packages` for an update; none when there is nothing to install or
/// remove.
pub open spec fn operation_items(op: UIOperation, packages: Seq<Seq<char>>) -> Option<Seq<Seq<char>>> {
    if op == UIOperation::Update {
        Some(seq!["System Packages"@])
    } else if packages.len() == 0 {
        None
    } else {
        Some(packages)
    }
}

/// The items that the display works through (see [`operation_items`]).
pub fn items_for(op: UIOperation, packages: &Vec<String>) -> (r: Option<Vec<String>>)
    ensures
        match r {
            Some(v) => operation_items(op, strs(packages@)) == Some(strs(v@)),
            None => operation_items(op, strs(packages@)) is None,
        },
{
    if op == UIOperation::Update {
        let mut v: Vec<String> = Vec::new();
        v.push("System Packages".to_owned());
        assert(strs(v@) =~= seq!["System Packages"@]);
        Some(v)
    } else if packages.len() == 0 {
        None
    } else {
        Some(copy_strings(packages))
    }
}

/// The verb that the display shows for the operation.
pub open spec fn action_text(op: UIOperation) -> Seq<char> {
    match op {
        UIOperation::Install => "Installing"@,
        UIOperation::Remove => "Removing"@,
        UIOperation::Update => "Updating"@,
    }
}

/// The verb that the display shows for the operation.
pub fn action_text_of(op: UIOperation) -> (r: &'static str)
    ensures
        r@ == action_text(op),
{
    match op {
        UIOperation::Install => "Installing",
        UIOperation::Remove => "Removing",
        UIOperation::Update => "Updating",
    }
}

/// The line that shows an item at work: the spinner's frame, the verb and
/// the item.
pub fn info_text(frame: &str, op: UIOperation, item: &str) -> (r: String)
    ensures
        r@ == frame@ + " "@ + action_text(op) + " "@ + item@ + " "@,
{
    let mut t = chars_of(frame);
    append_str(&mut t, " ");
    append_str(&mut t, action_text_of(op));
    append_str(&mut t, " ");
    append_str(&mut t, item);
    append_str(&mut t, " ");
    string_of(t.as_slice())
}

/// The count of finished items: ` <done>/<total>`.
pub fn progress_text(done: u64, total: u64) -> (r: String)
    ensures
        r@ == " "@ + dec(done as nat) + "/"@ + dec(total as nat),
{
    let mut t = chars_of(" ");
    append_chars(&mut t, dec_exec(done).as_slice());
    append_str(&mut t, "/");
    append_chars(&mut t, dec_exec(total).as_slice());
    string_of(t.as_slice())
}

/// The line left for a finished item: a check mark or a cross, then the item.
pub fn outcome_line(success: bool, item: &str) -> (r: String)
    ensures
        r@ == (if success { "✓"@ } else { "✗"@ }) + " "@ + item@,
{
    let mut t = chars_of(if success { "✓" } else { "✗" });
    append_str(&mut t, " ");
    append_str(&mut t, item);
    string_of(t.as_slice())
}

/// The closing line.
pub fn done_line(total: u64) -> (r: String)
    ensures
        r@ == "Done! Processed "@ + dec(total as nat) + " packages."@,
{
    let mut t = chars_of("Done! Processed ");
    append_chars(&mut t, dec_exec(total).as_slice());
    append_str(&mut t, " packages.");
    string_of(t.as_slice())
}


/// The operation that an action name asks for: `install`, `remove` or
/// `update`; none for any other name.
pub open spec fn operation_named(action: Seq<char>) -> Option<UIOperation> {
    if action == "install"@ {
        Some(UIOperation::Install)
    } else if action == "remove"@ {
        Some(UIOperation::Remove)
    } else if action == "update"@ {
        Some(UIOperation::Update)
    } else {
        None
    }
}

/// The operation that an action name asks for (see [`operation_named`]).
pub fn operation_for(action: &str) -> (r: Option<UIOperation>)
    ensures
        r == operation_named(action@),
{
    let a = chars_of(action);
    if crate::text::eq_str(a.as_slice(), "install") {
        Some(UIOperation::Install)
    } else if crate::text::eq_str(a.as_slice(), "remove") {
        Some(UIOperation::Remove)
    } else if crate::text::eq_str(a.as_slice(), "update") {
        Some(UIOperation::Update)
    } else {
        None
    }
}

} // verus!
