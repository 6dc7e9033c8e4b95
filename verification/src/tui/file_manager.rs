//! The file manager: three panes (the parent directory, the current one, a
//! preview of the selected entry) and the commands that act on the selected
//! entry.
//!
//! Reading directories and files, opening, editing, deleting and moving are
//! done by the caller; the state here decides what is listed and selected,
//! what each key asks for, and what the preview says.
use vstd::prelude::*;
use crate::text::{
    chars_of, text_lt, text_lt_exec, lemma_text_lt_irreflexive, lemma_text_lt_transitive,
    lemma_text_lt_total, append_str, append_chars, dec, dec_exec, lines, lines_of, views,
    rfind, rfind_exec, lemma_rfind_some, starts_with_char, starts_with_char_exec,
};
use crate::sys::{string_of, lowercase, to_lowercase};
use crate::pm::builtin::{strs, lemma_strs_push};
use crate::tui::{Key, wrap_next, wrap_prev, wrap_next_exec, wrap_prev_exec};
use crate::paths::{join_path, parent_path, file_name_of, join_path_exec, parent_path_exec, file_name_exec};

verus! {

// ── Entries ──────────────────────────────────────────────────────────────────

/// An entry of a directory.
#[derive(Debug, Clone)]
pub struct FileEntry {
    pub name: String,
    pub is_dir: bool,
    pub size: u64,
}

/// The contents of a [`FileEntry`].
pub struct EntryView {
    pub name: Seq<char>,
    pub is_dir: bool,
    pub size: int,
}

impl View for FileEntry {
    type V = EntryView;

    open spec fn view(&self) -> EntryView {
        EntryView { name: self.name@, is_dir: self.is_dir, size: self.size as int }
    }
}

impl FileEntry {
    /// A field-by-field copy.
    pub fn copy(&self) -> (r: FileEntry)
        ensures
            r@ == self@,
    {
        FileEntry { name: self.name.clone(), is_dir: self.is_dir, size: self.size }
    }
}

/// The contents of a sequence of entries.
pub open spec fn entry_views(v: Seq<FileEntry>) -> Seq<EntryView> {
    v.map_values(|e: FileEntry| e@)
}

/// `a` is listed before `b`: directories before files, then by name compared
/// in lower case.
pub open spec fn entry_before(a: EntryView, b: EntryView) -> bool {
    (a.is_dir && !b.is_dir) || (a.is_dir == b.is_dir && text_lt(lowercase(a.name), lowercase(b.name)))
}

/// The sorted entries `r` with `x` added after every entry that it is not
/// listed before.
pub open spec fn place(r: Seq<EntryView>, x: EntryView) -> Seq<EntryView>
    decreases r.len(),
{
    if r.len() == 0 {
        seq![x]
    } else if entry_before(x, r.last()) {
        place(r.drop_last(), x).push(r.last())
    } else {
        r.push(x)
    }
}

/// The entries `s` in listing order: directories first, then by lower-case
/// name, entries that compare equal in their original order (a stable sort).
pub open spec fn sorted_entries(s: Seq<EntryView>) -> Seq<EntryView>
    decreases s.len(),
{
    if s.len() == 0 {
        Seq::empty()
    } else {
        place(sorted_entries(s.drop_last()), s.last())
    }
}

/// Whether `a` is listed before `b` (see [`entry_before`]).
pub fn entry_before_exec(a: &FileEntry, b: &FileEntry) -> (r: bool)
    ensures
        r == entry_before(a@, b@),
{
    if a.is_dir != b.is_dir {
        a.is_dir
    } else {
        let la = to_lowercase(a.name.as_str());
        let lb = to_lowercase(b.name.as_str());
        text_lt_exec(chars_of(la.as_str()).as_slice(), chars_of(lb.as_str()).as_slice())
    }
}

proof fn lemma_place_at(r: Seq<EntryView>, x: EntryView, j: int)
    requires
        0 <= j <= r.len(),
        forall|m: int| j <= m < r.len() ==> entry_before(x, #[trigger] r[m]),
        j > 0 ==> !entry_before(x, r[j - 1]),
    ensures
        place(r, x) == r.take(j) + seq![x] + r.skip(j),
    decreases r.len(),
{
    if r.len() == 0 {
        assert(r.take(j) + seq![x] + r.skip(j) =~= seq![x]);
    } else if j == r.len() {
        assert(r.take(j) + seq![x] + r.skip(j) =~= r.push(x));
    } else {
        let d = r.drop_last();
        assert(entry_before(x, r[r.len() - 1]));
        assert forall|m: int| j <= m < d.len() implies entry_before(x, #[trigger] d[m]) by {
            assert(d[m] == r[m]);
        }
        if j > 0 {
            assert(d[j - 1] == r[j - 1]);
        }
        lemma_place_at(d, x, j);
        assert(d.take(j) + seq![x] + d.skip(j) + seq![r.last()] =~= r.take(j) + seq![x] + r.skip(j));
    }
}

/// The entries in listing order (see [`sorted_entries`]).
pub fn sort_entries(entries: Vec<FileEntry>) -> (r: Vec<FileEntry>)
    ensures
        entry_views(r@) == sorted_entries(entry_views(entries@)),
{
    let ghost ev = entry_views(entries@);
    let mut r: Vec<FileEntry> = Vec::new();
    let mut k: usize = 0;
    while k < entries.len()
        invariant
            k <= entries@.len(),
            ev == entry_views(entries@),
            entry_views(r@) == sorted_entries(ev.take(k as int)),
        decreases entries@.len() - k,
    {
        let x = entries[k].copy();
        let ghost xv = entries@[k as int]@;
        assert(x@ == xv);
        assert(ev[k as int] == xv);
        let ghost rv = entry_views(r@);
        let mut j = r.len();
        while j > 0 && entry_before_exec(&x, &r[j - 1])
            invariant
                j <= r@.len(),
                rv == entry_views(r@),
                x@ == xv,
                forall|m: int| j <= m < rv.len() ==> entry_before(xv, #[trigger] rv[m]),
            decreases j,
        {
            j = j - 1;
        }
        proof {
            lemma_place_at(rv, xv, j as int);
            assert(ev.take(k + 1).drop_last() =~= ev.take(k as int));
        }
        r.insert(j, x);
        assert(entry_views(r@) =~= rv.take(j as int) + seq![xv] + rv.skip(j as int));
        k = k + 1;
    }
    assert(ev.take(entries@.len() as int) =~= ev);
    r
}

// ── The order of the listing ─────────────────────────────────────────────────

proof fn lemma_not_before_transitive(a: EntryView, b: EntryView, c: EntryView)
    requires
        !entry_before(a, b),
        !entry_before(b, c),
    ensures
        !entry_before(a, c),
{
    let (la, lb, lc) = (lowercase(a.name), lowercase(b.name), lowercase(c.name));
    lemma_text_lt_total(la, lb);
    lemma_text_lt_total(lb, lc);
    lemma_text_lt_total(la, lc);
    if text_lt(la, lc) {
        if text_lt(lb, la) {
            lemma_text_lt_transitive(lb, la, lc);
        }
    }
}

/// A listing is in order: no entry is listed before one that comes earlier.
pub open spec fn in_order(r: Seq<EntryView>) -> bool {
    forall|i: int, j: int| 0 <= i < j < r.len() ==> !entry_before(r[j], r[i])
}

proof fn lemma_place_in_order(r: Seq<EntryView>, x: EntryView)
    requires
        in_order(r),
    ensures
        in_order(place(r, x)),
        place(r, x).len() == r.len() + 1,
        forall|m: int| 0 <= m < place(r, x).len() ==> #[trigger] place(r, x)[m] == x || r.contains(place(r, x)[m]),
    decreases r.len(),
{
    if r.len() == 0 {
    } else if entry_before(x, r.last()) {
        let d = r.drop_last();
        assert(in_order(d)) by {
            assert forall|i: int, j: int| 0 <= i < j < d.len() implies !entry_before(d[j], d[i]) by {
                assert(d[i] == r[i]);
                assert(d[j] == r[j]);
            }
        }
        lemma_place_in_order(d, x);
        let p = place(d, x);
        let last = r.last();
        assert forall|i: int, j: int| 0 <= i < j < p.push(last).len() implies !entry_before(
            p.push(last)[j],
            p.push(last)[i],
        ) by {
            if j == p.len() {
                let e = p[i];
                if e == x {
                    lemma_text_lt_total(lowercase(x.name), lowercase(last.name));
                } else {
                    assert(d.contains(e));
                    let k = choose|k: int| 0 <= k < d.len() && d[k] == e;
                    assert(r[k] == e);
                    assert(!entry_before(r[r.len() - 1], r[k]));
                }
            } else {
                assert(p.push(last)[i] == p[i]);
                assert(p.push(last)[j] == p[j]);
            }
        }
        assert forall|m: int| 0 <= m < p.push(last).len() implies #[trigger] p.push(last)[m] == x
            || r.contains(p.push(last)[m]) by {
            if m == p.len() {
                assert(r[r.len() - 1] == last);
            } else {
                assert(p.push(last)[m] == p[m]);
                if p[m] != x {
                    let k = choose|k: int| 0 <= k < d.len() && d[k] == p[m];
                    assert(r[k] == p[m]);
                }
            }
        }
    } else {
        assert forall|i: int, j: int| 0 <= i < j < r.push(x).len() implies !entry_before(
            r.push(x)[j],
            r.push(x)[i],
        ) by {
            if j == r.len() {
                if i < r.len() - 1 {
                    assert(!entry_before(r[r.len() - 1], r[i]));
                    lemma_not_before_transitive(x, r[r.len() - 1], r[i]);
                }
            }
        }
        assert forall|m: int| 0 <= m < r.push(x).len() implies #[trigger] r.push(x)[m] == x
            || r.contains(r.push(x)[m]) by {
            if m < r.len() {
                assert(r.push(x)[m] == r[m]);
            }
        }
    }
}

/// The listing order holds of every sorted listing: directories come before
/// files, and entries of one kind are in order of their lower-case names.
pub proof fn sorted_entries_in_order(s: Seq<EntryView>)
    ensures
        in_order(sorted_entries(s)),
        sorted_entries(s).len() == s.len(),
        forall|i: int, j: int|
            0 <= i < j < s.len() && (#[trigger] sorted_entries(s)[j]).is_dir ==> (
            #[trigger] sorted_entries(s)[i]).is_dir,
    decreases s.len(),
{
    if s.len() > 0 {
        sorted_entries_in_order(s.drop_last());
        lemma_place_in_order(sorted_entries(s.drop_last()), s.last());
    }
    let r = sorted_entries(s);
    assert forall|i: int, j: int|
        0 <= i < j < s.len() && (#[trigger] r[j]).is_dir implies (#[trigger] r[i]).is_dir by {
        assert(!entry_before(r[j], r[i]));
    }
}

// ── The state ────────────────────────────────────────────────────────────────

/// A request to show the preview of the entry at `path`.
#[derive(Debug)]
pub struct PreviewRequest {
    pub path: String,
    pub is_dir: bool,
}

/// The file manager's state.
#[derive(Debug)]
pub struct FileManagerState {
    pub current_dir: String,
    pub parent_entries: Vec<FileEntry>,
    pub current_entries: Vec<FileEntry>,
    pub preview_text: Vec<String>,
    pub selected: Option<usize>,
    /// The entry marked to be moved by the next paste.
    pub marked_for_move: Option<String>,
    /// The entry, and whether it is a directory, that waits for the user to
    /// confirm its deletion.
    pub pending_delete: Option<(String, bool)>,
    /// The entry being renamed and the new name typed so far.
    pub rename_input: Option<(String, Vec<char>)>,
}

/// The contents of a [`FileManagerState`].
pub struct FmView {
    pub dir: Seq<char>,
    pub parent: Seq<EntryView>,
    pub current: Seq<EntryView>,
    pub preview: Seq<Seq<char>>,
    pub selected: Option<int>,
    pub marked: Option<Seq<char>>,
    pub pending: Option<(Seq<char>, bool)>,
    pub renaming: Option<(Seq<char>, Seq<char>)>,
}

impl View for FileManagerState {
    type V = FmView;

    open spec fn view(&self) -> FmView {
        FmView {
            dir: self.current_dir@,
            parent: entry_views(self.parent_entries@),
            current: entry_views(self.current_entries@),
            preview: strs(self.preview_text@),
            selected: match self.selected {
                Some(i) => Some(i as int),
                None => None,
            },
            marked: match self.marked_for_move {
                Some(m) => Some(m@),
                None => None,
            },
            pending: match self.pending_delete {
                Some((p, d)) => Some((p@, d)),
                None => None,
            },
            renaming: match self.rename_input {
                Some((p, t)) => Some((p@, t@)),
                None => None,
            },
        }
    }
}

/// What a key press asks the caller to do.
#[derive(Debug)]
pub enum FmCommand {
    Nothing,
    /// Show the preview of an entry.
    Preview(PreviewRequest),
    /// Enter this directory, when it can be read.
    DrillDown(String),
    /// Go up to this directory.
    DrillUp(String),
    /// Open this file with the desktop's opener.
    Open(String),
    /// Edit this entry with the user's editor.
    Edit(String),
    /// Delete this entry (a directory with its contents), then refresh.
    Delete(String, bool),
    /// Move the first path to the second, then refresh.
    Paste(String, String),
    /// Rename the first path to the second, then refresh.
    Rename(String, String),
    /// Leave the file manager.
    Quit,
}

/// The contents of an [`FmCommand`].
pub enum CommandView {
    Nothing,
    Preview(Seq<char>, bool),
    DrillDown(Seq<char>),
    DrillUp(Seq<char>),
    Open(Seq<char>),
    Edit(Seq<char>),
    Delete(Seq<char>, bool),
    Paste(Seq<char>, Seq<char>),
    Rename(Seq<char>, Seq<char>),
    Quit,
}

impl View for FmCommand {
    type V = CommandView;

    open spec fn view(&self) -> CommandView {
        match self {
            FmCommand::Nothing => CommandView::Nothing,
            FmCommand::Preview(p) => CommandView::Preview(p.path@, p.is_dir),
            FmCommand::DrillDown(d) => CommandView::DrillDown(d@),
            FmCommand::DrillUp(d) => CommandView::DrillUp(d@),
            FmCommand::Open(d) => CommandView::Open(d@),
            FmCommand::Edit(d) => CommandView::Edit(d@),
            FmCommand::Delete(d, b) => CommandView::Delete(d@, *b),
            FmCommand::Paste(a, b) => CommandView::Paste(a@, b@),
            FmCommand::Rename(a, b) => CommandView::Rename(a@, b@),
            FmCommand::Quit => CommandView::Quit,
        }
    }
}

/// The selected entry, when the selection points at one.
pub open spec fn selected_entry(v: FmView) -> Option<EntryView> {
    match v.selected {
        Some(i) => if 0 <= i < v.current.len() {
            Some(v.current[i])
        } else {
            None
        },
        None => None,
    }
}

/// The preview to show: the selected entry's path and kind.
pub open spec fn preview_of(v: FmView) -> Option<(Seq<char>, bool)> {
    match selected_entry(v) {
        Some(e) => Some((join_path(v.dir, e.name), e.is_dir)),
        None => None,
    }
}

/// `v` with row `i` selected, asking for its preview.
pub open spec fn moved(v: FmView, i: int) -> (FmView, CommandView) {
    let w = FmView { selected: Some(i), ..v };
    (
        w,
        match preview_of(w) {
            Some(p) => CommandView::Preview(p.0, p.1),
            None => CommandView::Nothing,
        },
    )
}

/// The next state and the command after `key`.
///
/// Down or `j` and up or `k` move the selection with wrap-around and ask for
/// the new entry's preview; right, `l` or enter enter the selected directory;
/// left, `h` or backspace go up to the parent directory; `o` opens the
/// selected file, `e` edits the selected entry, `d` asks to delete it; `m`
/// marks it to be moved and `p` moves the marked entry into the current
/// directory; `r` starts renaming it; `q` or escape leave. While a deletion
/// waits for confirmation, `y` or enter deletes the entry and any other key
/// keeps it; while a new name is typed, see [`rename_step`].
pub open spec fn fm_key_step(v: FmView, key: Key) -> (FmView, CommandView) {
    match v.pending {
        Some(p) => (
            FmView { pending: None, ..v },
            match key {
                Key::Char('y') | Key::Char('Y') | Key::Enter => CommandView::Delete(p.0, p.1),
                _ => CommandView::Nothing,
            },
        ),
        None => match v.renaming {
            Some(r) => rename_step(v, r.0, r.1, key),
            None => fm_plain_key_step(v, key),
        },
    }
}

/// The next state and the command after `key` while the entry at `src` is
/// being renamed and `typed` is the new name so far: a character is added to
/// the name, backspace takes the last one away, enter renames the entry to the
/// typed name in the current directory (nothing when the name is empty), and
/// escape gives up.
pub open spec fn rename_step(v: FmView, src: Seq<char>, typed: Seq<char>, key: Key) -> (
    FmView,
    CommandView,
) {
    match key {
        Key::Char(c) => (FmView { renaming: Some((src, typed.push(c))), ..v }, CommandView::Nothing),
        Key::Backspace => (
            FmView {
                renaming: Some(
                    (
                        src,
                        if typed.len() > 0 {
                            typed.drop_last()
                        } else {
                            typed
                        },
                    ),
                ),
                ..v
            },
            CommandView::Nothing,
        ),
        Key::Enter => (
            FmView { renaming: None, ..v },
            if typed.len() > 0 {
                CommandView::Rename(src, join_path(v.dir, typed))
            } else {
                CommandView::Nothing
            },
        ),
        Key::Esc => (FmView { renaming: None, ..v }, CommandView::Nothing),
        _ => (v, CommandView::Nothing),
    }
}

/// The next state and the command after `key` when no deletion waits for
/// confirmation (see [`fm_key_step`]).
pub open spec fn fm_plain_key_step(v: FmView, key: Key) -> (FmView, CommandView) {
    match key {
        Key::Down | Key::Char('j') => if v.current.len() == 0 {
            (v, CommandView::Nothing)
        } else {
            moved(v, wrap_next(v.selected, v.current.len() as int))
        },
        Key::Up | Key::Char('k') => if v.current.len() == 0 {
            (v, CommandView::Nothing)
        } else {
            moved(v, wrap_prev(v.selected, v.current.len() as int))
        },
        Key::Right | Key::Char('l') | Key::Enter => (
            v,
            match selected_entry(v) {
                Some(e) => if e.is_dir {
                    CommandView::DrillDown(join_path(v.dir, e.name))
                } else {
                    CommandView::Nothing
                },
                None => CommandView::Nothing,
            },
        ),
        Key::Left | Key::Char('h') | Key::Backspace => (
            v,
            match parent_path(v.dir) {
                Some(p) => CommandView::DrillUp(p),
                None => CommandView::Nothing,
            },
        ),
        Key::Char('o') => (
            v,
            match selected_entry(v) {
                Some(e) => if !e.is_dir {
                    CommandView::Open(join_path(v.dir, e.name))
                } else {
                    CommandView::Nothing
                },
                None => CommandView::Nothing,
            },
        ),
        Key::Char('e') => (
            v,
            match selected_entry(v) {
                Some(e) => CommandView::Edit(join_path(v.dir, e.name)),
                None => CommandView::Nothing,
            },
        ),
        Key::Char('d') => match selected_entry(v) {
            Some(e) => (
                FmView { pending: Some((join_path(v.dir, e.name), e.is_dir)), ..v },
                CommandView::Nothing,
            ),
            None => (v, CommandView::Nothing),
        },
        Key::Char('m') => match selected_entry(v) {
            Some(e) => (FmView { marked: Some(join_path(v.dir, e.name)), ..v }, CommandView::Nothing),
            None => (v, CommandView::Nothing),
        },
        Key::Char('r') => match selected_entry(v) {
            Some(e) => (
                FmView { renaming: Some((join_path(v.dir, e.name), e.name)), ..v },
                CommandView::Nothing,
            ),
            None => (v, CommandView::Nothing),
        },
        Key::Char('p') => match v.marked {
            Some(src) => match file_name_of(src) {
                Some(f) => (FmView { marked: None, ..v }, CommandView::Paste(src, join_path(v.dir, f))),
                None => (v, CommandView::Nothing),
            },
            None => (v, CommandView::Nothing),
        },
        Key::Char('q') | Key::Esc => (v, CommandView::Quit),
        _ => (v, CommandView::Nothing),
    }
}

/// `v` with the listings read again: the current directory's entries and,
/// when it has a parent, the parent's, both in listing order; the selection
/// kept within the listing (none when it is empty, with the preview cleared),
/// and the preview of the selected entry asked for.
pub open spec fn refreshed(v: FmView, current: Seq<EntryView>, parent: Seq<EntryView>) -> (
    FmView,
    Option<(Seq<char>, bool)>,
) {
    let cur = sorted_entries(current);
    let par = if parent_path(v.dir) is Some {
        sorted_entries(parent)
    } else {
        Seq::empty()
    };
    let w = FmView { current: cur, parent: par, ..v };
    if cur.len() == 0 {
        (FmView { selected: None, preview: Seq::empty(), ..w }, None)
    } else {
        let i0 = match v.selected {
            Some(i) => i,
            None => 0,
        };
        let i = if i0 < cur.len() - 1 { i0 } else { cur.len() - 1 };
        let x = FmView { selected: Some(i), ..w };
        (x, preview_of(x))
    }
}

/// The index of the first entry named `name`.
pub open spec fn entry_position(es: Seq<EntryView>, name: Seq<char>, i: int) -> Option<int>
    decreases es.len() - i,
{
    if i < 0 || i >= es.len() {
        None
    } else if es[i].name == name {
        Some(i)
    } else {
        entry_position(es, name, i + 1)
    }
}

/// The contents of an optional preview request.
pub open spec fn request_view(r: Option<PreviewRequest>) -> Option<(Seq<char>, bool)> {
    match r {
        Some(p) => Some((p.path@, p.is_dir)),
        None => None,
    }
}

/// Nothing is deleted without confirmation: a key pressed while no deletion
/// waits never asks for one.
pub proof fn delete_needs_confirmation(v: FmView, key: Key)
    requires
        v.pending is None,
    ensures
        !(fm_key_step(v, key).1 is Delete),
{
}

/// While a new name is typed, backspace takes back the character just typed.
pub proof fn rename_backspace_undoes_typing(v: FmView, c: char)
    requires
        v.pending is None,
        v.renaming is Some,
    ensures
        fm_key_step(fm_key_step(v, Key::Char(c)).0, Key::Backspace).0 == v,
{
    let (src, typed) = v.renaming->0;
    assert(typed.push(c).drop_last() =~= typed);
}

impl FileManagerState {
    /// The file manager in the home directory (the root when there is none),
    /// before its listings are read.
    pub fn new(home: Option<&str>) -> (r: FileManagerState)
        ensures
            r@.dir == (match home {
                Some(h) => h@,
                None => "/"@,
            }),
            r@.current.len() == 0,
            r@.parent.len() == 0,
            r@.preview.len() == 0,
            r@.selected is None,
            r@.marked is None,
            r@.pending is None,
            r@.renaming is None,
    {
        let dir = match home {
            Some(h) => h.to_owned(),
            None => "/".to_owned(),
        };
        let r = FileManagerState {
            current_dir: dir,
            parent_entries: Vec::new(),
            current_entries: Vec::new(),
            preview_text: Vec::new(),
            selected: None,
            marked_for_move: None,
            pending_delete: None,
            rename_input: None,
        };
        assert(entry_views(r.current_entries@).len() == 0);
        r
    }

    /// The preview request for the selected entry.
    fn preview_request(&self) -> (r: Option<PreviewRequest>)
        ensures
            request_view(r) == preview_of(self@),
    {
        match self.selected {
            Some(i) => if i < self.current_entries.len() {
                let e = &self.current_entries[i];
                assert(self@.current[i as int] == e@);
                Some(
                    PreviewRequest {
                        path: join_path_exec(self.current_dir.as_str(), e.name.as_str()),
                        is_dir: e.is_dir,
                    },
                )
            } else {
                None
            },
            None => None,
        }
    }

    /// Take the listings read again (see [`refreshed`]); the caller shows the
    /// preview asked for.
    pub fn refresh(&mut self, current: Vec<FileEntry>, parent: Vec<FileEntry>) -> (r: Option<
        PreviewRequest,
    >)
        ensures
            final(self)@ == refreshed(old(self)@, entry_views(current@), entry_views(parent@)).0,
            request_view(r) == refreshed(old(self)@, entry_views(current@), entry_views(parent@)).1,
    {
        self.current_entries = sort_entries(current);
        let has_parent = parent_path_exec(self.current_dir.as_str()).is_some();
        if has_parent {
            self.parent_entries = sort_entries(parent);
        } else {
            self.parent_entries = Vec::new();
            assert(entry_views(self.parent_entries@) =~= Seq::<EntryView>::empty());
        }
        let n = self.current_entries.len();
        if n == 0 {
            self.selected = None;
            self.preview_text = Vec::new();
            assert(strs(self.preview_text@) =~= Seq::<Seq<char>>::empty());
            None
        } else {
            let i0 = match self.selected {
                Some(i) => i,
                None => 0,
            };
            let i = if i0 < n - 1 {
                i0
            } else {
                n - 1
            };
            self.selected = Some(i);
            self.preview_request()
        }
    }

    /// Show the preview lines.
    pub fn set_preview(&mut self, lines: Vec<String>)
        ensures
            final(self)@ == (FmView { preview: strs(lines@), ..old(self)@ }),
    {
        self.preview_text = lines;
    }

    /// Select the next entry, wrapping around, and ask for its preview;
    /// nothing when the directory is empty.
    pub fn next(&mut self) -> (r: Option<PreviewRequest>)
        ensures
            old(self)@.current.len() == 0 ==> final(self)@ == old(self)@ && r is None,
            old(self)@.current.len() > 0 ==> final(self)@ == moved(
                old(self)@,
                wrap_next(old(self)@.selected, old(self)@.current.len() as int),
            ).0 && request_view(r) == preview_of(final(self)@),
    {
        if self.current_entries.len() == 0 {
            return None;
        }
        let i = wrap_next_exec(self.selected, self.current_entries.len());
        self.selected = Some(i);
        self.preview_request()
    }

    /// Select the previous entry, wrapping around, and ask for its preview;
    /// nothing when the directory is empty.
    pub fn previous(&mut self) -> (r: Option<PreviewRequest>)
        ensures
            old(self)@.current.len() == 0 ==> final(self)@ == old(self)@ && r is None,
            old(self)@.current.len() > 0 ==> final(self)@ == moved(
                old(self)@,
                wrap_prev(old(self)@.selected, old(self)@.current.len() as int),
            ).0 && request_view(r) == preview_of(final(self)@),
    {
        if self.current_entries.len() == 0 {
            return None;
        }
        let i = wrap_prev_exec(self.selected, self.current_entries.len());
        self.selected = Some(i);
        self.preview_request()
    }

    /// Enter the directory `dir` with its first entry selected; the caller
    /// then reads the listings and refreshes.
    pub fn enter_dir(&mut self, dir: String)
        ensures
            final(self)@ == (FmView { dir: dir@, selected: Some(0), ..old(self)@ }),
    {
        self.current_dir = dir;
        self.selected = Some(0);
    }

    /// Go up to `parent`, answering the name of the directory that is left;
    /// the caller then reads the listings, refreshes and selects that name.
    pub fn enter_parent(&mut self, parent: String) -> (r: Option<String>)
        ensures
            final(self)@ == (FmView { dir: parent@, ..old(self)@ }),
            match r {
                Some(n) => file_name_of(old(self)@.dir) == Some(n@),
                None => file_name_of(old(self)@.dir) is None,
            },
    {
        let old_name = file_name_exec(self.current_dir.as_str());
        self.current_dir = parent;
        old_name
    }

    /// Select the entry named `name` and ask for its preview; nothing when no
    /// entry has that name.
    pub fn select_named(&mut self, name: &str) -> (r: Option<PreviewRequest>)
        ensures
            match entry_position(old(self)@.current, name@, 0) {
                Some(i) => final(self)@ == moved(old(self)@, i).0 && request_view(r) == preview_of(
                    final(self)@,
                ),
                None => final(self)@ == old(self)@ && r is None,
            },
    {
        let nc = chars_of(name);
        let ghost cv = self@.current;
        let mut k: usize = 0;
        while k < self.current_entries.len()
            invariant
                k <= self.current_entries@.len(),
                cv == entry_views(self.current_entries@),
                cv == old(self)@.current,
                self@ == old(self)@,
                nc@ == name@,
                entry_position(cv, name@, 0) == entry_position(cv, name@, k as int),
            decreases self.current_entries@.len() - k,
        {
            let ec = chars_of(self.current_entries[k].name.as_str());
            assert(cv[k as int] == self.current_entries@[k as int]@);
            if crate::text::text_eq(ec.as_slice(), nc.as_slice()) {
                self.selected = Some(k);
                return self.preview_request();
            }
            k = k + 1;
        }
        None
    }

    /// The selected entry's path and kind.
    fn selected_path(&self) -> (r: Option<(String, bool)>)
        ensures
            match r {
                Some(p) => preview_of(self@) == Some((p.0@, p.1)),
                None => preview_of(self@) is None,
            },
    {
        match self.preview_request() {
            Some(p) => Some((p.path, p.is_dir)),
            None => None,
        }
    }

    /// Handle a key (see [`fm_key_step`]).
    pub fn handle_key(&mut self, key: Key) -> (r: FmCommand)
        ensures
            final(self)@ == fm_key_step(old(self)@, key).0,
            r@ == fm_key_step(old(self)@, key).1,
    {
        let pending = self.pending_delete.take();
        match pending {
            Some((p, d)) => match key {
                Key::Char('y') | Key::Char('Y') | Key::Enter => FmCommand::Delete(p, d),
                _ => FmCommand::Nothing,
            },
            None => {
                let renaming = self.rename_input.take();
                match renaming {
                    Some((src, typed)) => self.rename_key(src, typed, key),
                    None => self.handle_plain_key(key),
                }
            },
        }
    }

    /// Handle a key while a new name is typed (see [`rename_step`]).
    fn rename_key(&mut self, src: String, typed: Vec<char>, key: Key) -> (r: FmCommand)
        requires
            old(self)@.pending is None,
            old(self)@.renaming is None,
        ensures
            final(self)@ == rename_step(
                FmView { renaming: Some((src@, typed@)), ..old(self)@ },
                src@,
                typed@,
                key,
            ).0,
            r@ == rename_step(
                FmView { renaming: Some((src@, typed@)), ..old(self)@ },
                src@,
                typed@,
                key,
            ).1,
    {
        match key {
            Key::Char(c) => {
                let mut t = typed;
                t.push(c);
                self.rename_input = Some((src, t));
                FmCommand::Nothing
            },
            Key::Backspace => {
                let mut t = typed;
                if t.len() > 0 {
                    t.pop();
                }
                self.rename_input = Some((src, t));
                FmCommand::Nothing
            },
            Key::Enter => {
                if typed.len() > 0 {
                    let name = string_of(typed.as_slice());
                    let dest = join_path_exec(self.current_dir.as_str(), name.as_str());
                    FmCommand::Rename(src, dest)
                } else {
                    FmCommand::Nothing
                }
            },
            Key::Esc => FmCommand::Nothing,
            _ => {
                self.rename_input = Some((src, typed));
                FmCommand::Nothing
            },
        }
    }

    /// Handle a key while no deletion waits (see [`fm_plain_key_step`]).
    fn handle_plain_key(&mut self, key: Key) -> (r: FmCommand)
        requires
            old(self)@.pending is None,
            old(self)@.renaming is None,
        ensures
            final(self)@ == fm_plain_key_step(old(self)@, key).0,
            r@ == fm_plain_key_step(old(self)@, key).1,
    {
        match key {
            Key::Down | Key::Char('j') => match self.next() {
                Some(p) => FmCommand::Preview(p),
                None => FmCommand::Nothing,
            },
            Key::Up | Key::Char('k') => match self.previous() {
                Some(p) => FmCommand::Preview(p),
                None => FmCommand::Nothing,
            },
            Key::Right | Key::Char('l') | Key::Enter => match self.selected_path() {
                Some((p, true)) => FmCommand::DrillDown(p),
                _ => FmCommand::Nothing,
            },
            Key::Left | Key::Char('h') | Key::Backspace => match parent_path_exec(self.current_dir.as_str()) {
                Some(p) => FmCommand::DrillUp(p),
                None => FmCommand::Nothing,
            },
            Key::Char('o') => match self.selected_path() {
                Some((p, false)) => FmCommand::Open(p),
                _ => FmCommand::Nothing,
            },
            Key::Char('e') => match self.selected_path() {
                Some((p, _)) => FmCommand::Edit(p),
                None => FmCommand::Nothing,
            },
            Key::Char('d') => {
                match self.selected_path() {
                    Some((p, d)) => {
                        self.pending_delete = Some((p, d));
                    },
                    None => {},
                }
                FmCommand::Nothing
            },
            Key::Char('m') => {
                match self.selected_path() {
                    Some((p, _)) => {
                        self.marked_for_move = Some(p);
                    },
                    None => {},
                }
                FmCommand::Nothing
            },
            Key::Char('p') => {
                let src: Option<String> = match &self.marked_for_move {
                    Some(m) => Some(m.clone()),
                    None => None,
                };
                match src {
                    Some(m) => match file_name_exec(m.as_str()) {
                        Some(f) => {
                            let dest = join_path_exec(self.current_dir.as_str(), f.as_str());
                            self.marked_for_move = None;
                            FmCommand::Paste(m, dest)
                        },
                        None => FmCommand::Nothing,
                    },
                    None => FmCommand::Nothing,
                }
            },
            Key::Char('r') => {
                match self.selected_path() {
                    Some((p, _)) => {
                        let name = self.current_entries[self.selected.unwrap()].name.clone();
                        self.rename_input = Some((p, chars_of(name.as_str())));
                    },
                    None => {},
                }
                FmCommand::Nothing
            },
            Key::Char('q') | Key::Esc => FmCommand::Quit,
            _ => FmCommand::Nothing,
        }
    }
}

// ── Previews ─────────────────────────────────────────────────────────────────

/// The preview line of an entry of a previewed directory.
pub open spec fn entry_line(e: EntryView) -> Seq<char> {
    (if e.is_dir { "▸"@ } else { " "@ }) + " "@ + e.name
}

/// The preview of a directory with the entries `es` (in listing order): its
/// kind, its number of entries, a blank line, the first twenty entries, and
/// `...` when there are more.
pub open spec fn dir_preview(es: Seq<EntryView>) -> Seq<Seq<char>> {
    let shown = if es.len() < 20 { es.len() } else { 20 };
    seq!["📁 Directory"@, "Contains "@ + dec(es.len()) + " items"@, Seq::empty()] + es.take(
        shown as int,
    ).map_values(|e: EntryView| entry_line(e)) + if es.len() > 20 {
        seq!["..."@]
    } else {
        Seq::empty()
    }
}

/// The first `n` characters of `l`, or all of them.
pub open spec fn prefix(l: Seq<char>, n: nat) -> Seq<char> {
    if l.len() < n { l } else { l.take(n as int) }
}

/// The preview of a file: its size when known and a blank line, then its
/// first thirty lines, each cut to eighty characters, when it can be read as
/// text; else a note that it cannot.
pub open spec fn file_preview(size: Option<u64>, content: Option<Seq<char>>) -> Seq<Seq<char>> {
    let head = match size {
        Some(s) => seq!["📄 File: "@ + dec(s as nat) + " bytes"@, Seq::empty()],
        None => Seq::empty(),
    };
    head + match content {
        Some(c) => {
            let ls = lines(c);
            let shown = if ls.len() < 30 { ls.len() } else { 30 };
            ls.take(shown as int).map_values(|l: Seq<char>| prefix(l, 80))
        },
        None => seq!["Binary or unreadable file"@],
    }
}

/// The preview of a directory (see [`dir_preview`]).
pub fn dir_preview_exec(entries: &Vec<FileEntry>) -> (r: Vec<String>)
    ensures
        strs(r@) == dir_preview(entry_views(entries@)),
{
    let ghost ev = entry_views(entries@);
    let n = entries.len();
    let mut r: Vec<String> = Vec::new();
    r.push("📁 Directory".to_owned());
    let mut c = chars_of("Contains ");
    let d = dec_exec(n as u64);
    append_chars(&mut c, d.as_slice());
    append_str(&mut c, " items");
    r.push(string_of(c.as_slice()));
    r.push(String::new());
    let shown = if n < 20 {
        n
    } else {
        20
    };
    let ghost head = seq!["📁 Directory"@, "Contains "@ + dec(n as nat) + " items"@, Seq::<char>::empty()];
    assert(strs(r@) =~= head);
    let mut k: usize = 0;
    while k < shown
        invariant
            k <= shown <= n,
            n == entries@.len(),
            ev == entry_views(entries@),
            strs(r@) == head + ev.take(k as int).map_values(|e: EntryView| entry_line(e)),
        decreases shown - k,
    {
        let e = &entries[k];
        assert(ev[k as int] == e@);
        let mut l: Vec<char> = Vec::new();
        if e.is_dir {
            append_str(&mut l, "▸");
        } else {
            append_str(&mut l, " ");
        }
        append_str(&mut l, " ");
        append_str(&mut l, e.name.as_str());
        let line = string_of(l.as_slice());
        assert(line@ == entry_line(e@));
        let ghost before = r@;
        r.push(line);
        proof {
            lemma_strs_push(before, line);
            assert(ev.take(k + 1).map_values(|e: EntryView| entry_line(e)) =~= ev.take(
                k as int,
            ).map_values(|e: EntryView| entry_line(e)).push(entry_line(ev[k as int])));
        }
        k = k + 1;
    }
    if n > 20 {
        let ghost before = r@;
        let dots = "...".to_owned();
        r.push(dots);
        proof {
            lemma_strs_push(before, dots);
        }
    }
    assert(strs(r@) =~= dir_preview(ev));
    r
}

/// The preview of a file (see [`file_preview`]).
pub fn file_preview_exec(size: Option<u64>, content: Option<&str>) -> (r: Vec<String>)
    ensures
        strs(r@) == file_preview(
            size,
            match content {
                Some(c) => Some(c@),
                None => None,
            },
        ),
{
    let mut r: Vec<String> = Vec::new();
    match size {
        Some(s) => {
            let mut c = chars_of("📄 File: ");
            let d = dec_exec(s);
            append_chars(&mut c, d.as_slice());
            append_str(&mut c, " bytes");
            r.push(string_of(c.as_slice()));
            r.push(String::new());
        },
        None => {},
    }
    let ghost head = strs(r@);
    match content {
        Some(text) => {
            let tc = chars_of(text);
            let ls = lines_of(tc.as_slice());
            let ghost lv = views(ls@);
            let n = ls.len();
            let shown = if n < 30 {
                n
            } else {
                30
            };
            let mut k: usize = 0;
            while k < shown
                invariant
                    k <= shown <= n,
                    n == ls@.len(),
                    lv == views(ls@),
                    lv == lines(text@),
                    strs(r@) == head + lv.take(k as int).map_values(|l: Seq<char>| prefix(l, 80)),
                decreases shown - k,
            {
                let l = &ls[k];
                assert(lv[k as int] == l@);
                let m = if l.len() < 80 {
                    l.len()
                } else {
                    80
                };
                let cut = crate::text::slice_copy(l.as_slice(), 0, m);
                let line = string_of(cut.as_slice());
                assert(line@ =~= prefix(l@, 80));
                let ghost before = r@;
                r.push(line);
                proof {
                    lemma_strs_push(before, line);
                    assert(lv.take(k + 1).map_values(|l: Seq<char>| prefix(l, 80)) =~= lv.take(
                        k as int,
                    ).map_values(|l: Seq<char>| prefix(l, 80)).push(prefix(lv[k as int], 80)));
                }
                k = k + 1;
            }
        },
        None => {
            let ghost before = r@;
            let note = "Binary or unreadable file".to_owned();
            r.push(note);
            proof {
                lemma_strs_push(before, note);
            }
        },
    }
    assert(strs(r@) =~= file_preview(
        size,
        match content {
            Some(c) => Some(c@),
            None => None,
        },
    ));
    r
}


/// With no deletion waiting and no new name typed, enter and `l` do what
/// right does: on a selected directory they ask to go into it, at its path
/// in the current directory, and change nothing.
pub proof fn enter_goes_into_directories(v: FmView)
    requires
        v.pending is None,
        v.renaming is None,
    ensures
        fm_key_step(v, Key::Enter) == fm_key_step(v, Key::Right),
        fm_key_step(v, Key::Char('l')) == fm_key_step(v, Key::Right),
        selected_entry(v) is Some && selected_entry(v)->0.is_dir ==> fm_key_step(v, Key::Enter) == (
            v,
            CommandView::DrillDown(join_path(v.dir, selected_entry(v)->0.name)),
        ),
{
}

/// With no deletion waiting and no new name typed, the arrows and the vim
/// keys agree, backspace goes up as left does, and `q` leaves as escape does.
pub proof fn file_manager_key_pairs_agree(v: FmView)
    requires
        v.pending is None,
        v.renaming is None,
    ensures
        fm_key_step(v, Key::Down) == fm_key_step(v, Key::Char('j')),
        fm_key_step(v, Key::Up) == fm_key_step(v, Key::Char('k')),
        fm_key_step(v, Key::Left) == fm_key_step(v, Key::Char('h')),
        fm_key_step(v, Key::Backspace) == fm_key_step(v, Key::Left),
        fm_key_step(v, Key::Char('q')) == fm_key_step(v, Key::Esc),
        fm_key_step(v, Key::Esc).1 is Quit,
{
}
} // verus!
