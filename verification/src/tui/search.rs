//! The package search screen: a query line, result tabs per source, a paged
//! result table, a confirmation dialog and a progress list.
//!
//! The screen is a state machine: each key press moves [`App`] to its next
//! state and may ask the caller to run an [`Action`] (a search, an install, a
//! removal, a fuzzy pick), whose outcome is handed back through the methods
//! that take results.
use vstd::prelude::*;
use crate::text::{
    chars_of, dec, dec_exec, eq_str, text_eq, append_chars, append_str, text_lt, text_lt_exec,
    trim, trimmed, rfind, rfind_exec, lemma_rfind_some, split_char, split_char_exec, views,
    lemma_text_lt_irreflexive, lemma_text_lt_transitive, lemma_text_lt_total,
};
use crate::sys::string_of;
use crate::tui::file_manager::prefix;
use crate::pm::{PackageInfo, PackageInfoView, pkg_views};
use crate::pm::builtin::{strs, copy_strings, lemma_strs_push};
use crate::tui::Key;
use crate::tui::tabs::{TabMode, TabModeView};
use crate::cli::position_from;

verus! {

// ── State ────────────────────────────────────────────────────────────────────

/// What the search screen is doing.
#[derive(Clone, Copy, PartialEq, Eq, Structural, Debug)]
pub enum Mode {
    /// Typing the search query.
    Input,
    /// Navigating the results.
    Browse,
    /// Asking to confirm an install or a removal.
    Confirm,
    /// An operation is running.
    Progress,
    /// The operation finished; the screen waits for `q`.
    Done,
}

/// The packages that one source found.
#[derive(Debug)]
pub struct SourceResults {
    pub source: String,
    pub packages: Vec<PackageInfo>,
}

/// The contents of a [`SourceResults`].
pub struct GroupView {
    pub source: Seq<char>,
    pub packages: Seq<PackageInfoView>,
}

impl View for SourceResults {
    type V = GroupView;

    open spec fn view(&self) -> GroupView {
        GroupView { source: self.source@, packages: pkg_views(self.packages@) }
    }
}

/// The contents of a sequence of result groups.
pub open spec fn group_views(v: Seq<SourceResults>) -> Seq<GroupView> {
    v.map_values(|g: SourceResults| g@)
}

/// One package of a running operation.
#[derive(Debug)]
pub struct ProgressItem {
    pub name: String,
    pub done: bool,
    pub success: bool,
}

/// The contents of a [`ProgressItem`].
pub struct ProgressView {
    pub name: Seq<char>,
    pub done: bool,
    pub success: bool,
}

impl View for ProgressItem {
    type V = ProgressView;

    open spec fn view(&self) -> ProgressView {
        ProgressView { name: self.name@, done: self.done, success: self.success }
    }
}

/// The contents of a sequence of progress items.
pub open spec fn progress_views(v: Seq<ProgressItem>) -> Seq<ProgressView> {
    v.map_values(|p: ProgressItem| p@)
}

/// What the caller is asked to do after a key press.
#[derive(Debug)]
pub enum Action {
    /// Search all sources for the query.
    Search(String),
    /// Install the packages from the source (empty when none is known).
    Install(Vec<String>, String),
    /// Remove the packages through the source (empty when none is known).
    Remove(Vec<String>, String),
    /// Let the user pick one of the results with a fuzzy finder.
    FuzzySearch,
    /// Show the view of all installed packages.
    ViewInstalled,
    /// Show the color theme picker.
    PickTheme,
}

/// The contents of an [`Action`].
pub enum ActionView {
    Search(Seq<char>),
    Install(Seq<Seq<char>>, Seq<char>),
    Remove(Seq<Seq<char>>, Seq<char>),
    FuzzySearch,
    ViewInstalled,
    PickTheme,
}

/// The contents of an optional action.
pub open spec fn action_view(a: Option<Action>) -> Option<ActionView> {
    match a {
        Some(Action::Search(q)) => Some(ActionView::Search(q@)),
        Some(Action::Install(p, s)) => Some(ActionView::Install(strs(p@), s@)),
        Some(Action::Remove(p, s)) => Some(ActionView::Remove(strs(p@), s@)),
        Some(Action::FuzzySearch) => Some(ActionView::FuzzySearch),
        Some(Action::ViewInstalled) => Some(ActionView::ViewInstalled),
        Some(Action::PickTheme) => Some(ActionView::PickTheme),
        None => None,
    }
}

/// The state of the search screen.
pub struct App {
    pub mode: Mode,
    /// The query being typed.
    pub search_input: Vec<char>,
    /// The cursor's position in the query, in characters.
    pub cursor_pos: usize,
    /// The animation tick.
    pub tick: u64,
    /// The results, grouped by source.
    pub results_by_source: Vec<SourceResults>,
    /// All results, in the order of the groups.
    pub all_results: Vec<PackageInfo>,
    /// `All`, then one title per source.
    pub tab_titles: Vec<String>,
    pub active_tab: usize,
    /// The selected row, counted from the top of the page.
    pub selected: Option<usize>,
    pub page: usize,
    pub page_size: usize,
    /// The sources that offer the selected package, when there are several.
    pub source_options: Vec<String>,
    pub source_selected: usize,
    /// `install` or `remove` (or `update` on the progress screen).
    pub confirm_action: String,
    pub confirm_packages: Vec<String>,
    /// Whether the confirmation dialog has `Yes` highlighted.
    pub confirm_selected_yes: bool,
    pub progress_items: Vec<ProgressItem>,
    pub status_message: String,
    pub should_quit: bool,
}

/// The cell texts of a result row: its number (counted from one), the name
/// with ` ✓` when the package is installed, the version cut to twelve
/// characters (`—` when there is none), the source cut to ten, and the
/// description cut to `desc_max` characters.
pub open spec fn row_cells(p: PackageInfoView, idx: nat, desc_max: nat) -> Seq<Seq<char>> {
    seq![
        dec(idx + 1),
        p.name + (if p.installed { " ✓"@ } else { Seq::empty() }),
        if p.version.len() == 0 { "—"@ } else { prefix(p.version, 12) },
        prefix(p.source, 10),
        prefix(p.description, desc_max),
    ]
}

fn prefix_exec(s: &str, n: usize) -> (r: String)
    ensures
        r@ == prefix(s@, n as nat),
{
    let cs = chars_of(s);
    if cs.len() < n {
        string_of(cs.as_slice())
    } else {
        let t = crate::text::slice_copy(cs.as_slice(), 0, n);
        assert(cs@.subrange(0, n as int) =~= cs@.take(n as int));
        string_of(t.as_slice())
    }
}

/// The cell texts of the result row at `idx` (see [`row_cells`]).
pub fn row_texts(p: &PackageInfo, idx: usize, desc_max: usize) -> (r: Vec<String>)
    requires
        idx < usize::MAX,
    ensures
        strs(r@) == row_cells(p@, idx as nat, desc_max as nat),
{
    let num = string_of(dec_exec((idx + 1) as u64).as_slice());
    let mut name = chars_of(p.name.as_str());
    if p.installed {
        append_str(&mut name, " ✓");
    }
    let version = if p.version.as_str().is_empty() {
        "—".to_owned()
    } else {
        prefix_exec(p.version.as_str(), 12)
    };
    let mut r: Vec<String> = Vec::new();
    r.push(num);
    r.push(string_of(name.as_slice()));
    r.push(version);
    r.push(prefix_exec(p.source.as_str(), 10));
    r.push(prefix_exec(p.description.as_str(), desc_max));
    proof {
        if !p.installed {
            assert(p@.name + Seq::<char>::empty() =~= p@.name);
        }
    }
    assert(strs(r@) =~= row_cells(p@, idx as nat, desc_max as nat));
    r
}

/// The contents of an [`App`].
pub struct AppView {
    pub mode: Mode,
    pub input: Seq<char>,
    pub cursor: int,
    pub tick: int,
    pub groups: Seq<GroupView>,
    pub all: Seq<PackageInfoView>,
    pub tabs: Seq<Seq<char>>,
    pub active_tab: int,
    pub selected: Option<int>,
    pub page: int,
    pub page_size: int,
    pub sources: Seq<Seq<char>>,
    pub source_selected: int,
    pub confirm_action: Seq<char>,
    pub confirm_packages: Seq<Seq<char>>,
    pub confirm_yes: bool,
    pub progress: Seq<ProgressView>,
    pub status: Seq<char>,
    pub quit: bool,
}

/// An optional index as an integer.
pub open spec fn opt_int(o: Option<usize>) -> Option<int> {
    match o {
        Some(i) => Some(i as int),
        None => None,
    }
}

impl View for App {
    type V = AppView;

    open spec fn view(&self) -> AppView {
        AppView {
            mode: self.mode,
            input: self.search_input@,
            cursor: self.cursor_pos as int,
            tick: self.tick as int,
            groups: group_views(self.results_by_source@),
            all: pkg_views(self.all_results@),
            tabs: strs(self.tab_titles@),
            active_tab: self.active_tab as int,
            selected: opt_int(self.selected),
            page: self.page as int,
            page_size: self.page_size as int,
            sources: strs(self.source_options@),
            source_selected: self.source_selected as int,
            confirm_action: self.confirm_action@,
            confirm_packages: strs(self.confirm_packages@),
            confirm_yes: self.confirm_selected_yes,
            progress: progress_views(self.progress_items@),
            status: self.status_message@,
            quit: self.should_quit,
        }
    }
}

// ── Derived values ───────────────────────────────────────────────────────────

/// The results that the active tab shows: all of them on the first tab, else
/// those of the tab's source (none when the tab has no group).
pub open spec fn current(v: AppView) -> Seq<PackageInfoView> {
    if v.active_tab == 0 {
        v.all
    } else if 0 < v.active_tab <= v.groups.len() {
        v.groups[v.active_tab - 1].packages
    } else {
        Seq::empty()
    }
}

/// The number of pages of the active tab: at least one.
pub open spec fn total_pages(v: AppView) -> int {
    let n = current(v).len();
    if n == 0 {
        1
    } else {
        (n - 1) / v.page_size + 1
    }
}

/// The index of the first row of the page.
pub open spec fn page_start(v: AppView) -> int {
    v.page * v.page_size
}

/// The number of rows on the page.
pub open spec fn page_rows(v: AppView) -> int {
    let n = current(v).len();
    if n - page_start(v) < v.page_size {
        n - page_start(v)
    } else {
        v.page_size
    }
}

/// The selected package, when the selected row holds one.
pub open spec fn selected_pkg(v: AppView) -> Option<PackageInfoView> {
    match v.selected {
        Some(r) => {
            let i = page_start(v) + r;
            if 0 <= i < current(v).len() {
                Some(current(v)[i])
            } else {
                None
            }
        },
        None => None,
    }
}

/// The sources of the packages named `name`, each once, in the order in which
/// they first occur.
pub open spec fn sources_for(all: Seq<PackageInfoView>, name: Seq<char>) -> Seq<Seq<char>>
    decreases all.len(),
{
    if all.len() == 0 {
        Seq::empty()
    } else {
        let prev = sources_for(all.drop_last(), name);
        let p = all.last();
        if p.name == name && !prev.contains(p.source) {
            prev.push(p.source)
        } else {
            prev
        }
    }
}

/// `v` with the source options of its selected package: the sources that offer
/// a package of that name, the first one chosen; none when no package is
/// selected.
pub open spec fn refresh_sources(v: AppView) -> AppView {
    match selected_pkg(v) {
        Some(p) => AppView { sources: sources_for(v.all, p.name), source_selected: 0, ..v },
        None => AppView { sources: Seq::empty(), ..v },
    }
}

/// The well-formed states: the ones that the screen reaches, in which no key
/// press overflows or indexes out of bounds.
pub open spec fn wf(v: AppView) -> bool {
    &&& v.page_size >= 1
    &&& v.tabs.len() >= 1
    &&& 0 <= v.active_tab < v.tabs.len()
    &&& 0 <= v.page
    &&& page_start(v) <= current(v).len()
    &&& (v.selected matches Some(s) ==> s >= 0)
    &&& v.source_selected >= 0
    &&& (v.sources.len() > 1 ==> v.source_selected < v.sources.len())
    &&& 0 <= v.cursor <= v.input.len()
    &&& (v.mode == Mode::Confirm ==> v.confirm_packages.len() >= 1)
}

/// The page starts within the tab's results.
pub open spec fn paged(v: AppView) -> bool {
    v.page_size >= 1 && 0 <= page_start(v) <= current(v).len()
}

/// The selection points at a result of the page.
pub open spec fn valid_selection(v: AppView) -> bool {
    v.selected matches Some(s) ==> page_start(v) + s < current(v).len()
}

// ── Transitions ──────────────────────────────────────────────────────────────

/// `v` showing tab `t` from its first page, with its first row selected when
/// the tab has results.
pub open spec fn with_tab(v: AppView, t: int) -> AppView {
    let w = AppView { active_tab: t, page: 0, ..v };
    AppView { selected: if current(w).len() == 0 { None } else { Some(0) }, ..w }
}

/// The status line for a package that is installed already.
pub open spec fn already_installed(name: Seq<char>) -> Seq<char> {
    "'"@ + name + "' is already installed"@
}

/// `v` asking to confirm `action` on the package `name`, `Yes` highlighted.
pub open spec fn ask_confirm(v: AppView, action: Seq<char>, name: Seq<char>) -> AppView {
    AppView {
        mode: Mode::Confirm,
        confirm_action: action,
        confirm_packages: seq![name],
        confirm_yes: true,
        ..v
    }
}

/// The next state after `key` while browsing the results.
///
/// Up or `k` and down or `j` move the selection, crossing to the previous
/// page's last row or the next page's first row at the page's ends; left or
/// `h` and right or `l` choose among the selected package's sources when it
/// has several, and otherwise turn the page; tab and back-tab cycle the source
/// tabs; `i` or enter asks to install the selected package (or says that it is
/// installed already), `d` or `r` to remove it; `/` returns to the query; `q`
/// or escape quits.
pub open spec fn browse_step(v: AppView, key: Key) -> AppView {
    match key {
        Key::Up | Key::Char('k') => refresh_sources(
            match v.selected {
                Some(sel) => if sel > 0 {
                    AppView { selected: Some(sel - 1), ..v }
                } else if v.page > 0 {
                    let p = v.page - 1;
                    let left = current(v).len() - p * v.page_size;
                    let n = if v.page_size < left { v.page_size } else { left };
                    AppView { page: p, selected: Some(if n > 0 { n - 1 } else { 0 }), ..v }
                } else {
                    v
                },
                None => v,
            },
        ),
        Key::Down | Key::Char('j') => refresh_sources(
            match v.selected {
                Some(sel) => if sel + 1 < page_rows(v) {
                    AppView { selected: Some(sel + 1), ..v }
                } else if v.page + 1 < total_pages(v) {
                    AppView { page: v.page + 1, selected: Some(0), ..v }
                } else {
                    v
                },
                None => v,
            },
        ),
        Key::Left | Key::Char('h') => if v.sources.len() > 1 {
            AppView {
                source_selected: if v.source_selected > 0 { v.source_selected - 1 } else { 0 },
                ..v
            }
        } else if v.page > 0 {
            refresh_sources(AppView { page: v.page - 1, selected: Some(0), ..v })
        } else {
            v
        },
        Key::Right | Key::Char('l') => if v.sources.len() > 1 {
            AppView {
                source_selected: if v.source_selected + 1 <= v.sources.len() - 1 {
                    v.source_selected + 1
                } else {
                    v.sources.len() - 1
                },
                ..v
            }
        } else if v.page + 1 < total_pages(v) {
            refresh_sources(AppView { page: v.page + 1, selected: Some(0), ..v })
        } else {
            v
        },
        Key::Tab => refresh_sources(with_tab(v, (v.active_tab + 1) % (v.tabs.len() as int))),
        Key::BackTab => refresh_sources(
            with_tab(v, if v.active_tab == 0 { v.tabs.len() - 1 } else { v.active_tab - 1 }),
        ),
        Key::Char('i') | Key::Enter => match selected_pkg(v) {
            Some(p) => if p.installed {
                AppView { status: already_installed(p.name), ..v }
            } else {
                ask_confirm(v, "install"@, p.name)
            },
            None => v,
        },
        Key::Char('d') | Key::Char('r') => match selected_pkg(v) {
            Some(p) => ask_confirm(v, "remove"@, p.name),
            None => v,
        },
        Key::Char('/') => AppView { mode: Mode::Input, ..v },
        Key::Char('q') | Key::Esc => AppView { quit: true, ..v },
        _ => v,
    }
}

/// The status line while a search runs.
pub open spec fn searching(q: Seq<char>) -> Seq<char> {
    "Searching for '"@ + q + "'..."@
}

/// The next state after `key` while typing the query.
///
/// A character is inserted at the cursor; backspace and delete remove the
/// character before or at the cursor; left, right, home and end move the
/// cursor within the query; enter starts a search of a non-empty query; tab
/// goes to the results when there are any, selecting the first row when none
/// is selected; escape quits.
pub open spec fn input_step(v: AppView, key: Key) -> AppView {
    match key {
        Key::Char(c) => AppView { input: v.input.insert(v.cursor, c), cursor: v.cursor + 1, ..v },
        Key::Backspace => if v.cursor > 0 {
            AppView { input: v.input.remove(v.cursor - 1), cursor: v.cursor - 1, ..v }
        } else {
            v
        },
        Key::Delete => if v.cursor < v.input.len() {
            AppView { input: v.input.remove(v.cursor), ..v }
        } else {
            v
        },
        Key::Left => AppView { cursor: if v.cursor > 0 { v.cursor - 1 } else { 0 }, ..v },
        Key::Right => AppView {
            cursor: if v.cursor + 1 <= v.input.len() { v.cursor + 1 } else { v.input.len() as int },
            ..v
        },
        Key::Home => AppView { cursor: 0, ..v },
        Key::End => AppView { cursor: v.input.len() as int, ..v },
        Key::Enter => if v.input.len() > 0 {
            AppView { status: searching(v.input), ..v }
        } else {
            v
        },
        Key::Tab => if v.all.len() > 0 {
            let w = AppView { mode: Mode::Browse, ..v };
            if v.selected is None {
                refresh_sources(AppView { selected: Some(0), ..w })
            } else {
                w
            }
        } else {
            v
        },
        Key::Esc => AppView { quit: true, ..v },
        _ => v,
    }
}

/// What a key press while typing asks for: a search of the query on enter,
/// and, so that the results follow the typing, a search of the new query
/// whenever a character, backspace or delete changes it and leaves it
/// non-empty.
pub open spec fn input_action(v: AppView, key: Key) -> Option<ActionView> {
    match key {
        Key::Enter => if v.input.len() > 0 {
            Some(ActionView::Search(v.input))
        } else {
            None
        },
        Key::Char(_) | Key::Backspace | Key::Delete => {
            let w = input_step(v, key);
            if w.input != v.input && w.input.len() > 0 {
                Some(ActionView::Search(w.input))
            } else {
                None
            }
        },
        _ => None,
    }
}

/// The index of the first package named `name`, from index `i` on.
pub open spec fn first_named_from(all: Seq<PackageInfoView>, name: Seq<char>, i: int) -> Option<
    int,
>
    decreases all.len() - i,
{
    if i < 0 || i >= all.len() {
        None
    } else if all[i].name == name {
        Some(i)
    } else {
        first_named_from(all, name, i + 1)
    }
}

/// The source to install from or remove through: the chosen source option
/// when the package has several, else the source of the first result of that
/// name (empty when there is none).
pub open spec fn install_source(v: AppView) -> Seq<char> {
    if v.sources.len() > 1 {
        if 0 <= v.source_selected < v.sources.len() {
            v.sources[v.source_selected]
        } else {
            Seq::empty()
        }
    } else {
        match first_named_from(v.all, v.confirm_packages[0], 0) {
            Some(i) => v.all[i].source,
            None => Seq::empty(),
        }
    }
}

/// A pending progress item for each name.
pub open spec fn pending(names: Seq<Seq<char>>) -> Seq<ProgressView> {
    names.map_values(|n: Seq<char>| ProgressView { name: n, done: false, success: false })
}

/// The state once the operation is confirmed.
pub open spec fn confirmed(v: AppView) -> AppView {
    AppView { mode: Mode::Progress, progress: pending(v.confirm_packages), ..v }
}

/// The operation that confirming asks for.
pub open spec fn confirmed_action(v: AppView) -> ActionView {
    if v.confirm_action == "install"@ {
        ActionView::Install(v.confirm_packages, install_source(v))
    } else {
        ActionView::Remove(v.confirm_packages, install_source(v))
    }
}

/// Whether `key` cancels the confirmation dialog.
pub open spec fn cancels(key: Key) -> bool {
    match key {
        Key::Char(c) => c == 'n' || c == 'N' || c == 'c' || c == 'C' || c == 'b' || c == 'B',
        Key::Esc => true,
        _ => false,
    }
}

/// The next state and the requested operation after `key` in the
/// confirmation dialog: left, right and tab switch between `Yes` and `Cancel`;
/// enter takes the highlighted button; `y` confirms; `n`, `c`, `b` (either
/// case) and escape go back to the results.
pub open spec fn confirm_step(v: AppView, key: Key) -> (AppView, Option<ActionView>) {
    match key {
        Key::Left | Key::Right | Key::Tab => (AppView { confirm_yes: !v.confirm_yes, ..v }, None),
        Key::Enter => if v.confirm_yes {
            (confirmed(v), Some(confirmed_action(v)))
        } else {
            (AppView { mode: Mode::Browse, ..v }, None)
        },
        Key::Char('y') | Key::Char('Y') => (confirmed(v), Some(confirmed_action(v))),
        _ => if cancels(key) {
            (AppView { mode: Mode::Browse, ..v }, None)
        } else {
            (v, None)
        },
    }
}

/// The next state and the requested operation after a key press, by mode;
/// while browsing, control with `f` asks for a fuzzy pick, `v` for the view
/// of the installed packages and `t` for the theme picker.
pub open spec fn key_step(v: AppView, key: Key, ctrl: bool) -> (AppView, Option<ActionView>) {
    match v.mode {
        Mode::Input => (input_step(v, key), input_action(v, key)),
        Mode::Browse => if ctrl && key == Key::Char('f') {
            (v, Some(ActionView::FuzzySearch))
        } else if key == Key::Char('v') {
            (v, Some(ActionView::ViewInstalled))
        } else if key == Key::Char('t') {
            (v, Some(ActionView::PickTheme))
        } else {
            (browse_step(v, key), None)
        },
        Mode::Confirm => confirm_step(v, key),
        Mode::Done => if key == Key::Char('q') || key == Key::Esc {
            (AppView { quit: true, ..v }, None)
        } else {
            (v, None)
        },
        Mode::Progress => (v, None),
    }
}

proof fn lemma_prev_page(page: int, ps: int)
    requires
        page >= 1,
        ps >= 1,
    ensures
        (page - 1) * ps == page * ps - ps,
        0 <= (page - 1) * ps,
{
    assert((page - 1) * ps == page * ps - ps) by (nonlinear_arith);
    assert(0 <= (page - 1) * ps) by (nonlinear_arith)
        requires
            page >= 1,
            ps >= 1,
    ;
}

proof fn lemma_next_page(page: int, ps: int, n: int)
    requires
        ps >= 1,
        n >= 1,
        0 <= page,
        page + 1 < (n - 1) / ps + 1,
    ensures
        (page + 1) * ps < n,
        (page + 1) * ps == page * ps + ps,
{
    let q = (n - 1) / ps;
    assert(q * ps <= n - 1) by (nonlinear_arith)
        requires
            ps >= 1,
            n >= 1,
            q == (n - 1) / ps,
    ;
    assert((page + 1) * ps <= q * ps) by (nonlinear_arith)
        requires
            page + 1 <= q,
            ps >= 1,
    ;
    assert((page + 1) * ps == page * ps + ps) by (nonlinear_arith);
}

proof fn refresh_keeps_wf(v: AppView)
    requires
        wf(v),
    ensures
        wf(refresh_sources(v)),
        current(refresh_sources(v)) == current(v),
        refresh_sources(v).selected == v.selected,
        refresh_sources(v).page == v.page,
{
}

proof fn browse_keeps_wf(v: AppView, key: Key)
    requires
        wf(v),
    ensures
        wf(browse_step(v, key)),
{
    match key {
        Key::Up | Key::Char('k') => {
            if let Some(sel) = v.selected {
                if sel == 0 && v.page > 0 {
                    lemma_prev_page(v.page, v.page_size);
                    let p = v.page - 1;
                    let w = AppView {
                        page: p,
                        selected: Some(
                            {
                                let left = current(v).len() - p * v.page_size;
                                let n = if v.page_size < left { v.page_size } else { left };
                                if n > 0 { n - 1 } else { 0 }
                            },
                        ),
                        ..v
                    };
                    assert(wf(w));
                    refresh_keeps_wf(w);
                } else if sel > 0 {
                    refresh_keeps_wf(AppView { selected: Some(sel - 1), ..v });
                } else {
                    refresh_keeps_wf(v);
                }
            } else {
                refresh_keeps_wf(v);
            }
        },
        Key::Down | Key::Char('j') => {
            if let Some(sel) = v.selected {
                if sel + 1 < page_rows(v) {
                    refresh_keeps_wf(AppView { selected: Some(sel + 1), ..v });
                } else if v.page + 1 < total_pages(v) {
                    lemma_next_page(v.page, v.page_size, current(v).len() as int);
                    refresh_keeps_wf(AppView { page: v.page + 1, selected: Some(0), ..v });
                } else {
                    refresh_keeps_wf(v);
                }
            } else {
                refresh_keeps_wf(v);
            }
        },
        Key::Left | Key::Char('h') => {
            if v.sources.len() <= 1 && v.page > 0 {
                lemma_prev_page(v.page, v.page_size);
                refresh_keeps_wf(AppView { page: v.page - 1, selected: Some(0), ..v });
            }
        },
        Key::Right | Key::Char('l') => {
            if v.sources.len() <= 1 && v.page + 1 < total_pages(v) {
                lemma_next_page(v.page, v.page_size, current(v).len() as int);
                refresh_keeps_wf(AppView { page: v.page + 1, selected: Some(0), ..v });
            }
        },
        Key::Tab => {
            let w = with_tab(v, (v.active_tab + 1) % (v.tabs.len() as int));
            assert(page_start(w) == 0) by (nonlinear_arith)
                requires
                    w.page == 0,
                    page_start(w) == w.page * w.page_size,
            ;
            refresh_keeps_wf(w);
        },
        Key::BackTab => {
            let w = with_tab(v, if v.active_tab == 0 { v.tabs.len() - 1 } else { v.active_tab - 1 });
            assert(page_start(w) == 0) by (nonlinear_arith)
                requires
                    w.page == 0,
                    page_start(w) == w.page * w.page_size,
            ;
            refresh_keeps_wf(w);
        },
        _ => {},
    }
}

/// Every key press keeps the screen's state well-formed: the page starts
/// within the active tab's results, the active tab exists, the cursor stays
/// within the query, the chosen source option exists, and a confirmation
/// always names a package.
pub proof fn key_step_keeps_wf(v: AppView, key: Key, ctrl: bool)
    requires
        wf(v),
    ensures
        wf(key_step(v, key, ctrl).0),
{
    match v.mode {
        Mode::Browse => {
            if !(ctrl && key == Key::Char('f')) {
                browse_keeps_wf(v, key);
            }
        },
        Mode::Input => {
            if key == Key::Tab && v.all.len() > 0 && v.selected is None {
                refresh_keeps_wf(AppView { selected: Some(0), mode: Mode::Browse, ..v });
            }
        },
        _ => {},
    }
}

// ── Results ──────────────────────────────────────────────────────────────────

/// The tab title of a group: its source and its number of packages.
pub open spec fn tab_title(g: GroupView) -> Seq<char> {
    g.source + " ("@ + dec(g.packages.len()) + ")"@
}

/// All packages of the groups, in order.
pub open spec fn concat_packages(gs: Seq<GroupView>) -> Seq<PackageInfoView>
    decreases gs.len(),
{
    if gs.len() == 0 {
        Seq::empty()
    } else {
        concat_packages(gs.drop_last()) + gs.last().packages
    }
}

/// `v` showing the result groups `gs`: an `All` tab and one tab per group,
/// the first tab and page shown, the first row selected when there are
/// results.
pub open spec fn with_results(v: AppView, gs: Seq<GroupView>) -> AppView {
    let all = concat_packages(gs);
    refresh_sources(
        AppView {
            tabs: seq!["All"@] + gs.map_values(|g: GroupView| tab_title(g)),
            all: all,
            groups: gs,
            active_tab: 0,
            page: 0,
            selected: if all.len() == 0 { None } else { Some(0) },
            ..v
        },
    )
}

/// `v` once a search has answered the groups `gs`: the results shown, the
/// screen browsing them, the status line cleared.
pub open spec fn with_search_results(v: AppView, gs: Seq<GroupView>) -> AppView {
    AppView { mode: Mode::Browse, status: Seq::empty(), ..with_results(v, gs) }
}

/// The line that offers a package to the fuzzy finder: its name and, in
/// brackets, its source.
pub open spec fn fuzzy_line(p: PackageInfoView) -> Seq<char> {
    p.name + " ["@ + p.source + "]\n"@
}

/// The fuzzy finder's input: one line per result.
pub open spec fn fuzzy_text(all: Seq<PackageInfoView>) -> Seq<char>
    decreases all.len(),
{
    if all.len() == 0 {
        Seq::empty()
    } else {
        fuzzy_text(all.drop_last()) + fuzzy_line(all.last())
    }
}

/// The package name in the fuzzy finder's answer: the trimmed answer up to
/// its last ` [`, when the answer is not empty and holds one.
pub open spec fn picked_name(out: Seq<char>) -> Option<Seq<char>> {
    let t = trim(out);
    if t.len() == 0 {
        None
    } else {
        match rfind(t, " ["@) {
            Some(i) => Some(t.take(i)),
            None => None,
        }
    }
}

/// The package name in the fuzzy finder's answer (see [`picked_name`]).
pub fn picked_name_of(out: &str) -> (r: Option<Vec<char>>)
    ensures
        match r {
            Some(n) => picked_name(out@) == Some(n@),
            None => picked_name(out@) is None,
        },
{
    let oc = chars_of(out);
    let t = trimmed(oc.as_slice());
    if t.len() == 0 {
        return None;
    }
    let sep = chars_of(" [");
    match rfind_exec(t.as_slice(), sep.as_slice()) {
        Some(i) => {
            proof {
                lemma_rfind_some(t@, sep@);
            }
            let name = crate::text::slice_copy(t.as_slice(), 0, i);
            assert(name@ =~= t@.take(i as int));
            Some(name)
        },
        None => None,
    }
}

/// One group for each result named `name`, holding it under its own source.
pub open spec fn named_singletons(all: Seq<PackageInfoView>, name: Seq<char>) -> Seq<GroupView>
    decreases all.len(),
{
    if all.len() == 0 {
        Seq::empty()
    } else {
        let prev = named_singletons(all.drop_last(), name);
        let p = all.last();
        if p.name == name {
            prev.push(GroupView { source: p.source, packages: seq![p] })
        } else {
            prev
        }
    }
}

/// The texts among `parts`, trimmed, the empty ones left out.
pub open spec fn nonempty_trimmed(parts: Seq<Seq<char>>) -> Seq<Seq<char>>
    decreases parts.len(),
{
    if parts.len() == 0 {
        Seq::empty()
    } else {
        let prev = nonempty_trimmed(parts.drop_last());
        let t = trim(parts.last());
        if t.len() > 0 {
            prev.push(t)
        } else {
            prev
        }
    }
}

/// The search terms of a query: its comma-separated parts, trimmed, the
/// empty ones left out.
pub open spec fn search_terms(q: Seq<char>) -> Seq<Seq<char>> {
    nonempty_trimmed(split_char(q, ','))
}

/// Whether the search asks a manager: only an available one, and never
/// `topgrade` or `bun`, which cannot search.
pub open spec fn searchable(name: Seq<char>, available: bool) -> bool {
    available && name != "topgrade"@ && name != "bun"@
}

/// The manager that installs from `source`: the first one of that name, else
/// the first manager; `None` when there is none.
pub open spec fn install_manager(names: Seq<Seq<char>>, source: Seq<char>) -> Option<int> {
    match position_from(names, source, 0) {
        Some(i) => Some(i),
        None => if names.len() > 0 {
            Some(0)
        } else {
            None
        },
    }
}

/// The number of finished items.
pub open spec fn count_done(ps: Seq<ProgressView>) -> nat
    decreases ps.len(),
{
    if ps.len() == 0 {
        0
    } else {
        count_done(ps.drop_last()) + if ps.last().done { 1nat } else { 0nat }
    }
}

/// The number of items that succeeded.
pub open spec fn count_succeeded(ps: Seq<ProgressView>) -> nat
    decreases ps.len(),
{
    if ps.len() == 0 {
        0
    } else {
        count_succeeded(ps.drop_last()) + if ps.last().success { 1nat } else { 0nat }
    }
}

/// The number of items that finished and failed.
pub open spec fn count_failed(ps: Seq<ProgressView>) -> nat
    decreases ps.len(),
{
    if ps.len() == 0 {
        0
    } else {
        count_failed(ps.drop_last()) + if ps.last().done && !ps.last().success {
            1nat
        } else {
            0nat
        }
    }
}

/// The items of an operation: one per package, or `System Packages` for an
/// update of everything.
pub open spec fn operation_items(action: Seq<char>, packages: Seq<Seq<char>>) -> Seq<Seq<char>> {
    if action == "update"@ && packages.len() == 0 {
        seq!["System Packages"@]
    } else {
        packages
    }
}

/// What the tab bar shows: while browsing, the sources of the highlighted
/// package when it has several, else the page numbers when there are several
/// pages; otherwise the source tabs.
pub open spec fn tab_mode_of(v: AppView) -> TabModeView {
    if v.mode == Mode::Browse && v.sources.len() > 1 {
        TabModeView::PackageSources(
            v.sources,
            v.source_selected,
            match selected_pkg(v) {
                Some(p) => p.name,
                None => Seq::empty(),
            },
        )
    } else if total_pages(v) > 1 && v.mode == Mode::Browse {
        TabModeView::Pages(v.page, total_pages(v))
    } else {
        TabModeView::Sources(v.tabs, v.active_tab)
    }
}

// ── Merging result groups ────────────────────────────────────────────────────

/// The packages that the groups with source `key` hold, in order.
pub open spec fn packages_of(gs: Seq<GroupView>, key: Seq<char>) -> Seq<PackageInfoView>
    decreases gs.len(),
{
    if gs.len() == 0 {
        Seq::empty()
    } else {
        packages_of(gs.drop_last(), key) + (if gs.last().source == key {
            gs.last().packages
        } else {
            Seq::empty()
        })
    }
}

/// `r` merges the groups `gs`: one group for each source that holds
/// packages, in ascending order of source, each with all the packages of that
/// source in their order.
pub open spec fn merges(r: Seq<GroupView>, gs: Seq<GroupView>) -> bool {
    &&& forall|i: int, j: int| 0 <= i < j < r.len() ==> text_lt(r[i].source, r[j].source)
    &&& forall|i: int|
        0 <= i < r.len() ==> (#[trigger] r[i]).packages == packages_of(gs, r[i].source)
            && r[i].packages.len() > 0
    &&& forall|k: Seq<char>| #[trigger]
        packages_of(gs, k).len() > 0 ==> exists|i: int| 0 <= i < r.len() && r[i].source == k
}

proof fn lemma_packages_of_push(gs: Seq<GroupView>, g: GroupView, k: Seq<char>)
    ensures
        packages_of(gs.push(g), k) == packages_of(gs, k) + (if g.source == k {
            g.packages
        } else {
            Seq::empty()
        }),
{
    assert(gs.push(g).drop_last() =~= gs);
}

proof fn lemma_sorted_distinct(r: Seq<GroupView>, i: int, j: int)
    requires
        forall|a: int, b: int| 0 <= a < b < r.len() ==> text_lt(r[a].source, r[b].source),
        0 <= i < r.len(),
        0 <= j < r.len(),
        i != j,
    ensures
        r[i].source != r[j].source,
{
    if i < j {
        lemma_text_lt_irreflexive(r[i].source);
    } else {
        lemma_text_lt_irreflexive(r[j].source);
    }
}

proof fn lemma_merge_skip(r: Seq<GroupView>, gs: Seq<GroupView>, g: GroupView)
    requires
        merges(r, gs),
        g.packages.len() == 0,
    ensures
        merges(r, gs.push(g)),
{
    assert forall|k: Seq<char>| #[trigger] packages_of(gs.push(g), k) == packages_of(gs, k) by {
        lemma_packages_of_push(gs, g, k);
        assert(packages_of(gs, k) + g.packages =~= packages_of(gs, k));
        assert(packages_of(gs, k) + Seq::<PackageInfoView>::empty() =~= packages_of(gs, k));
    }
}

proof fn lemma_merge_append(r: Seq<GroupView>, gs: Seq<GroupView>, g: GroupView, j: int)
    requires
        merges(r, gs),
        0 <= j < r.len(),
        r[j].source == g.source,
    ensures
        merges(
            r.update(j, GroupView { source: g.source, packages: r[j].packages + g.packages }),
            gs.push(g),
        ),
{
    let r2 = r.update(j, GroupView { source: g.source, packages: r[j].packages + g.packages });
    let gs2 = gs.push(g);
    assert forall|i: int| 0 <= i < r2.len() implies (#[trigger] r2[i]).packages == packages_of(
        gs2,
        r2[i].source,
    ) && r2[i].packages.len() > 0 by {
        lemma_packages_of_push(gs, g, r2[i].source);
        if i != j {
            lemma_sorted_distinct(r, i, j);
            assert(packages_of(gs, r[i].source) + Seq::<PackageInfoView>::empty() =~= packages_of(
                gs,
                r[i].source,
            ));
        }
    }
    assert forall|k: Seq<char>| #[trigger] packages_of(gs2, k).len() > 0 implies exists|i: int|
        0 <= i < r2.len() && r2[i].source == k by {
        lemma_packages_of_push(gs, g, k);
        if k == g.source {
            assert(r2[j].source == k);
        } else {
            assert(packages_of(gs, k).len() > 0);
            let i = choose|i: int| 0 <= i < r.len() && r[i].source == k;
            assert(r2[i].source == k);
        }
    }
}

proof fn lemma_merge_insert(r: Seq<GroupView>, gs: Seq<GroupView>, g: GroupView, j: int)
    requires
        merges(r, gs),
        0 <= j <= r.len(),
        forall|i: int| 0 <= i < j ==> text_lt(r[i].source, g.source),
        j < r.len() ==> !text_lt(r[j].source, g.source) && r[j].source != g.source,
        g.packages.len() > 0,
    ensures
        merges(r.insert(j, g), gs.push(g)),
{
    let r2 = r.insert(j, g);
    let gs2 = gs.push(g);
    // every source after the insertion point sorts after the new one
    assert forall|m: int| j <= m < r.len() implies text_lt(g.source, #[trigger] r[m].source) by {
        lemma_text_lt_total(r[j].source, g.source);
        if m > j {
            lemma_text_lt_transitive(g.source, r[j].source, r[m].source);
        }
    }
    assert forall|a: int, b: int| 0 <= a < b < r2.len() implies text_lt(
        r2[a].source,
        r2[b].source,
    ) by {
        if a < j && b == j {
        } else if a < j && b > j {
            lemma_text_lt_transitive(r[a].source, g.source, r[b - 1].source);
        } else if a == j {
        } else if a > j {
            assert(r2[a] == r[a - 1]);
            assert(r2[b] == r[b - 1]);
        }
    }
    // the new source held no packages before
    assert(packages_of(gs, g.source).len() == 0) by {
        if packages_of(gs, g.source).len() > 0 {
            let i = choose|i: int| 0 <= i < r.len() && r[i].source == g.source;
            if i < j {
                lemma_text_lt_irreflexive(g.source);
            } else {
                lemma_text_lt_irreflexive(g.source);
            }
        }
    }
    assert forall|i: int| 0 <= i < r2.len() implies (#[trigger] r2[i]).packages == packages_of(
        gs2,
        r2[i].source,
    ) && r2[i].packages.len() > 0 by {
        lemma_packages_of_push(gs, g, r2[i].source);
        if i == j {
            assert(packages_of(gs, g.source) =~= Seq::<PackageInfoView>::empty());
            assert(Seq::<PackageInfoView>::empty() + g.packages =~= g.packages);
        } else {
            let m = if i < j { i } else { i - 1 };
            assert(r2[i] == r[m]);
            if r[m].source == g.source {
                if m < j {
                    lemma_text_lt_irreflexive(g.source);
                } else {
                    lemma_text_lt_irreflexive(g.source);
                }
            }
            assert(packages_of(gs, r[m].source) + Seq::<PackageInfoView>::empty() =~= packages_of(
                gs,
                r[m].source,
            ));
        }
    }
    assert forall|k: Seq<char>| #[trigger] packages_of(gs2, k).len() > 0 implies exists|i: int|
        0 <= i < r2.len() && r2[i].source == k by {
        lemma_packages_of_push(gs, g, k);
        if k == g.source {
            assert(r2[j].source == k);
        } else {
            assert(packages_of(gs, k).len() > 0);
            let i = choose|i: int| 0 <= i < r.len() && r[i].source == k;
            if i < j {
                assert(r2[i].source == k);
            } else {
                assert(r2[i + 1].source == k);
            }
        }
    }
}

/// The groups `groups` merged: one group per source that holds packages,
/// sorted by source, each with the packages of that source in order (see
/// [`merges`]).
pub fn merge_groups(groups: &Vec<SourceResults>) -> (r: Vec<SourceResults>)
    ensures
        merges(group_views(r@), group_views(groups@)),
{
    let mut r: Vec<SourceResults> = Vec::new();
    let ghost gv = group_views(groups@);
    let mut n: usize = 0;
    while n < groups.len()
        invariant
            n <= groups@.len(),
            gv == group_views(groups@),
            merges(group_views(r@), gv.take(n as int)),
        decreases groups@.len() - n,
    {
        let g = &groups[n];
        let ghost gg = g@;
        assert(gv[n as int] == gg);
        assert(gv.take(n + 1) =~= gv.take(n as int).push(gg));
        let ghost rv = group_views(r@);
        if g.packages.len() == 0 {
            proof {
                lemma_merge_skip(rv, gv.take(n as int), gg);
            }
        } else {
            let src = chars_of(g.source.as_str());
            let mut j: usize = 0;
            while j < r.len() && text_lt_exec(chars_of(r[j].source.as_str()).as_slice(), src.as_slice())
                invariant
                    j <= r@.len(),
                    src@ == gg.source,
                    rv == group_views(r@),
                    forall|i: int| 0 <= i < j ==> text_lt(rv[i].source, gg.source),
                decreases r@.len() - j,
            {
                j = j + 1;
            }
            let same = j < r.len() && text_eq(chars_of(r[j].source.as_str()).as_slice(), src.as_slice());
            if same {
                let mut e = r.remove(j);
                let ghost ev = e@;
                assert(ev == rv[j as int]);
                let mut k: usize = 0;
                while k < g.packages.len()
                    invariant
                        k <= g.packages@.len(),
                        gg == g@,
                        e.source@ == ev.source,
                        pkg_views(e.packages@) == ev.packages + gg.packages.take(k as int),
                    decreases g.packages@.len() - k,
                {
                    let c = g.packages[k].copy();
                    let ghost before = e.packages@;
                    e.packages.push(c);
                    assert(pkg_views(e.packages@) =~= pkg_views(before).push(c@));
                    assert(gg.packages[k as int] == g.packages@[k as int]@);
                    assert(gg.packages.take(k + 1) =~= gg.packages.take(k as int).push(gg.packages[k as int]));
                    k = k + 1;
                }
                assert(gg.packages.take(g.packages@.len() as int) =~= gg.packages);
                let ghost removed = r@;
                r.insert(j, e);
                proof {
                    lemma_merge_append(rv, gv.take(n as int), gg, j as int);
                    assert(group_views(r@) =~= rv.update(
                        j as int,
                        GroupView { source: gg.source, packages: rv[j as int].packages + gg.packages },
                    ));
                }
            } else {
                let e = SourceResults { source: g.source.clone(), packages: copy_packages(&g.packages) };
                proof {
                    if j < r@.len() {
                        assert(!text_lt(rv[j as int].source, gg.source));
                        assert(rv[j as int].source != gg.source);
                    }
                    lemma_merge_insert(rv, gv.take(n as int), gg, j as int);
                }
                r.insert(j, e);
                assert(group_views(r@) =~= rv.insert(j as int, gg));
            }
        }
        n = n + 1;
    }
    assert(gv.take(groups@.len() as int) =~= gv);
    r
}

proof fn lemma_last_page(n: int, ps: int)
    requires
        ps >= 1,
        n >= 0,
    ensures
        (if n == 0 { 1 } else { (n - 1) / ps + 1 }) >= 1,
        ((if n == 0 { 1 } else { (n - 1) / ps + 1 }) - 1) * ps <= n,
{
    if n > 0 {
        let q = (n - 1) / ps;
        assert(q * ps <= n - 1) by (nonlinear_arith)
            requires
                ps >= 1,
                n >= 1,
                q == (n - 1) / ps,
        ;
        assert(q >= 0) by (nonlinear_arith)
            requires
                ps >= 1,
                n >= 1,
                q == (n - 1) / ps,
        ;
    }
}

/// While browsing, a selection that points at a result keeps pointing at one
/// after any key: moving within a page, crossing to the previous or next
/// page, turning the page, or switching tabs.
pub proof fn browse_keeps_selection(v: AppView, key: Key)
    requires
        wf(v),
        valid_selection(v),
    ensures
        valid_selection(browse_step(v, key)),
{
    let n = current(v).len();
    match key {
        Key::Up | Key::Char('k') => {
            if let Some(sel) = v.selected {
                if sel == 0 && v.page > 0 {
                    lemma_prev_page(v.page, v.page_size);
                } else if sel > 0 {
                }
            }
        },
        Key::Down | Key::Char('j') => {
            if let Some(sel) = v.selected {
                if sel + 1 < page_rows(v) {
                } else if v.page + 1 < total_pages(v) {
                    lemma_next_page(v.page, v.page_size, n as int);
                }
            }
        },
        Key::Left | Key::Char('h') => {
            if v.sources.len() <= 1 && v.page > 0 {
                lemma_prev_page(v.page, v.page_size);
            }
        },
        Key::Right | Key::Char('l') => {
            if v.sources.len() <= 1 && v.page + 1 < total_pages(v) {
                lemma_next_page(v.page, v.page_size, n as int);
            }
        },
        Key::Tab => {
            let w = with_tab(v, (v.active_tab + 1) % (v.tabs.len() as int));
            assert(page_start(w) == 0) by (nonlinear_arith)
                requires
                    w.page == 0,
                    page_start(w) == w.page * w.page_size,
            ;
        },
        Key::BackTab => {
            let w = with_tab(v, if v.active_tab == 0 { v.tabs.len() - 1 } else { v.active_tab - 1 });
            assert(page_start(w) == 0) by (nonlinear_arith)
                requires
                    w.page == 0,
                    page_start(w) == w.page * w.page_size,
            ;
        },
        _ => {},
    }
}

/// Backspace right after typing a character gives back the query and the
/// cursor as they were.
pub proof fn backspace_undoes_typing(v: AppView, c: char)
    requires
        wf(v),
    ensures
        input_step(input_step(v, Key::Char(c)), Key::Backspace) == v,
{
    let w = input_step(v, Key::Char(c));
    assert(w.input.remove(v.cursor) =~= v.input);
}

/// Back-tab right after tab returns to the tab that was shown.
pub proof fn back_tab_undoes_tab(v: AppView)
    requires
        wf(v),
    ensures
        browse_step(browse_step(v, Key::Tab), Key::BackTab).active_tab == v.active_tab,
{
    let n = v.tabs.len() as int;
    let t = (v.active_tab + 1) % n;
    let a = v.active_tab + 1;
    if a < n {
        assert(a % n == a) by (nonlinear_arith)
            requires
                0 <= a < n,
        ;
    } else {
        assert(a % n == 0) by (nonlinear_arith)
            requires
                a == n,
                n >= 1,
        ;
    }
}

/// Cancelling a confirmation returns to the results with nothing else
/// changed, and asks for no operation.
pub proof fn cancel_returns_to_results(v: AppView, key: Key)
    requires
        v.mode == Mode::Confirm,
        cancels(key),
    ensures
        confirm_step(v, key) == (AppView { mode: Mode::Browse, ..v }, Option::<ActionView>::None),
{
}

// ── Building blocks ──────────────────────────────────────────────────────────

/// Whether `v` holds the text `s`.
pub fn contains_text(v: &Vec<String>, s: &str) -> (r: bool)
    ensures
        r == strs(v@).contains(s@),
{
    let sc = chars_of(s);
    let mut k: usize = 0;
    while k < v.len()
        invariant
            k <= v@.len(),
            sc@ == s@,
            forall|j: int| 0 <= j < k ==> strs(v@)[j] != s@,
        decreases v@.len() - k,
    {
        let e = chars_of(v[k].as_str());
        if text_eq(e.as_slice(), sc.as_slice()) {
            assert(strs(v@)[k as int] == s@);
            return true;
        }
        k = k + 1;
    }
    proof {
        if strs(v@).contains(s@) {
            let j = choose|j: int| 0 <= j < strs(v@).len() && strs(v@)[j] == s@;
            assert(strs(v@)[j] != s@);
        }
    }
    false
}

/// The sources of the packages named `name` (see [`sources_for`]).
pub fn sources_named(all: &Vec<PackageInfo>, name: &str) -> (r: Vec<String>)
    ensures
        strs(r@) == sources_for(pkg_views(all@), name@),
{
    let nc = chars_of(name);
    let mut r: Vec<String> = Vec::new();
    let mut k: usize = 0;
    while k < all.len()
        invariant
            k <= all@.len(),
            nc@ == name@,
            strs(r@) == sources_for(pkg_views(all@).take(k as int), name@),
        decreases all@.len() - k,
    {
        let ghost prev = pkg_views(all@).take(k as int);
        let ghost next = pkg_views(all@).take(k + 1);
        assert(next.drop_last() =~= prev);
        assert(next.last() == all@[k as int]@);
        let pn = chars_of(all[k].name.as_str());
        if text_eq(pn.as_slice(), nc.as_slice()) && !contains_text(&r, all[k].source.as_str()) {
            let ghost before = r@;
            r.push(all[k].source.clone());
            proof {
                crate::pm::builtin::lemma_strs_push(before, r@.last());
                assert(r@ =~= before.push(r@.last()));
            }
        }
        k = k + 1;
    }
    assert(pkg_views(all@).take(all@.len() as int) =~= pkg_views(all@));
    r
}

/// A copy of a package list.
pub fn copy_packages(v: &Vec<PackageInfo>) -> (r: Vec<PackageInfo>)
    ensures
        pkg_views(r@) == pkg_views(v@),
{
    let mut r: Vec<PackageInfo> = Vec::new();
    let mut k: usize = 0;
    while k < v.len()
        invariant
            k <= v@.len(),
            pkg_views(r@) == pkg_views(v@).take(k as int),
        decreases v@.len() - k,
    {
        let c = v[k].copy();
        let ghost before = r@;
        r.push(c);
        assert(r@ == before.push(c));
        assert(pkg_views(r@) =~= pkg_views(before).push(c@));
        assert(pkg_views(r@) =~= pkg_views(v@).take(k + 1));
        k = k + 1;
    }
    assert(pkg_views(v@).take(v@.len() as int) =~= pkg_views(v@));
    r
}

impl App {
    /// A fresh screen: typing, no results, pages of twenty rows.
    pub fn new() -> (r: App)
        ensures
            wf(r@),
            r@.mode == Mode::Input,
            r@.input.len() == 0,
            r@.cursor == 0,
            r@.all.len() == 0,
            r@.groups.len() == 0,
            r@.tabs == seq!["All"@],
            r@.selected is None,
            r@.page == 0,
            r@.page_size == 20,
            r@.confirm_yes,
            !r@.quit,
    {
        let mut tabs: Vec<String> = Vec::new();
        tabs.push("All".to_owned());
        let r = App {
            mode: Mode::Input,
            search_input: Vec::new(),
            cursor_pos: 0,
            tick: 0,
            results_by_source: Vec::new(),
            all_results: Vec::new(),
            tab_titles: tabs,
            active_tab: 0,
            selected: None,
            page: 0,
            page_size: 20,
            source_options: Vec::new(),
            source_selected: 0,
            confirm_action: String::new(),
            confirm_packages: Vec::new(),
            confirm_selected_yes: true,
            progress_items: Vec::new(),
            status_message: String::new(),
            should_quit: false,
        };
        assert(strs(r.tab_titles@) =~= seq!["All"@]);
        assert(pkg_views(r.all_results@) =~= Seq::<PackageInfoView>::empty());
        r
    }

    /// The list that the active tab shows, `None` when it shows nothing.
    fn current_vec(&self) -> (r: Option<&Vec<PackageInfo>>)
        ensures
            match r {
                Some(v) => pkg_views(v@) == current(self@),
                None => current(self@).len() == 0,
            },
    {
        if self.active_tab == 0 {
            Some(&self.all_results)
        } else if self.active_tab - 1 < self.results_by_source.len() {
            let g = &self.results_by_source[self.active_tab - 1];
            assert(group_views(self.results_by_source@)[self.active_tab - 1] == g@);
            Some(&g.packages)
        } else {
            None
        }
    }

    /// The number of results that the active tab shows.
    pub fn current_len(&self) -> (n: usize)
        ensures
            n == current(self@).len(),
    {
        match self.current_vec() {
            Some(v) => v.len(),
            None => 0,
        }
    }

    /// The number of pages of the active tab.
    pub fn total_pages(&self) -> (n: usize)
        requires
            self@.page_size >= 1,
        ensures
            n == total_pages(self@),
    {
        let len = self.current_len();
        if len == 0 {
            1
        } else {
            (len - 1) / self.page_size + 1
        }
    }

    /// The rows of the page, each with its index among the tab's results.
    pub fn page_items(&self) -> (r: Vec<(usize, PackageInfo)>)
        requires
            paged(self@),
        ensures
            r@.len() == page_rows(self@),
            forall|i: int|
                0 <= i < r@.len() ==> r@[i].0 == page_start(self@) + i && (#[trigger] r@[i]).1@
                    == current(self@)[page_start(self@) + i],
    {
        let mut r: Vec<(usize, PackageInfo)> = Vec::new();
        match self.current_vec() {
            Some(v) => {
                let vl = v.len();
                assert(pkg_views(v@).len() == v@.len());
                assert(self.page as int * self.page_size as int <= vl);
                let start = self.page * self.page_size;
                let n = if vl - start < self.page_size {
                    vl - start
                } else {
                    self.page_size
                };
                let mut k: usize = 0;
                while k < n
                    invariant
                        k <= n,
                        n == page_rows(self@),
                        start == page_start(self@),
                        start + n <= vl,
                        vl == v@.len(),
                        pkg_views(v@) == current(self@),
                        pkg_views(v@).len() == v@.len(),
                        r@.len() == k,
                        forall|i: int|
                            0 <= i < k ==> r@[i].0 == start + i && (#[trigger] r@[i]).1@
                                == current(self@)[start + i],
                    decreases n - k,
                {
                    let p = v[start + k].copy();
                    r.push((start + k, p));
                    k = k + 1;
                }
            },
            None => {},
        }
        r
    }

    /// The selected package, when the selected row holds one.
    pub fn selected_package(&self) -> (r: Option<&PackageInfo>)
        requires
            paged(self@),
        ensures
            match r {
                Some(p) => selected_pkg(self@) == Some(p@),
                None => selected_pkg(self@) is None,
            },
    {
        match self.selected {
            Some(rel) => match self.current_vec() {
                Some(v) => {
                    let vl = v.len();
                    assert(pkg_views(v@).len() == v@.len());
                    assert(self.page as int * self.page_size as int <= vl);
                    let start = self.page * self.page_size;
                    if rel < vl - start {
                        Some(&v[start + rel])
                    } else {
                        None
                    }
                },
                None => None,
            },
            None => None,
        }
    }

    /// Recompute the source options of the selected package.
    pub fn update_source_options(&mut self)
        requires
            paged(old(self)@),
        ensures
            final(self)@ == refresh_sources(old(self)@),
    {
        let name: Option<String> = match self.selected_package() {
            Some(p) => Some(p.name.clone()),
            None => None,
        };
        match name {
            Some(n) => {
                let srcs = sources_named(&self.all_results, n.as_str());
                self.source_options = srcs;
                self.source_selected = 0;
            },
            None => {
                self.source_options = Vec::new();
                assert(strs(self.source_options@) =~= Seq::<Seq<char>>::empty());
            },
        }
    }

    /// Show tab `t` from its first page (see [`with_tab`]).
    fn show_tab(&mut self, t: usize)
        ensures
            final(self)@ == with_tab(old(self)@, t as int),
    {
        self.active_tab = t;
        self.page = 0;
        self.selected = if self.current_len() == 0 {
            None
        } else {
            Some(0)
        };
    }

    /// Ask to confirm `action` on the selected package, if there is one.
    fn ask(&mut self, action: &str)
        requires
            paged(old(self)@),
        ensures
            final(self)@ == (match selected_pkg(old(self)@) {
                Some(p) => ask_confirm(old(self)@, action@, p.name),
                None => old(self)@,
            }),
    {
        let name: Option<String> = match self.selected_package() {
            Some(p) => Some(p.name.clone()),
            None => None,
        };
        match name {
            Some(n) => {
                self.confirm_action = action.to_owned();
                let pkgs = vec![n];
                assert(strs(pkgs@) =~= seq![pkgs@[0]@]);
                self.confirm_packages = pkgs;
                self.confirm_selected_yes = true;
                self.mode = Mode::Confirm;
            },
            None => {},
        }
    }

    /// Ask to confirm installing the selected package, or say that it is
    /// installed already.
    fn ask_install(&mut self)
        requires
            paged(old(self)@),
        ensures
            final(self)@ == (match selected_pkg(old(self)@) {
                Some(p) => if p.installed {
                    AppView { status: already_installed(p.name), ..old(self)@ }
                } else {
                    ask_confirm(old(self)@, "install"@, p.name)
                },
                None => old(self)@,
            }),
    {
        let installed_name: Option<String> = match self.selected_package() {
            Some(p) => if p.installed {
                Some(p.name.clone())
            } else {
                None
            },
            None => None,
        };
        match installed_name {
            Some(n) => {
                let mut m = chars_of("'");
                append_str(&mut m, n.as_str());
                append_str(&mut m, "' is already installed");
                self.status_message = string_of(m.as_slice());
            },
            None => self.ask("install"),
        }
    }

    /// Up while browsing.
    fn browse_up(&mut self)
        requires
            wf(old(self)@),
        ensures
            final(self)@ == browse_step(old(self)@, Key::Up),
    {
        let ghost v = self@;
        let results_len = self.current_len();
        match self.selected {
            Some(sel) => {
                if sel > 0 {
                    self.selected = Some(sel - 1);
                } else if self.page > 0 {
                    proof {
                        lemma_prev_page(v.page, v.page_size);
                    }
                    self.page = self.page - 1;
                    let start = self.page * self.page_size;
                    let left = results_len - start;
                    let n = if self.page_size < left {
                        self.page_size
                    } else {
                        left
                    };
                    self.selected = Some(
                        if n > 0 {
                            n - 1
                        } else {
                            0
                        },
                    );
                }
            },
            None => {},
        }
        self.update_source_options();
    }

    /// Down while browsing.
    fn browse_down(&mut self)
        requires
            wf(old(self)@),
        ensures
            final(self)@ == browse_step(old(self)@, Key::Down),
    {
        let ghost v = self@;
        let results_len = self.current_len();
        assert(self.page as int * self.page_size as int <= results_len);
        let page_start = self.page * self.page_size;
        let page_items = if results_len - page_start < self.page_size {
            results_len - page_start
        } else {
            self.page_size
        };
        match self.selected {
            Some(sel) => {
                if page_items > 0 && sel < page_items - 1 {
                    self.selected = Some(sel + 1);
                } else if self.page < self.total_pages() - 1 {
                    proof {
                        lemma_next_page(v.page, v.page_size, results_len as int);
                    }
                    self.page = self.page + 1;
                    self.selected = Some(0);
                }
            },
            None => {},
        }
        self.update_source_options();
    }

    /// Left while browsing.
    fn browse_left(&mut self)
        requires
            wf(old(self)@),
        ensures
            final(self)@ == browse_step(old(self)@, Key::Left),
    {
        let ghost v = self@;
        let n_src = self.source_options.len();
        if n_src > 1 {
            self.source_selected = if self.source_selected > 0 {
                self.source_selected - 1
            } else {
                0
            };
        } else if self.page > 0 {
            proof {
                lemma_prev_page(v.page, v.page_size);
            }
            self.page = self.page - 1;
            self.selected = Some(0);
            self.update_source_options();
        }
    }

    /// Right while browsing.
    fn browse_right(&mut self)
        requires
            wf(old(self)@),
        ensures
            final(self)@ == browse_step(old(self)@, Key::Right),
    {
        let ghost v = self@;
        let n_src = self.source_options.len();
        if n_src > 1 {
            self.source_selected = if self.source_selected < n_src - 1 {
                self.source_selected + 1
            } else {
                n_src - 1
            };
        } else if self.page < self.total_pages() - 1 {
            let results_len = self.current_len();
            proof {
                lemma_next_page(v.page, v.page_size, results_len as int);
            }
            self.page = self.page + 1;
            self.selected = Some(0);
            self.update_source_options();
        }
    }

    /// Tab or back-tab while browsing.
    fn browse_tab(&mut self, back: bool)
        requires
            wf(old(self)@),
        ensures
            final(self)@ == browse_step(old(self)@, if back { Key::BackTab } else { Key::Tab }),
    {
        let nt = self.tab_titles.len();
        let t = if back {
            if self.active_tab == 0 {
                nt - 1
            } else {
                self.active_tab - 1
            }
        } else {
            (self.active_tab + 1) % nt
        };
        self.show_tab(t);
        proof {
            assert(page_start(self@) == 0) by (nonlinear_arith)
                requires
                    self@.page == 0,
                    page_start(self@) == self@.page * self@.page_size,
            ;
        }
        self.update_source_options();
    }

    /// Handle a key while browsing (see [`browse_step`]).
    fn browse_key(&mut self, key: Key)
        requires
            wf(old(self)@),
        ensures
            final(self)@ == browse_step(old(self)@, key),
    {
        match key {
            Key::Up | Key::Char('k') => self.browse_up(),
            Key::Down | Key::Char('j') => self.browse_down(),
            Key::Left | Key::Char('h') => self.browse_left(),
            Key::Right | Key::Char('l') => self.browse_right(),
            Key::Tab => self.browse_tab(false),
            Key::BackTab => self.browse_tab(true),
            Key::Char('i') | Key::Enter => {
                self.ask_install();
            },
            Key::Char('d') | Key::Char('r') => {
                self.ask("remove");
            },
            Key::Char('/') => {
                self.mode = Mode::Input;
            },
            Key::Char('q') | Key::Esc => {
                self.should_quit = true;
            },
            _ => {},
        }
    }

    /// The status line while the query `q` is searched for.
    fn searching_message(q: &[char]) -> (r: String)
        ensures
            r@ == searching(q@),
    {
        let mut m = chars_of("Searching for '");
        append_chars(&mut m, q);
        append_str(&mut m, "'...");
        string_of(m.as_slice())
    }

    /// Handle a key while typing the query (see [`input_step`]).
    fn input_key(&mut self, key: Key) -> (r: Option<Action>)
        requires
            wf(old(self)@),
            old(self).search_input@.len() < usize::MAX,
        ensures
            final(self)@ == input_step(old(self)@, key),
            action_view(r) == input_action(old(self)@, key),
    {
        match key {
            Key::Char(c) => {
                self.search_input.insert(self.cursor_pos, c);
                self.cursor_pos = self.cursor_pos + 1;
                assert(self@.input.len() == old(self)@.input.len() + 1);
                Some(Action::Search(string_of(self.search_input.as_slice())))
            },
            Key::Backspace => {
                if self.cursor_pos > 0 {
                    self.cursor_pos = self.cursor_pos - 1;
                    self.search_input.remove(self.cursor_pos);
                    assert(self@.input.len() == old(self)@.input.len() - 1);
                    if self.search_input.len() > 0 {
                        Some(Action::Search(string_of(self.search_input.as_slice())))
                    } else {
                        None
                    }
                } else {
                    None
                }
            },
            Key::Delete => {
                if self.cursor_pos < self.search_input.len() {
                    self.search_input.remove(self.cursor_pos);
                    assert(self@.input.len() == old(self)@.input.len() - 1);
                    if self.search_input.len() > 0 {
                        Some(Action::Search(string_of(self.search_input.as_slice())))
                    } else {
                        None
                    }
                } else {
                    None
                }
            },
            Key::Left => {
                self.cursor_pos = if self.cursor_pos > 0 {
                    self.cursor_pos - 1
                } else {
                    0
                };
                None
            },
            Key::Right => {
                let n = self.search_input.len();
                self.cursor_pos = if self.cursor_pos + 1 <= n {
                    self.cursor_pos + 1
                } else {
                    n
                };
                None
            },
            Key::Home => {
                self.cursor_pos = 0;
                None
            },
            Key::End => {
                self.cursor_pos = self.search_input.len();
                None
            },
            Key::Enter => {
                if self.search_input.len() > 0 {
                    let q = string_of(self.search_input.as_slice());
                    self.status_message = Self::searching_message(self.search_input.as_slice());
                    Some(Action::Search(q))
                } else {
                    None
                }
            },
            Key::Tab => {
                if self.all_results.len() > 0 {
                    self.mode = Mode::Browse;
                    if self.selected.is_none() {
                        self.selected = Some(0);
                        self.update_source_options();
                    }
                }
                None
            },
            Key::Esc => {
                self.should_quit = true;
                None
            },
            _ => None,
        }
    }

    /// The index of the first result named `name`.
    fn first_named(all: &Vec<PackageInfo>, name: &str) -> (r: Option<usize>)
        ensures
            opt_int(r) == first_named_from(pkg_views(all@), name@, 0),
            r matches Some(i) ==> i < all@.len(),
    {
        let nc = chars_of(name);
        let ghost pv = pkg_views(all@);
        let mut k: usize = 0;
        while k < all.len()
            invariant
                k <= all@.len(),
                nc@ == name@,
                pv == pkg_views(all@),
                first_named_from(pv, name@, 0) == first_named_from(pv, name@, k as int),
            decreases all@.len() - k,
        {
            let pn = chars_of(all[k].name.as_str());
            if text_eq(pn.as_slice(), nc.as_slice()) {
                return Some(k);
            }
            k = k + 1;
        }
        None
    }

    /// The source to install from (see [`install_source`]).
    fn install_source_exec(&self) -> (r: String)
        requires
            self@.sources.len() <= 1 ==> self@.confirm_packages.len() >= 1,
        ensures
            r@ == install_source(self@),
    {
        let n_src = self.source_options.len();
        if n_src > 1 {
            if self.source_selected < n_src {
                self.source_options[self.source_selected].clone()
            } else {
                String::new()
            }
        } else {
            match Self::first_named(&self.all_results, self.confirm_packages[0].as_str()) {
                Some(i) => {
                    assert(pkg_views(self.all_results@)[i as int] == self.all_results@[i as int]@);
                    self.all_results[i].source.clone()
                },
                None => String::new(),
            }
        }
    }

    /// A pending progress item for each name.
    pub fn pending_items(names: &Vec<String>) -> (r: Vec<ProgressItem>)
        ensures
            progress_views(r@) == pending(strs(names@)),
    {
        let mut r: Vec<ProgressItem> = Vec::new();
        let mut k: usize = 0;
        while k < names.len()
            invariant
                k <= names@.len(),
                progress_views(r@) == pending(strs(names@)).take(k as int),
            decreases names@.len() - k,
        {
            let item = ProgressItem { name: names[k].clone(), done: false, success: false };
            let ghost before = r@;
            r.push(item);
            assert(progress_views(r@) =~= progress_views(before).push(r@.last()@));
            assert(progress_views(r@) =~= pending(strs(names@)).take(k + 1));
            k = k + 1;
        }
        assert(pending(strs(names@)).take(names@.len() as int) =~= pending(strs(names@)));
        r
    }

    /// Confirm the operation (see [`confirmed`] and [`confirmed_action`]).
    fn confirm_yes(&mut self) -> (r: Action)
        requires
            old(self)@.confirm_packages.len() >= 1,
        ensures
            final(self)@ == confirmed(old(self)@),
            action_view(Some(r)) == Some(confirmed_action(old(self)@)),
    {
        let pkgs = copy_strings(&self.confirm_packages);
        let items = Self::pending_items(&self.confirm_packages);
        let ac = chars_of(self.confirm_action.as_str());
        let install = eq_str(ac.as_slice(), "install");
        let source = self.install_source_exec();
        let act = if install {
            Action::Install(pkgs, source)
        } else {
            Action::Remove(pkgs, source)
        };
        self.mode = Mode::Progress;
        self.progress_items = items;
        act
    }

    /// Handle a key in the confirmation dialog (see [`confirm_step`]).
    fn confirm_key(&mut self, key: Key) -> (r: Option<Action>)
        requires
            wf(old(self)@),
            old(self)@.mode == Mode::Confirm,
        ensures
            final(self)@ == confirm_step(old(self)@, key).0,
            action_view(r) == confirm_step(old(self)@, key).1,
    {
        match key {
            Key::Left | Key::Right | Key::Tab => {
                self.confirm_selected_yes = !self.confirm_selected_yes;
                None
            },
            Key::Enter => {
                if self.confirm_selected_yes {
                    Some(self.confirm_yes())
                } else {
                    self.mode = Mode::Browse;
                    None
                }
            },
            Key::Char('y') | Key::Char('Y') => Some(self.confirm_yes()),
            Key::Char('n') | Key::Char('N') | Key::Char('c') | Key::Char('C') | Key::Char('b')
            | Key::Char('B') | Key::Esc => {
                self.mode = Mode::Browse;
                None
            },
            _ => None,
        }
    }

    /// Handle a key press: the next state and, when the key asks for one, the
    /// operation to run (see [`key_step`]). Well-formed states stay
    /// well-formed.
    pub fn handle_key(&mut self, key: Key, ctrl: bool) -> (r: Option<Action>)
        requires
            wf(old(self)@),
            old(self).search_input@.len() < usize::MAX,
        ensures
            final(self)@ == key_step(old(self)@, key, ctrl).0,
            action_view(r) == key_step(old(self)@, key, ctrl).1,
            wf(final(self)@),
    {
        proof {
            key_step_keeps_wf(self@, key, ctrl);
        }
        match self.mode {
            Mode::Input => self.input_key(key),
            Mode::Browse => {
                if ctrl && key == Key::Char('f') {
                    Some(Action::FuzzySearch)
                } else if key == Key::Char('v') {
                    Some(Action::ViewInstalled)
                } else if key == Key::Char('t') {
                    Some(Action::PickTheme)
                } else {
                    self.browse_key(key);
                    None
                }
            },
            Mode::Confirm => self.confirm_key(key),
            Mode::Done => {
                if key == Key::Char('q') || key == Key::Esc {
                    self.should_quit = true;
                }
                None
            },
            Mode::Progress => None,
        }
    }

    /// Show the result groups `groups` (see [`with_results`]).
    pub fn set_results(&mut self, groups: Vec<SourceResults>)
        requires
            old(self)@.page_size >= 1,
        ensures
            final(self)@ == with_results(old(self)@, group_views(groups@)),
            wf(old(self)@) && old(self)@.mode != Mode::Confirm ==> wf(final(self)@),
    {
        let ghost gv = group_views(groups@);
        let mut tabs: Vec<String> = Vec::new();
        tabs.push("All".to_owned());
        let mut all: Vec<PackageInfo> = Vec::new();
        let mut k: usize = 0;
        assert(strs(tabs@) =~= seq!["All"@] + gv.take(0).map_values(|g: GroupView| tab_title(g)));
        while k < groups.len()
            invariant
                k <= groups@.len(),
                gv == group_views(groups@),
                strs(tabs@) == seq!["All"@] + gv.take(k as int).map_values(
                    |g: GroupView| tab_title(g),
                ),
                pkg_views(all@) == concat_packages(gv.take(k as int)),
            decreases groups@.len() - k,
        {
            let g = &groups[k];
            assert(gv[k as int] == g@);
            let n = g.packages.len();
            let mut t = chars_of(g.source.as_str());
            append_str(&mut t, " (");
            let d = dec_exec(n as u64);
            append_chars(&mut t, d.as_slice());
            append_str(&mut t, ")");
            let title = string_of(t.as_slice());
            assert(title@ == tab_title(g@));
            let ghost tb = tabs@;
            tabs.push(title);
            proof {
                lemma_strs_push(tb, title);
                assert(gv.take(k + 1).map_values(|g: GroupView| tab_title(g)) =~= gv.take(
                    k as int,
                ).map_values(|g: GroupView| tab_title(g)).push(tab_title(gv[k as int])));
            }
            let ghost before = pkg_views(all@);
            let mut j: usize = 0;
            while j < n
                invariant
                    j <= n,
                    n == g.packages@.len(),
                    pkg_views(all@) == before + pkg_views(g.packages@).take(j as int),
                decreases n - j,
            {
                let c = g.packages[j].copy();
                let ghost b2 = all@;
                all.push(c);
                assert(pkg_views(all@) =~= pkg_views(b2).push(c@));
                assert(pkg_views(g.packages@).take(j + 1) =~= pkg_views(g.packages@).take(
                    j as int,
                ).push(pkg_views(g.packages@)[j as int]));
                j = j + 1;
            }
            assert(pkg_views(g.packages@).take(n as int) =~= pkg_views(g.packages@));
            assert(gv.take(k + 1).drop_last() =~= gv.take(k as int));
            k = k + 1;
        }
        assert(gv.take(groups@.len() as int) =~= gv);
        let nonempty = all.len() > 0;
        self.tab_titles = tabs;
        self.all_results = all;
        self.results_by_source = groups;
        self.active_tab = 0;
        self.page = 0;
        self.selected = if nonempty {
            Some(0)
        } else {
            None
        };
        proof {
            assert(page_start(self@) == 0) by (nonlinear_arith)
                requires
                    self@.page == 0,
                    page_start(self@) == self@.page * self@.page_size,
            ;
        }
        self.update_source_options();
    }


    /// Take the groups that a search answered (see [`with_search_results`]).
    pub fn search_finished(&mut self, groups: Vec<SourceResults>)
        requires
            old(self)@.page_size >= 1,
        ensures
            final(self)@ == with_search_results(old(self)@, group_views(groups@)),
            wf(old(self)@) ==> wf(final(self)@),
    {
        let ghost v = self@;
        self.set_results(groups);
        self.mode = Mode::Browse;
        if self.selected.is_none() && self.all_results.len() > 0 {
            self.selected = Some(0);
            self.update_source_options();
        }
        self.status_message = String::new();
        proof {
            if wf(v) && v.mode == Mode::Confirm {
                assert(wf(AppView { mode: Mode::Input, ..v }));
            }
        }
    }

    /// Start with the query `q` typed, the cursor after it, and the status line
    /// announcing its search.
    pub fn prefill(&mut self, q: &str)
        ensures
            final(self)@ == (AppView {
                input: q@,
                cursor: q@.len() as int,
                status: searching(q@),
                ..old(self)@
            }),
    {
        let cs = chars_of(q);
        self.cursor_pos = cs.len();
        self.status_message = Self::searching_message(cs.as_slice());
        self.search_input = cs;
    }

    /// Set the page size for a table area `height` rows high: the rows left
    /// after the table's borders, header and separator, at least one. When the
    /// page would then start past the results, the last page is shown.
    pub fn set_page_size(&mut self, height: u16)
        requires
            wf(old(self)@),
        ensures
            final(self)@.page_size == (if height >= 5 { height - 4 } else { 1 }),
            final(self)@.page == (if old(self)@.page * final(self)@.page_size <= current(old(self)@).len() {
                old(self)@.page
            } else {
                total_pages(AppView { page_size: final(self)@.page_size, ..old(self)@ }) - 1
            }),
            final(self)@ == (AppView { page_size: final(self)@.page_size, page: final(self)@.page, ..old(self)@ }),
            wf(final(self)@),
    {
        let h = height as usize;
        let ps: usize = if h >= 5 {
            h - 4
        } else {
            1
        };
        self.page_size = ps;
        let len = self.current_len();
        let fits = match self.page.checked_mul(ps) {
            Some(start) => start <= len,
            None => false,
        };
        if !fits {
            let last = self.total_pages() - 1;
            proof {
                lemma_last_page(len as int, ps as int);
            }
            self.page = last;
        }
        proof {
            if fits {
                assert(self.page as int * ps as int <= len);
            }
        }
    }

    /// The fuzzy finder's input: one line per result (see [`fuzzy_text`]).
    pub fn fuzzy_items(&self) -> (r: String)
        ensures
            r@ == fuzzy_text(self@.all),
    {
        let mut t: Vec<char> = Vec::new();
        let ghost av = self@.all;
        let mut k: usize = 0;
        while k < self.all_results.len()
            invariant
                k <= self.all_results@.len(),
                av == pkg_views(self.all_results@),
                t@ == fuzzy_text(av.take(k as int)),
            decreases self.all_results@.len() - k,
        {
            let p = &self.all_results[k];
            assert(av[k as int] == p@);
            append_str(&mut t, p.name.as_str());
            append_str(&mut t, " [");
            append_str(&mut t, p.source.as_str());
            append_str(&mut t, "]\n");
            assert(av.take(k + 1).drop_last() =~= av.take(k as int));
            k = k + 1;
        }
        assert(av.take(self.all_results@.len() as int) =~= av);
        string_of(t.as_slice())
    }

    /// Take the fuzzy finder's answer: when it names a package that the
    /// results hold, show only the results of that name, one group per source
    /// in order of source; otherwise change nothing.
    pub fn apply_fuzzy_pick(&mut self, out: &str)
        requires
            old(self)@.page_size >= 1,
        ensures
            match picked_name(out@) {
                Some(n) => if named_singletons(old(self)@.all, n).len() > 0 {
                    merges(final(self)@.groups, named_singletons(old(self)@.all, n))
                        && final(self)@ == with_results(old(self)@, final(self)@.groups)
                } else {
                    final(self)@ == old(self)@
                },
                None => final(self)@ == old(self)@,
            },
    {
        match picked_name_of(out) {
            Some(name) => {
                let singles = Self::singletons(&self.all_results, name.as_slice());
                if singles.len() > 0 {
                    let merged = merge_groups(&singles);
                    let ghost mv = group_views(merged@);
                    self.set_results(merged);
                    assert(self@.groups == mv);
                }
            },
            None => {},
        }
    }

    /// One group per result named `name` (see [`named_singletons`]).
    fn singletons(all: &Vec<PackageInfo>, name: &[char]) -> (r: Vec<SourceResults>)
        ensures
            group_views(r@) == named_singletons(pkg_views(all@), name@),
    {
        let ghost av = pkg_views(all@);
        let mut r: Vec<SourceResults> = Vec::new();
        let mut k: usize = 0;
        while k < all.len()
            invariant
                k <= all@.len(),
                av == pkg_views(all@),
                group_views(r@) == named_singletons(av.take(k as int), name@),
            decreases all@.len() - k,
        {
            let p = &all[k];
            assert(av[k as int] == p@);
            assert(av.take(k + 1).drop_last() =~= av.take(k as int));
            let pn = chars_of(p.name.as_str());
            if text_eq(pn.as_slice(), name) {
                let mut one: Vec<PackageInfo> = Vec::new();
                one.push(p.copy());
                assert(pkg_views(one@) =~= seq![p@]);
                let g = SourceResults { source: p.source.clone(), packages: one };
                let ghost before = r@;
                r.push(g);
                assert(group_views(r@) =~= group_views(before).push(g@));
            }
            k = k + 1;
        }
        assert(av.take(all@.len() as int) =~= av);
        r
    }

    /// Mark item `i` of the running operation finished, with its outcome;
    /// nothing changes when there is no such item.
    pub fn mark_progress(&mut self, i: usize, success: bool)
        ensures
            (i as int) < old(self)@.progress.len() ==> final(self)@ == (AppView {
                progress: old(self)@.progress.update(
                    i as int,
                    ProgressView { name: old(self)@.progress[i as int].name, done: true, success },
                ),
                ..old(self)@
            }),
            (i as int) >= old(self)@.progress.len() ==> final(self)@ == old(self)@,
    {
        if i < self.progress_items.len() {
            let name = self.progress_items[i].name.clone();
            let ghost before = self.progress_items@;
            self.progress_items.remove(i);
            self.progress_items.insert(i, ProgressItem { name, done: true, success });
            assert(progress_views(self.progress_items@) =~= progress_views(before).update(
                i as int,
                ProgressView { name: progress_views(before)[i as int].name, done: true, success },
            ));
        }
    }

    /// The numbers of finished, succeeded and failed items.
    pub fn progress_counts(&self) -> (r: (usize, usize, usize))
        ensures
            r.0 == count_done(self@.progress),
            r.1 == count_succeeded(self@.progress),
            r.2 == count_failed(self@.progress),
    {
        let ghost pv = self@.progress;
        let mut d: usize = 0;
        let mut s: usize = 0;
        let mut f: usize = 0;
        let mut k: usize = 0;
        while k < self.progress_items.len()
            invariant
                k <= self.progress_items@.len(),
                pv == progress_views(self.progress_items@),
                d == count_done(pv.take(k as int)),
                s == count_succeeded(pv.take(k as int)),
                f == count_failed(pv.take(k as int)),
                d <= k,
                s <= k,
                f <= k,
            decreases self.progress_items@.len() - k,
        {
            let it = &self.progress_items[k];
            assert(pv[k as int] == it@);
            assert(pv.take(k + 1).drop_last() =~= pv.take(k as int));
            if it.done {
                d = d + 1;
            }
            if it.success {
                s = s + 1;
            }
            if it.done && !it.success {
                f = f + 1;
            }
            k = k + 1;
        }
        assert(pv.take(self.progress_items@.len() as int) =~= pv);
        (d, s, f)
    }

    /// The screen of an operation running on `packages` (see
    /// [`operation_items`]): the action shown, one pending item each.
    pub fn for_operation(action: &str, packages: Vec<String>) -> (r: App)
        ensures
            wf(r@),
            r@.mode == Mode::Progress,
            r@.confirm_action == action@,
            r@.progress == pending(operation_items(action@, strs(packages@))),
            !r@.quit,
    {
        let mut app = App::new();
        let ac = chars_of(action);
        let items: Vec<String> = if eq_str(ac.as_slice(), "update") && packages.len() == 0 {
            let mut v: Vec<String> = Vec::new();
            v.push("System Packages".to_owned());
            assert(strs(v@) =~= seq!["System Packages"@]);
            v
        } else {
            packages
        };
        app.confirm_action = action.to_owned();
        app.mode = Mode::Progress;
        app.progress_items = Self::pending_items(&items);
        app
    }

    /// Whether the state is well-formed (see [`wf`]).
    pub fn is_well_formed(&self) -> (r: bool)
        ensures
            r == wf(self@),
    {
        let len = self.current_len();
        let paged_ok = self.page_size >= 1 && match self.page.checked_mul(self.page_size) {
            Some(start) => start <= len,
            None => false,
        };
        proof {
            if self.page_size >= 1 && !paged_ok {
                if self.page as int * self.page_size as int <= len {
                    assert(self.page as int * self.page_size as int <= usize::MAX);
                }
            }
        }
        let ns = self.source_options.len();
        paged_ok && self.tab_titles.len() >= 1 && self.active_tab < self.tab_titles.len()
            && (ns <= 1 || self.source_selected < ns) && self.cursor_pos <= self.search_input.len()
            && (self.mode != Mode::Confirm || self.confirm_packages.len() >= 1)
    }

    /// What the tab bar shows (see [`tab_mode_of`]).
    pub fn tab_mode(&self) -> (r: TabMode)
        requires
            paged(self@),
        ensures
            r@ == tab_mode_of(self@),
    {
        if self.mode == Mode::Browse && self.source_options.len() > 1 {
            let name = match self.selected_package() {
                Some(p) => p.name.clone(),
                None => String::new(),
            };
            TabMode::PackageSources {
                sources: copy_strings(&self.source_options),
                selected: self.source_selected,
                pkg_name: name,
            }
        } else if self.total_pages() > 1 && self.mode == Mode::Browse {
            TabMode::Pages { current: self.page, total: self.total_pages() }
        } else {
            TabMode::Sources { titles: copy_strings(&self.tab_titles), active: self.active_tab }
        }
    }
}


/// The search terms of a query (see [`search_terms`]).
pub fn search_terms_of(q: &str) -> (r: Vec<String>)
    ensures
        strs(r@) == search_terms(q@),
{
    let qc = chars_of(q);
    let parts = split_char_exec(qc.as_slice(), ',');
    let ghost pv = views(parts@);
    let mut r: Vec<String> = Vec::new();
    let mut k: usize = 0;
    while k < parts.len()
        invariant
            k <= parts@.len(),
            pv == views(parts@),
            pv == split_char(q@, ','),
            strs(r@) == nonempty_trimmed(pv.take(k as int)),
        decreases parts@.len() - k,
    {
        assert(pv.take(k + 1).drop_last() =~= pv.take(k as int));
        assert(pv[k as int] == parts@[k as int]@);
        let t = trimmed(parts[k].as_slice());
        if t.len() > 0 {
            let ts = string_of(t.as_slice());
            let ghost before = r@;
            r.push(ts);
            proof {
                lemma_strs_push(before, ts);
            }
        }
        k = k + 1;
    }
    assert(pv.take(parts@.len() as int) =~= pv);
    r
}

/// Whether the search asks the manager `name` (see [`searchable`]).
pub fn is_searchable(name: &str, available: bool) -> (r: bool)
    ensures
        r == searchable(name@, available),
{
    let nc = chars_of(name);
    available && !eq_str(nc.as_slice(), "topgrade") && !eq_str(nc.as_slice(), "bun")
}

/// The manager that installs from `source` (see [`install_manager`]).
pub fn install_manager_index(names: &Vec<String>, source: &str) -> (r: Option<usize>)
    ensures
        opt_int(r) == install_manager(strs(names@), source@),
{
    let sc = chars_of(source);
    let ghost nv = strs(names@);
    let mut k: usize = 0;
    while k < names.len()
        invariant
            k <= names@.len(),
            nv == strs(names@),
            sc@ == source@,
            position_from(nv, source@, 0) == position_from(nv, source@, k as int),
        decreases names@.len() - k,
    {
        let nc = chars_of(names[k].as_str());
        if text_eq(nc.as_slice(), sc.as_slice()) {
            return Some(k);
        }
        k = k + 1;
    }
    if names.len() > 0 {
        Some(0)
    } else {
        None
    }
}


/// In the confirmation dialog, enter with `Cancel` highlighted asks for no
/// operation and goes back to the results, changing nothing else.
pub proof fn enter_on_cancel_asks_nothing(v: AppView, ctrl: bool)
    requires
        v.mode == Mode::Confirm,
        !v.confirm_yes,
    ensures
        key_step(v, Key::Enter, ctrl).1 is None,
        key_step(v, Key::Enter, ctrl).0 == (AppView { mode: Mode::Browse, ..v }),
{
}

/// In the confirmation dialog, enter with `Yes` highlighted asks for the
/// install, or otherwise the removal, of exactly the packages in the dialog,
/// and shows their progress, each still pending.
pub proof fn enter_on_yes_asks_the_operation(v: AppView, ctrl: bool)
    requires
        v.mode == Mode::Confirm,
        v.confirm_yes,
    ensures
        key_step(v, Key::Enter, ctrl).0.mode == Mode::Progress,
        key_step(v, Key::Enter, ctrl).0.progress.len() == v.confirm_packages.len(),
        forall|i: int|
            0 <= i < v.confirm_packages.len() ==> (#[trigger] key_step(v, Key::Enter, ctrl).0.progress[i]).name
                == v.confirm_packages[i] && !key_step(v, Key::Enter, ctrl).0.progress[i].done,
        v.confirm_action == "install"@ ==> (key_step(v, Key::Enter, ctrl).1 matches Some(
            ActionView::Install(p, _),
        ) && p == v.confirm_packages),
        v.confirm_action != "install"@ ==> (key_step(v, Key::Enter, ctrl).1 matches Some(
            ActionView::Remove(p, _),
        ) && p == v.confirm_packages),
{
}

/// While browsing, the arrow keys and the `k`, `j`, `h`, `l` keys do the
/// same, `i` does what enter does, and `r` what `d` does.
pub proof fn browse_key_pairs_agree(v: AppView)
    requires
        v.mode == Mode::Browse,
    ensures
        key_step(v, Key::Up, false) == key_step(v, Key::Char('k'), false),
        key_step(v, Key::Down, false) == key_step(v, Key::Char('j'), false),
        key_step(v, Key::Left, false) == key_step(v, Key::Char('h'), false),
        key_step(v, Key::Right, false) == key_step(v, Key::Char('l'), false),
        key_step(v, Key::Enter, false) == key_step(v, Key::Char('i'), false),
        key_step(v, Key::Char('d'), false) == key_step(v, Key::Char('r'), false),
        key_step(v, Key::Esc, false) == key_step(v, Key::Char('q'), false),
{
}
} // verus!
