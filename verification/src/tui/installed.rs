//! The view of the installed packages: every manager's packages in name
//! order, narrowed by a filter, with removal of the highlighted package.
use vstd::prelude::*;
use crate::pm::{PackageInfo, PackageInfoView, pkg_views};
use crate::text::{
    text_lt, text_lt_exec, lemma_text_lt_total, lemma_text_lt_transitive, contains,
    contains_exec, chars_of, text_eq, append_str,
};
use crate::tui::search::{fuzzy_text, picked_name, picked_name_of};
use crate::tui::{Key, wrap_next, wrap_prev, wrap_next_exec, wrap_prev_exec};
use crate::sys::string_of;

verus! {

// ── Name order ───────────────────────────────────────────────────────────────

/// `a` comes before `b`: its name is lower in character order.
pub open spec fn name_before(a: PackageInfoView, b: PackageInfoView) -> bool {
    text_lt(a.name, b.name)
}

/// The packages `r`, in name order, with `x` added after every package that
/// it does not come before.
pub open spec fn place_by_name(r: Seq<PackageInfoView>, x: PackageInfoView) -> Seq<PackageInfoView>
    decreases r.len(),
{
    if r.len() == 0 {
        seq![x]
    } else if name_before(x, r.last()) {
        place_by_name(r.drop_last(), x).push(r.last())
    } else {
        r.push(x)
    }
}

/// The packages in name order, packages of the same name in their original
/// order (a stable sort).
pub open spec fn by_name(s: Seq<PackageInfoView>) -> Seq<PackageInfoView>
    decreases s.len(),
{
    if s.len() == 0 {
        Seq::empty()
    } else {
        place_by_name(by_name(s.drop_last()), s.last())
    }
}

proof fn lemma_place_by_name_at(r: Seq<PackageInfoView>, x: PackageInfoView, j: int)
    requires
        0 <= j <= r.len(),
        forall|m: int| j <= m < r.len() ==> name_before(x, #[trigger] r[m]),
        j > 0 ==> !name_before(x, r[j - 1]),
    ensures
        place_by_name(r, x) == r.take(j) + seq![x] + r.skip(j),
    decreases r.len(),
{
    if r.len() == 0 {
        assert(r.take(j) + seq![x] + r.skip(j) =~= seq![x]);
    } else if j == r.len() {
        assert(r.take(j) + seq![x] + r.skip(j) =~= r.push(x));
    } else {
        let d = r.drop_last();
        assert(name_before(x, r[r.len() - 1]));
        assert forall|m: int| j <= m < d.len() implies name_before(x, #[trigger] d[m]) by {
            assert(d[m] == r[m]);
        }
        if j > 0 {
            assert(d[j - 1] == r[j - 1]);
        }
        lemma_place_by_name_at(d, x, j);
        assert(d.take(j) + seq![x] + d.skip(j) + seq![r.last()] =~= r.take(j) + seq![x] + r.skip(j));
    }
}

/// Whether `a` comes before `b` (see [`name_before`]).
fn name_before_exec(a: &PackageInfo, b: &PackageInfo) -> (r: bool)
    ensures
        r == name_before(a@, b@),
{
    text_lt_exec(chars_of(a.name.as_str()).as_slice(), chars_of(b.name.as_str()).as_slice())
}

/// The packages in name order (see [`by_name`]).
pub fn sort_by_name(pkgs: Vec<PackageInfo>) -> (r: Vec<PackageInfo>)
    ensures
        pkg_views(r@) == by_name(pkg_views(pkgs@)),
{
    let ghost pv = pkg_views(pkgs@);
    let mut r: Vec<PackageInfo> = Vec::new();
    let mut k: usize = 0;
    while k < pkgs.len()
        invariant
            k <= pkgs@.len(),
            pv == pkg_views(pkgs@),
            pkg_views(r@) == by_name(pv.take(k as int)),
        decreases pkgs@.len() - k,
    {
        let x = pkgs[k].copy();
        let ghost xv = pkgs@[k as int]@;
        assert(pv[k as int] == xv);
        let ghost rv = pkg_views(r@);
        let mut j = r.len();
        while j > 0 && name_before_exec(&x, &r[j - 1])
            invariant
                j <= r@.len(),
                rv == pkg_views(r@),
                x@ == xv,
                forall|m: int| j <= m < rv.len() ==> name_before(xv, #[trigger] rv[m]),
            decreases j,
        {
            j = j - 1;
        }
        proof {
            lemma_place_by_name_at(rv, xv, j as int);
            assert(pv.take(k + 1).drop_last() =~= pv.take(k as int));
        }
        r.insert(j, x);
        assert(pkg_views(r@) =~= rv.take(j as int) + seq![xv] + rv.skip(j as int));
        k = k + 1;
    }
    assert(pv.take(pkgs@.len() as int) =~= pv);
    r
}

/// The packages are in name order: no package comes before one listed
/// earlier.
pub open spec fn in_name_order(r: Seq<PackageInfoView>) -> bool {
    forall|i: int, j: int| 0 <= i < j < r.len() ==> !name_before(r[j], r[i])
}

proof fn lemma_place_by_name_in_order(r: Seq<PackageInfoView>, x: PackageInfoView)
    requires
        in_name_order(r),
    ensures
        in_name_order(place_by_name(r, x)),
        place_by_name(r, x).len() == r.len() + 1,
        forall|m: int| 0 <= m < place_by_name(r, x).len() ==> #[trigger] place_by_name(r, x)[m] == x
            || r.contains(place_by_name(r, x)[m]),
    decreases r.len(),
{
    if r.len() == 0 {
    } else if name_before(x, r.last()) {
        let d = r.drop_last();
        assert(in_name_order(d)) by {
            assert forall|i: int, j: int| 0 <= i < j < d.len() implies !name_before(d[j], d[i]) by {
                assert(d[i] == r[i]);
                assert(d[j] == r[j]);
            }
        }
        lemma_place_by_name_in_order(d, x);
        let p = place_by_name(d, x);
        let last = r.last();
        assert forall|i: int, j: int| 0 <= i < j < p.push(last).len() implies !name_before(
            p.push(last)[j],
            p.push(last)[i],
        ) by {
            if j == p.len() {
                let e = p[i];
                if e == x {
                    lemma_text_lt_total(x.name, last.name);
                } else {
                    assert(d.contains(e));
                    let k = choose|k: int| 0 <= k < d.len() && d[k] == e;
                    assert(r[k] == e);
                    assert(!name_before(r[r.len() - 1], r[k]));
                }
            } else {
                assert(p.push(last)[i] == p[i]);
                assert(p.push(last)[j] == p[j]);
            }
        }
        assert forall|m: int| 0 <= m < p.push(last).len() implies #[trigger] p.push(last)[m] == x
            || r.contains(p.push(last)[m]) by {
            if m == p.len() {
                assert(r[r.len() - 1] == last);
            } else {
                assert(p.push(last)[m] == p[m]);
                if p[m] != x {
                    let k = choose|k: int| 0 <= k < d.len() && d[k] == p[m];
                    assert(r[k] == p[m]);
                }
            }
        }
    } else {
        assert forall|i: int, j: int| 0 <= i < j < r.push(x).len() implies !name_before(
            r.push(x)[j],
            r.push(x)[i],
        ) by {
            if j == r.len() {
                if i < r.len() - 1 {
                    assert(!name_before(r[r.len() - 1], r[i]));
                    let (a, b, c) = (x.name, r[r.len() - 1].name, r[i].name);
                    lemma_text_lt_total(a, b);
                    lemma_text_lt_total(b, c);
                    lemma_text_lt_total(a, c);
                    if text_lt(a, c) {
                        if text_lt(b, a) {
                            lemma_text_lt_transitive(b, a, c);
                        }
                    }
                }
            }
        }
        assert forall|m: int| 0 <= m < r.push(x).len() implies #[trigger] r.push(x)[m] == x
            || r.contains(r.push(x)[m]) by {
            if m < r.len() {
                assert(r.push(x)[m] == r[m]);
            }
        }
    }
}

/// The installed packages are listed alphabetically: after sorting, no
/// package's name is lower than that of a package listed before it.
pub proof fn by_name_is_sorted(s: Seq<PackageInfoView>)
    ensures
        in_name_order(by_name(s)),
        by_name(s).len() == s.len(),
    decreases s.len(),
{
    if s.len() > 0 {
        by_name_is_sorted(s.drop_last());
        lemma_place_by_name_in_order(by_name(s.drop_last()), s.last());
    }
}

// ── Filtering ────────────────────────────────────────────────────────────────

/// The package passes the filter `f`: the filter is empty, or the package's
/// name, source or version contains it.
pub open spec fn passes(p: PackageInfoView, f: Seq<char>) -> bool {
    f.len() == 0 || contains(p.name, f) || contains(p.source, f) || contains(p.version, f)
}

/// The packages of `ps` that pass the filter `f`, in their order.
pub open spec fn matching(ps: Seq<PackageInfoView>, f: Seq<char>) -> Seq<PackageInfoView>
    decreases ps.len(),
{
    if ps.len() == 0 {
        Seq::empty()
    } else {
        let prev = matching(ps.drop_last(), f);
        if passes(ps.last(), f) {
            prev.push(ps.last())
        } else {
            prev
        }
    }
}

/// Whether the package passes the filter (see [`passes`]).
fn passes_exec(p: &PackageInfo, f: &[char]) -> (r: bool)
    ensures
        r == passes(p@, f@),
{
    f.len() == 0 || contains_exec(chars_of(p.name.as_str()).as_slice(), f) || contains_exec(
        chars_of(p.source.as_str()).as_slice(),
        f,
    ) || contains_exec(chars_of(p.version.as_str()).as_slice(), f)
}

/// The packages of `ps` that pass the filter `f` (see [`matching`]).
pub fn matching_exec(ps: &Vec<PackageInfo>, f: &[char]) -> (r: Vec<PackageInfo>)
    ensures
        pkg_views(r@) == matching(pkg_views(ps@), f@),
{
    let ghost pv = pkg_views(ps@);
    let mut r: Vec<PackageInfo> = Vec::new();
    let mut k: usize = 0;
    while k < ps.len()
        invariant
            k <= ps@.len(),
            pv == pkg_views(ps@),
            pkg_views(r@) == matching(pv.take(k as int), f@),
        decreases ps@.len() - k,
    {
        let ghost before = pkg_views(r@);
        assert(pv.take(k + 1).drop_last() =~= pv.take(k as int));
        assert(pv.take(k + 1).last() == ps@[k as int]@);
        if passes_exec(&ps[k], f) {
            r.push(ps[k].copy());
            assert(pkg_views(r@) =~= before.push(ps@[k as int]@));
        }
        k = k + 1;
    }
    assert(pv.take(ps@.len() as int) =~= pv);
    r
}

proof fn lemma_matching_members(ps: Seq<PackageInfoView>, f: Seq<char>)
    ensures
        forall|p: PackageInfoView| #[trigger] matching(ps, f).contains(p) <==> (ps.contains(p) && passes(p, f)),
    decreases ps.len(),
{
    if ps.len() > 0 {
        let d = ps.drop_last();
        lemma_matching_members(d, f);
        let prev = matching(d, f);
        assert forall|p: PackageInfoView| #[trigger] matching(ps, f).contains(p) <==> (ps.contains(p)
            && passes(p, f)) by {
            if ps.contains(p) {
                let k = choose|k: int| 0 <= k < ps.len() && ps[k] == p;
                if k < ps.len() - 1 {
                    assert(d[k] == p);
                }
            }
            if d.contains(p) {
                let k = choose|k: int| 0 <= k < d.len() && d[k] == p;
                assert(ps[k] == p);
            }
            if passes(ps.last(), f) {
                if prev.push(ps.last()).contains(p) {
                    let k = choose|k: int| 0 <= k < prev.len() + 1 && prev.push(ps.last())[k] == p;
                    if k < prev.len() {
                        assert(prev[k] == p);
                    }
                }
                if prev.contains(p) {
                    let k = choose|k: int| 0 <= k < prev.len() && prev[k] == p;
                    assert(prev.push(ps.last())[k] == p);
                }
                assert(prev.push(ps.last())[prev.len() as int] == ps.last());
            }
        }
    }
}

/// The filter shows exactly the packages that pass it: a package is shown if
/// and only if it is in the list and its name, source or version contains the
/// filter (or the filter is empty); and a list in name order stays in name
/// order when filtered.
pub proof fn filter_shows_exactly_the_matches(ps: Seq<PackageInfoView>, f: Seq<char>)
    ensures
        forall|p: PackageInfoView| #[trigger] matching(ps, f).contains(p) <==> (ps.contains(p) && passes(p, f)),
        in_name_order(ps) ==> in_name_order(matching(ps, f)),
    decreases ps.len(),
{
    lemma_matching_members(ps, f);
    if ps.len() > 0 && in_name_order(ps) {
        let d = ps.drop_last();
        assert(in_name_order(d)) by {
            assert forall|i: int, j: int| 0 <= i < j < d.len() implies !name_before(d[j], d[i]) by {
                assert(d[i] == ps[i]);
                assert(d[j] == ps[j]);
            }
        }
        filter_shows_exactly_the_matches(d, f);
        let prev = matching(d, f);
        if passes(ps.last(), f) {
            let q = prev.push(ps.last());
            assert forall|i: int, j: int| 0 <= i < j < q.len() implies !name_before(q[j], q[i]) by {
                if j == prev.len() {
                    assert(q[i] == prev[i]);
                    assert(prev.contains(prev[i]));
                    assert(d.contains(prev[i]));
                    let k = choose|k: int| 0 <= k < d.len() && d[k] == prev[i];
                    assert(ps[k] == prev[i]);
                    assert(!name_before(ps[ps.len() - 1], ps[k]));
                } else {
                    assert(q[i] == prev[i]);
                    assert(q[j] == prev[j]);
                }
            }
        }
    }
}

/// With an empty filter every package is shown.
proof fn lemma_matching_all(ps: Seq<PackageInfoView>)
    ensures
        matching(ps, Seq::empty()) == ps,
    decreases ps.len(),
{
    if ps.len() > 0 {
        lemma_matching_all(ps.drop_last());
        assert(ps.drop_last().push(ps.last()) =~= ps);
    }
}

// ── The state ────────────────────────────────────────────────────────────────

/// The state of the installed packages view.
#[derive(Debug)]
pub struct InstalledState {
    /// Every installed package, in name order.
    pub packages: Vec<PackageInfo>,
    /// The filter typed so far.
    pub filter: Vec<char>,
    /// Whether keys go to the filter.
    pub filtering: bool,
    /// The highlighted row of the shown packages.
    pub selected: Option<usize>,
}

/// The contents of an [`InstalledState`].
pub struct InstalledView {
    pub packages: Seq<PackageInfoView>,
    pub filter: Seq<char>,
    pub filtering: bool,
    pub selected: Option<int>,
}

impl View for InstalledState {
    type V = InstalledView;

    open spec fn view(&self) -> InstalledView {
        InstalledView {
            packages: pkg_views(self.packages@),
            filter: self.filter@,
            filtering: self.filtering,
            selected: match self.selected {
                Some(i) => Some(i as int),
                None => None,
            },
        }
    }
}

/// What a key press asks the caller to do.
#[derive(Debug)]
pub enum InstalledAction {
    /// Remove the package of this name from this source.
    Remove(String, String),
    /// Let the user pick one of the shown packages with a fuzzy finder.
    FuzzySearch,
    /// Leave the view.
    Quit,
}

/// The contents of an [`InstalledAction`].
pub enum InstalledActionView {
    Remove(Seq<char>, Seq<char>),
    FuzzySearch,
    Quit,
}

/// The contents of an optional action.
pub open spec fn installed_action_view(a: Option<InstalledAction>) -> Option<InstalledActionView> {
    match a {
        Some(InstalledAction::Remove(n, s)) => Some(InstalledActionView::Remove(n@, s@)),
        Some(InstalledAction::FuzzySearch) => Some(InstalledActionView::FuzzySearch),
        Some(InstalledAction::Quit) => Some(InstalledActionView::Quit),
        None => None,
    }
}

/// The packages shown: those that pass the filter.
pub open spec fn shown(v: InstalledView) -> Seq<PackageInfoView> {
    matching(v.packages, v.filter)
}

/// The first shown row, when there is one.
pub open spec fn first_row(v: InstalledView) -> Option<int> {
    if shown(v).len() > 0 {
        Some(0)
    } else {
        None
    }
}

/// The highlight is on a shown package, and there is one whenever a package
/// is shown.
pub open spec fn valid_highlight(v: InstalledView) -> bool {
    match v.selected {
        Some(i) => 0 <= i < shown(v).len(),
        None => shown(v).len() == 0,
    }
}

/// The highlighted package.
pub open spec fn highlighted(v: InstalledView) -> Option<PackageInfoView> {
    match v.selected {
        Some(i) => if 0 <= i < shown(v).len() {
            Some(shown(v)[i])
        } else {
            None
        },
        None => None,
    }
}

/// `v` with the filter `f`, the highlight on the first package it shows.
pub open spec fn refiltered(v: InstalledView, f: Seq<char>) -> InstalledView {
    let w = InstalledView { filter: f, ..v };
    InstalledView { selected: first_row(w), ..w }
}

/// The next state and the action after `key` (`ctrl` when control is held).
///
/// While the filter is typed, a character is added to it and backspace takes
/// the last one away, each time with the highlight on the first package shown;
/// enter keeps the filter and escape clears it, both ending the typing.
/// Otherwise up or `k` and down or `j` move the highlight with wrap-around,
/// `/` starts typing the filter, `d` or `r` ask to remove the highlighted
/// package, control-F asks for the fuzzy finder, and `q` or escape leave.
pub open spec fn installed_step(v: InstalledView, key: Key, ctrl: bool) -> (
    InstalledView,
    Option<InstalledActionView>,
) {
    if v.filtering {
        match key {
            Key::Char(c) => (refiltered(v, v.filter.push(c)), None),
            Key::Backspace => (
                if v.filter.len() > 0 {
                    refiltered(v, v.filter.drop_last())
                } else {
                    v
                },
                None,
            ),
            Key::Enter => (InstalledView { filtering: false, ..v }, None),
            Key::Esc => (InstalledView { filtering: false, ..refiltered(v, Seq::empty()) }, None),
            _ => (v, None),
        }
    } else if ctrl && key == Key::Char('f') {
        (v, Some(InstalledActionView::FuzzySearch))
    } else {
        match key {
            Key::Up | Key::Char('k') => (
                if shown(v).len() > 0 {
                    InstalledView {
                        selected: Some(wrap_prev(v.selected, shown(v).len() as int)),
                        ..v
                    }
                } else {
                    v
                },
                None,
            ),
            Key::Down | Key::Char('j') => (
                if shown(v).len() > 0 {
                    InstalledView {
                        selected: Some(wrap_next(v.selected, shown(v).len() as int)),
                        ..v
                    }
                } else {
                    v
                },
                None,
            ),
            Key::Char('/') => (InstalledView { filtering: true, ..v }, None),
            Key::Char('d') | Key::Char('r') => (
                v,
                match highlighted(v) {
                    Some(p) => Some(InstalledActionView::Remove(p.name, p.source)),
                    None => None,
                },
            ),
            Key::Char('q') | Key::Esc => (v, Some(InstalledActionView::Quit)),
            _ => (v, None),
        }
    }
}

/// Every key keeps the highlight on a shown package.
pub proof fn installed_step_keeps_highlight(v: InstalledView, key: Key, ctrl: bool)
    requires
        valid_highlight(v),
    ensures
        valid_highlight(installed_step(v, key, ctrl).0),
{
}

/// While the filter is typed, backspace takes back the character just typed.
pub proof fn filter_backspace_undoes_typing(v: InstalledView, c: char)
    requires
        v.filtering,
    ensures
        installed_step(installed_step(v, Key::Char(c), false).0, Key::Backspace, false).0.filter == v.filter,
{
    assert(v.filter.push(c).drop_last() =~= v.filter);
}

/// The position of the first package named `n`, from position `i` on.
pub open spec fn named_position(ps: Seq<PackageInfoView>, n: Seq<char>, i: int) -> Option<int>
    decreases ps.len() - i,
{
    if i < 0 || i >= ps.len() {
        None
    } else if ps[i].name == n {
        Some(i)
    } else {
        named_position(ps, n, i + 1)
    }
}

impl InstalledState {
    /// The view of `packages`, in name order (see [`by_name`]), with no filter
    /// and the first package highlighted.
    pub fn new(packages: Vec<PackageInfo>) -> (r: InstalledState)
        ensures
            r@.packages == by_name(pkg_views(packages@)),
            r@.filter.len() == 0,
            !r@.filtering,
            r@.selected == (if packages@.len() > 0 { Some(0int) } else { None }),
            valid_highlight(r@),
    {
        let sorted = sort_by_name(packages);
        proof {
            by_name_is_sorted(pkg_views(packages@));
            lemma_matching_all(pkg_views(sorted@));
        }
        let n = sorted.len();
        InstalledState {
            packages: sorted,
            filter: Vec::new(),
            filtering: false,
            selected: if n > 0 {
                Some(0)
            } else {
                None
            },
        }
    }

    /// The packages shown (see [`shown`]).
    pub fn shown_packages(&self) -> (r: Vec<PackageInfo>)
        ensures
            pkg_views(r@) == shown(self@),
    {
        matching_exec(&self.packages, self.filter.as_slice())
    }

    /// The highlighted package (see [`highlighted`]).
    pub fn highlighted_package(&self) -> (r: Option<PackageInfo>)
        ensures
            match r {
                Some(p) => highlighted(self@) == Some(p@),
                None => highlighted(self@) is None,
            },
    {
        let list = self.shown_packages();
        match self.selected {
            Some(i) => if i < list.len() {
                assert(pkg_views(list@)[i as int] == list@[i as int]@);
                Some(list[i].copy())
            } else {
                None
            },
            None => None,
        }
    }

    fn set_filter(&mut self, f: Vec<char>)
        ensures
            final(self)@ == refiltered(old(self)@, f@),
    {
        self.filter = f;
        let n = self.shown_packages().len();
        self.selected = if n > 0 {
            Some(0)
        } else {
            None
        };
    }

    /// The fuzzy finder's input: one line per shown package (see
    /// [`fuzzy_text`]).
    pub fn fuzzy_items(&self) -> (r: String)
        ensures
            r@ == fuzzy_text(shown(self@)),
    {
        let list = self.shown_packages();
        let ghost sv = pkg_views(list@);
        let mut t: Vec<char> = Vec::new();
        let mut k: usize = 0;
        while k < list.len()
            invariant
                k <= list@.len(),
                sv == pkg_views(list@),
                t@ == fuzzy_text(sv.take(k as int)),
            decreases list@.len() - k,
        {
            let p = &list[k];
            assert(sv[k as int] == p@);
            append_str(&mut t, p.name.as_str());
            append_str(&mut t, " [");
            append_str(&mut t, p.source.as_str());
            append_str(&mut t, "]\n");
            assert(sv.take(k + 1).drop_last() =~= sv.take(k as int));
            k = k + 1;
        }
        assert(sv.take(list@.len() as int) =~= sv);
        string_of(t.as_slice())
    }

    /// Take the fuzzy finder's answer: highlight the first shown package of
    /// the name it gives; otherwise change nothing.
    pub fn apply_pick(&mut self, out: &str)
        ensures
            match picked_name(out@) {
                Some(n) => match named_position(shown(old(self)@), n, 0) {
                    Some(i) => final(self)@ == (InstalledView { selected: Some(i), ..old(self)@ }),
                    None => final(self)@ == old(self)@,
                },
                None => final(self)@ == old(self)@,
            },
    {
        match picked_name_of(out) {
            Some(name) => {
                let list = self.shown_packages();
                let ghost sv = pkg_views(list@);
                let mut k: usize = 0;
                while k < list.len()
                    invariant
                        k <= list@.len(),
                        sv == pkg_views(list@),
                        sv == shown(self@),
                        self@ == old(self)@,
                        picked_name(out@) == Some(name@),
                        named_position(sv, name@, 0) == named_position(sv, name@, k as int),
                    decreases list@.len() - k,
                {
                    assert(sv[k as int] == list@[k as int]@);
                    let pn = chars_of(list[k].name.as_str());
                    if text_eq(pn.as_slice(), name.as_slice()) {
                        assert(sv[k as int].name == name@);
                        assert(named_position(sv, name@, k as int) == Some(k as int));
                        self.selected = Some(k);
                        return;
                    }
                    k = k + 1;
                }
            },
            None => {},
        }
    }

    /// Handle a key (see [`installed_step`]).
    pub fn handle_key(&mut self, key: Key, ctrl: bool) -> (r: Option<InstalledAction>)
        ensures
            final(self)@ == installed_step(old(self)@, key, ctrl).0,
            installed_action_view(r) == installed_step(old(self)@, key, ctrl).1,
    {
        if self.filtering {
            match key {
                Key::Char(c) => {
                    let mut f = self.filter.clone();
                    f.push(c);
                    self.set_filter(f);
                },
                Key::Backspace => {
                    if self.filter.len() > 0 {
                        let mut f = self.filter.clone();
                        f.pop();
                        self.set_filter(f);
                    }
                },
                Key::Enter => {
                    self.filtering = false;
                },
                Key::Esc => {
                    self.set_filter(Vec::new());
                    self.filtering = false;
                },
                _ => {},
            }
            return None;
        }
        if ctrl && key == Key::Char('f') {
            return Some(InstalledAction::FuzzySearch);
        }
        match key {
            Key::Up | Key::Char('k') => {
                let n = self.shown_packages().len();
                if n > 0 {
                    self.selected = Some(wrap_prev_exec(self.selected, n));
                }
                None
            },
            Key::Down | Key::Char('j') => {
                let n = self.shown_packages().len();
                if n > 0 {
                    self.selected = Some(wrap_next_exec(self.selected, n));
                }
                None
            },
            Key::Char('/') => {
                self.filtering = true;
                None
            },
            Key::Char('d') | Key::Char('r') => match self.highlighted_package() {
                Some(p) => Some(InstalledAction::Remove(p.name, p.source)),
                None => None,
            },
            Key::Char('q') | Key::Esc => Some(InstalledAction::Quit),
            _ => None,
        }
    }
}


/// Outside filter typing, the arrow keys move the highlight exactly as `k`
/// and `j` do: up to the previous shown package, wrapping from the first to
/// the last, and down to the next, wrapping from the last to the first;
/// neither asks for anything.
pub proof fn installed_arrows_move_like_vim_keys(v: InstalledView, ctrl: bool)
    requires
        !v.filtering,
        valid_highlight(v),
    ensures
        installed_step(v, Key::Up, ctrl) == installed_step(v, Key::Char('k'), ctrl),
        installed_step(v, Key::Down, ctrl) == installed_step(v, Key::Char('j'), ctrl),
        installed_step(v, Key::Up, false).1 is None,
        installed_step(v, Key::Down, false).1 is None,
        v.selected matches Some(i) ==> installed_step(v, Key::Up, false).0.selected == Some(
            if i == 0 { shown(v).len() - 1 } else { i - 1 },
        ),
        v.selected matches Some(i) ==> installed_step(v, Key::Down, false).0.selected == Some(
            if i == shown(v).len() - 1 { 0 } else { i + 1 },
        ),
        v.selected is None ==> installed_step(v, Key::Up, false).0 == v,
{
}
} // verus!
