//! The tab bar above the result table: which tabs it shows and which one is
//! highlighted.
use vstd::prelude::*;
use crate::text::{chars_of, dec, dec_exec, append_chars, append_str};
use crate::sys::string_of;
use crate::pm::builtin::{strs, lemma_strs_push};

verus! {

/// What the tab bar shows.
#[derive(Debug)]
pub enum TabMode {
    /// The source tabs with their result counts (`All`, `apt (12)`, ...).
    Sources { titles: Vec<String>, active: usize },
    /// The page numbers, while paging through the results.
    Pages { current: usize, total: usize },
    /// The sources that offer the highlighted package, while it has several.
    PackageSources { sources: Vec<String>, selected: usize, pkg_name: String },
}

/// The contents of a [`TabMode`].
pub enum TabModeView {
    Sources(Seq<Seq<char>>, int),
    Pages(int, int),
    PackageSources(Seq<Seq<char>>, int, Seq<char>),
}

impl View for TabMode {
    type V = TabModeView;

    open spec fn view(&self) -> TabModeView {
        match self {
            TabMode::Sources { titles, active } => TabModeView::Sources(strs(titles@), *active as int),
            TabMode::Pages { current, total } => TabModeView::Pages(*current as int, *total as int),
            TabMode::PackageSources { sources, selected, pkg_name } => TabModeView::PackageSources(
                strs(sources@),
                *selected as int,
                pkg_name@,
            ),
        }
    }
}

/// The tab bar.
#[derive(Debug)]
pub struct TabBar {
    pub mode: TabMode,
}

/// The title of page `p` (counted from one) when page `current` (counted
/// from zero) is shown: `Page p` for the shown page, else the bare number.
pub open spec fn page_title(p: nat, current: nat) -> Seq<char> {
    if p == current + 1 {
        "Page "@ + dec(p)
    } else {
        dec(p)
    }
}

/// The titles of pages one to `total`.
pub open spec fn page_titles(current: nat, total: nat) -> Seq<Seq<char>> {
    Seq::new(total, |i: int| page_title((i + 1) as nat, current))
}

/// The titles of pages one to `total` (see [`page_titles`]).
pub fn page_titles_exec(current: usize, total: usize) -> (r: Vec<String>)
    requires
        total < usize::MAX,
    ensures
        strs(r@) == page_titles(current as nat, total as nat),
{
    let mut r: Vec<String> = Vec::new();
    let mut p: usize = 1;
    while p <= total
        invariant
            1 <= p <= total + 1,
            total < usize::MAX,
            strs(r@) == page_titles(current as nat, (p - 1) as nat),
        decreases total + 1 - p,
    {
        let mut t: Vec<char> = Vec::new();
        if current < usize::MAX && p == current + 1 {
            append_str(&mut t, "Page ");
        }
        let d = dec_exec(p as u64);
        append_chars(&mut t, d.as_slice());
        let title = string_of(t.as_slice());
        let ghost before = r@;
        r.push(title);
        proof {
            lemma_strs_push(before, title);
            assert(strs(r@) =~= page_titles(current as nat, p as nat));
        }
        p = p + 1;
    }
    r
}

impl TabBar {
    /// The titles to draw and the index of the highlighted one, for the
    /// source and page modes; `None` for the package-sources mode, which
    /// draws its own label first.
    pub fn titles(&self) -> (r: Option<(Vec<String>, usize)>)
        ensures
            match self.mode {
                TabMode::Sources { titles, active } => r matches Some(x) && strs(x.0@) == strs(
                    titles@,
                ) && x.1 == active,
                TabMode::Pages { current, total } => total < usize::MAX ==> (r matches Some(x)
                    && strs(x.0@) == page_titles(current as nat, total as nat) && x.1 == current),
                TabMode::PackageSources { .. } => r is None,
            },
    {
        match &self.mode {
            TabMode::Sources { titles, active } => Some(
                (crate::pm::builtin::copy_strings(titles), *active),
            ),
            TabMode::Pages { current, total } => {
                if *total < usize::MAX {
                    Some((page_titles_exec(*current, *total), *current))
                } else {
                    None
                }
            },
            TabMode::PackageSources { .. } => None,
        }
    }
}

} // verus!
