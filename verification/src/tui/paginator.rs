//! The paginator under the result table: arrows, a window of page dots with
//! the current page highlighted, and a page counter.
use vstd::prelude::*;
use crate::text::{chars_of, dec, dec_exec, append_chars, append_str};
use crate::sys::string_of;

verus! {

/// The paginator's state.
#[derive(Debug, Clone, Copy)]
pub struct Paginator {
    pub current_page: usize,
    pub total_pages: usize,
    /// The animation tick: the current page's dot alternates its shape.
    pub tick: u64,
}

/// One mark of the paginator, left to right.
#[derive(Debug, Clone, Copy, PartialEq, Eq, Structural)]
pub enum Glyph {
    /// `◀`: there is a previous page.
    LeftArrow,
    /// Blank space where the left arrow would be.
    NoArrow,
    /// The current page's dot, in its first (`●`) or second (`◉`) shape.
    ActiveDot(bool),
    /// Another page's dot (`○`).
    Dot,
    /// `▶`: there is a next page.
    RightArrow,
}

/// The number of dots: at most nine.
pub open spec fn dot_count(total: int) -> int {
    if total < 9 {
        total
    } else {
        9
    }
}

/// The first page that has a dot: the window of dots stays at the ends near
/// the first and last pages and is centred on the current page between them.
pub open spec fn window_start(current: int, total: int) -> int {
    let m = dot_count(total);
    if total <= m || current < m / 2 {
        0
    } else if current > total - m / 2 - 1 {
        total - m
    } else {
        current - m / 2
    }
}

/// One past the last page that has a dot.
pub open spec fn window_end(current: int, total: int) -> int {
    let e = window_start(current, total) + dot_count(total);
    if e < total {
        e
    } else {
        total
    }
}

/// The marks for the paginator: the left arrow or a blank, one dot per page
/// of the window, then the right arrow when there is a next page.
pub open spec fn glyphs(current: int, total: int, tick: int) -> Seq<Glyph> {
    let s = window_start(current, total);
    let e = window_end(current, total);
    let left = if current > 0 { Glyph::LeftArrow } else { Glyph::NoArrow };
    let dots = Seq::new(
        (e - s) as nat,
        |i: int| if s + i == current { Glyph::ActiveDot(tick % 4 < 2) } else { Glyph::Dot },
    );
    let right = if current < total - 1 { seq![Glyph::RightArrow] } else { Seq::empty() };
    seq![left] + dots + right
}

/// The page counter: `  Page <current + 1>/<total>`.
pub open spec fn counter(current: nat, total: nat) -> Seq<char> {
    "  Page "@ + dec(current + 1) + "/"@ + dec(total)
}

impl Paginator {
    /// Whether the paginator shows anything: only when there are several pages.
    pub fn visible(&self) -> (r: bool)
        ensures
            r == (self.total_pages > 1),
    {
        self.total_pages > 1
    }

    /// The pages that have a dot, from the first to one past the last.
    pub fn window(&self) -> (r: (usize, usize))
        requires
            self.total_pages > 1,
        ensures
            r.0 == window_start(self.current_page as int, self.total_pages as int),
            r.1 == window_end(self.current_page as int, self.total_pages as int),
    {
        let t = self.total_pages;
        let c = self.current_page;
        let m: usize = if t < 9 {
            t
        } else {
            9
        };
        let start = if t <= m || c < m / 2 {
            0
        } else if c > t - m / 2 - 1 {
            t - m
        } else {
            c - m / 2
        };
        let end = if start + m < t {
            start + m
        } else {
            t
        };
        (start, end)
    }

    /// The paginator's marks (see [`glyphs`]).
    pub fn glyphs(&self) -> (r: Vec<Glyph>)
        requires
            self.total_pages > 1,
        ensures
            r@ == glyphs(self.current_page as int, self.total_pages as int, self.tick as int),
    {
        let ghost c = self.current_page as int;
        let ghost t = self.total_pages as int;
        let (s, e) = self.window();
        let mut r: Vec<Glyph> = Vec::new();
        r.push(
            if self.current_page > 0 {
                Glyph::LeftArrow
            } else {
                Glyph::NoArrow
            },
        );
        let glow = self.tick % 4 < 2;
        let mut i = s;
        while i < e
            invariant
                s <= i <= e,
                s == window_start(c, t),
                e == window_end(c, t),
                glow == (self.tick % 4 < 2),
                c == self.current_page,
                r@ == seq![if c > 0 { Glyph::LeftArrow } else { Glyph::NoArrow }] + Seq::new(
                    (i - s) as nat,
                    |j: int| if s + j == c { Glyph::ActiveDot(glow) } else { Glyph::Dot },
                ),
            decreases e - i,
        {
            let g = if i == self.current_page {
                Glyph::ActiveDot(glow)
            } else {
                Glyph::Dot
            };
            r.push(g);
            i = i + 1;
            assert(r@ =~= seq![if c > 0 { Glyph::LeftArrow } else { Glyph::NoArrow }] + Seq::new(
                (i - s) as nat,
                |j: int| if s + j == c { Glyph::ActiveDot(glow) } else { Glyph::Dot },
            ));
        }
        if self.current_page < self.total_pages - 1 {
            r.push(Glyph::RightArrow);
        }
        assert(r@ =~= glyphs(c, t, self.tick as int));
        r
    }

    /// The page counter (see [`counter`]).
    pub fn counter_text(&self) -> (r: String)
        requires
            self.current_page < usize::MAX,
        ensures
            r@ == counter(self.current_page as nat, self.total_pages as nat),
    {
        let mut t = chars_of("  Page ");
        let a = dec_exec((self.current_page + 1) as u64);
        append_chars(&mut t, a.as_slice());
        append_str(&mut t, "/");
        let b = dec_exec(self.total_pages as u64);
        append_chars(&mut t, b.as_slice());
        string_of(t.as_slice())
    }
}

/// The current page always has a dot: the window holds it, and it holds
/// `min(9, total)` pages.
pub proof fn window_holds_current(current: int, total: int)
    requires
        0 <= current < total,
        total > 1,
    ensures
        window_start(current, total) <= current < window_end(current, total),
        window_end(current, total) - window_start(current, total) == dot_count(total),
        0 <= window_start(current, total),
        window_end(current, total) <= total,
{
}

} // verus!
