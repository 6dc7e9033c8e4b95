//! The result table's text fitting and column widths.
//!
//! Cell texts are cut to their column's display width, with an ellipsis where
//! they are cut, and padded with spaces. Column widths come from fixed
//! lengths, percentages of the available width, and minimum widths that share
//! what is left.
use vstd::prelude::*;
use crate::sys::{char_width, unicode_char_width};
use crate::sys::string_of;

verus! {

// ── Fitting text ─────────────────────────────────────────────────────────────

/// The columns that a character takes: its Unicode display width, one for a
/// control character.
pub open spec fn cell_width(c: char) -> usize {
    match unicode_char_width(c) {
        Some(w) => w,
        None => 1,
    }
}

/// The columns that each character of `t` takes.
pub open spec fn cell_widths(t: Seq<char>) -> Seq<usize> {
    t.map_values(|c: char| cell_width(c))
}

/// How many of the first characters, the first taking `ws[0]` columns, the
/// next `ws[1]` and so on, fit in `room` columns, and the columns they take.
pub open spec fn fit_prefix(ws: Seq<usize>, room: nat) -> (nat, nat)
    decreases ws.len(),
{
    if ws.len() == 0 || ws[0] > room {
        (0, 0)
    } else {
        let r = fit_prefix(ws.drop_first(), (room - ws[0]) as nat);
        (r.0 + 1, r.1 + ws[0] as nat)
    }
}

proof fn lemma_fit_prefix_bounds(ws: Seq<usize>, room: nat)
    ensures
        fit_prefix(ws, room).0 <= ws.len(),
        fit_prefix(ws, room).1 <= room,
    decreases ws.len(),
{
    if ws.len() > 0 && ws[0] <= room {
        lemma_fit_prefix_bounds(ws.drop_first(), (room - ws[0]) as nat);
    }
}

/// `n` spaces.
pub open spec fn spaces(n: nat) -> Seq<char> {
    Seq::new(n, |i: int| ' ')
}

/// The text `t`, whose characters take the columns `ws`, fitted to exactly
/// `max` columns: when all of it fits, the text padded with spaces; otherwise
/// the longest beginning that fits in `max - 1` columns, then `…` (one
/// column), then spaces to fill. Empty when `max` is zero.
pub open spec fn pad_widths(t: Seq<char>, ws: Seq<usize>, max: nat) -> Seq<char> {
    if max == 0 {
        Seq::empty()
    } else {
        let all = fit_prefix(ws, max);
        if all.0 == t.len() {
            t + spaces((max - all.1) as nat)
        } else {
            let cut = fit_prefix(ws, (max - 1) as nat);
            t.take(cut.0 as int) + seq!['…'] + spaces((max - 1 - cut.1) as nat)
        }
    }
}

/// The columns that characters taking `ws` take together.
pub open spec fn width_sum(ws: Seq<usize>) -> nat
    decreases ws.len(),
{
    if ws.len() == 0 {
        0
    } else {
        ws[0] as nat + width_sum(ws.drop_first())
    }
}

proof fn lemma_fit_prefix_sum(ws: Seq<usize>, room: nat)
    ensures
        fit_prefix(ws, room).1 == width_sum(ws.take(fit_prefix(ws, room).0 as int)),
        (fit_prefix(ws, room).0 == ws.len()) == (width_sum(ws) <= room),
        fit_prefix(ws, room).0 <= ws.len(),
    decreases ws.len(),
{
    if ws.len() == 0 {
        assert(ws.take(0) =~= Seq::<usize>::empty());
    } else if ws[0] > room {
        assert(ws.take(0) =~= Seq::<usize>::empty());
    } else {
        let rest = ws.drop_first();
        let r = fit_prefix(rest, (room - ws[0]) as nat);
        lemma_fit_prefix_sum(rest, (room - ws[0]) as nat);
        let k = r.0 as int + 1;
        assert(ws.take(k).drop_first() =~= rest.take(r.0 as int));
        assert(ws.take(k)[0] == ws[0]);
    }
}

/// A fitted cell takes exactly its `max` columns: a text that fits is padded
/// with spaces to `max`; a text that does not is cut to a beginning of at
/// most `max - 1` columns, followed by `…` and spaces up to `max`.
pub proof fn fitted_cell_fills_its_column(t: Seq<char>, ws: Seq<usize>, max: nat)
    requires
        t.len() == ws.len(),
        max > 0,
    ensures
        width_sum(ws) <= max ==> pad_widths(t, ws, max) == t + spaces((max - width_sum(ws)) as nat),
        width_sum(ws) > max ==> exists|k: int|
            0 <= k < t.len() && width_sum(#[trigger] ws.take(k)) <= max - 1 && pad_widths(t, ws, max)
                == t.take(k) + seq!['…'] + spaces((max - 1 - width_sum(ws.take(k))) as nat),
{
    lemma_fit_prefix_sum(ws, max);
    lemma_fit_prefix_sum(ws, (max - 1) as nat);
    lemma_fit_prefix_bounds(ws, (max - 1) as nat);
    if width_sum(ws) > max {
        let k = fit_prefix(ws, (max - 1) as nat).0 as int;
        if k == t.len() {
            assert(width_sum(ws) <= max - 1);
        }
        assert(width_sum(ws.take(k)) <= max - 1);
    } else {
        assert(ws.take(ws.len() as int) =~= ws);
    }
}

/// How many of the first characters fit in `room` columns, and the columns
/// they take (see [`fit_prefix`]).
pub fn fit_prefix_exec(widths: &[usize], room: usize) -> (r: (usize, usize))
    ensures
        r.0 as nat == fit_prefix(widths@, room as nat).0,
        r.1 as nat == fit_prefix(widths@, room as nat).1,
        r.0 <= widths@.len(),
        r.1 <= room,
{
    let ghost ws = widths@;
    let mut i: usize = 0;
    let mut used: usize = 0;
    assert(ws.skip(0) =~= ws);
    while i < widths.len() && widths[i] <= room - used
        invariant
            i <= ws.len(),
            ws == widths@,
            used <= room,
            fit_prefix(ws, room as nat).0 == i + fit_prefix(ws.skip(i as int), (room - used) as nat).0,
            fit_prefix(ws, room as nat).1 == used + fit_prefix(ws.skip(i as int), (room - used) as nat).1,
        decreases ws.len() - i,
    {
        let ghost rest = ws.skip(i as int);
        assert(rest[0] == widths[i as int]);
        assert(rest.drop_first() =~= ws.skip(i + 1));
        used = used + widths[i];
        i = i + 1;
    }
    proof {
        let rest = ws.skip(i as int);
        if i < ws.len() {
            assert(rest[0] == ws[i as int]);
        }
        lemma_fit_prefix_bounds(ws, room as nat);
    }
    (i, used)
}

/// The text `text`, whose characters take the columns `widths`, fitted to
/// `max` columns (see [`pad_widths`]).
pub fn pad_to_widths(text: &[char], widths: &[usize], max: usize) -> (r: String)
    requires
        max < 65536,
        widths@.len() == text@.len(),
    ensures
        r@ == pad_widths(text@, widths@, max as nat),
{
    if max == 0 {
        return String::new();
    }
    let (k, used) = fit_prefix_exec(widths, max);
    let mut result: Vec<char> = Vec::new();
    let pad: usize;
    if k == text.len() {
        result = crate::text::slice_copy(text, 0, k);
        assert(text@.subrange(0, k as int) =~= text@);
        pad = max - used;
    } else {
        let (k2, used2) = fit_prefix_exec(widths, max - 1);
        result = crate::text::slice_copy(text, 0, k2);
        assert(text@.subrange(0, k2 as int) =~= text@.take(k2 as int));
        result.push('…');
        pad = max - 1 - used2;
    }
    let ghost kept = result@;
    let mut j: usize = 0;
    while j < pad
        invariant
            j <= pad,
            result@ == kept + spaces(j as nat),
        decreases pad - j,
    {
        result.push(' ');
        j = j + 1;
        assert(result@ =~= kept + spaces(j as nat));
    }
    assert(kept + spaces(0) =~= kept);
    string_of(result.as_slice())
}

/// The text `t` fitted to `max` columns by its characters' display widths
/// (see [`pad_widths`]).
pub open spec fn truncate_pad(t: Seq<char>, max: nat) -> Seq<char> {
    pad_widths(t, cell_widths(t), max)
}

/// The columns that the text `t` takes on screen.
pub open spec fn text_width(t: Seq<char>) -> nat {
    width_sum(cell_widths(t))
}

proof fn lemma_width_sum_concat(a: Seq<usize>, b: Seq<usize>)
    ensures
        width_sum(a + b) == width_sum(a) + width_sum(b),
    decreases a.len(),
{
    if a.len() > 0 {
        lemma_width_sum_concat(a.drop_first(), b);
        assert((a + b).drop_first() =~= a.drop_first() + b);
    } else {
        assert(a + b =~= b);
    }
}

proof fn lemma_text_width_concat(a: Seq<char>, b: Seq<char>)
    ensures
        text_width(a + b) == text_width(a) + text_width(b),
{
    assert(cell_widths(a + b) =~= cell_widths(a) + cell_widths(b));
    lemma_width_sum_concat(cell_widths(a), cell_widths(b));
}

proof fn lemma_one_column(c: char)
    requires
        unicode_char_width(c) == Some(1usize),
    ensures
        text_width(seq![c]) == 1,
{
    assert(cell_widths(seq![c]) =~= seq![1usize]);
    assert(seq![1usize].drop_first() =~= Seq::<usize>::empty());
    assert(width_sum(Seq::<usize>::empty()) == 0);
}

proof fn lemma_spaces_width(n: nat)
    requires
        unicode_char_width(' ') == Some(1usize),
    ensures
        text_width(spaces(n)) == n,
    decreases n,
{
    if n > 0 {
        lemma_spaces_width((n - 1) as nat);
        assert(spaces(n) =~= seq![' '] + spaces((n - 1) as nat));
        lemma_text_width_concat(seq![' '], spaces((n - 1) as nat));
        lemma_one_column(' ');
    } else {
        assert(cell_widths(spaces(n)) =~= Seq::<usize>::empty());
    }
}

/// The text `text` fitted to `max` columns (see [`truncate_pad`]).
pub fn truncate_pad_exec(text: &str, max: usize) -> (r: String)
    requires
        max < 65536,
    ensures
        r@ == truncate_pad(text@, max as nat),
        text_width(r@) == max,
{
    // The padding and the ellipsis each take one column.
    let space_width = char_width(' ');
    let ellipsis_width = char_width('…');
    let t = crate::text::chars_of(text);
    let mut widths: Vec<usize> = Vec::new();
    let mut i: usize = 0;
    while i < t.len()
        invariant
            i <= t@.len(),
            widths@.len() == i,
            forall|j: int| 0 <= j < i ==> widths@[j] == cell_width(#[trigger] t@[j]),
        decreases t@.len() - i,
    {
        let w: usize = match char_width(t[i]) {
            Some(w) => w,
            None => 1,
        };
        widths.push(w);
        i = i + 1;
    }
    assert(widths@ =~= cell_widths(t@));
    let r = pad_to_widths(t.as_slice(), widths.as_slice(), max);
    proof {
        let ghost tv = t@;
        let ghost ws = cell_widths(tv);
        if max == 0 {
            assert(text_width(r@) == 0) by {
                assert(cell_widths(r@) =~= Seq::<usize>::empty());
            }
        } else {
            fitted_cell_fills_its_column(tv, ws, max as nat);
            if width_sum(ws) <= max {
                lemma_text_width_concat(tv, spaces((max - width_sum(ws)) as nat));
                lemma_spaces_width((max - width_sum(ws)) as nat);
            } else {
                let k = choose|k: int|
                    0 <= k < tv.len() && width_sum(#[trigger] ws.take(k)) <= max - 1 && pad_widths(tv, ws, max as nat)
                        == tv.take(k) + seq!['…'] + spaces((max - 1 - width_sum(ws.take(k))) as nat);
                let p = (max - 1 - width_sum(ws.take(k))) as nat;
                lemma_text_width_concat(tv.take(k) + seq!['…'], spaces(p));
                lemma_text_width_concat(tv.take(k), seq!['…']);
                lemma_spaces_width(p);
                assert(cell_widths(tv.take(k)) =~= ws.take(k));
                lemma_one_column('…');
            }
        }
    }
    r
}

// ── Column widths ────────────────────────────────────────────────────────────

/// How a column's width is chosen.
#[derive(Debug, Clone, Copy, PartialEq, Eq, Structural)]
pub enum Width {
    /// A fixed number of columns.
    Length(u16),
    /// A percentage of the available width.
    Percentage(u16),
    /// At least this many columns, sharing what the others leave.
    Min(u16),
    /// Any other rule: the column gets no width.
    Other,
}

/// The columns available inside the table's outer borders and between its
/// column separators.
pub open spec fn available_width(n_columns: nat, total: nat) -> nat {
    let sep = if n_columns > 0 { (n_columns - 1) as nat } else { 0nat };
    if total >= 2 + sep {
        (total - 2 - sep) as nat
    } else {
        0
    }
}

/// The fixed widths: each fixed column's length, zero for the others.
pub open spec fn fixed_widths(cols: Seq<Width>) -> Seq<u16> {
    cols.map_values(|c: Width| match c {
        Width::Length(n) => n,
        _ => 0u16,
    })
}

/// The sum of the fixed lengths.
pub open spec fn fixed_total(cols: Seq<Width>) -> nat
    decreases cols.len(),
{
    if cols.len() == 0 {
        0
    } else {
        fixed_total(cols.drop_last()) + match cols.last() {
            Width::Length(n) => n as nat,
            _ => 0nat,
        }
    }
}

/// The number of columns that are not fixed.
pub open spec fn flexible_count(cols: Seq<Width>) -> nat
    decreases cols.len(),
{
    if cols.len() == 0 {
        0
    } else {
        flexible_count(cols.drop_last()) + if cols.last() is Length { 0nat } else { 1nat }
    }
}

/// Whether the fixed columns take more than the available width, so that
/// they are scaled down first.
pub open spec fn needs_scaling(used: nat, available: nat) -> bool {
    used > available && available > 0
}

/// The width that column `c` asks for, with `w` its fixed width after any
/// scaling, `per_flex` an equal share of what the fixed columns leave
/// (`remaining`): a percentage column its share of the available width, at
/// most `remaining`; a minimum column the equal share, at least its minimum;
/// the others their fixed width.
pub open spec fn asked_width(c: Width, w: u16, per_flex: nat, available: nat, remaining: nat) -> nat {
    match c {
        Width::Percentage(p) => {
            let share = available * (p as nat) / 100;
            if share < remaining {
                share
            } else {
                remaining
            }
        },
        Width::Min(n) => if per_flex > n as nat {
            per_flex
        } else {
            n as nat
        },
        _ => w as nat,
    }
}

/// The asked widths `ts`, left to right, each cut to what the columns before
/// it leave of `left`.
pub open spec fn within(ts: Seq<nat>, left: nat) -> Seq<nat>
    decreases ts.len(),
{
    if ts.len() == 0 {
        Seq::empty()
    } else {
        let w = if ts[0] < left {
            ts[0]
        } else {
            left
        };
        seq![w] + within(ts.drop_first(), (left - w) as nat)
    }
}

/// The sum of some widths.
pub open spec fn total_of(ws: Seq<nat>) -> nat
    decreases ws.len(),
{
    if ws.len() == 0 {
        0
    } else {
        ws[0] + total_of(ws.drop_first())
    }
}

/// The final widths, given the fixed widths after any scaling (`widths`) and
/// their total (`used`): each column's asked width (see [`asked_width`]),
/// left to right, cut to what the columns before it leave of the available
/// width, so that the table always fits.
pub open spec fn flex_widths(cols: Seq<Width>, widths: Seq<u16>, used: nat, available: nat) -> Seq<
    nat,
> {
    let remaining: nat = if available >= used { (available - used) as nat } else { 0 };
    let per_flex: nat = if flexible_count(cols) > 0 {
        remaining / flexible_count(cols)
    } else {
        0
    };
    within(
        Seq::new(cols.len(), |i: int| asked_width(cols[i], widths[i], per_flex, available, remaining)),
        available,
    )
}

proof fn lemma_within(ts: Seq<nat>, left: nat)
    ensures
        within(ts, left).len() == ts.len(),
        total_of(within(ts, left)) <= left,
        forall|i: int| 0 <= i < ts.len() ==> #[trigger] within(ts, left)[i] <= ts[i],
    decreases ts.len(),
{
    if ts.len() > 0 {
        let w = if ts[0] < left { ts[0] } else { left };
        let rest = within(ts.drop_first(), (left - w) as nat);
        lemma_within(ts.drop_first(), (left - w) as nat);
        let r = seq![w] + rest;
        assert(r.drop_first() =~= rest);
        assert forall|i: int| 0 <= i < ts.len() implies #[trigger] within(ts, left)[i] <= ts[i] by {
            if i > 0 {
                assert(r[i] == rest[i - 1]);
                assert(ts.drop_first()[i - 1] == ts[i]);
            }
        }
    }
}

/// The table fits: the final widths never add up to more than the available
/// width, and no column gets more than it asks for.
pub proof fn widths_fit_the_table(cols: Seq<Width>, widths: Seq<u16>, used: nat, available: nat)
    ensures
        flex_widths(cols, widths, used, available).len() == cols.len(),
        total_of(flex_widths(cols, widths, used, available)) <= available,
{
    let remaining: nat = if available >= used { (available - used) as nat } else { 0 };
    let per_flex: nat = if flexible_count(cols) > 0 {
        remaining / flexible_count(cols)
    } else {
        0
    };
    lemma_within(
        Seq::new(cols.len(), |i: int| asked_width(cols[i], widths[i], per_flex, available, remaining)),
        available,
    );
}

/// The columns available for `n_columns` columns in a table `total` columns
/// wide (see [`available_width`]).
pub fn available_width_exec(n_columns: usize, total: u16) -> (r: u16)
    requires
        n_columns <= 65534,
    ensures
        r == available_width(n_columns as nat, total as nat),
{
    let sep: u16 = if n_columns > 0 {
        (n_columns - 1) as u16
    } else {
        0
    };
    total.saturating_sub(2 + sep)
}

/// The fixed widths and their total (see [`fixed_widths`]).
pub fn fixed_widths_exec(cols: &[Width]) -> (r: (Vec<u16>, u16))
    requires
        fixed_total(cols@) <= u16::MAX,
    ensures
        r.0@ == fixed_widths(cols@),
        r.1 == fixed_total(cols@),
{
    let mut w: Vec<u16> = Vec::new();
    let mut used: u16 = 0;
    let mut k: usize = 0;
    while k < cols.len()
        invariant
            k <= cols@.len(),
            fixed_total(cols@) <= u16::MAX,
            w@ == fixed_widths(cols@).take(k as int),
            used == fixed_total(cols@.take(k as int)),
        decreases cols@.len() - k,
    {
        proof {
            lemma_fixed_total_prefix(cols@, k as int + 1);
            assert(cols@.take(k + 1).drop_last() =~= cols@.take(k as int));
        }
        match cols[k] {
            Width::Length(n) => {
                w.push(n);
                used = used + n;
            },
            _ => {
                w.push(0);
            },
        }
        assert(w@ =~= fixed_widths(cols@).take(k + 1));
        k = k + 1;
    }
    assert(cols@.take(cols@.len() as int) =~= cols@);
    (w, used)
}

proof fn lemma_fixed_total_prefix(cols: Seq<Width>, k: int)
    requires
        0 <= k <= cols.len(),
    ensures
        fixed_total(cols.take(k)) <= fixed_total(cols),
    decreases cols.len() - k,
{
    if k < cols.len() {
        lemma_fixed_total_prefix(cols, k + 1);
        assert(cols.take(k + 1).drop_last() =~= cols.take(k));
    } else {
        assert(cols.take(k) =~= cols);
    }
}

/// Whether the fixed columns are scaled down first (see [`needs_scaling`]).
pub fn needs_scaling_exec(used: u16, available: u16) -> (r: bool)
    ensures
        r == needs_scaling(used as nat, available as nat),
{
    used > available && available > 0
}

/// The final widths (see [`flex_widths`]).
pub fn flex_widths_exec(cols: &[Width], widths: &[u16], used: u16, available: u16) -> (r: Vec<u16>)
    requires
        widths@.len() == cols@.len(),
        forall|i: int|
            0 <= i < cols@.len() ==> (#[trigger] cols@[i] matches Width::Percentage(p)
                ==> available as int * p as int <= u16::MAX),
    ensures
        r@.len() == cols@.len(),
        forall|i: int|
            0 <= i < cols@.len() ==> r@[i] as nat == #[trigger] flex_widths(
                cols@,
                widths@,
                used as nat,
                available as nat,
            )[i],
{
    let remaining = available.saturating_sub(used);
    let mut flex: usize = 0;
    let mut k: usize = 0;
    while k < cols.len()
        invariant
            k <= cols@.len(),
            flex == flexible_count(cols@.take(k as int)),
            flex <= k,
        decreases cols@.len() - k,
    {
        assert(cols@.take(k + 1).drop_last() =~= cols@.take(k as int));
        match cols[k] {
            Width::Length(_) => {},
            _ => {
                flex = flex + 1;
            },
        }
        k = k + 1;
    }
    assert(cols@.take(cols@.len() as int) =~= cols@);
    let per_flex: u16 = if flex > 0 {
        (remaining as usize / flex) as u16
    } else {
        0
    };
    let ghost rem: nat = if available >= used { (available - used) as nat } else { 0nat };
    let ghost pf: nat = if flexible_count(cols@) > 0 {
        rem / flexible_count(cols@)
    } else {
        0nat
    };
    let ghost ts = Seq::new(
        cols@.len(),
        |j: int| asked_width(cols@[j], widths@[j], pf, available as nat, rem),
    );
    let ghost full = within(ts, available as nat);
    assert(full == flex_widths(cols@, widths@, used as nat, available as nat));
    proof {
        lemma_within(ts, available as nat);
    }
    assert(ts.skip(0) =~= ts);
    let mut r: Vec<u16> = Vec::new();
    let mut left: u16 = available;
    let mut i: usize = 0;
    while i < cols.len()
        invariant
            i <= cols@.len(),
            widths@.len() == cols@.len(),
            ts.len() == cols@.len(),
            r@.len() == i,
            left <= available,
            remaining as nat == rem,
            per_flex as nat == pf,
            rem == (if available >= used { (available - used) as nat } else { 0nat }),
            ts == Seq::new(
                cols@.len(),
                |j: int| asked_width(cols@[j], widths@[j], pf, available as nat, rem),
            ),
            full == within(ts, available as nat),
            full.len() == cols@.len(),
            forall|j: int|
                0 <= j < cols@.len() ==> (#[trigger] cols@[j] matches Width::Percentage(p)
                    ==> available as int * p as int <= u16::MAX),
            forall|j: int| 0 <= j < i ==> r@[j] as nat == #[trigger] full[j],
            forall|j: int| i <= j < cols@.len() ==> #[trigger] full[j] == within(ts.skip(i as int), left as nat)[j - i],
        decreases cols@.len() - i,
    {
        let asked: u16 = match cols[i] {
            Width::Percentage(p) => {
                assert(cols@[i as int] matches Width::Percentage(p));
                let share = available * p / 100;
                if share < remaining {
                    share
                } else {
                    remaining
                }
            },
            Width::Min(n) => if per_flex > n {
                per_flex
            } else {
                n
            },
            _ => widths[i],
        };
        let ghost rest = ts.skip(i as int);
        assert(rest[0] == ts[i as int]);
        assert(asked as nat == ts[i as int]);
        let w: u16 = if asked < left {
            asked
        } else {
            left
        };
        proof {
            let tail = within(rest.drop_first(), (left - w) as nat);
            lemma_within(rest.drop_first(), (left - w) as nat);
            assert(rest.len() == cols@.len() - i);
            assert(within(rest, left as nat) == seq![w as nat] + tail);
            assert(rest.drop_first() =~= ts.skip(i + 1));
            assert forall|j: int| i + 1 <= j < cols@.len() implies #[trigger] full[j] == within(
                ts.skip(i + 1),
                (left - w) as nat,
            )[j - (i + 1)] by {
                assert(full[j] == within(rest, left as nat)[j - i]);
                assert((seq![w as nat] + tail)[j - i] == tail[j - i - 1]);
            }
            assert(full[i as int] == within(rest, left as nat)[0]);
        }
        r.push(w);
        left = left - w;
        i = i + 1;
    }
    r
}

/// The number of data rows that a table `height` rows high shows of `n`:
/// what is left after its borders, header and separator.
pub fn data_rows(height: u16, n: usize) -> (r: usize)
    ensures
        r == (if (height as int) - 4 < n as int {
            if height >= 4 { (height - 4) as int } else { 0 }
        } else {
            n as int
        }),
{
    let room: usize = if height >= 4 {
        (height - 4) as usize
    } else {
        0
    };
    if room < n {
        room
    } else {
        n
    }
}

} // verus!
