//! The built-in package managers: how each one's output is read into package
//! records, the commands each one runs, and the default set of managers.
use vstd::prelude::*;
use crate::pm::{PackageInfo, PackageInfoView, pkg, pkg_views, make_pkg};
use crate::text::{
    chars_of, trim, trimmed, lines, lines_of, views, words, words_exec, split_char,
    split_char_exec, starts_with, starts_with_exec, starts_with_char, starts_with_char_exec,
    contains, contains_exec, join_space, join_space_from, find, find_exec, find_char, rfind,
    rfind_exec, ends_with, ends_with_exec, split_once_char, split_once_char_exec, split_once_ws,
    split_once_ws_exec, second_or_empty, trim_start_matches, trim_start_matches_exec,
    slice_copy, lemma_find_some, lemma_rfind_some, matches_at, eq_str, nth_word,
    lemma_contains_occurs,
};
use crate::sys::{char_alphanumeric, is_alphanumeric, which_path};

verus! {

/// The line formats of the package managers' outputs.
#[derive(Clone, Copy, PartialEq, Eq, Structural)]
pub enum LineFormat {
    Generic,
    BrewSearch,
    BrewList,
    AptList,
    SnapSearch,
    SnapList,
    PipList,
    FlatpakSearch,
    FlatpakList,
    SoarSearch,
    SoarList,
    NpmSearch,
    NpmList,
    PipSearch,
    PacstallSearch,
    PacstallList,
    CargoSearch,
    CargoList,
    AmSearch,
    AmList,
}

/// The `i`-th item of `ws`, or the empty text.
pub open spec fn nth_or_empty(ws: Seq<Seq<char>>, i: int) -> Seq<char> {
    if 0 <= i < ws.len() {
        ws[i]
    } else {
        Seq::empty()
    }
}

/// A line of text with something other than whitespace in it.
pub open spec fn has_text(l: Seq<char>) -> bool {
    trim(l).len() > 0
}

/// One package per non-blank line, named by the trimmed line.
pub open spec fn generic_line(l: Seq<char>, src: Seq<char>) -> Option<PackageInfoView> {
    if has_text(l) {
        Some(pkg(trim(l), Seq::empty(), Seq::empty(), src, true))
    } else {
        None
    }
}

/// `brew search`: one name per line; lines holding `==>` are headings.
pub open spec fn brew_search_line(l: Seq<char>, src: Seq<char>) -> Option<PackageInfoView> {
    if has_text(l) && !contains(l, "==>"@) {
        Some(pkg(trim(l), Seq::empty(), "Homebrew formula/cask"@, src, false))
    } else {
        None
    }
}

/// An installed package named by the first word of the line, its version by the second.
pub open spec fn word_pair(l: Seq<char>, src: Seq<char>) -> PackageInfoView {
    pkg(nth_or_empty(words(l), 0), nth_or_empty(words(l), 1), Seq::empty(), src, true)
}

/// `brew list`: `name version` lines; lines holding `==>` are headings.
pub open spec fn brew_list_line(l: Seq<char>, src: Seq<char>) -> Option<PackageInfoView> {
    if has_text(l) && !contains(l, "==>"@) {
        Some(word_pair(l, src))
    } else {
        None
    }
}

/// `apt list --installed`: `name/suite version arch` lines after a `Listing` line.
pub open spec fn apt_list_line(l: Seq<char>, src: Seq<char>) -> Option<PackageInfoView> {
    if has_text(l) && !starts_with(l, "Listing"@) {
        Some(word_pair(l, src))
    } else {
        None
    }
}

/// `snap list`: a header line, then `name version ...` lines.
pub open spec fn snap_list_line(i: int, l: Seq<char>, src: Seq<char>) -> Option<PackageInfoView> {
    if i > 0 && has_text(l) {
        Some(word_pair(l, src))
    } else {
        None
    }
}

/// `pip list`: a header and a rule, then `name version` lines.
pub open spec fn pip_list_line(l: Seq<char>, src: Seq<char>) -> Option<PackageInfoView> {
    if has_text(l) && !starts_with(l, "Package"@) && !starts_with(l, "---"@) {
        Some(word_pair(l, src))
    } else {
        None
    }
}

/// `snap find`: a header line, then `name version publisher notes summary...`
/// lines of at least four words; the summary is the words from the fifth on.
pub open spec fn snap_search_line(i: int, l: Seq<char>, src: Seq<char>) -> Option<PackageInfoView> {
    let ws = words(l);
    if i > 0 && ws.len() >= 4 {
        let description = if ws.len() > 4 {
            join_space(ws.skip(4))
        } else {
            Seq::empty()
        };
        Some(pkg(ws[0], ws[1], description, src, false))
    } else {
        None
    }
}

/// The `i`-th tab-separated field of `l`, trimmed, or the empty text.
pub open spec fn tab_field(l: Seq<char>, i: int) -> Seq<char> {
    trim(nth_or_empty(split_char(l, '\t'), i))
}

/// `flatpak search`: tab-separated `Name, Description, Application ID, Version,
/// ...` lines of at least three fields; the application id names the package
/// unless it is empty.
pub open spec fn flatpak_search_line(l: Seq<char>, src: Seq<char>) -> Option<PackageInfoView> {
    if split_char(l, '\t').len() >= 3 {
        let app_id = tab_field(l, 2);
        let name = if app_id.len() == 0 {
            tab_field(l, 0)
        } else {
            app_id
        };
        Some(pkg(name, tab_field(l, 3), tab_field(l, 1), src, false))
    } else {
        None
    }
}

/// `flatpak list`: tab-separated lines after a `Name` header; the first field
/// names the package, the fourth is its version.
pub open spec fn flatpak_list_line(l: Seq<char>, src: Seq<char>) -> Option<PackageInfoView> {
    if has_text(l) && !starts_with(l, "Name"@) {
        Some(pkg(tab_field(l, 0), tab_field(l, 3), Seq::empty(), src, true))
    } else {
        None
    }
}

/// A `soar` line that holds a package: not blank, not box drawing or a rule,
/// not a count line (`Total`, `Installed`, `Available`, and in search output
/// their lower-case forms too).
pub open spec fn soar_keep(t: Seq<char>, lower_too: bool) -> bool {
    &&& t.len() > 0
    &&& !starts_with_char(t, '┌')
    &&& !starts_with_char(t, '│')
    &&& !starts_with_char(t, '└')
    &&& !starts_with_char(t, '├')
    &&& !starts_with_char(t, '─')
    &&& !starts_with_char(t, '+')
    &&& !starts_with_char(t, '-')
    &&& !contains(t, "Total"@)
    &&& !contains(t, "Installed"@)
    &&& !contains(t, "Available"@)
    &&& lower_too ==> !contains(t, "total"@)
    &&& lower_too ==> !contains(t, "installed"@)
    &&& lower_too ==> !contains(t, "available"@)
}

/// `soar list`: `name version` lines, split at the first space.
pub open spec fn soar_line(l: Seq<char>, src: Seq<char>, listing: bool) -> Option<PackageInfoView> {
    let t = trim(l);
    if soar_keep(t, !listing) {
        let parts = split_once_char(t, ' ');
        Some(pkg(parts.0, second_or_empty(parts), Seq::empty(), src, listing))
    } else {
        None
    }
}

/// `npm search`: a header line, then `name | description | author | date |
/// version | ...` table rows; rows starting with `|` and rows without a name
/// are skipped.
pub open spec fn npm_search_line(i: int, l: Seq<char>, src: Seq<char>) -> Option<PackageInfoView> {
    let t = trim(l);
    if i == 0 || t.len() == 0 || starts_with_char(t, '|') {
        None
    } else {
        let parts = split_char(t, '|');
        let name = trim(parts[0]);
        if parts.len() >= 2 && name.len() > 0 {
            Some(pkg(name, trim(nth_or_empty(parts, 4)), trim(parts[1]), src, false))
        } else {
            None
        }
    }
}

/// The lines of `npm list` that are skipped: blank lines and the prefix
/// directory that heads the tree.
pub open spec fn npm_list_skip(t: Seq<char>) -> bool {
    t.len() == 0 || starts_with_char(t, '/')
}

/// `npm list -g`: `name@version` entries; the name loses leading tree marks,
/// and names holding `/` are left out.
pub open spec fn npm_list_line(l: Seq<char>, src: Seq<char>) -> Option<PackageInfoView> {
    let t = trim(l);
    if npm_list_skip(t) {
        None
    } else {
        match find_char(t, '@') {
            Some(a) => {
                let name = trim_start_matches(
                    trim_start_matches(trim(t.take(a)), "├── "@),
                    "└── "@,
                );
                if name.len() > 0 && !contains(name, "/"@) {
                    Some(pkg(name, trim(t.skip(a + 1)), Seq::empty(), src, true))
                } else {
                    None
                }
            },
            None => None,
        }
    }
}

/// The description in a `pip search` line, given the text `r` after the
/// closing parenthesis: what follows the ` - ` separator, nothing when there
/// is no text after it.
pub open spec fn pip_desc(r: Seq<char>) -> Seq<char> {
    if r.len() > 3 {
        r.skip(3)
    } else {
        Seq::empty()
    }
}

/// `pip search`: `name (version) - description` lines, where the closing
/// parenthesis follows the opening one; other non-blank lines name a
/// package.
pub open spec fn pip_search_line(l: Seq<char>, src: Seq<char>) -> Option<PackageInfoView> {
    let t = trim(l);
    if t.len() == 0 {
        None
    } else {
        match (find_char(t, '('), find_char(t, ')')) {
            (Some(p), Some(c)) => if p < c {
                Some(pkg(trim(t.take(p)), t.subrange(p + 1, c), pip_desc(t.skip(c + 1)), src, false))
            } else {
                Some(pkg(t, Seq::empty(), Seq::empty(), src, false))
            },
            _ => Some(pkg(t, Seq::empty(), Seq::empty(), src, false)),
        }
    }
}

/// `pacstall -S`: `name` or `name @ version` lines (`@` marks an installed
/// package); lines starting with `[` are messages.
pub open spec fn pacstall_search_line(l: Seq<char>, src: Seq<char>) -> Option<PackageInfoView> {
    if has_text(l) && !starts_with_char(l, '[') {
        let t = trim(l);
        match find(t, " @ "@) {
            Some(a) => Some(pkg(trim(t.take(a)), trim(t.skip(a + 3)), Seq::empty(), src, true)),
            None => {
                let parts = split_once_ws(t);
                let version = trim(trim_start_matches(trim(second_or_empty(parts)), "@"@));
                Some(pkg(parts.0, version, Seq::empty(), src, false))
            },
        }
    } else {
        None
    }
}

/// `pacstall -L`: `name version` lines; lines starting with `[` are messages.
pub open spec fn pacstall_list_line(l: Seq<char>, src: Seq<char>) -> Option<PackageInfoView> {
    if has_text(l) && !starts_with_char(l, '[') {
        let parts = split_once_ws(trim(l));
        Some(pkg(parts.0, trim(second_or_empty(parts)), Seq::empty(), src, true))
    } else {
        None
    }
}

/// `cargo search`: `name = "version"    # description` lines; the version
/// ends at its closing quote and the description follows the first `#` after
/// it, however far it is padded.
pub open spec fn cargo_search_line(l: Seq<char>) -> Option<PackageInfoView> {
    let t = trim(l);
    if t.len() == 0 || starts_with_char(t, '#') || !contains(t, " = \""@) {
        None
    } else {
        let eq = find(t, " = \""@)->0;
        let name = trim(t.take(eq));
        let rest = t.skip(eq + 4);
        let (version, description) = match find_char(rest, '"') {
            Some(q) => {
                let after = rest.skip(q + 1);
                (
                    rest.take(q),
                    match find_char(after, '#') {
                        Some(h) => after.skip(h + 1),
                        None => Seq::empty(),
                    },
                )
            },
            None => (rest, Seq::empty()),
        };
        if name.len() == 0 {
            None
        } else {
            Some(pkg(name, trim(version), trim(description), "cargo"@, false))
        }
    }
}

/// `cargo install --list`: `name vX.Y.Z (path):` header lines, each followed
/// by the binaries it installed.
pub open spec fn cargo_list_line(l: Seq<char>) -> Option<PackageInfoView> {
    let t = trim(l);
    if ends_with(t, ":"@) && contains(t, " v"@) {
        let head = t.take(t.len() - 1);
        let rest = match find(head, " ("@) {
            Some(p) => head.take(p),
            None => head,
        };
        match rfind(rest, " v"@) {
            Some(v) => {
                let name = trim(rest.take(v));
                if name.len() > 0 {
                    Some(pkg(name, trim(rest.skip(v + 1)), Seq::empty(), "cargo"@, true))
                } else {
                    None
                }
            },
            None => None,
        }
    } else {
        None
    }
}

/// An `am` line that holds a package: not blank, not a comment, rule or banner.
pub open spec fn am_keep(t: Seq<char>) -> bool {
    t.len() > 0 && !starts_with_char(t, '#') && !starts_with_char(t, '-') && !starts_with_char(
        t,
        '=',
    )
}

/// `am -q` / `am -l`: `name rest` lines, split at the first whitespace; the
/// rest is the description when searching and the version when listing.
pub open spec fn am_line(l: Seq<char>, src: Seq<char>, listing: bool) -> Option<PackageInfoView> {
    let t = trim(l);
    if am_keep(t) {
        let parts = split_once_ws(t);
        let rest = trim(second_or_empty(parts));
        if listing {
            Some(pkg(parts.0, rest, Seq::empty(), src, true))
        } else {
            Some(pkg(parts.0, Seq::empty(), rest, src, false))
        }
    } else {
        None
    }
}

/// The package record that line `i` of an output in format `f` gives, if any.
pub open spec fn line_pkg(f: LineFormat, i: int, l: Seq<char>, src: Seq<char>) -> Option<
    PackageInfoView,
> {
    match f {
        LineFormat::Generic => generic_line(l, src),
        LineFormat::BrewSearch => brew_search_line(l, src),
        LineFormat::BrewList => brew_list_line(l, src),
        LineFormat::AptList => apt_list_line(l, src),
        LineFormat::SnapSearch => snap_search_line(i, l, src),
        LineFormat::SnapList => snap_list_line(i, l, src),
        LineFormat::PipList => pip_list_line(l, src),
        LineFormat::FlatpakSearch => flatpak_search_line(l, src),
        LineFormat::FlatpakList => flatpak_list_line(l, src),
        LineFormat::SoarSearch => soar_line(l, src, false),
        LineFormat::SoarList => soar_line(l, src, true),
        LineFormat::NpmSearch => npm_search_line(i, l, src),
        LineFormat::NpmList => npm_list_line(l, src),
        LineFormat::PipSearch => pip_search_line(l, src),
        LineFormat::PacstallSearch => pacstall_search_line(l, src),
        LineFormat::PacstallList => pacstall_list_line(l, src),
        LineFormat::CargoSearch => cargo_search_line(l),
        LineFormat::CargoList => cargo_list_line(l),
        LineFormat::AmSearch => am_line(l, src, false),
        LineFormat::AmList => am_line(l, src, true),
    }
}

/// The package records that the lines `ls` give, in order.
pub open spec fn collect(f: LineFormat, ls: Seq<Seq<char>>, src: Seq<char>) -> Seq<
    PackageInfoView,
>
    decreases ls.len(),
{
    if ls.len() == 0 {
        Seq::empty()
    } else {
        let rest = collect(f, ls.drop_last(), src);
        match line_pkg(f, ls.len() - 1, ls.last(), src) {
            Some(p) => rest.push(p),
            None => rest,
        }
    }
}

/// The package records of an output in format `f`.
pub open spec fn parse_format(f: LineFormat, out: Seq<char>, src: Seq<char>) -> Seq<
    PackageInfoView,
> {
    collect(f, lines(out), src)
}

/// The contents of an optional package record.
pub open spec fn opt_view(r: Option<PackageInfo>) -> Option<PackageInfoView> {
    match r {
        Some(p) => Some(p@),
        None => None,
    }
}

/// The `i`-th item of `ws`, or the empty text.
fn nth_or_empty_exec(ws: &Vec<Vec<char>>, i: usize) -> (r: Vec<char>)
    ensures
        r@ == nth_or_empty(views(ws@), i as int),
{
    if i < ws.len() {
        ws[i].clone()
    } else {
        Vec::new()
    }
}

fn has_text_exec(l: &[char]) -> (b: bool)
    ensures
        b == has_text(l@),
{
    trimmed(l).len() > 0
}

fn word_pair_exec(l: &[char], src: &[char]) -> (p: PackageInfo)
    ensures
        p@ == word_pair(l@, src@),
{
    let ws = words_exec(l);
    let name = nth_or_empty_exec(&ws, 0);
    let version = nth_or_empty_exec(&ws, 1);
    make_pkg(name.as_slice(), version.as_slice(), Vec::<char>::new().as_slice(), src, true)
}

fn tab_field_exec(parts: &Vec<Vec<char>>, i: usize) -> (r: Vec<char>)
    ensures
        r@ == trim(nth_or_empty(views(parts@), i as int)),
{
    let f = nth_or_empty_exec(parts, i);
    trimmed(f.as_slice())
}

fn second_or_empty_exec(r: (Vec<char>, Option<Vec<char>>)) -> (t: Vec<char>)
    ensures
        t@ == (match r.1 {
            Some(x) => x@,
            None => Seq::<char>::empty(),
        }),
{
    match r.1 {
        Some(x) => x,
        None => Vec::new(),
    }
}

fn starts_with_any(t: &[char], cs: &[char]) -> (b: bool)
    ensures
        b == (t@.len() > 0 && cs@.contains(t@[0])),
{
    if t.len() == 0 {
        return false;
    }
    let mut k: usize = 0;
    while k < cs.len()
        invariant
            k <= cs@.len(),
            t@.len() > 0,
            forall|j: int| 0 <= j < k ==> cs@[j] != t@[0],
        decreases cs@.len() - k,
    {
        if cs[k] == t[0] {
            return true;
        }
        k = k + 1;
    }
    false
}

fn soar_keep_exec(t: &[char], lower_too: bool) -> (b: bool)
    ensures
        b == soar_keep(t@, lower_too),
{
    let marks = ['┌', '│', '└', '├', '─', '+', '-'];
    let r = t.len() > 0 && !starts_with_any(t, &marks) && !contains_exec(
        t,
        chars_of("Total").as_slice(),
    ) && !contains_exec(t, chars_of("Installed").as_slice()) && !contains_exec(
        t,
        chars_of("Available").as_slice(),
    ) && (!lower_too || (!contains_exec(t, chars_of("total").as_slice()) && !contains_exec(
        t,
        chars_of("installed").as_slice(),
    ) && !contains_exec(t, chars_of("available").as_slice())));
    proof {
        if t@.len() > 0 {
            let c = t@[0];
            assert(marks@ == seq!['┌', '│', '└', '├', '─', '+', '-']);
            assert(marks@.contains(c) <==> (c == '┌' || c == '│' || c == '└' || c == '├' || c
                == '─' || c == '+' || c == '-')) by {
                if c == '┌' { assert(marks@[0] == c); }
                if c == '│' { assert(marks@[1] == c); }
                if c == '└' { assert(marks@[2] == c); }
                if c == '├' { assert(marks@[3] == c); }
                if c == '─' { assert(marks@[4] == c); }
                if c == '+' { assert(marks@[5] == c); }
                if c == '-' { assert(marks@[6] == c); }
            }
        }
    }
    r
}

fn soar_line_exec(l: &[char], src: &[char], listing: bool) -> (r: Option<PackageInfo>)
    ensures
        opt_view(r) == soar_line(l@, src@, listing),
{
    let t = trimmed(l);
    if soar_keep_exec(t.as_slice(), !listing) {
        let parts = split_once_char_exec(t.as_slice(), ' ');
        let name = parts.0.clone();
        let version = second_or_empty_exec(parts);
        Some(make_pkg(name.as_slice(), version.as_slice(), Vec::<char>::new().as_slice(), src, listing))
    } else {
        None
    }
}

fn npm_search_exec(i: usize, l: &[char], src: &[char]) -> (r: Option<PackageInfo>)
    ensures
        opt_view(r) == npm_search_line(i as int, l@, src@),
{
    let t = trimmed(l);
    if i == 0 || t.len() == 0 || starts_with_char_exec(t.as_slice(), '|') {
        return None;
    }
    let parts = split_char_exec(t.as_slice(), '|');
    proof {
        crate::text::lemma_split_char_len(t@, '|');
    }
    let name = trimmed(parts[0].as_slice());
    if parts.len() >= 2 && name.len() > 0 {
        let version = tab_field_exec(&parts, 4);
        let description = trimmed(parts[1].as_slice());
        Some(make_pkg(name.as_slice(), version.as_slice(), description.as_slice(), src, false))
    } else {
        None
    }
}

fn npm_list_exec(l: &[char], src: &[char]) -> (r: Option<PackageInfo>)
    ensures
        opt_view(r) == npm_list_line(l@, src@),
{
    let t = trimmed(l);
    let ts = t.as_slice();
    if t.len() == 0 || starts_with_char_exec(ts, '/') {
        return None;
    }
    let at = vec!['@'];
    assert(at@ =~= seq!['@']);
    match find_exec(ts, at.as_slice()) {
        Some(a) => {
            proof {
                lemma_find_some(t@, seq!['@']);
            }
            let head = trimmed(slice_copy(ts, 0, a).as_slice());
            let n1 = trim_start_matches_exec(head.as_slice(), chars_of("├── ").as_slice());
            let name = trim_start_matches_exec(n1.as_slice(), chars_of("└── ").as_slice());
            if name.len() > 0 && !contains_exec(name.as_slice(), chars_of("/").as_slice()) {
                let version = trimmed(slice_copy(ts, a + 1, t.len()).as_slice());
                assert(t@.subrange(a + 1, t@.len() as int) =~= t@.skip(a + 1));
                assert(t@.subrange(0, a as int) =~= t@.take(a as int));
                Some(make_pkg(name.as_slice(), version.as_slice(), Vec::<char>::new().as_slice(), src, true))
            } else {
                assert(t@.subrange(0, a as int) =~= t@.take(a as int));
                None
            }
        },
        None => None,
    }
}

fn pip_desc_exec(r: &[char]) -> (d: Vec<char>)
    ensures
        d@ == pip_desc(r@),
{
    let n = r.len();
    if n > 3 {
        let d = slice_copy(r, 3, n);
        assert(r@.subrange(3, n as int) =~= r@.skip(3));
        d
    } else {
        Vec::new()
    }
}

fn pip_search_exec(l: &[char], src: &[char]) -> (r: Option<PackageInfo>)
    ensures
        opt_view(r) == pip_search_line(l@, src@),
{
    let t = trimmed(l);
    let ts = t.as_slice();
    let n = t.len();
    if n == 0 {
        return None;
    }
    let open = vec!['('];
    let close = vec![')'];
    assert(open@ =~= seq!['(']);
    assert(close@ =~= seq![')']);
    let po = find_exec(ts, open.as_slice());
    let pc = find_exec(ts, close.as_slice());
    match (po, pc) {
        (Some(p), Some(c)) if p < c => {
            proof {
                lemma_find_some(t@, seq!['(']);
                lemma_find_some(t@, seq![')']);
            }
            let name = trimmed(slice_copy(ts, 0, p).as_slice());
            let version = slice_copy(ts, p + 1, c);
            let rest = slice_copy(ts, c + 1, n);
            assert(t@.subrange(0, p as int) =~= t@.take(p as int));
            assert(t@.subrange(c + 1, n as int) =~= t@.skip(c + 1));
            let description = pip_desc_exec(rest.as_slice());
            Some(make_pkg(name.as_slice(), version.as_slice(), description.as_slice(), src, false))
        },
        _ => Some(make_pkg(ts, Vec::<char>::new().as_slice(), Vec::<char>::new().as_slice(), src, false)),
    }
}

fn pacstall_search_exec(l: &[char], src: &[char]) -> (r: Option<PackageInfo>)
    ensures
        opt_view(r) == pacstall_search_line(l@, src@),
{
    if !(has_text_exec(l) && !starts_with_char_exec(l, '[')) {
        return None;
    }
    let t = trimmed(l);
    let ts = t.as_slice();
    let n = t.len();
    let pat = chars_of(" @ ");
    proof {
        reveal_strlit(" @ ");
    }
    match find_exec(ts, pat.as_slice()) {
        Some(a) => {
            proof {
                lemma_find_some(t@, " @ "@);
            }
            let name = trimmed(slice_copy(ts, 0, a).as_slice());
            let version = trimmed(slice_copy(ts, a + 3, n).as_slice());
            assert(t@.subrange(0, a as int) =~= t@.take(a as int));
            assert(t@.subrange(a + 3, t@.len() as int) =~= t@.skip(a + 3));
            Some(make_pkg(name.as_slice(), version.as_slice(), Vec::<char>::new().as_slice(), src, true))
        },
        None => {
            let parts = split_once_ws_exec(ts);
            let name = parts.0.clone();
            let rest = second_or_empty_exec(parts);
            let r1 = trimmed(rest.as_slice());
            let r2 = trim_start_matches_exec(r1.as_slice(), chars_of("@").as_slice());
            let version = trimmed(r2.as_slice());
            Some(make_pkg(name.as_slice(), version.as_slice(), Vec::<char>::new().as_slice(), src, false))
        },
    }
}

fn pacstall_list_exec(l: &[char], src: &[char]) -> (r: Option<PackageInfo>)
    ensures
        opt_view(r) == pacstall_list_line(l@, src@),
{
    if !(has_text_exec(l) && !starts_with_char_exec(l, '[')) {
        return None;
    }
    let t = trimmed(l);
    let parts = split_once_ws_exec(t.as_slice());
    let name = parts.0.clone();
    let rest = second_or_empty_exec(parts);
    let version = trimmed(rest.as_slice());
    Some(make_pkg(name.as_slice(), version.as_slice(), Vec::<char>::new().as_slice(), src, true))
}

fn cargo_search_exec(l: &[char]) -> (r: Option<PackageInfo>)
    ensures
        opt_view(r) == cargo_search_line(l@),
{
    let t = trimmed(l);
    let ts = t.as_slice();
    let n = t.len();
    let eq_pat = chars_of(" = \"");
    if n == 0 || starts_with_char_exec(ts, '#') || !contains_exec(ts, eq_pat.as_slice()) {
        return None;
    }
    proof {
        reveal_strlit(" = \"");
    }
    let eq = match find_exec(ts, eq_pat.as_slice()) {
        Some(e) => e,
        None => {
            return None;
        },
    };
    proof {
        lemma_find_some(t@, " = \""@);
    }
    let name = trimmed(slice_copy(ts, 0, eq).as_slice());
    assert(t@.subrange(0, eq as int) =~= t@.take(eq as int));
    let rest = slice_copy(ts, eq + 4, n);
    assert(t@.subrange(eq + 4, n as int) =~= t@.skip(eq + 4));
    let rs = rest.as_slice();
    let m = rest.len();
    let quote = vec!['"'];
    assert(quote@ =~= seq!['"']);
    let hash = vec!['#'];
    assert(hash@ =~= seq!['#']);
    let (version, description) = match find_exec(rs, quote.as_slice()) {
        Some(q) => {
            proof {
                lemma_find_some(rest@, seq!['"']);
            }
            assert(rest@.subrange(0, q as int) =~= rest@.take(q as int));
            let after = slice_copy(rs, q + 1, m);
            assert(rest@.subrange(q + 1, m as int) =~= rest@.skip(q + 1));
            let am = after.len();
            let d = match find_exec(after.as_slice(), hash.as_slice()) {
                Some(h) => {
                    proof {
                        lemma_find_some(after@, seq!['#']);
                    }
                    assert(after@.subrange(h + 1, am as int) =~= after@.skip(h + 1));
                    slice_copy(after.as_slice(), h + 1, am)
                },
                None => Vec::new(),
            };
            (slice_copy(rs, 0, q), d)
        },
        None => (rest.clone(), Vec::new()),
    };
    if name.len() == 0 {
        return None;
    }
    let v = trimmed(version.as_slice());
    let d = trimmed(description.as_slice());
    Some(make_pkg(name.as_slice(), v.as_slice(), d.as_slice(), chars_of("cargo").as_slice(), false))
}

fn cargo_list_exec(l: &[char]) -> (r: Option<PackageInfo>)
    ensures
        opt_view(r) == cargo_list_line(l@),
{
    let t = trimmed(l);
    let ts = t.as_slice();
    let n = t.len();
    proof {
        reveal_strlit(":");
        reveal_strlit(" v");
        reveal_strlit(" (");
    }
    if !(ends_with_exec(ts, chars_of(":").as_slice()) && contains_exec(ts, chars_of(" v").as_slice())) {
        return None;
    }
    let head = slice_copy(ts, 0, n - 1);
    assert(t@.subrange(0, n - 1) =~= t@.take(n - 1));
    let rest = match find_exec(head.as_slice(), chars_of(" (").as_slice()) {
        Some(p) => {
            proof {
                lemma_find_some(head@, " ("@);
            }
            assert(head@.subrange(0, p as int) =~= head@.take(p as int));
            slice_copy(head.as_slice(), 0, p)
        },
        None => head.clone(),
    };
    let rs = rest.as_slice();
    match rfind_exec(rs, chars_of(" v").as_slice()) {
        Some(v) => {
            proof {
                lemma_rfind_some(rest@, " v"@);
            }
            let name = trimmed(slice_copy(rs, 0, v).as_slice());
            assert(rest@.subrange(0, v as int) =~= rest@.take(v as int));
            if name.len() > 0 {
                let version = trimmed(slice_copy(rs, v + 1, rest.len()).as_slice());
                assert(rest@.subrange(v + 1, rest@.len() as int) =~= rest@.skip(v + 1));
                Some(make_pkg(name.as_slice(), version.as_slice(), Vec::<char>::new().as_slice(), chars_of("cargo").as_slice(), true))
            } else {
                None
            }
        },
        None => None,
    }
}

fn am_line_exec(l: &[char], src: &[char], listing: bool) -> (r: Option<PackageInfo>)
    ensures
        opt_view(r) == am_line(l@, src@, listing),
{
    let t = trimmed(l);
    let ts = t.as_slice();
    if !(t.len() > 0 && !starts_with_char_exec(ts, '#') && !starts_with_char_exec(ts, '-')
        && !starts_with_char_exec(ts, '=')) {
        return None;
    }
    let parts = split_once_ws_exec(ts);
    let name = parts.0.clone();
    let r0 = second_or_empty_exec(parts);
    let rest = trimmed(r0.as_slice());
    if listing {
        Some(make_pkg(name.as_slice(), rest.as_slice(), Vec::<char>::new().as_slice(), src, true))
    } else {
        Some(make_pkg(name.as_slice(), Vec::<char>::new().as_slice(), rest.as_slice(), src, false))
    }
}

/// The package record that line `i` of an output in format `f` gives, if any.
pub fn line_pkg_exec(f: LineFormat, i: usize, l: &[char], src: &[char]) -> (r: Option<
    PackageInfo,
>)
    ensures
        opt_view(r) == line_pkg(f, i as int, l@, src@),
{
    match f {
        LineFormat::Generic => {
            let t = trimmed(l);
            if t.len() > 0 {
                Some(make_pkg(t.as_slice(), Vec::<char>::new().as_slice(), Vec::<char>::new().as_slice(), src, true))
            } else {
                None
            }
        },
        LineFormat::BrewSearch => {
            let t = trimmed(l);
            if t.len() > 0 && !contains_exec(l, chars_of("==>").as_slice()) {
                let d = chars_of("Homebrew formula/cask");
                Some(make_pkg(t.as_slice(), Vec::<char>::new().as_slice(), d.as_slice(), src, false))
            } else {
                None
            }
        },
        LineFormat::BrewList => {
            if has_text_exec(l) && !contains_exec(l, chars_of("==>").as_slice()) {
                Some(word_pair_exec(l, src))
            } else {
                None
            }
        },
        LineFormat::AptList => {
            if has_text_exec(l) && !starts_with_exec(l, chars_of("Listing").as_slice()) {
                Some(word_pair_exec(l, src))
            } else {
                None
            }
        },
        LineFormat::SnapList => {
            if i > 0 && has_text_exec(l) {
                Some(word_pair_exec(l, src))
            } else {
                None
            }
        },
        LineFormat::PipList => {
            if has_text_exec(l) && !starts_with_exec(l, chars_of("Package").as_slice())
                && !starts_with_exec(l, chars_of("---").as_slice()) {
                Some(word_pair_exec(l, src))
            } else {
                None
            }
        },
        LineFormat::SnapSearch => {
            let ws = words_exec(l);
            if i > 0 && ws.len() >= 4 {
                let description = if ws.len() > 4 {
                    join_space_from(&ws, 4)
                } else {
                    Vec::new()
                };
                Some(make_pkg(ws[0].as_slice(), ws[1].as_slice(), description.as_slice(), src, false))
            } else {
                None
            }
        },
        LineFormat::FlatpakSearch => {
            let parts = split_char_exec(l, '\t');
            if parts.len() >= 3 {
                let app_id = tab_field_exec(&parts, 2);
                let name = if app_id.len() == 0 {
                    tab_field_exec(&parts, 0)
                } else {
                    app_id
                };
                let version = tab_field_exec(&parts, 3);
                let description = tab_field_exec(&parts, 1);
                Some(make_pkg(name.as_slice(), version.as_slice(), description.as_slice(), src, false))
            } else {
                None
            }
        },
        LineFormat::FlatpakList => {
            if has_text_exec(l) && !starts_with_exec(l, chars_of("Name").as_slice()) {
                let parts = split_char_exec(l, '\t');
                let name = tab_field_exec(&parts, 0);
                let version = tab_field_exec(&parts, 3);
                Some(make_pkg(name.as_slice(), version.as_slice(), Vec::<char>::new().as_slice(), src, true))
            } else {
                None
            }
        },
        LineFormat::SoarSearch => soar_line_exec(l, src, false),
        LineFormat::SoarList => soar_line_exec(l, src, true),
        LineFormat::NpmSearch => npm_search_exec(i, l, src),
        LineFormat::NpmList => npm_list_exec(l, src),
        LineFormat::PipSearch => pip_search_exec(l, src),
        LineFormat::PacstallSearch => pacstall_search_exec(l, src),
        LineFormat::PacstallList => pacstall_list_exec(l, src),
        LineFormat::CargoSearch => cargo_search_exec(l),
        LineFormat::CargoList => cargo_list_exec(l),
        LineFormat::AmSearch => am_line_exec(l, src, false),
        LineFormat::AmList => am_line_exec(l, src, true),
    }
}

/// The package records of an output in format `f`.
pub fn parse_format_exec(f: LineFormat, output: &str, source: &str) -> (r: Vec<PackageInfo>)
    ensures
        pkg_views(r@) == parse_format(f, output@, source@),
{
    let cs = chars_of(output);
    let src = chars_of(source);
    let ls = lines_of(cs.as_slice());
    let mut out: Vec<PackageInfo> = Vec::new();
    let n = ls.len();
    for i in 0..n
        invariant
            n == ls@.len(),
            src@ == source@,
            views(ls@) == lines(output@),
            pkg_views(out@) == collect(f, views(ls@).take(i as int), src@),
    {
        proof {
            assert(views(ls@).take(i + 1).drop_last() =~= views(ls@).take(i as int));
        }
        let ghost prev = out@;
        match line_pkg_exec(f, i, ls[i].as_slice(), src.as_slice()) {
            Some(p) => {
                out.push(p);
                proof {
                    assert(pkg_views(out@) =~= pkg_views(prev).push(p@));
                }
            },
            None => {},
        }
    }
    proof {
        assert(views(ls@).take(n as int) =~= views(ls@));
    }
    out
}

// ── apt search ───────────────────────────────────────────────────────────────

/// An `apt search` line that is skipped: blank, or the `Sorting...` and
/// `Full Text Search...` banners.
pub open spec fn apt_skip(line: Seq<char>) -> bool {
    line.len() == 0 || starts_with(line, "Sorting"@) || starts_with(line, "Full Text"@)
}

/// An `apt search` entry line: `name/suite version arch [installed,...]`.
pub open spec fn apt_is_entry(line: Seq<char>) -> bool {
    !starts_with_char(line, ' ') && contains(line, "/"@)
}

/// The package of the entry on line `i`: the name before the first `/`, the
/// version as the second word after it (the first is the suite), installed
/// when the line holds
/// `[installed`, and the description from the next line when that one is
/// indented by two spaces.
pub open spec fn apt_entry(ls: Seq<Seq<char>>, i: int, src: Seq<char>) -> PackageInfoView {
    let line = trim(ls[i]);
    let parts = split_once_char(line, '/');
    let description = if i + 1 < ls.len() && starts_with(ls[i + 1], "  "@) {
        trim(ls[i + 1])
    } else {
        Seq::empty()
    };
    pkg(
        parts.0,
        nth_or_empty(words(second_or_empty(parts)), 1),
        description,
        src,
        contains(line, "[installed"@),
    )
}

/// The packages of `apt search` lines from line `i` on; an entry consumes its
/// description line.
pub open spec fn apt_from(ls: Seq<Seq<char>>, i: int, src: Seq<char>) -> Seq<PackageInfoView>
    decreases ls.len() + 1 - i,
{
    if i < 0 || i >= ls.len() {
        Seq::empty()
    } else {
        let line = trim(ls[i]);
        if apt_skip(line) {
            apt_from(ls, i + 1, src)
        } else if apt_is_entry(line) {
            seq![apt_entry(ls, i, src)] + apt_from(ls, i + 2, src)
        } else {
            apt_from(ls, i + 1, src)
        }
    }
}

/// Line `k` of `ls` is an `apt search` entry line whose entry is `rec`.
pub open spec fn apt_record_from_line(ls: Seq<Seq<char>>, k: int, src: Seq<char>, rec: PackageInfoView) -> bool {
    0 <= k < ls.len() && !apt_skip(trim(ls[k])) && apt_is_entry(trim(ls[k])) && rec == apt_entry(ls, k, src)
}

proof fn lemma_apt_from_members(ls: Seq<Seq<char>>, i: int, src: Seq<char>) -> (r: Seq<int>)
    requires
        0 <= i,
    ensures
        r.len() == apt_from(ls, i, src).len(),
        forall|j: int|
            #![trigger r[j]]
            0 <= j < r.len() ==> i <= r[j] && apt_record_from_line(ls, r[j], src, apt_from(ls, i, src)[j]),
    decreases ls.len() + 1 - i,
{
    if i >= ls.len() {
        Seq::empty()
    } else {
        let line = trim(ls[i]);
        if apt_skip(line) || !apt_is_entry(line) {
            let ks = lemma_apt_from_members(ls, i + 1, src);
            assert(apt_from(ls, i, src) == apt_from(ls, i + 1, src));
            ks
        } else {
            let rk = lemma_apt_from_members(ls, i + 2, src);
            let rest = apt_from(ls, i + 2, src);
            assert(apt_from(ls, i, src) == seq![apt_entry(ls, i, src)] + rest);
            let ks = seq![i] + rk;
            assert forall|j: int|
                #![trigger ks[j]]
                0 <= j < ks.len() implies i <= ks[j] && apt_record_from_line(ls, ks[j], src, apt_from(ls, i, src)[j]) by {
                if j > 0 {
                    assert(ks[j] == rk[j - 1]);
                    assert(apt_from(ls, i, src)[j] == rest[j - 1]);
                }
            }
            ks
        }
    }
}

/// What an `apt search` entry line says of its record: the name is the text
/// before the `/`, the source is the given one, and the package is installed
/// exactly when the line holds `[installed` anywhere.
pub open spec fn apt_line_says(line: Seq<char>, src: Seq<char>, rec: PackageInfoView) -> bool {
    &&& rec.name == split_once_char(line, '/').0
    &&& rec.source == src
    &&& (rec.installed <==> exists|m: int| matches_at(line, "[installed"@, m))
}

/// Every record that `apt search` output gives comes from one of its entry
/// lines (a line not indented that holds a `/`), record `j` from line `ks[j]`:
/// it is named by the text before the `/`, comes from the given source, and
/// is marked installed exactly when the line holds `[installed` anywhere (so
/// `[installed]`, `[installed,automatic]` and `[installed,local]` all mark
/// it).
pub proof fn apt_search_marks_installed(output: Seq<char>, src: Seq<char>) -> (ks: Seq<int>)
    ensures
        ks.len() == apt_from(lines(output), 0, src).len(),
        forall|j: int|
            #![trigger ks[j]]
            0 <= j < ks.len() ==> 0 <= ks[j] < lines(output).len() && !starts_with_char(
                trim(lines(output)[ks[j]]),
                ' ',
            ) && contains(trim(lines(output)[ks[j]]), "/"@) && apt_line_says(
                trim(lines(output)[ks[j]]),
                src,
                apt_from(lines(output), 0, src)[j],
            ),
{
    let ls = lines(output);
    let ks = lemma_apt_from_members(ls, 0, src);
    assert forall|j: int|
        #![trigger ks[j]]
        0 <= j < ks.len() implies 0 <= ks[j] < ls.len() && !starts_with_char(trim(ls[ks[j]]), ' ')
            && contains(trim(ls[ks[j]]), "/"@) && apt_line_says(trim(ls[ks[j]]), src, apt_from(ls, 0, src)[j]) by {
        lemma_contains_occurs(trim(ls[ks[j]]), "[installed"@);
    }
    ks
}

/// apt search output: lines like "package/suite version arch" followed by an
/// indented description line.
pub fn parse_apt_output(output: &str, source: &str) -> (r: Vec<PackageInfo>)
    ensures
        pkg_views(r@) == apt_from(lines(output@), 0, source@),
{
    let cs = chars_of(output);
    let src = chars_of(source);
    let ls = lines_of(cs.as_slice());
    let n = ls.len();
    let mut out: Vec<PackageInfo> = Vec::new();
    let mut i: usize = 0;
    let ghost all = views(ls@);
    while i < n
        invariant
            i <= n,
            n == ls@.len(),
            all == views(ls@),
            all == lines(output@),
            src@ == source@,
            pkg_views(out@) + apt_from(all, i as int, src@) == apt_from(all, 0, src@),
        decreases n - i,
    {
        let line = trimmed(ls[i].as_slice());
        let ls_ = line.as_slice();
        if line.len() == 0 || starts_with_exec(ls_, chars_of("Sorting").as_slice())
            || starts_with_exec(ls_, chars_of("Full Text").as_slice()) {
            i = i + 1;
        } else if !starts_with_char_exec(ls_, ' ') && contains_exec(ls_, chars_of("/").as_slice()) {
            let parts = split_once_char_exec(ls_, '/');
            let name = parts.0.clone();
            let rest = second_or_empty_exec(parts);
            let version = nth_word(rest.as_slice(), 1);
            let installed = contains_exec(ls_, chars_of("[installed").as_slice());
            let description = if i + 1 < n && starts_with_exec(
                ls[i + 1].as_slice(),
                chars_of("  ").as_slice(),
            ) {
                trimmed(ls[i + 1].as_slice())
            } else {
                Vec::new()
            };
            let p = make_pkg(name.as_slice(), version.as_slice(), description.as_slice(), src.as_slice(), installed);
            let ghost prev = out@;
            out.push(p);
            proof {
                assert(p@ == apt_entry(all, i as int, src@));
                assert(pkg_views(out@) =~= pkg_views(prev).push(p@));
                assert(pkg_views(out@) + apt_from(all, i + 2, src@) =~= pkg_views(prev) + (seq![
                    p@,
                ] + apt_from(all, i + 2, src@)));
            }
            if i + 1 < n {
                i = i + 2;
            } else {
                i = n;
            }
        } else {
            i = i + 1;
        }
    }
    proof {
        assert(pkg_views(out@) + apt_from(all, i as int, src@) =~= pkg_views(out@));
    }
    out
}

// ── Per-manager readers ──────────────────────────────────────────────────────

/// soar list output: filter out metadata/box lines (total/installed/available)
pub fn parse_soar_output(output: &str, source: &str) -> (r: Vec<PackageInfo>)
    ensures
        pkg_views(r@) == parse_format(LineFormat::SoarSearch, output@, source@),
{
    parse_format_exec(LineFormat::SoarSearch, output, source)
}

/// flatpak search output: tab-separated "Name\tDescription\tApplication ID\tVersion\tBranch\tRemotes"
pub fn parse_flatpak_output(output: &str, source: &str) -> (r: Vec<PackageInfo>)
    ensures
        pkg_views(r@) == parse_format(LineFormat::FlatpakSearch, output@, source@),
{
    parse_format_exec(LineFormat::FlatpakSearch, output, source)
}

/// snap find output: "Name  Version  Publisher  Notes  Summary"
pub fn parse_snap_output(output: &str, source: &str) -> (r: Vec<PackageInfo>)
    ensures
        pkg_views(r@) == parse_format(LineFormat::SnapSearch, output@, source@),
{
    parse_format_exec(LineFormat::SnapSearch, output, source)
}

/// brew search output: just names, one per line
pub fn parse_brew_output(output: &str, source: &str) -> (r: Vec<PackageInfo>)
    ensures
        pkg_views(r@) == parse_format(LineFormat::BrewSearch, output@, source@),
{
    parse_format_exec(LineFormat::BrewSearch, output, source)
}

/// npm search output (table format)
pub fn parse_npm_output(output: &str, source: &str) -> (r: Vec<PackageInfo>)
    ensures
        pkg_views(r@) == parse_format(LineFormat::NpmSearch, output@, source@),
{
    parse_format_exec(LineFormat::NpmSearch, output, source)
}

/// pip search output: "name (version) - description" lines, or bare names.
pub fn parse_pip_output(output: &str, source: &str) -> (r: Vec<PackageInfo>)
    ensures
        pkg_views(r@) == parse_format(LineFormat::PipSearch, output@, source@),
{
    parse_format_exec(LineFormat::PipSearch, output, source)
}

/// pacstall -S output: lines like "pkgname" or "pkgname @ version" (@ marks installed)
pub fn parse_pacstall_output(output: &str, source: &str) -> (r: Vec<PackageInfo>)
    ensures
        pkg_views(r@) == parse_format(LineFormat::PacstallSearch, output@, source@),
{
    parse_format_exec(LineFormat::PacstallSearch, output, source)
}

/// Fallback: treat each line as a package name
pub fn parse_generic_output(output: &str, source: &str) -> (r: Vec<PackageInfo>)
    ensures
        pkg_views(r@) == parse_format(LineFormat::Generic, output@, source@),
{
    parse_format_exec(LineFormat::Generic, output, source)
}

/// apt list --installed output.
pub fn parse_apt_list_output(output: &str, source: &str) -> (r: Vec<PackageInfo>)
    ensures
        pkg_views(r@) == parse_format(LineFormat::AptList, output@, source@),
{
    parse_format_exec(LineFormat::AptList, output, source)
}

/// flatpak list output.
pub fn parse_flatpak_list_output(output: &str, source: &str) -> (r: Vec<PackageInfo>)
    ensures
        pkg_views(r@) == parse_format(LineFormat::FlatpakList, output@, source@),
{
    parse_format_exec(LineFormat::FlatpakList, output, source)
}

/// snap list output.
pub fn parse_snap_list_output(output: &str, source: &str) -> (r: Vec<PackageInfo>)
    ensures
        pkg_views(r@) == parse_format(LineFormat::SnapList, output@, source@),
{
    parse_format_exec(LineFormat::SnapList, output, source)
}

/// brew list output.
pub fn parse_brew_list_output(output: &str, source: &str) -> (r: Vec<PackageInfo>)
    ensures
        pkg_views(r@) == parse_format(LineFormat::BrewList, output@, source@),
{
    parse_format_exec(LineFormat::BrewList, output, source)
}

/// npm list -g output: package@version entries of a tree.
pub fn parse_npm_list_output(output: &str, source: &str) -> (r: Vec<PackageInfo>)
    ensures
        pkg_views(r@) == parse_format(LineFormat::NpmList, output@, source@),
{
    parse_format_exec(LineFormat::NpmList, output, source)
}

/// pip list output.
pub fn parse_pip_list_output(output: &str, source: &str) -> (r: Vec<PackageInfo>)
    ensures
        pkg_views(r@) == parse_format(LineFormat::PipList, output@, source@),
{
    parse_format_exec(LineFormat::PipList, output, source)
}

/// pacstall -L output.
pub fn parse_pacstall_list_output(output: &str, source: &str) -> (r: Vec<PackageInfo>)
    ensures
        pkg_views(r@) == parse_format(LineFormat::PacstallList, output@, source@),
{
    parse_format_exec(LineFormat::PacstallList, output, source)
}

/// soar list --installed output.
pub fn parse_soar_list_output(output: &str, source: &str) -> (r: Vec<PackageInfo>)
    ensures
        pkg_views(r@) == parse_format(LineFormat::SoarList, output@, source@),
{
    parse_format_exec(LineFormat::SoarList, output, source)
}

/// Parse `cargo search` output: lines like `name = "version" # description`
pub fn parse_cargo_search_output(output: &str) -> (r: Vec<PackageInfo>)
    ensures
        pkg_views(r@) == parse_format(LineFormat::CargoSearch, output@, "cargo"@),
{
    parse_format_exec(LineFormat::CargoSearch, output, "cargo")
}

/// Parse `cargo install --list` output: `crate-name v0.1.0 (/path):` headers
/// followed by indented binary names.
pub fn parse_cargo_list_output(output: &str) -> (r: Vec<PackageInfo>)
    ensures
        pkg_views(r@) == parse_format(LineFormat::CargoList, output@, "cargo"@),
{
    parse_format_exec(LineFormat::CargoList, output, "cargo")
}

/// AM search output: `name description` lines.
pub fn parse_am_output(output: &str, source: &str) -> (r: Vec<PackageInfo>)
    ensures
        pkg_views(r@) == parse_format(LineFormat::AmSearch, output@, source@),
{
    parse_format_exec(LineFormat::AmSearch, output, source)
}

/// AM list output: `name version` lines.
pub fn parse_am_list_output(output: &str, source: &str) -> (r: Vec<PackageInfo>)
    ensures
        pkg_views(r@) == parse_format(LineFormat::AmList, output@, source@),
{
    parse_format_exec(LineFormat::AmList, output, source)
}

// ── Dispatch ─────────────────────────────────────────────────────────────────

/// A package record that names something: its trimmed name is not empty and
/// holds an alphanumeric character.
pub open spec fn named(p: PackageInfoView) -> bool {
    &&& trim(p.name).len() > 0
    &&& exists|k: int| 0 <= k < p.name.len() && char_alphanumeric(#[trigger] p.name[k])
}

/// The records of `s` that name something, in order.
pub open spec fn keep_named(s: Seq<PackageInfoView>) -> Seq<PackageInfoView>
    decreases s.len(),
{
    if s.len() == 0 {
        Seq::empty()
    } else {
        let r = keep_named(s.drop_last());
        if named(s.last()) {
            r.push(s.last())
        } else {
            r
        }
    }
}

fn named_exec(p: &PackageInfo) -> (b: bool)
    ensures
        b == named(p@),
{
    let cs = chars_of(p.name.as_str());
    if trimmed(cs.as_slice()).len() == 0 {
        return false;
    }
    let mut k: usize = 0;
    while k < cs.len()
        invariant
            k <= cs@.len(),
            cs@ == p.name@,
            trim(p.name@).len() > 0,
            forall|j: int| 0 <= j < k ==> !char_alphanumeric(#[trigger] cs@[j]),
        decreases cs@.len() - k,
    {
        if is_alphanumeric(cs[k]) {
            assert(char_alphanumeric(p@.name[k as int]));
            return true;
        }
        k = k + 1;
    }
    false
}

/// The records of `v` that name something, in order.
pub fn retain_named(v: Vec<PackageInfo>) -> (r: Vec<PackageInfo>)
    ensures
        pkg_views(r@) == keep_named(pkg_views(v@)),
{
    let mut out: Vec<PackageInfo> = Vec::new();
    let n = v.len();
    for i in 0..n
        invariant
            n == v@.len(),
            pkg_views(out@) == keep_named(pkg_views(v@).take(i as int)),
    {
        proof {
            assert(pkg_views(v@).take(i + 1).drop_last() =~= pkg_views(v@).take(i as int));
        }
        let ghost prev = out@;
        if named_exec(&v[i]) {
            out.push(v[i].copy());
            proof {
                assert(pkg_views(out@) =~= pkg_views(prev).push(v@[i as int]@));
            }
        }
    }
    proof {
        assert(pkg_views(v@).take(n as int) =~= pkg_views(v@));
    }
    out
}

/// The records that searching with the manager named `src` reads from its output.
pub open spec fn search_records(src: Seq<char>, out: Seq<char>) -> Seq<PackageInfoView> {
    if src == "apt"@ {
        apt_from(lines(out), 0, src)
    } else if src == "flatpak"@ {
        parse_format(LineFormat::FlatpakSearch, out, src)
    } else if src == "snap"@ {
        parse_format(LineFormat::SnapSearch, out, src)
    } else if src == "brew"@ {
        parse_format(LineFormat::BrewSearch, out, src)
    } else if src == "npm"@ {
        parse_format(LineFormat::NpmSearch, out, src)
    } else if src == "pip"@ {
        parse_format(LineFormat::PipSearch, out, src)
    } else if src == "pacstall"@ {
        parse_format(LineFormat::PacstallSearch, out, src)
    } else if src == "soar"@ {
        parse_format(LineFormat::SoarSearch, out, src)
    } else if src == "cargo"@ {
        parse_format(LineFormat::CargoSearch, out, "cargo"@)
    } else if src == "am"@ || src == "appman"@ {
        parse_format(LineFormat::AmSearch, out, src)
    } else {
        parse_format(LineFormat::Generic, out, src)
    }
}

/// The records that listing the installed packages of the manager named `src`
/// reads from its output.
pub open spec fn list_records(src: Seq<char>, out: Seq<char>) -> Seq<PackageInfoView> {
    if src == "apt"@ {
        parse_format(LineFormat::AptList, out, src)
    } else if src == "flatpak"@ {
        parse_format(LineFormat::FlatpakList, out, src)
    } else if src == "snap"@ {
        parse_format(LineFormat::SnapList, out, src)
    } else if src == "brew"@ {
        parse_format(LineFormat::BrewList, out, src)
    } else if src == "npm"@ {
        parse_format(LineFormat::NpmList, out, src)
    } else if src == "pip"@ {
        parse_format(LineFormat::PipList, out, src)
    } else if src == "pacstall"@ {
        parse_format(LineFormat::PacstallList, out, src)
    } else if src == "soar"@ {
        parse_format(LineFormat::SoarList, out, src)
    } else if src == "cargo"@ {
        parse_format(LineFormat::CargoList, out, "cargo"@)
    } else if src == "am"@ || src == "appman"@ {
        parse_format(LineFormat::AmList, out, src)
    } else {
        parse_format(LineFormat::Generic, out, src)
    }
}

proof fn lemma_collect_members(f: LineFormat, ls: Seq<Seq<char>>, src: Seq<char>) -> (r: Seq<int>)
    ensures
        r.len() == collect(f, ls, src).len(),
        forall|j: int|
            #![trigger r[j]]
            0 <= j < r.len() ==> 0 <= r[j] < ls.len() && line_pkg(f, r[j], ls[r[j]], src) == Some(
                collect(f, ls, src)[j],
            ),
        forall|j: int, k: int| #![trigger r[j], r[k]] 0 <= j < k < r.len() ==> r[j] < r[k],
        forall|i: int|
            0 <= i < ls.len() && (#[trigger] line_pkg(f, i, ls[i], src)) is Some ==> exists|j: int|
                0 <= j < r.len() && r[j] == i,
    decreases ls.len(),
{
    if ls.len() == 0 {
        Seq::empty()
    } else {
        let d = ls.drop_last();
        let rk = lemma_collect_members(f, d, src);
        let prev = collect(f, d, src);
        assert forall|j: int| #![trigger rk[j]] 0 <= j < rk.len() implies d[rk[j]] == ls[rk[j]] by {}
        match line_pkg(f, ls.len() - 1, ls.last(), src) {
            Some(p) => {
                let ks = rk.push(ls.len() - 1);
                assert(collect(f, ls, src) == prev.push(p));
                assert forall|j: int|
                    #![trigger ks[j]]
                    0 <= j < ks.len() implies 0 <= ks[j] < ls.len() && line_pkg(f, ks[j], ls[ks[j]], src)
                        == Some(collect(f, ls, src)[j]) by {
                    if j < rk.len() {
                        assert(ks[j] == rk[j]);
                        assert(collect(f, ls, src)[j] == prev[j]);
                    }
                }
                assert forall|j: int, k: int| #![trigger ks[j], ks[k]] 0 <= j < k < ks.len() implies ks[j]
                    < ks[k] by {
                    assert(ks[j] == rk[j]);
                    if k < rk.len() {
                        assert(ks[k] == rk[k]);
                    }
                }
                assert forall|i: int|
                    0 <= i < ls.len() && (#[trigger] line_pkg(f, i, ls[i], src)) is Some implies exists|j: int|
                        0 <= j < ks.len() && ks[j] == i by {
                    if i == ls.len() - 1 {
                        assert(ks[rk.len() as int] == i);
                    } else {
                        assert(d[i] == ls[i]);
                        assert(line_pkg(f, i, d[i], src) is Some);
                        let j = choose|j: int| 0 <= j < rk.len() && rk[j] == i;
                        assert(ks[j] == i);
                    }
                }
                ks
            },
            None => {
                assert(collect(f, ls, src) == prev);
                assert forall|i: int|
                    0 <= i < ls.len() && (#[trigger] line_pkg(f, i, ls[i], src)) is Some implies exists|j: int|
                        0 <= j < rk.len() && rk[j] == i by {
                    assert(i != ls.len() - 1);
                    assert(d[i] == ls[i]);
                    assert(line_pkg(f, i, d[i], src) is Some);
                }
                rk
            },
        }
    }
}

/// `apt list --installed` output gives one record per line other than the
/// `Listing...` banner and blank lines, in the order of the lines, record `j`
/// from line `ks[j]`: named by the line's first word, with its second word as
/// the version, from `apt`, installed.
pub proof fn apt_list_reads_name_and_version(out: Seq<char>) -> (ks: Seq<int>)
    ensures
        ks.len() == list_records("apt"@, out).len(),
        forall|j: int|
            #![trigger ks[j]]
            0 <= j < ks.len() ==> 0 <= ks[j] < lines(out).len() && has_text(lines(out)[ks[j]])
                && !starts_with(lines(out)[ks[j]], "Listing"@) && list_records("apt"@, out)[j] == pkg(
                nth_or_empty(words(lines(out)[ks[j]]), 0),
                nth_or_empty(words(lines(out)[ks[j]]), 1),
                Seq::empty(),
                "apt"@,
                true,
            ),
        forall|j: int, k: int| #![trigger ks[j], ks[k]] 0 <= j < k < ks.len() ==> ks[j] < ks[k],
        forall|i: int|
            0 <= i < lines(out).len() && has_text(#[trigger] lines(out)[i]) && !starts_with(
                lines(out)[i],
                "Listing"@,
            ) ==> exists|j: int| 0 <= j < ks.len() && ks[j] == i,
{
    let ls = lines(out);
    let ks = lemma_collect_members(LineFormat::AptList, ls, "apt"@);
    assert forall|i: int|
        0 <= i < ls.len() && has_text(#[trigger] ls[i]) && !starts_with(ls[i], "Listing"@) implies exists|j: int|
            0 <= j < ks.len() && ks[j] == i by {
        assert(line_pkg(LineFormat::AptList, i, ls[i], "apt"@) is Some);
    }
    ks
}

/// When every record of `s` satisfies `p`, so does every record that
/// `keep_named` keeps of it, and each of those names something.
proof fn lemma_keep_named_members(s: Seq<PackageInfoView>, p: spec_fn(PackageInfoView) -> bool)
    requires
        forall|i: int| 0 <= i < s.len() ==> #[trigger] p(s[i]),
    ensures
        forall|j: int| 0 <= j < keep_named(s).len() ==> #[trigger] p(keep_named(s)[j]) && named(keep_named(s)[j]),
    decreases s.len(),
{
    if s.len() > 0 {
        let d = s.drop_last();
        assert forall|i: int| 0 <= i < d.len() implies #[trigger] p(d[i]) by {
            assert(d[i] == s[i]);
        }
        lemma_keep_named_members(d, p);
        let r = keep_named(d);
        assert(p(s[s.len() - 1]));
        assert forall|j: int| 0 <= j < keep_named(s).len() implies #[trigger] p(keep_named(s)[j]) && named(
            keep_named(s)[j],
        ) by {
            if named(s.last()) {
                if j < r.len() {
                    assert(keep_named(s)[j] == r[j]);
                    assert(p(r[j]));
                } else {
                    assert(keep_named(s)[j] == s.last());
                }
            } else {
                assert(keep_named(s) == r);
                assert(p(r[j]));
            }
        }
    }
}

/// Every record that list-installed output gives, whatever the package
/// manager, is marked installed and comes from that package manager.
pub proof fn listed_packages_are_installed(src: Seq<char>, out: Seq<char>)
    ensures
        forall|j: int|
            0 <= j < keep_named(list_records(src, out)).len() ==> (#[trigger] keep_named(
                list_records(src, out),
            )[j]).installed && keep_named(list_records(src, out))[j].source == src,
{
    let f = if src == "apt"@ {
        LineFormat::AptList
    } else if src == "flatpak"@ {
        LineFormat::FlatpakList
    } else if src == "snap"@ {
        LineFormat::SnapList
    } else if src == "brew"@ {
        LineFormat::BrewList
    } else if src == "npm"@ {
        LineFormat::NpmList
    } else if src == "pip"@ {
        LineFormat::PipList
    } else if src == "pacstall"@ {
        LineFormat::PacstallList
    } else if src == "soar"@ {
        LineFormat::SoarList
    } else if src == "cargo"@ {
        LineFormat::CargoList
    } else if src == "am"@ || src == "appman"@ {
        LineFormat::AmList
    } else {
        LineFormat::Generic
    };
    let ls = lines(out);
    assert(list_records(src, out) == collect(f, ls, src));
    let r = lemma_collect_members(f, ls, src);
    let p = |q: PackageInfoView| q.installed && q.source == src;
    assert forall|i: int| 0 <= i < collect(f, ls, src).len() implies #[trigger] p(collect(f, ls, src)[i]) by {
        assert(line_pkg(f, r[i], ls[r[i]], src) == Some(collect(f, ls, src)[i]));
    }
    lemma_keep_named_members(collect(f, ls, src), p);
    assert forall|j: int| 0 <= j < keep_named(list_records(src, out)).len() implies (#[trigger] keep_named(
        list_records(src, out),
    )[j]).installed && keep_named(list_records(src, out))[j].source == src by {
        assert(p(keep_named(collect(f, ls, src))[j]));
    }
}

/// Parse search output from various package managers into structured
/// PackageInfo, keeping only the records that name something.
pub fn parse_search_output(source: &str, output: &str) -> (r: Vec<PackageInfo>)
    ensures
        pkg_views(r@) == keep_named(search_records(source@, output@)),
{
    let src = chars_of(source);
    let s = src.as_slice();
    let results = if eq_str(s, "apt") {
        parse_apt_output(output, source)
    } else if eq_str(s, "flatpak") {
        parse_flatpak_output(output, source)
    } else if eq_str(s, "snap") {
        parse_snap_output(output, source)
    } else if eq_str(s, "brew") {
        parse_brew_output(output, source)
    } else if eq_str(s, "npm") {
        parse_npm_output(output, source)
    } else if eq_str(s, "pip") {
        parse_pip_output(output, source)
    } else if eq_str(s, "pacstall") {
        parse_pacstall_output(output, source)
    } else if eq_str(s, "soar") {
        parse_soar_output(output, source)
    } else if eq_str(s, "cargo") {
        parse_cargo_search_output(output)
    } else if eq_str(s, "am") || eq_str(s, "appman") {
        parse_am_output(output, source)
    } else {
        parse_generic_output(output, source)
    };
    retain_named(results)
}

/// Parse list-installed output from package managers into structured
/// PackageInfo, keeping only the records that name something.
pub fn parse_list_output(source: &str, output: &str) -> (r: Vec<PackageInfo>)
    ensures
        pkg_views(r@) == keep_named(list_records(source@, output@)),
{
    let src = chars_of(source);
    let s = src.as_slice();
    let results = if eq_str(s, "apt") {
        parse_apt_list_output(output, source)
    } else if eq_str(s, "flatpak") {
        parse_flatpak_list_output(output, source)
    } else if eq_str(s, "snap") {
        parse_snap_list_output(output, source)
    } else if eq_str(s, "brew") {
        parse_brew_list_output(output, source)
    } else if eq_str(s, "npm") {
        parse_npm_list_output(output, source)
    } else if eq_str(s, "pip") {
        parse_pip_list_output(output, source)
    } else if eq_str(s, "pacstall") {
        parse_pacstall_list_output(output, source)
    } else if eq_str(s, "soar") {
        parse_soar_list_output(output, source)
    } else if eq_str(s, "cargo") {
        parse_cargo_list_output(output)
    } else if eq_str(s, "am") || eq_str(s, "appman") {
        parse_am_list_output(output, source)
    } else {
        parse_generic_output(output, source)
    };
    retain_named(results)
}

// ── Managers ─────────────────────────────────────────────────────────────────

/// The contents of a sequence of strings.
pub open spec fn strs(v: Seq<String>) -> Seq<Seq<char>> {
    v.map_values(|x: String| x@)
}

/// The contents of a sequence of string slices.
pub open spec fn strs_ref(v: Seq<&str>) -> Seq<Seq<char>> {
    v.map_values(|x: &str| x@)
}

/// `strs` of a sequence with one more string.
pub proof fn lemma_strs_push(v: Seq<String>, x: String)
    ensures
        strs(v.push(x)) == strs(v).push(x@),
{
    assert(strs(v.push(x)) =~= strs(v).push(x@));
}

/// A string vector holding the given texts.
pub fn strings_of(parts: &[&str]) -> (r: Vec<String>)
    ensures
        strs(r@) == strs_ref(parts@),
{
    let mut r: Vec<String> = Vec::new();
    for i in 0..parts.len()
        invariant
            strs(r@) == strs_ref(parts@).take(i as int),
    {
        let ghost prev = r@;
        let x = parts[i].to_owned();
        r.push(x);
        proof {
            lemma_strs_push(prev, x);
            assert(strs_ref(parts@).take(i + 1) =~= strs_ref(parts@).take(i as int).push(
                parts@[i as int]@,
            ));
        }
    }
    assert(strs_ref(parts@).take(parts@.len() as int) =~= strs_ref(parts@));
    r
}

/// A string vector holding one text.
pub fn strings1(a: &str) -> (r: Vec<String>)
    ensures
        strs(r@) == seq![a@],
{
    let mut r: Vec<String> = Vec::new();
    r.push(a.to_owned());
    assert(strs(r@) =~= seq![a@]);
    r
}

/// A string vector holding two texts.
pub fn strings2(a: &str, b: &str) -> (r: Vec<String>)
    ensures
        strs(r@) == seq![a@, b@],
{
    let mut r: Vec<String> = Vec::new();
    r.push(a.to_owned());
    r.push(b.to_owned());
    assert(strs(r@) =~= seq![a@, b@]);
    r
}

/// A string vector holding three texts.
pub fn strings3(a: &str, b: &str, c: &str) -> (r: Vec<String>)
    ensures
        strs(r@) == seq![a@, b@, c@],
{
    let mut r: Vec<String> = Vec::new();
    r.push(a.to_owned());
    r.push(b.to_owned());
    r.push(c.to_owned());
    assert(strs(r@) =~= seq![a@, b@, c@]);
    r
}

/// Owned copies of strings.
pub fn copy_strings(parts: &Vec<String>) -> (r: Vec<String>)
    ensures
        strs(r@) == strs(parts@),
{
    let mut r: Vec<String> = Vec::new();
    for i in 0..parts.len()
        invariant
            strs(r@) == strs(parts@).take(i as int),
    {
        let ghost prev = r@;
        let x = parts[i].clone();
        r.push(x);
        proof {
            lemma_strs_push(prev, x);
            assert(strs(parts@).take(i + 1) =~= strs(parts@).take(i as int).push(
                parts@[i as int]@,
            ));
        }
    }
    assert(strs(parts@).take(parts@.len() as int) =~= strs(parts@));
    r
}

/// `v` followed by copies of `extra`.
pub fn extend_strings(v: Vec<String>, extra: &[String]) -> (r: Vec<String>)
    ensures
        strs(r@) == strs(v@) + extra@.map_values(|x: String| x@),
{
    let mut r = v;
    let ghost base = strs(r@);
    let ghost ex = extra@.map_values(|x: String| x@);
    for i in 0..extra.len()
        invariant
            ex == extra@.map_values(|x: String| x@),
            strs(r@) == base + ex.take(i as int),
    {
        let ghost prev = r@;
        let x = extra[i].clone();
        r.push(x);
        proof {
            lemma_strs_push(prev, x);
            assert(base + ex.take(i + 1) =~= (base + ex.take(i as int)).push(ex[i as int]));
        }
    }
    assert(ex.take(extra@.len() as int) =~= ex);
    r
}

/// Generic structural wrapper for package managers where we just pass subcommands
pub struct GenericWrapper {
    pub name: String,
    pub binary: String,
    pub search_cmd: Vec<String>,
    pub install_cmd: Vec<String>,
    pub remove_cmd: Vec<String>,
    pub update_cmd: Vec<String>,
    pub list_cmd: Vec<String>,
    /// If true, install/remove/update commands are wrapped with `sudo`
    pub needs_sudo: bool,
}

/// The contents of a [`GenericWrapper`].
pub struct GenericView {
    pub name: Seq<char>,
    pub binary: Seq<char>,
    pub search_cmd: Seq<Seq<char>>,
    pub install_cmd: Seq<Seq<char>>,
    pub remove_cmd: Seq<Seq<char>>,
    pub update_cmd: Seq<Seq<char>>,
    pub list_cmd: Seq<Seq<char>>,
    pub needs_sudo: bool,
}

impl View for GenericWrapper {
    type V = GenericView;

    open spec fn view(&self) -> GenericView {
        GenericView {
            name: self.name@,
            binary: self.binary@,
            search_cmd: strs(self.search_cmd@),
            install_cmd: strs(self.install_cmd@),
            remove_cmd: strs(self.remove_cmd@),
            update_cmd: strs(self.update_cmd@),
            list_cmd: strs(self.list_cmd@),
            needs_sudo: self.needs_sudo,
        }
    }
}

/// The start of a command that changes the system: the binary, behind `sudo`
/// when the manager needs it.
pub open spec fn privileged(g: GenericView) -> Seq<Seq<char>> {
    if g.needs_sudo {
        seq!["sudo"@, g.binary]
    } else {
        seq![g.binary]
    }
}

/// Represents a package manager that can be invoked via its command line.
pub trait PackageManager {
    fn name(&self) -> &str;

    fn is_available(&self) -> bool;
}

impl PackageManager for GenericWrapper {
    fn name(&self) -> (n: &str)
        ensures
            n@ == self.name@,
    {
        self.name.as_str()
    }

    fn is_available(&self) -> bool {
        which_path(self.binary.as_str()).is_some()
    }
}

impl GenericWrapper {
    fn start(&self, privileged_cmd: bool) -> (r: Vec<String>)
        ensures
            privileged_cmd ==> strs(r@) == privileged(self@),
            !privileged_cmd ==> strs(r@) == seq![self.binary@],
    {
        let mut r: Vec<String> = Vec::new();
        if privileged_cmd && self.needs_sudo {
            r.push("sudo".to_owned());
        }
        r.push(self.binary.clone());
        proof {
            if privileged_cmd && self.needs_sudo {
                assert(strs(r@) =~= seq!["sudo"@, self.binary@]);
            } else {
                assert(strs(r@) =~= seq![self.binary@]);
            }
        }
        r
    }

    /// The interactive search command: the binary, its search arguments, the query.
    pub fn search_argv(&self, query: &str) -> (r: Vec<String>)
        ensures
            strs(r@) == seq![self.binary@] + self@.search_cmd + seq![query@],
    {
        let r = extend_strings(self.start(false), self.search_cmd.as_slice());
        let mut r = r;
        r.push(query.to_owned());
        assert(strs(r@) =~= seq![self.binary@] + self@.search_cmd + seq![query@]);
        r
    }

    /// The search command whose output is read, or `None` when the manager has
    /// no search command (then no results are read).
    pub fn search_captured_argv(&self, query: &str) -> (r: Option<Vec<String>>)
        ensures
            self.search_cmd@.len() == 0 ==> r is None,
            self.search_cmd@.len() > 0 ==> (r matches Some(v) && strs(v@) == seq![self.binary@]
                + self@.search_cmd + seq![query@]),
    {
        if self.search_cmd.len() == 0 {
            None
        } else {
            Some(self.search_argv(query))
        }
    }

    /// The install command: the (privileged) binary, its install arguments, the packages.
    pub fn install_argv(&self, packages: &[String]) -> (r: Vec<String>)
        ensures
            strs(r@) == privileged(self@) + self@.install_cmd + packages@.map_values(
                |x: String| x@,
            ),
    {
        let r = extend_strings(self.start(true), self.install_cmd.as_slice());
        let r = extend_strings(r, packages);
        assert(strs(r@) =~= privileged(self@) + self@.install_cmd + packages@.map_values(
            |x: String| x@,
        ));
        r
    }

    /// The remove command: the (privileged) binary, its remove arguments, the packages.
    pub fn remove_argv(&self, packages: &[String]) -> (r: Vec<String>)
        ensures
            strs(r@) == privileged(self@) + self@.remove_cmd + packages@.map_values(
                |x: String| x@,
            ),
    {
        let r = extend_strings(self.start(true), self.remove_cmd.as_slice());
        let r = extend_strings(r, packages);
        assert(strs(r@) =~= privileged(self@) + self@.remove_cmd + packages@.map_values(
            |x: String| x@,
        ));
        r
    }

    /// The update command: the (privileged) binary and its update arguments.
    pub fn update_argv(&self) -> (r: Vec<String>)
        ensures
            strs(r@) == privileged(self@) + self@.update_cmd,
    {
        extend_strings(self.start(true), self.update_cmd.as_slice())
    }

    /// The command listing the installed packages, or `None` when the manager
    /// has none (then the list is empty).
    pub fn list_argv(&self) -> (r: Option<Vec<String>>)
        ensures
            self.list_cmd@.len() == 0 ==> r is None,
            self.list_cmd@.len() > 0 ==> (r matches Some(v) && strs(v@) == seq![self.binary@]
                + self@.list_cmd),
    {
        if self.list_cmd.len() == 0 {
            None
        } else {
            Some(extend_strings(self.start(false), self.list_cmd.as_slice()))
        }
    }
}

/// Cargo wrapper — wraps `cargo install`, `cargo uninstall`, `cargo search`
pub struct CargoWrapper;

impl PackageManager for CargoWrapper {
    fn name(&self) -> (n: &str)
        ensures
            n@ == "cargo"@,
    {
        "cargo"
    }

    fn is_available(&self) -> bool {
        which_path("cargo").is_some()
    }
}

/// The cargo install command: through `cargo-binstall --no-confirm` when that
/// tool is present, else `cargo install`, followed by the packages.
pub open spec fn cargo_install(binstall: bool, packages: Seq<Seq<char>>) -> Seq<Seq<char>> {
    if binstall {
        seq!["cargo-binstall"@, "--no-confirm"@] + packages
    } else {
        seq!["cargo"@, "install"@] + packages
    }
}

impl CargoWrapper {
    /// `cargo search <query>`.
    pub fn search_argv(&self, query: &str) -> (r: Vec<String>)
        ensures
            strs(r@) == seq!["cargo"@, "search"@, query@],
    {
        strings3("cargo", "search", query)
    }

    /// `cargo search <query> --limit 10`, whose output is read.
    pub fn search_captured_argv(&self, query: &str) -> (r: Vec<String>)
        ensures
            strs(r@) == seq!["cargo"@, "search"@, query@, "--limit"@, "10"@],
    {
        let r = self.search_argv(query);
        let r = extend_strings(r, strings2("--limit", "10").as_slice());
        assert(strs(r@) =~= seq!["cargo"@, "search"@, query@, "--limit"@, "10"@]);
        r
    }

    /// The install command, given whether `cargo-binstall` is present.
    pub fn install_argv_with(&self, packages: &[String], binstall: bool) -> (r: Vec<String>)
        ensures
            strs(r@) == cargo_install(binstall, packages@.map_values(|x: String| x@)),
    {
        let head = if binstall {
            strings2("cargo-binstall", "--no-confirm")
        } else {
            strings2("cargo", "install")
        };
        extend_strings(head, packages)
    }

    /// The install command, looking for `cargo-binstall` on the machine.
    pub fn install_argv(&self, packages: &[String]) -> (r: Vec<String>)
        ensures
            strs(r@) == cargo_install(true, packages@.map_values(|x: String| x@)) || strs(r@)
                == cargo_install(false, packages@.map_values(|x: String| x@)),
    {
        let found = which_path("cargo-binstall").is_some();
        self.install_argv_with(packages, found)
    }

    /// `cargo uninstall <packages>`.
    pub fn remove_argv(&self, packages: &[String]) -> (r: Vec<String>)
        ensures
            strs(r@) == seq!["cargo"@, "uninstall"@] + packages@.map_values(|x: String| x@),
    {
        extend_strings(strings2("cargo", "uninstall"), packages)
    }

    /// Cargo has no update-all command: updating answers an error that says
    /// how to update a crate.
    pub fn update_result(&self) -> (r: crate::pm::PmResult)
        ensures
            r matches crate::pm::PmResult::Error(m) && m@
                == "Use 'cargo install --force <pkg>' to update crates."@,
    {
        crate::pm::PmResult::Error("Use 'cargo install --force <pkg>' to update crates.".to_owned())
    }

    /// `cargo install --list`.
    pub fn list_argv(&self) -> (r: Vec<String>)
        ensures
            strs(r@) == seq!["cargo"@, "install"@, "--list"@],
    {
        strings3("cargo", "install", "--list")
    }
}

/// AM (AppImage Manager) — supports `am` or `appman` binary
pub struct AmWrapper {
    binary: String,
}

impl PackageManager for AmWrapper {
    fn name(&self) -> (n: &str)
        ensures
            n@ == "am"@,
    {
        "am"
    }

    fn is_available(&self) -> bool {
        which_path("am").is_some() || which_path("appman").is_some()
    }
}

impl AmWrapper {
    /// The wrapper running `am` when it is present, else `appman`.
    pub fn with_am_found(am_found: bool) -> (r: AmWrapper)
        ensures
            am_found ==> r.binary_view() == "am"@,
            !am_found ==> r.binary_view() == "appman"@,
    {
        if am_found {
            AmWrapper { binary: "am".to_owned() }
        } else {
            AmWrapper { binary: "appman".to_owned() }
        }
    }

    /// The wrapper for the AM binary found on the machine.
    pub fn new() -> (r: AmWrapper)
        ensures
            r.binary_view() == "am"@ || r.binary_view() == "appman"@,
    {
        AmWrapper::with_am_found(which_path("am").is_some())
    }

    /// The binary this wrapper runs.
    pub closed spec fn binary_view(&self) -> Seq<char> {
        self.binary@
    }

    /// The binary this wrapper runs.
    pub fn binary(&self) -> (b: &str)
        ensures
            b@ == self.binary_view(),
    {
        self.binary.as_str()
    }

    /// `<am> -q <query>`.
    pub fn search_argv(&self, query: &str) -> (r: Vec<String>)
        ensures
            strs(r@) == seq![self.binary_view(), "-q"@, query@],
    {
        strings3(self.binary.as_str(), "-q", query)
    }

    /// `<am> -i <packages>`.
    pub fn install_argv(&self, packages: &[String]) -> (r: Vec<String>)
        ensures
            strs(r@) == seq![self.binary_view(), "-i"@] + packages@.map_values(|x: String| x@),
    {
        extend_strings(strings2(self.binary.as_str(), "-i"), packages)
    }

    /// `<am> -R <packages>`.
    pub fn remove_argv(&self, packages: &[String]) -> (r: Vec<String>)
        ensures
            strs(r@) == seq![self.binary_view(), "-R"@] + packages@.map_values(|x: String| x@),
    {
        extend_strings(strings2(self.binary.as_str(), "-R"), packages)
    }

    /// `<am> -u all`.
    pub fn update_argv(&self) -> (r: Vec<String>)
        ensures
            strs(r@) == seq![self.binary_view(), "-u"@, "all"@],
    {
        strings3(self.binary.as_str(), "-u", "all")
    }

    /// `<am> -l`.
    pub fn list_argv(&self) -> (r: Vec<String>)
        ensures
            strs(r@) == seq![self.binary_view(), "-l"@],
    {
        strings2(self.binary.as_str(), "-l")
    }
}

// ── The default managers ─────────────────────────────────────────────────────

/// One of the built-in package managers.
pub enum Manager {
    Generic(GenericWrapper),
    Cargo(CargoWrapper),
    Am(AmWrapper),
}

/// The contents of a [`Manager`].
pub enum ManagerView {
    Generic(GenericView),
    Cargo,
    Am(Seq<char>),
}

impl View for Manager {
    type V = ManagerView;

    open spec fn view(&self) -> ManagerView {
        match self {
            Manager::Generic(g) => ManagerView::Generic(g@),
            Manager::Cargo(_) => ManagerView::Cargo,
            Manager::Am(a) => ManagerView::Am(a.binary_view()),
        }
    }
}

/// The contents of a sequence of managers.
pub open spec fn manager_views(v: Seq<Manager>) -> Seq<ManagerView> {
    v.map_values(|m: Manager| m@)
}

/// The name that a manager goes by.
pub open spec fn manager_name(m: ManagerView) -> Seq<char> {
    match m {
        ManagerView::Generic(g) => g.name,
        ManagerView::Cargo => "cargo"@,
        ManagerView::Am(_) => "am"@,
    }
}

impl PackageManager for Manager {
    fn name(&self) -> (n: &str)
        ensures
            n@ == manager_name(self@),
    {
        match self {
            Manager::Generic(g) => g.name(),
            Manager::Cargo(c) => c.name(),
            Manager::Am(a) => a.name(),
        }
    }

    fn is_available(&self) -> bool {
        match self {
            Manager::Generic(g) => g.is_available(),
            Manager::Cargo(c) => c.is_available(),
            Manager::Am(a) => a.is_available(),
        }
    }
}

/// A generic manager whose binary has its name.
pub open spec fn generic(
    name: Seq<char>,
    search_cmd: Seq<Seq<char>>,
    install_cmd: Seq<Seq<char>>,
    remove_cmd: Seq<Seq<char>>,
    update_cmd: Seq<Seq<char>>,
    list_cmd: Seq<Seq<char>>,
    needs_sudo: bool,
) -> ManagerView {
    ManagerView::Generic(
        GenericView {
            name,
            binary: name,
            search_cmd,
            install_cmd,
            remove_cmd,
            update_cmd,
            list_cmd,
            needs_sudo,
        },
    )
}

/// The default managers, in order of preference, with `am` the binary of the
/// AM wrapper.
pub open spec fn default_managers(am: Seq<char>) -> Seq<ManagerView> {
    seq![
        generic("apt"@, seq!["search"@], seq!["install"@, "-y"@], seq!["remove"@, "-y"@], seq!["upgrade"@, "-y"@], seq!["list"@, "--installed"@], true),
        generic("pacstall"@, seq!["-S"@], seq!["-I"@], seq!["-R"@], seq!["-U"@, "all"@], seq!["-L"@], false),
        generic("flatpak"@, seq!["search"@], seq!["install"@, "-y"@], seq!["uninstall"@, "-y"@], seq!["update"@, "-y"@], seq!["list"@], false),
        generic("snap"@, seq!["find"@], seq!["install"@], seq!["remove"@], seq!["refresh"@], seq!["list"@], true),
        generic("brew"@, seq!["search"@], seq!["install"@], seq!["uninstall"@], seq!["upgrade"@], seq!["list"@], false),
        generic("soar"@, seq!["list"@], seq!["add"@], seq!["remove"@], seq!["update"@], seq!["list"@, "--installed"@], false),
        generic("npm"@, seq!["search"@], seq!["install"@, "-g"@], seq!["uninstall"@, "-g"@], seq!["update"@, "-g"@], seq!["list"@, "-g"@, "--depth=0"@], false),
        generic("bun"@, seq![], seq!["add"@, "-g"@], seq!["remove"@, "-g"@], seq!["update"@, "-g"@], seq!["pm"@, "ls"@, "-g"@], false),
        generic("pip"@, seq!["search"@], seq!["install"@], seq!["uninstall"@, "-y"@], seq!["install"@, "--upgrade"@], seq!["list"@], false),
        generic("topgrade"@, seq![], seq![], seq![], seq!["--yes"@], seq![], false),
        ManagerView::Cargo,
        ManagerView::Am(am),
        generic("cargo-binstall"@, seq![], seq!["--no-confirm"@], seq![], seq!["--no-confirm"@], seq![], false),
    ]
}

fn gw(
    name: &str,
    search_cmd: Vec<String>,
    install_cmd: Vec<String>,
    remove_cmd: Vec<String>,
    update_cmd: Vec<String>,
    list_cmd: Vec<String>,
    needs_sudo: bool,
) -> (m: Manager)
    ensures
        m@ == generic(
            name@,
            strs(search_cmd@),
            strs(install_cmd@),
            strs(remove_cmd@),
            strs(update_cmd@),
            strs(list_cmd@),
            needs_sudo,
        ),
{
    Manager::Generic(
        GenericWrapper {
            name: name.to_owned(),
            binary: name.to_owned(),
            search_cmd,
            install_cmd,
            remove_cmd,
            update_cmd,
            list_cmd,
            needs_sudo,
        },
    )
}

fn none() -> (r: Vec<String>)
    ensures
        strs(r@) == Seq::<Seq<char>>::empty(),
{
    let r: Vec<String> = Vec::new();
    assert(strs(r@) =~= Seq::<Seq<char>>::empty());
    r
}

/// The default managers, in order of preference; the AM wrapper runs `am` when
/// it is present and `appman` otherwise.
pub fn get_default_managers() -> (r: Vec<Manager>)
    ensures
        manager_views(r@) == default_managers("am"@) || manager_views(r@) == default_managers(
            "appman"@,
        ),
{
    let mut r: Vec<Manager> = Vec::new();
    r.push(gw("apt", strings1("search"), strings2("install", "-y"), strings2("remove", "-y"), strings2("upgrade", "-y"), strings2("list", "--installed"), true));
    r.push(gw("pacstall", strings1("-S"), strings1("-I"), strings1("-R"), strings2("-U", "all"), strings1("-L"), false));
    r.push(gw("flatpak", strings1("search"), strings2("install", "-y"), strings2("uninstall", "-y"), strings2("update", "-y"), strings1("list"), false));
    r.push(gw("snap", strings1("find"), strings1("install"), strings1("remove"), strings1("refresh"), strings1("list"), true));
    r.push(gw("brew", strings1("search"), strings1("install"), strings1("uninstall"), strings1("upgrade"), strings1("list"), false));
    r.push(gw("soar", strings1("list"), strings1("add"), strings1("remove"), strings1("update"), strings2("list", "--installed"), false));
    r.push(gw("npm", strings1("search"), strings2("install", "-g"), strings2("uninstall", "-g"), strings2("update", "-g"), strings3("list", "-g", "--depth=0"), false));
    r.push(gw("bun", none(), strings2("add", "-g"), strings2("remove", "-g"), strings2("update", "-g"), strings3("pm", "ls", "-g"), false));
    r.push(gw("pip", strings1("search"), strings1("install"), strings2("uninstall", "-y"), strings2("install", "--upgrade"), strings1("list"), false));
    r.push(gw("topgrade", none(), none(), none(), strings1("--yes"), none(), false));
    r.push(Manager::Cargo(CargoWrapper));
    let am = AmWrapper::new();
    let ghost am_bin = am.binary_view();
    r.push(Manager::Am(am));
    r.push(gw("cargo-binstall", none(), strings1("--no-confirm"), none(), strings1("--no-confirm"), none(), false));
    assert(manager_views(r@) =~= default_managers(am_bin));
    r
}

} // verus!
