//! Command-line decisions: which manager serves a request, and how the package
//! arguments are read (`source:name` prefixes and URLs).
use vstd::prelude::*;
use crate::text::{
    chars_of, find_char, find_exec, find_from, lemma_find_some, slice_copy, eq_str, starts_with,
    starts_with_exec, join_with, append_str,
};
use crate::pm::builtin::{
    Manager, manager_name, manager_views, PackageManager, default_managers, strs, lemma_strs_push,
};
use crate::sys::string_of;

verus! {

/// The sources that a `source:` prefix may name.
pub open spec fn known_sources() -> Seq<Seq<char>> {
    seq![
        "apt"@, "pacstall"@, "flatpak"@, "snap"@, "brew"@, "soar"@, "npm"@, "bun"@, "pip"@,
        "cargo"@, "cargo-binstall"@, "am"@,
    ]
}

/// Whether `s` is a known source.
pub fn is_known_source(s: &[char]) -> (b: bool)
    ensures
        b == known_sources().contains(s@),
{
    let known = [
        "apt", "pacstall", "flatpak", "snap", "brew", "soar", "npm", "bun", "pip", "cargo",
        "cargo-binstall", "am",
    ];
    let ghost ks = known_sources();
    assert(known@.map_values(|x: &str| x@) =~= ks);
    let mut i: usize = 0;
    while i < 12
        invariant
            i <= 12,
            ks == known_sources(),
            known@.map_values(|x: &str| x@) == ks,
            ks.len() == 12,
            forall|j: int| 0 <= j < i ==> ks[j] != s@,
        decreases 12 - i,
    {
        assert(ks[i as int] == known@[i as int]@);
        if eq_str(s, known[i]) {
            assert(ks[i as int] == s@);
            assert(known_sources().contains(s@));
            return true;
        }
        i = i + 1;
    }
    assert(!ks.contains(s@));
    false
}

/// The reading of a package argument: `source:name` with a known source and a
/// non-empty name gives the source and the name, anything else is a plain name.
pub open spec fn source_prefix(input: Seq<char>) -> (Option<Seq<char>>, Seq<char>) {
    match find_char(input, ':') {
        Some(c) => {
            let source = input.take(c);
            let pkg = input.skip(c + 1);
            if known_sources().contains(source) && pkg.len() > 0 {
                (Some(source), pkg)
            } else {
                (None, input)
            }
        },
        None => (None, input),
    }
}

/// Parse source:package syntax (e.g., "apt:firefox" → ("apt", "firefox"))
pub fn parse_source_prefix(input: &str) -> (r: (Option<String>, String))
    ensures
        r.1@ == source_prefix(input@).1,
        r.0 is Some == source_prefix(input@).0 is Some,
        r.0 matches Some(s) ==> Some(s@) == source_prefix(input@).0,
{
    let cs = chars_of(input);
    let n = cs.len();
    let colon = vec![':'];
    assert(colon@ =~= seq![':']);
    match find_exec(cs.as_slice(), colon.as_slice()) {
        Some(c) => {
            proof {
                lemma_find_some(cs@, seq![':']);
            }
            let source = slice_copy(cs.as_slice(), 0, c);
            let pkg = slice_copy(cs.as_slice(), c + 1, n);
            assert(cs@.subrange(0, c as int) =~= cs@.take(c as int));
            assert(cs@.subrange(c + 1, n as int) =~= cs@.skip(c + 1));
            if is_known_source(source.as_slice()) && pkg.len() > 0 {
                (Some(string_of(source.as_slice())), string_of(pkg.as_slice()))
            } else {
                (None, input.to_owned())
            }
        },
        None => (None, input.to_owned()),
    }
}

/// The names of a sequence of managers.
pub open spec fn names_of(ms: Seq<Manager>) -> Seq<Seq<char>> {
    manager_views(ms).map_values(|m| manager_name(m))
}

/// The first position at or after `i` of a manager named `x`.
pub open spec fn position_from(names: Seq<Seq<char>>, x: Seq<char>, i: int) -> Option<int>
    decreases names.len() - i,
{
    if i < 0 || i >= names.len() {
        None
    } else if names[i] == x {
        Some(i)
    } else {
        position_from(names, x, i + 1)
    }
}

/// A preferred default manager: apt, pacstall or brew.
pub open spec fn preferred(name: Seq<char>) -> bool {
    name == "apt"@ || name == "pacstall"@ || name == "brew"@
}

/// The first position at or after `i` of a preferred manager.
pub open spec fn preferred_from(names: Seq<Seq<char>>, i: int) -> Option<int>
    decreases names.len() - i,
{
    if i < 0 || i >= names.len() {
        None
    } else if preferred(names[i]) {
        Some(i)
    } else {
        preferred_from(names, i + 1)
    }
}

/// The message naming an unavailable manager and the available ones.
pub open spec fn unavailable_message(requested: Seq<char>, names: Seq<Seq<char>>) -> Seq<char> {
    "Package manager '"@ + requested + "' not available. Available: "@ + join_with(names, ", "@)
}

/// The manager that serves a request: the first one with the requested name,
/// or without a request the first of apt, pacstall and brew, else the first
/// manager of all.
pub open spec fn primary_manager(names: Seq<Seq<char>>, requested: Option<Seq<char>>) -> Result<
    int,
    Seq<char>,
> {
    match requested {
        Some(r) => match position_from(names, r, 0) {
            Some(i) => Ok(i),
            None => Err(unavailable_message(r, names)),
        },
        None => match preferred_from(names, 0) {
            Some(i) => Ok(i),
            None => if names.len() > 0 {
                Ok(0)
            } else {
                Err("No package managers found on this system"@)
            },
        },
    }
}

fn manager_names(managers: &[Manager]) -> (r: Vec<Vec<char>>)
    ensures
        crate::text::views(r@) == names_of(managers@),
{
    let mut r: Vec<Vec<char>> = Vec::new();
    for i in 0..managers.len()
        invariant
            crate::text::views(r@) == names_of(managers@).take(i as int),
    {
        let ghost prev = r@;
        let n = chars_of(managers[i].name());
        r.push(n);
        proof {
            crate::text::lemma_views_push(prev, n);
            assert(names_of(managers@)[i as int] == manager_name(managers@[i as int]@));
            assert(names_of(managers@).take(i + 1) =~= names_of(managers@).take(i as int).push(
                n@,
            ));
        }
    }
    assert(names_of(managers@).take(managers@.len() as int) =~= names_of(managers@));
    r
}

fn join_names(names: &Vec<Vec<char>>, sep: &str) -> (r: Vec<char>)
    ensures
        r@ == join_with(crate::text::views(names@), sep@),
{
    let mut r: Vec<char> = Vec::new();
    let ghost ws = crate::text::views(names@);
    for i in 0..names.len()
        invariant
            ws == crate::text::views(names@),
            r@ == join_with(ws.take(i as int), sep@),
    {
        let ghost prev = r@;
        if i > 0 {
            append_str(&mut r, sep);
        }
        crate::text::append_chars(&mut r, names[i].as_slice());
        proof {
            assert(ws.take(i + 1).drop_last() =~= ws.take(i as int));
            if i == 0 {
                assert(ws.take(1) =~= seq![ws[0]]);
            }
        }
    }
    assert(ws.take(names@.len() as int) =~= ws);
    r
}

/// The contents of an optional string slice.
pub open spec fn opt_str(o: Option<&str>) -> Option<Seq<char>> {
    match o {
        Some(q) => Some(q@),
        None => None,
    }
}

/// The contents of a position-or-message result.
pub open spec fn result_view(r: Result<usize, String>) -> Result<int, Seq<char>> {
    match r {
        Ok(i) => Ok(i as int),
        Err(e) => Err(e@),
    }
}

/// Choose the manager that serves a request (see [`primary_manager`]); the
/// answer is its position in `managers`.
pub fn choose_primary_manager(managers: &[Manager], requested: Option<&str>) -> (r: Result<
    usize,
    String,
>)
    ensures
        result_view(r) == primary_manager(names_of(managers@), opt_str(requested)),
{
    let names = manager_names(managers);
    let ghost ns = crate::text::views(names@);
    let n = names.len();
    match requested {
        Some(q) => {
            let mut i: usize = 0;
            while i < n
                invariant
                    i <= n,
                    n == names@.len(),
                    ns == crate::text::views(names@),
                    ns == names_of(managers@),
                    opt_str(requested) == Some(q@),
                    position_from(ns, q@, 0) == position_from(ns, q@, i as int),
                decreases n - i,
            {
                assert(ns[i as int] == names@[i as int]@);
                if eq_str(names[i].as_slice(), q) {
                    assert(position_from(ns, q@, i as int) == Some(i as int));
                    assert(primary_manager(ns, Some(q@)) == Ok::<int, Seq<char>>(i as int));
                    return Ok(i);
                }
                i = i + 1;
            }
            let mut m = chars_of("Package manager '");
            append_str(&mut m, q);
            append_str(&mut m, "' not available. Available: ");
            let joined = join_names(&names, ", ");
            crate::text::append_chars(&mut m, joined.as_slice());
            Err(string_of(m.as_slice()))
        },
        None => {
            let mut i: usize = 0;
            while i < n
                invariant
                    i <= n,
                    n == names@.len(),
                    ns == crate::text::views(names@),
                    ns == names_of(managers@),
                    requested is None,
                    preferred_from(ns, 0) == preferred_from(ns, i as int),
                decreases n - i,
            {
                let s = names[i].as_slice();
                assert(ns[i as int] == names@[i as int]@);
                if eq_str(s, "apt") || eq_str(s, "pacstall") || eq_str(s, "brew") {
                    assert(preferred_from(ns, i as int) == Some(i as int));
                    assert(primary_manager(ns, None) == Ok::<int, Seq<char>>(i as int));
                    return Ok(i);
                }
                i = i + 1;
            }
            if n > 0 {
                Ok(0)
            } else {
                Err("No package managers found on this system".to_owned())
            }
        },
    }
}

/// Package arguments grouped by the source that their prefix names, in the
/// order in which the sources first appear, and the plain names.
pub struct Grouped {
    pub sources: Vec<String>,
    pub names: Vec<Vec<String>>,
    pub plain: Vec<String>,
}

/// The position of `src` among the group keys.
pub open spec fn group_index(keys: Seq<Seq<char>>, src: Seq<char>) -> Option<int> {
    position_from(keys, src, 0)
}

/// The groups after one more `src:name` argument: the name joins the group of
/// its source, or starts a new group at the end.
pub open spec fn add_to_group(
    keys: Seq<Seq<char>>,
    vals: Seq<Seq<Seq<char>>>,
    src: Seq<char>,
    name: Seq<char>,
) -> (Seq<Seq<char>>, Seq<Seq<Seq<char>>>) {
    match group_index(keys, src) {
        Some(k) => (keys, vals.update(k, vals[k].push(name))),
        None => (keys.push(src), vals.push(seq![name])),
    }
}

/// The grouping of the package arguments `args`.
pub open spec fn grouping(args: Seq<Seq<char>>) -> (Seq<Seq<char>>, Seq<Seq<Seq<char>>>, Seq<
    Seq<char>,
>)
    decreases args.len(),
{
    if args.len() == 0 {
        (Seq::empty(), Seq::empty(), Seq::empty())
    } else {
        let (keys, vals, plain) = grouping(args.drop_last());
        let (src, name) = source_prefix(args.last());
        match src {
            Some(s) => {
                let (k2, v2) = add_to_group(keys, vals, s, name);
                (k2, v2, plain)
            },
            None => (keys, vals, plain.push(name)),
        }
    }
}

proof fn lemma_position_bound(names: Seq<Seq<char>>, x: Seq<char>, i: int)
    requires
        position_from(names, x, i) is Some,
    ensures
        i <= position_from(names, x, i)->0 < names.len(),
        names[position_from(names, x, i)->0] == x,
    decreases names.len() - i,
{
    if i < 0 || i >= names.len() {
    } else if names[i] == x {
    } else {
        lemma_position_bound(names, x, i + 1);
    }
}

/// The number of names in all groups.
pub open spec fn group_total(vals: Seq<Seq<Seq<char>>>) -> nat
    decreases vals.len(),
{
    if vals.len() == 0 {
        0
    } else {
        group_total(vals.drop_last()) + vals.last().len()
    }
}

proof fn lemma_group_total_update(vals: Seq<Seq<Seq<char>>>, k: int, g: Seq<Seq<char>>)
    requires
        0 <= k < vals.len(),
    ensures
        group_total(vals.update(k, g)) == group_total(vals) - vals[k].len() + g.len(),
    decreases vals.len(),
{
    if k == vals.len() - 1 {
        assert(vals.update(k, g).drop_last() =~= vals.drop_last());
    } else {
        lemma_group_total_update(vals.drop_last(), k, g);
        assert(vals.update(k, g).drop_last() =~= vals.drop_last().update(k, g));
    }
}

proof fn lemma_position_none(names: Seq<Seq<char>>, x: Seq<char>, i: int)
    requires
        0 <= i,
        position_from(names, x, i) is None,
    ensures
        forall|j: int| i <= j < names.len() ==> names[j] != x,
    decreases names.len() - i,
{
    if i < names.len() {
        lemma_position_none(names, x, i + 1);
    }
}

/// Every package argument is handled once: it lands in exactly one place,
/// the group of the source its prefix names or the plain names; there is one
/// group per source, none of them empty.
pub proof fn grouping_keeps_every_argument(args: Seq<Seq<char>>)
    ensures
        ({
            let (keys, vals, plain) = grouping(args);
            &&& keys.len() == vals.len()
            &&& keys.no_duplicates()
            &&& group_total(vals) + plain.len() == args.len()
            &&& forall|i: int| 0 <= i < vals.len() ==> (#[trigger] vals[i]).len() > 0
        }),
    decreases args.len(),
{
    if args.len() > 0 {
        grouping_keeps_every_argument(args.drop_last());
        let (keys, vals, plain) = grouping(args.drop_last());
        let (src, name) = source_prefix(args.last());
        match src {
            Some(sr) => {
                match group_index(keys, sr) {
                    Some(k) => {
                        lemma_position_bound(keys, sr, 0);
                        lemma_group_total_update(vals, k, vals[k].push(name));
                        let v2 = vals.update(k, vals[k].push(name));
                        assert forall|i: int| 0 <= i < v2.len() implies (#[trigger] v2[i]).len() > 0 by {
                            if i != k {
                                assert(v2[i] == vals[i]);
                            }
                        }
                    },
                    None => {
                        lemma_position_none(keys, sr, 0);
                        let k2 = keys.push(sr);
                        let v2 = vals.push(seq![name]);
                        assert(v2.drop_last() =~= vals);
                        assert forall|i: int, j: int| 0 <= i < k2.len() && 0 <= j < k2.len() && i != j
                            implies k2[i] != k2[j] by {
                            if i < keys.len() && j < keys.len() {
                                assert(k2[i] == keys[i]);
                                assert(k2[j] == keys[j]);
                            }
                        }
                        assert forall|i: int| 0 <= i < v2.len() implies (#[trigger] v2[i]).len() > 0 by {
                            if i < vals.len() {
                                assert(v2[i] == vals[i]);
                            }
                        }
                    },
                }
            },
            None => {},
        }
    }
}

/// The contents of a vector of string vectors.
pub open spec fn strss(v: Seq<Vec<String>>) -> Seq<Seq<Seq<char>>> {
    v.map_values(|x: Vec<String>| strs(x@))
}

/// Group package arguments by their `source:` prefix (see [`grouping`]).
pub fn group_by_source(args: &[String]) -> (r: Grouped)
    ensures
        (strs(r.sources@), strss(r.names@), strs(r.plain@)) == grouping(args@.map_values(
            |a: String| a@,
        )),
{
    let mut sources: Vec<String> = Vec::new();
    let mut names: Vec<Vec<String>> = Vec::new();
    let mut plain: Vec<String> = Vec::new();
    let ghost all = args@.map_values(|a: String| a@);
    for i in 0..args.len()
        invariant
            all == args@.map_values(|a: String| a@),
            sources@.len() == names@.len(),
            (strs(sources@), strss(names@), strs(plain@)) == grouping(all.take(i as int)),
    {
        proof {
            assert(all.take(i + 1).drop_last() =~= all.take(i as int));
        }
        let (src, name) = parse_source_prefix(args[i].as_str());
        let ghost ps = plain@;
        let ghost ks = sources@;
        let ghost vs = names@;
        match src {
            Some(s) => {
                let sc = chars_of(s.as_str());
                let mut k: usize = 0;
                let n = sources.len();
                while k < n
                    invariant
                        k <= n,
                        n == sources@.len(),
                        ks == sources@,
                        position_from(strs(ks), s@, 0) == position_from(strs(ks), s@, k as int),
                        sc@ == s@,
                    ensures
                        k <= n,
                        position_from(strs(ks), s@, 0) == position_from(strs(ks), s@, k as int),
                        k < n ==> strs(ks)[k as int] == s@,
                    decreases n - k,
                {
                    let kc = chars_of(sources[k].as_str());
                    assert(strs(ks)[k as int] == ks[k as int]@);
                    if crate::text::text_eq(kc.as_slice(), sc.as_slice()) {
                        break;
                    }
                    k = k + 1;
                }
                if k < n {
                    assert(strs(ks)[k as int] == s@);
                    let mut g = names[k].clone();
                    let ghost gv = g@;
                    g.push(name);
                    proof {
                        lemma_strs_push(gv, name);
                    }
                    names.set(k, g);
                    proof {
                        assert(position_from(strs(ks), s@, k as int) == Some(k as int));
                        assert(strss(names@) =~= strss(vs).update(k as int, strss(vs)[k as int].push(name@)));
                    }
                } else {
                    sources.push(s);
                    let mut g: Vec<String> = Vec::new();
                    g.push(name);
                    names.push(g);
                    proof {
                        lemma_strs_push(ks, s);
                        assert(strs(g@) =~= seq![name@]);
                        assert(strss(names@) =~= strss(vs).push(seq![name@]));
                    }
                }
            },
            None => {
                plain.push(name);
                proof {
                    lemma_strs_push(ps, name);
                }
            },
        }
    }
    proof {
        assert(all.take(args@.len() as int) =~= all);
    }
    Grouped { sources, names, plain }
}

/// A package argument that is a URL.
pub open spec fn is_url(p: Seq<char>) -> bool {
    starts_with(p, "http://"@) || starts_with(p, "https://"@)
}

/// Split package arguments into URLs and the others, keeping their order.
pub fn split_urls(args: Vec<String>) -> (r: (Vec<String>, Vec<String>))
    ensures
        strs(r.0@) == args@.map_values(|a: String| a@).filter(|p: Seq<char>| is_url(p)),
        strs(r.1@) == args@.map_values(|a: String| a@).filter(|p: Seq<char>| !is_url(p)),
{
    let mut urls: Vec<String> = Vec::new();
    let mut others: Vec<String> = Vec::new();
    let ghost all = args@.map_values(|a: String| a@);
    for i in 0..args.len()
        invariant
            all == args@.map_values(|a: String| a@),
            strs(urls@) == all.take(i as int).filter(|p: Seq<char>| is_url(p)),
            strs(others@) == all.take(i as int).filter(|p: Seq<char>| !is_url(p)),
    {
        proof {
            assert(all.take(i + 1).drop_last() =~= all.take(i as int));
            reveal(Seq::filter);
        }
        let a = args[i].clone();
        let cs = chars_of(a.as_str());
        let ghost pu = urls@;
        let ghost po = others@;
        if starts_with_exec(cs.as_slice(), chars_of("http://").as_slice()) || starts_with_exec(
            cs.as_slice(),
            chars_of("https://").as_slice(),
        ) {
            urls.push(a);
            proof {
                lemma_strs_push(pu, a);
            }
        } else {
            others.push(a);
            proof {
                lemma_strs_push(po, a);
            }
        }
    }
    proof {
        assert(all.take(args@.len() as int) =~= all);
    }
    (urls, others)
}

/// The position of the first manager named `name`.
pub fn position_of(managers: &[Manager], name: &str) -> (r: Option<usize>)
    ensures
        match r {
            Some(i) => position_from(names_of(managers@), name@, 0) == Some(i as int),
            None => position_from(names_of(managers@), name@, 0) is None,
        },
{
    let names = manager_names(managers);
    let ghost ns = crate::text::views(names@);
    let n = names.len();
    let mut i: usize = 0;
    while i < n
        invariant
            i <= n,
            n == names@.len(),
            ns == crate::text::views(names@),
            ns == names_of(managers@),
            position_from(ns, name@, 0) == position_from(ns, name@, i as int),
        decreases n - i,
    {
        assert(ns[i as int] == names@[i as int]@);
        if eq_str(names[i].as_slice(), name) {
            return Some(i);
        }
        i = i + 1;
    }
    None
}

/// The manager that updates everything: the requested one, else `topgrade`
/// when it is there, else the primary manager.
pub open spec fn update_manager(names: Seq<Seq<char>>, requested: Option<Seq<char>>) -> Result<
    int,
    Seq<char>,
> {
    match requested {
        Some(r) => primary_manager(names, Some(r)),
        None => match position_from(names, "topgrade"@, 0) {
            Some(i) => Ok(i),
            None => primary_manager(names, None),
        },
    }
}

/// Choose the manager that updates everything (see [`update_manager`]).
pub fn update_target(managers: &[Manager], requested: Option<&str>) -> (r: Result<usize, String>)
    ensures
        result_view(r) == update_manager(names_of(managers@), opt_str(requested)),
{
    match requested {
        Some(q) => choose_primary_manager(managers, Some(q)),
        None => match position_of(managers, "topgrade") {
            Some(i) => Ok(i),
            None => choose_primary_manager(managers, None),
        },
    }
}

/// Where packages given as URLs are installed.
#[derive(Debug)]
pub enum UrlInstall {
    /// By the manager at this position.
    Via(usize),
    /// Not at all: another manager than `soar` was requested.
    WrongManager,
    /// Not at all: `soar` is not there.
    NoSoar,
    /// Not at all: the requested `soar` is not available, with this message.
    Failed(String),
}

/// Where packages given as URLs are installed: by `soar`, the requested
/// manager when one is requested, else the first manager of that name.
pub open spec fn url_install_ok(names: Seq<Seq<char>>, requested: Option<Seq<char>>, r: UrlInstall) -> bool {
    match requested {
        Some(q) => if q == "soar"@ {
            match primary_manager(names, Some("soar"@)) {
                Ok(i) => r == UrlInstall::Via(i as usize),
                Err(e) => r matches UrlInstall::Failed(m) && m@ == e,
            }
        } else {
            r is WrongManager
        },
        None => match position_from(names, "soar"@, 0) {
            Some(i) => r == UrlInstall::Via(i as usize),
            None => r is NoSoar,
        },
    }
}

/// Decide where packages given as URLs are installed (see
/// [`url_install_ok`]).
pub fn url_install_target(managers: &[Manager], requested: Option<&str>) -> (r: UrlInstall)
    ensures
        url_install_ok(names_of(managers@), opt_str(requested), r),
{
    match requested {
        Some(q) => {
            let qc = chars_of(q);
            if eq_str(qc.as_slice(), "soar") {
                match choose_primary_manager(managers, Some("soar")) {
                    Ok(i) => UrlInstall::Via(i),
                    Err(e) => UrlInstall::Failed(e),
                }
            } else {
                UrlInstall::WrongManager
            }
        },
        None => match position_of(managers, "soar") {
            Some(i) => UrlInstall::Via(i),
            None => UrlInstall::NoSoar,
        },
    }
}

proof fn lemma_find_colon(s: Seq<char>, k: int, i: int)
    requires
        0 <= i <= k < s.len(),
        s[k] == ':',
        forall|j: int| i <= j < k ==> s[j] != ':',
    ensures
        find_from(s, seq![':'], i) == Some(k),
    decreases k - i,
{
    if i == k {
        assert(s.subrange(k, k + 1) =~= seq![':']);
    } else {
        assert(s.subrange(i, i + 1)[0] == s[i]);
        lemma_find_colon(s, k, i + 1);
    }
}

proof fn lemma_known_source_has_no_colon(src: Seq<char>)
    requires
        known_sources().contains(src),
    ensures
        forall|j: int| 0 <= j < src.len() ==> src[j] != ':',
{
    reveal_strlit("apt");
    reveal_strlit("pacstall");
    reveal_strlit("flatpak");
    reveal_strlit("snap");
    reveal_strlit("brew");
    reveal_strlit("soar");
    reveal_strlit("npm");
    reveal_strlit("bun");
    reveal_strlit("pip");
    reveal_strlit("cargo");
    reveal_strlit("cargo-binstall");
    reveal_strlit("am");
    let ks = known_sources();
    let k = choose|k: int| 0 <= k < ks.len() && ks[k] == src;
    assert(0 <= k < 12);
}

/// A package argument written `source:name`, with a known source and a
/// non-empty name, is read back as that source and that name.
pub proof fn prefixed_argument_reads_back(src: Seq<char>, name: Seq<char>)
    requires
        known_sources().contains(src),
        name.len() > 0,
    ensures
        source_prefix(src + ":"@ + name) == (Some(src), name),
{
    reveal_strlit(":");
    let s = src + ":"@ + name;
    lemma_known_source_has_no_colon(src);
    assert forall|j: int| 0 <= j < src.len() implies s[j] != ':' by {
        assert(s[j] == src[j]);
    }
    assert(s[src.len() as int] == ':');
    lemma_find_colon(s, src.len() as int, 0);
    assert(s.take(src.len() as int) =~= src);
    assert(s.skip(src.len() as int + 1) =~= name);
}

/// Every source that a `source:` prefix may name is the name of a default
/// manager, whichever binary the AM wrapper runs.
pub proof fn known_sources_name_default_managers(am: Seq<char>)
    ensures
        forall|s: Seq<char>| #[trigger] known_sources().contains(s) ==> exists|i: int| 0 <= i < 13
            && manager_name(default_managers(am)[i]) == s,
{
    let ms = default_managers(am);
    let ks = known_sources();
    assert forall|s: Seq<char>| #[trigger] ks.contains(s) implies exists|i: int| 0 <= i < 13
        && manager_name(ms[i]) == s by {
        let j = choose|j: int| 0 <= j < ks.len() && ks[j] == s;
        let idx: int = if j == 0 { 0 }
            else if j == 1 { 1 }
            else if j == 2 { 2 }
            else if j == 3 { 3 }
            else if j == 4 { 4 }
            else if j == 5 { 5 }
            else if j == 6 { 6 }
            else if j == 7 { 7 }
            else if j == 8 { 8 }
            else if j == 9 { 10 }
            else if j == 10 { 12 }
            else { 11 };
        assert(manager_name(ms[idx]) == s);
    }
}

} // verus!
