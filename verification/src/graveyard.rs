//! The graveyard: files buried with `rip` into an `s8n` directory of their
//! own, where they can be listed and exhumed.
//!
//! `rip` buries a file at its absolute path below the graveyard, so
//! `/home/user/notes.txt` lies at `<graveyard>/home/user/notes.txt`.
use vstd::prelude::*;
use crate::text::{chars_of, contains, contains_exec, dec, dec_exec, digit, append_chars, append_str, starts_with_char, starts_with_char_exec, starts_with, starts_with_exec, text_eq};
use crate::sys::{string_of, which_path};
use crate::paths::{join_path, join_path_exec, file_name_of, file_name_exec};
use crate::pm::builtin::{strs, lemma_strs_push};

verus! {

/// A file that was buried.
#[derive(Debug, Clone)]
pub struct BuriedFile {
    /// Its path before burial.
    pub original: String,
    /// Its path in the graveyard.
    pub graveyard_path: String,
}

/// Where `rip` is and where the graveyard is.
#[derive(Debug, Clone)]
pub struct GraveyardConfig {
    /// The `rip` or `rip2` binary.
    pub rip_bin: String,
    /// The `s8n` directory of the graveyard.
    pub s8n_dir: String,
}

/// A file found in the graveyard.
#[derive(Debug, Clone)]
pub struct BuriedEntry {
    pub name: String,
    pub graveyard_path: String,
    pub original_path: String,
    pub size_bytes: u64,
    /// When it was last modified, in seconds since the epoch (0 when unknown).
    pub modified: u64,
}

/// The contents of a [`BuriedEntry`].
pub struct BuriedView {
    pub name: Seq<char>,
    pub graveyard_path: Seq<char>,
    pub original_path: Seq<char>,
    pub size_bytes: int,
    pub modified: int,
}

impl View for BuriedEntry {
    type V = BuriedView;

    open spec fn view(&self) -> BuriedView {
        BuriedView {
            name: self.name@,
            graveyard_path: self.graveyard_path@,
            original_path: self.original_path@,
            size_bytes: self.size_bytes as int,
            modified: self.modified as int,
        }
    }
}

/// The contents of a sequence of entries.
pub open spec fn buried_views(v: Seq<BuriedEntry>) -> Seq<BuriedView> {
    v.map_values(|e: BuriedEntry| e@)
}

impl BuriedEntry {
    /// A field-by-field copy.
    pub fn copy(&self) -> (r: BuriedEntry)
        ensures
            r@ == self@,
    {
        BuriedEntry {
            name: self.name.clone(),
            graveyard_path: self.graveyard_path.clone(),
            original_path: self.original_path.clone(),
            size_bytes: self.size_bytes,
            modified: self.modified,
        }
    }
}

// ── Configuration ────────────────────────────────────────────────────────────

/// The message when neither `rip` nor `rip2` is installed.
pub open spec fn rip_missing() -> Seq<char> {
    "rip2 is not installed. Install it with: cargo install rm-improved"@
}

/// The graveyard's `s8n` directory: `graveyard/s8n` in `$XDG_DATA_HOME` when
/// it is set, else in `.local/share` of the home directory (`/tmp` when there
/// is none).
pub open spec fn s8n_graveyard(xdg_data: Option<Seq<char>>, home: Option<Seq<char>>) -> Seq<char> {
    let base = match xdg_data {
        Some(x) => x,
        None => join_path(
            join_path(
                match home {
                    Some(h) => h,
                    None => "/tmp"@,
                },
                ".local"@,
            ),
            "share"@,
        ),
    };
    join_path(join_path(base, "graveyard"@), "s8n"@)
}

/// An optional string slice as an optional text.
pub open spec fn opt_text(o: Option<&str>) -> Option<Seq<char>> {
    match o {
        Some(s) => Some(s@),
        None => None,
    }
}

impl GraveyardConfig {
    /// The configuration from where `rip` and `rip2` were found: `rip` first,
    /// else `rip2`, else the failure that asks to install it.
    pub fn from_found(
        rip: Option<String>,
        rip2: Option<String>,
        xdg_data: Option<&str>,
        home: Option<&str>,
    ) -> (r: Result<GraveyardConfig, String>)
        ensures
            match r {
                Ok(g) => (match rip {
                    Some(p) => g.rip_bin@ == p@,
                    None => rip2 matches Some(p2) && g.rip_bin@ == p2@,
                }) && g.s8n_dir@ == s8n_graveyard(opt_text(xdg_data), opt_text(home)),
                Err(e) => rip is None && rip2 is None && e@ == rip_missing(),
            },
    {
        let rip_bin = match rip {
            Some(p) => p,
            None => match rip2 {
                Some(p) => p,
                None => {
                    return Err(
                        "rip2 is not installed. Install it with: cargo install rm-improved".to_owned(),
                    );
                },
            },
        };
        let base = match xdg_data {
            Some(x) => x.to_owned(),
            None => {
                let h = match home {
                    Some(h) => h,
                    None => "/tmp",
                };
                let l = join_path_exec(h, ".local");
                join_path_exec(l.as_str(), "share")
            },
        };
        let g = join_path_exec(base.as_str(), "graveyard");
        let s8n_dir = join_path_exec(g.as_str(), "s8n");
        Ok(GraveyardConfig { rip_bin, s8n_dir })
    }

    /// The configuration: `rip` (or `rip2`) looked up on the `PATH`, which
    /// rests on the machine, and the graveyard directory.
    pub fn new(xdg_data: Option<&str>, home: Option<&str>) -> (r: Result<GraveyardConfig, String>)
        ensures
            match r {
                Ok(g) => g.s8n_dir@ == s8n_graveyard(opt_text(xdg_data), opt_text(home)),
                Err(e) => e@ == rip_missing(),
            },
    {
        let rip = which_path("rip");
        let rip2 = if rip.is_some() {
            None
        } else {
            which_path("rip2")
        };
        Self::from_found(rip, rip2, xdg_data, home)
    }

    /// The command that buries `path`.
    pub fn bury_argv(&self, path: &str) -> (r: Vec<String>)
        ensures
            strs(r@) == seq![self.rip_bin@, "--graveyard"@, self.s8n_dir@, path@],
    {
        let mut v: Vec<String> = Vec::new();
        v.push(self.rip_bin.clone());
        v.push("--graveyard".to_owned());
        v.push(self.s8n_dir.clone());
        v.push(path.to_owned());
        assert(strs(v@) =~= seq![self.rip_bin@, "--graveyard"@, self.s8n_dir@, path@]);
        v
    }

    /// The command that exhumes `target`, or that opens `rip`'s interactive
    /// exhumation when there is none.
    pub fn exhume_argv(&self, target: Option<&str>) -> (r: Vec<String>)
        ensures
            strs(r@) == seq![self.rip_bin@, "--graveyard"@, self.s8n_dir@, "-u"@] + match target {
                Some(t) => seq![t@],
                None => Seq::<Seq<char>>::empty(),
            },
    {
        let mut v: Vec<String> = Vec::new();
        v.push(self.rip_bin.clone());
        v.push("--graveyard".to_owned());
        v.push(self.s8n_dir.clone());
        v.push("-u".to_owned());
        match target {
            Some(t) => {
                v.push(t.to_owned());
            },
            None => {},
        }
        assert(strs(v@) =~= seq![self.rip_bin@, "--graveyard"@, self.s8n_dir@, "-u"@] + match target {
            Some(t) => seq![t@],
            None => Seq::<Seq<char>>::empty(),
        });
        v
    }

    /// Where `rip` puts the file at `path`: at its path below the graveyard,
    /// without the leading `/` of an absolute path.
    pub fn buried_file(&self, path: &str) -> (r: BuriedFile)
        ensures
            r.original@ == path@,
            r.graveyard_path@ == join_path(
                self.s8n_dir@,
                if starts_with_char(path@, '/') {
                    path@.skip(1)
                } else {
                    path@
                },
            ),
    {
        let pc = chars_of(path);
        let rel: Vec<char> = if starts_with_char_exec(pc.as_slice(), '/') {
            let v = crate::text::slice_copy(pc.as_slice(), 1, pc.len());
            assert(v@ =~= path@.skip(1));
            v
        } else {
            pc
        };
        let rel_s = string_of(rel.as_slice());
        BuriedFile {
            original: path.to_owned(),
            graveyard_path: join_path_exec(self.s8n_dir.as_str(), rel_s.as_str()),
        }
    }

    /// The failure when `rip` could not bury `path`.
    pub fn bury_failure(path: &str) -> (r: String)
        ensures
            r@ == "rip failed to bury: "@ + path@,
    {
        let mut m = chars_of("rip failed to bury: ");
        append_str(&mut m, path);
        string_of(m.as_slice())
    }

    /// The failure when `rip` could not exhume `target`.
    pub fn recover_failure(target: &str) -> (r: String)
        ensures
            r@ == "Failed to recover: "@ + target@,
    {
        let mut m = chars_of("Failed to recover: ");
        append_str(&mut m, target);
        string_of(m.as_slice())
    }

    /// The buried files, newest first (see [`newest_first`]), given the files
    /// found below the graveyard directory (none when it does not exist).
    pub fn list_buried(&self, found: Vec<BuriedEntry>) -> (r: Vec<BuriedEntry>)
        ensures
            buried_views(r@) == newest_first(buried_views(found@)),
    {
        sort_newest_first(found)
    }

    /// The graveyard path of the first listed file that is named `name` or
    /// whose original path contains `name`.
    pub fn find_buried(&self, listed: &Vec<BuriedEntry>, name: &str) -> (r: Option<String>)
        ensures
            match r {
                Some(p) => first_match(buried_views(listed@), name@, 0) matches Some(i) && p@
                    == buried_views(listed@)[i].graveyard_path,
                None => first_match(buried_views(listed@), name@, 0) is None,
            },
    {
        let ghost lv = buried_views(listed@);
        let nc = chars_of(name);
        let mut k: usize = 0;
        while k < listed.len()
            invariant
                k <= listed@.len(),
                lv == buried_views(listed@),
                nc@ == name@,
                first_match(lv, name@, 0) == first_match(lv, name@, k as int),
            decreases listed@.len() - k,
        {
            let e = &listed[k];
            assert(lv[k as int] == e@);
            if text_eq(chars_of(e.name.as_str()).as_slice(), nc.as_slice()) || contains_exec(
                chars_of(e.original_path.as_str()).as_slice(),
                nc.as_slice(),
            ) {
                return Some(e.graveyard_path.clone());
            }
            k = k + 1;
        }
        None
    }
}

/// The index of the first entry, from `i` on, that is named `name` or whose
/// original path contains it.
pub open spec fn first_match(es: Seq<BuriedView>, name: Seq<char>, i: int) -> Option<int>
    decreases es.len() - i,
{
    if i < 0 || i >= es.len() {
        None
    } else if es[i].name == name || contains(es[i].original_path, name) {
        Some(i)
    } else {
        first_match(es, name, i + 1)
    }
}

// ── Reading the graveyard ────────────────────────────────────────────────────

/// The original path of the file at `path` below the graveyard directory
/// `base`: `/` followed by the part of `path` after `base/`; `path` itself
/// when it does not lie below `base`.
pub open spec fn restored_path(base: Seq<char>, path: Seq<char>) -> Seq<char> {
    if starts_with(path, base + "/"@) {
        "/"@ + path.skip(base.len() as int + 1)
    } else {
        path
    }
}

/// The listing entry of a file found at `path` below `base`: its name, its
/// graveyard path, its original path, its size and modification time.
pub fn entry_from_walk(base: &str, path: &str, size_bytes: u64, modified: u64) -> (r: BuriedEntry)
    ensures
        r.name@ == (match file_name_of(path@) {
            Some(n) => n,
            None => Seq::empty(),
        }),
        r.graveyard_path@ == path@,
        r.original_path@ == restored_path(base@, path@),
        r.size_bytes == size_bytes,
        r.modified == modified,
{
    let name = match file_name_exec(path) {
        Some(n) => n,
        None => String::new(),
    };
    let pc = chars_of(path);
    let mut prefix = chars_of(base);
    append_str(&mut prefix, "/");
    proof {
        reveal_strlit("/");
    }
    let original = if starts_with_exec(pc.as_slice(), prefix.as_slice()) {
        let n = pc.len();
        let bl = chars_of(base).len();
        assert(prefix@.len() == bl + 1);
        let rest = crate::text::slice_copy(pc.as_slice(), bl + 1, n);
        let mut o = chars_of("/");
        append_chars(&mut o, rest.as_slice());
        assert(rest@ =~= path@.skip(bl + 1));
        string_of(o.as_slice())
    } else {
        path.to_owned()
    };
    BuriedEntry {
        name,
        graveyard_path: path.to_owned(),
        original_path: original,
        size_bytes,
        modified,
    }
}

// ── Newest first ─────────────────────────────────────────────────────────────

/// The entries `r`, newest first, with `x` added after every entry that is
/// not older than it.
pub open spec fn place_newest(r: Seq<BuriedView>, x: BuriedView) -> Seq<BuriedView>
    decreases r.len(),
{
    if r.len() == 0 {
        seq![x]
    } else if x.modified > r.last().modified {
        place_newest(r.drop_last(), x).push(r.last())
    } else {
        r.push(x)
    }
}

/// The entries sorted newest first, entries of the same time in their
/// original order (a stable sort).
pub open spec fn newest_first(s: Seq<BuriedView>) -> Seq<BuriedView>
    decreases s.len(),
{
    if s.len() == 0 {
        Seq::empty()
    } else {
        place_newest(newest_first(s.drop_last()), s.last())
    }
}

proof fn lemma_place_newest_at(r: Seq<BuriedView>, x: BuriedView, j: int)
    requires
        0 <= j <= r.len(),
        forall|m: int| j <= m < r.len() ==> x.modified > (#[trigger] r[m]).modified,
        j > 0 ==> x.modified <= r[j - 1].modified,
    ensures
        place_newest(r, x) == r.take(j) + seq![x] + r.skip(j),
    decreases r.len(),
{
    if r.len() == 0 {
        assert(r.take(j) + seq![x] + r.skip(j) =~= seq![x]);
    } else if j == r.len() {
        assert(r.take(j) + seq![x] + r.skip(j) =~= r.push(x));
    } else {
        let d = r.drop_last();
        assert(x.modified > r[r.len() - 1].modified);
        assert forall|m: int| j <= m < d.len() implies x.modified > (#[trigger] d[m]).modified by {
            assert(d[m] == r[m]);
        }
        if j > 0 {
            assert(d[j - 1] == r[j - 1]);
        }
        lemma_place_newest_at(d, x, j);
        assert(d.take(j) + seq![x] + d.skip(j) + seq![r.last()] =~= r.take(j) + seq![x] + r.skip(j));
    }
}

/// The entries sorted newest first (see [`newest_first`]).
pub fn sort_newest_first(entries: Vec<BuriedEntry>) -> (r: Vec<BuriedEntry>)
    ensures
        buried_views(r@) == newest_first(buried_views(entries@)),
{
    let ghost ev = buried_views(entries@);
    let mut r: Vec<BuriedEntry> = Vec::new();
    let mut k: usize = 0;
    while k < entries.len()
        invariant
            k <= entries@.len(),
            ev == buried_views(entries@),
            buried_views(r@) == newest_first(ev.take(k as int)),
        decreases entries@.len() - k,
    {
        let x = entries[k].copy();
        let ghost xv = x@;
        assert(ev[k as int] == xv);
        let ghost rv = buried_views(r@);
        let mut j = r.len();
        while j > 0 && x.modified > r[j - 1].modified
            invariant
                j <= r@.len(),
                rv == buried_views(r@),
                x@ == xv,
                forall|m: int| j <= m < rv.len() ==> xv.modified > (#[trigger] rv[m]).modified,
            decreases j,
        {
            assert(rv[j - 1] == r@[j - 1]@);
            j = j - 1;
        }
        proof {
            if j > 0 {
                assert(rv[j - 1] == r@[j - 1]@);
            }
            lemma_place_newest_at(rv, xv, j as int);
            assert(ev.take(k + 1).drop_last() =~= ev.take(k as int));
        }
        r.insert(j, x);
        assert(buried_views(r@) =~= rv.take(j as int) + seq![xv] + rv.skip(j as int));
        k = k + 1;
    }
    assert(ev.take(entries@.len() as int) =~= ev);
    r
}

proof fn lemma_place_newest_sorted(r: Seq<BuriedView>, x: BuriedView)
    requires
        forall|i: int, j: int| 0 <= i < j < r.len() ==> r[i].modified >= r[j].modified,
    ensures
        ({
            let p = place_newest(r, x);
            &&& p.len() == r.len() + 1
            &&& forall|i: int, j: int| 0 <= i < j < p.len() ==> p[i].modified >= p[j].modified
            &&& forall|m: int| 0 <= m < p.len() ==> (#[trigger] p[m]).modified == x.modified || exists|k: int|
                0 <= k < r.len() && r[k].modified == p[m].modified
        }),
    decreases r.len(),
{
    if r.len() > 0 && x.modified > r.last().modified {
        let d = r.drop_last();
        lemma_place_newest_sorted(d, x);
        let p = place_newest(d, x);
        let last = r.last();
        assert forall|m: int| 0 <= m < p.len() implies (#[trigger] p[m]).modified >= last.modified by {
            if p[m].modified != x.modified {
                let k = choose|k: int| 0 <= k < d.len() && d[k].modified == p[m].modified;
                assert(d[k] == r[k]);
            }
        }
        assert forall|m: int| 0 <= m < p.push(last).len() implies (#[trigger] p.push(last)[m]).modified
            == x.modified || exists|k: int| 0 <= k < r.len() && r[k].modified == p.push(last)[m].modified by {
            if m == p.len() {
                assert(r[r.len() - 1].modified == last.modified);
            } else {
                assert(p.push(last)[m] == p[m]);
                if p[m].modified != x.modified {
                    let k = choose|k: int| 0 <= k < d.len() && d[k].modified == p[m].modified;
                    assert(r[k] == d[k]);
                }
            }
        }
    } else if r.len() > 0 {
        assert forall|m: int| 0 <= m < r.push(x).len() implies (#[trigger] r.push(x)[m]).modified
            == x.modified || exists|k: int| 0 <= k < r.len() && r[k].modified == r.push(x)[m].modified by {
            if m < r.len() {
                assert(r.push(x)[m] == r[m]);
            }
        }
    }
}

/// A listing sorted newest first has no entry newer than one before it.
pub proof fn newest_first_is_sorted(s: Seq<BuriedView>)
    ensures
        newest_first(s).len() == s.len(),
        forall|i: int, j: int|
            0 <= i < j < s.len() ==> (#[trigger] newest_first(s)[i]).modified >= (
            #[trigger] newest_first(s)[j]).modified,
    decreases s.len(),
{
    if s.len() > 0 {
        newest_first_is_sorted(s.drop_last());
        lemma_place_newest_sorted(newest_first(s.drop_last()), s.last());
    }
}

// ── Showing entries ──────────────────────────────────────────────────────────

/// How long ago an entry was modified, at the time `now`: in seconds below a
/// minute, minutes below an hour, hours below a day, else days; `unknown`
/// when the time is not known.
pub open spec fn age_text(modified: u64, now: u64) -> Seq<char> {
    if modified == 0 {
        "unknown"@
    } else {
        let diff: nat = if now >= modified { (now - modified) as nat } else { 0 };
        if diff < 60 {
            dec(diff) + "s ago"@
        } else if diff < 3600 {
            dec(diff / 60) + "m ago"@
        } else if diff < 86400 {
            dec(diff / 3600) + "h ago"@
        } else {
            dec(diff / 86400) + "d ago"@
        }
    }
}

/// The value `n / d` in tenths, rounded to the nearest tenth, a tie to the
/// even tenth (the rounding of `{:.1}`).
pub open spec fn tenths(n: nat, d: nat) -> nat {
    let t = (10 * n) / d;
    let rem = (10 * n) % d;
    if 2 * rem > d || (2 * rem == d && t % 2 == 1) {
        t + 1
    } else {
        t
    }
}

/// A number of tenths with one decimal: `12` is `1.2`.
pub open spec fn one_decimal(t: nat) -> Seq<char> {
    dec(t / 10) + "."@ + seq![digit(t % 10)]
}

/// The power of two by which `s` is divided to fit in 53 bits, from `p` on.
pub open spec fn f64_scale_from(s: nat, p: nat) -> nat
    decreases s + 1 - p,
{
    if p == 0 || p > s || s / p < 0x20_0000_0000_0000 {
        p
    } else {
        proof {
            assert(2 * p <= s) by (nonlinear_arith)
                requires
                    p > 0,
                    s / p >= 0x20_0000_0000_0000,
            ;
        }
        f64_scale_from(s, 2 * p)
    }
}

/// `s` as the nearest double (`s as f64`): its 53 leading bits, rounded to
/// the nearest, a tie to the even one.
pub open spec fn as_double(s: nat) -> nat {
    let p = f64_scale_from(s, 1);
    let q = s / p;
    let r = s % p;
    if p == 1 {
        s
    } else if 2 * r > p || (2 * r == p && q % 2 == 1) {
        (q + 1) * p
    } else {
        q * p
    }
}

/// The size in bytes, in the largest fitting unit: bytes below a kibibyte,
/// else kibibytes, mebibytes or gibibytes with one decimal.
pub open spec fn size_text(s: u64) -> Seq<char> {
    if s < 1024 {
        dec(s as nat) + "B"@
    } else if s < 1024 * 1024 {
        one_decimal(tenths(s as nat, 1024)) + "K"@
    } else if s < 1024 * 1024 * 1024 {
        one_decimal(tenths(s as nat, 1024 * 1024)) + "M"@
    } else {
        one_decimal(tenths(as_double(s as nat), 1024 * 1024 * 1024)) + "G"@
    }
}

fn tenths_exec(n: u128, d: u128) -> (t: u128)
    requires
        d > 0,
        d <= 0x4000_0000,
        n <= 0x4_0000_0000_0000_0000,
    ensures
        t == tenths(n as nat, d as nat),
        t <= (10 * n as int) / (d as int) + 1,
{
    let tn = 10 * n;
    let t = tn / d;
    let rem = tn % d;
    if 2 * rem > d || (2 * rem == d && t % 2 == 1) {
        t + 1
    } else {
        t
    }
}

fn one_decimal_exec(t: u128) -> (r: Vec<char>)
    requires
        t <= 10 * (u64::MAX as int),
    ensures
        r@ == one_decimal(t as nat),
{
    let whole = t / 10;
    assert(whole <= u64::MAX);
    let mut r = dec_exec(whole as u64);
    r.push('.');
    let d = (t % 10) as u64;
    let c = if d == 0 { '0' } else if d == 1 { '1' } else if d == 2 { '2' } else if d == 3 { '3' }
        else if d == 4 { '4' } else if d == 5 { '5' } else if d == 6 { '6' } else if d == 7 { '7' }
        else if d == 8 { '8' } else { '9' };
    r.push(c);
    proof {
        reveal_strlit(".");
    }
    assert(r@ =~= one_decimal(t as nat));
    r
}

fn as_double_exec(s: u64) -> (r: u128)
    ensures
        r == as_double(s as nat),
        r <= 2 * (s as int) + 1,
{
    let sv = s as u128;
    let mut p: u128 = 1;
    while p <= sv && sv / p >= 0x20_0000_0000_0000
        invariant
            p >= 1,
            sv == s as u128,
            p <= sv + 1,
            f64_scale_from(sv as nat, 1) == f64_scale_from(sv as nat, p as nat),
        decreases sv + 1 - p,
    {
        proof {
            assert(2 * p <= sv) by (nonlinear_arith)
                requires
                    p > 0,
                    sv / p >= 0x20_0000_0000_0000,
            ;
        }
        p = 2 * p;
    }
    let q = sv / p;
    let r = sv % p;
    proof {
        assert(q * p + r == sv) by (nonlinear_arith)
            requires
                p >= 1,
                q == sv / p,
                r == sv % p,
        ;
        assert(0 <= r < p) by (nonlinear_arith)
            requires
                p >= 1,
                r == sv % p,
        ;
    }
    if p == 1 {
        sv
    } else if 2 * r > p || (2 * r == p && q % 2 == 1) {
        proof {
            assert((q + 1) * p == q * p + p) by (nonlinear_arith);
        }
        (q + 1) * p
    } else {
        q * p
    }
}

impl BuriedEntry {
    /// How long ago the entry was modified, at the time `now` (see
    /// [`age_text`]).
    pub fn modified_str_at(&self, now: u64) -> (r: String)
        ensures
            r@ == age_text(self.modified, now),
    {
        if self.modified == 0 {
            return "unknown".to_owned();
        }
        let diff = now.saturating_sub(self.modified);
        let (n, unit) = if diff < 60 {
            (diff, "s ago")
        } else if diff < 3600 {
            (diff / 60, "m ago")
        } else if diff < 86400 {
            (diff / 3600, "h ago")
        } else {
            (diff / 86400, "d ago")
        };
        let mut t = dec_exec(n);
        append_str(&mut t, unit);
        string_of(t.as_slice())
    }

    /// How long ago the entry was modified, now; the answer rests on the
    /// clock.
    pub fn modified_str(&self) -> (r: String)
        ensures
            exists|now: u64| r@ == age_text(self.modified, now),
    {
        let now = crate::sys::now_unix_secs();
        self.modified_str_at(now)
    }

    /// The entry's size for display (see [`size_text`]).
    pub fn size_str(&self) -> (r: String)
        ensures
            r@ == size_text(self.size_bytes),
    {
        let s = self.size_bytes;
        if s < 1024 {
            let mut t = dec_exec(s);
            append_str(&mut t, "B");
            return string_of(t.as_slice());
        }
        let (n, d, unit): (u128, u128, &str) = if s < 1024 * 1024 {
            (s as u128, 1024, "K")
        } else if s < 1024 * 1024 * 1024 {
            (s as u128, 1024 * 1024, "M")
        } else {
            (as_double_exec(s), 1024 * 1024 * 1024, "G")
        };
        let t = tenths_exec(n, d);
        proof {
            assert((10 * n as int) / (d as int) <= (10 * n as int) / 1024) by (nonlinear_arith)
                requires
                    d >= 1024,
                    n >= 0,
            ;
        }
        let mut r = one_decimal_exec(t);
        append_str(&mut r, unit);
        string_of(r.as_slice())
    }
}

} // verus!
