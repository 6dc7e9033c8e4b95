//! The Lilith Linux package manager.
//!
//! Its packages are listed in a `packages.toml` manifest, kept in a cache file
//! that is fresh for an hour. Each package names an install method (`cargo`,
//! `apt`, `flatpak`, `npm`, `pip`, `deb`, `script`, `git`, `github`,
//! `binary`, `tarball`, `appimage`), and installing or removing it runs one
//! command, built here from the manifest entry.
use vstd::prelude::*;
use crate::text::{
    chars_of, contains, contains_exec, ends_with, ends_with_exec, find, find_exec, lemma_find_some,
    lines, lines_of, views, append_chars, append_str, dec, text_eq, eq_str,
};
use crate::sys::{string_of, lowercase, to_lowercase, which_path};
use crate::paths::{join_path, join_path_exec};
use crate::pm::{PackageInfo, PackageInfoView, PmResult, pkg_views};
use crate::pm::builtin::{strs, lemma_strs_push, PackageManager};

verus! {

// ── Manifest ─────────────────────────────────────────────────────────────────

/// The address of the package manifest.
pub const MANIFEST_URL: &'static str = "https://blancobam.github.io/lilith-packages/packages.toml";

/// How long the cached manifest stays fresh, in seconds.
pub const CACHE_TTL_SECS: u64 = 3600;

/// The manifest: the packages that the repository offers.
#[derive(Debug, Clone)]
pub struct LilithManifest {
    pub packages: Vec<LilithPackage>,
}

/// A package of the manifest.
#[derive(Debug, Clone, Default)]
pub struct LilithPackage {
    pub name: String,
    pub description: String,
    /// `latest` when the manifest gives none.
    pub version: String,
    /// `xtra` when the manifest gives none.
    pub category: String,
    /// The install method.
    pub install: String,
    pub url: String,
    /// The GitHub repository, `owner/name`.
    pub github: String,
    /// A text that the release asset's name contains.
    pub asset: String,
    /// The installed binary's name, when it is not the package's.
    pub binary: String,
    pub crate_name: String,
    pub npm_name: String,
    pub pip_name: String,
    pub apt_name: String,
    pub flatpak_id: String,
    /// The command that installs a cloned repository.
    pub install_cmd: String,
}

/// The contents of a [`LilithPackage`].
pub struct LilithView {
    pub name: Seq<char>,
    pub description: Seq<char>,
    pub version: Seq<char>,
    pub category: Seq<char>,
    pub install: Seq<char>,
    pub url: Seq<char>,
    pub github: Seq<char>,
    pub asset: Seq<char>,
    pub binary: Seq<char>,
    pub crate_name: Seq<char>,
    pub npm_name: Seq<char>,
    pub pip_name: Seq<char>,
    pub apt_name: Seq<char>,
    pub flatpak_id: Seq<char>,
    pub install_cmd: Seq<char>,
}

impl View for LilithPackage {
    type V = LilithView;

    open spec fn view(&self) -> LilithView {
        LilithView {
            name: self.name@,
            description: self.description@,
            version: self.version@,
            category: self.category@,
            install: self.install@,
            url: self.url@,
            github: self.github@,
            asset: self.asset@,
            binary: self.binary@,
            crate_name: self.crate_name@,
            npm_name: self.npm_name@,
            pip_name: self.pip_name@,
            apt_name: self.apt_name@,
            flatpak_id: self.flatpak_id@,
            install_cmd: self.install_cmd@,
        }
    }
}

/// The contents of the manifest's packages.
pub open spec fn lilith_views(v: Seq<LilithPackage>) -> Seq<LilithView> {
    v.map_values(|p: LilithPackage| p@)
}

/// The version of a package whose manifest entry gives none.
pub fn ver_latest() -> (r: String)
    ensures
        r@ == "latest"@,
{
    "latest".to_owned()
}

/// The category of a package whose manifest entry gives none.
pub fn cat_xtra() -> (r: String)
    ensures
        r@ == "xtra"@,
{
    "xtra".to_owned()
}

/// `field` when it is set, else the package's name.
pub open spec fn or_name(field: Seq<char>, name: Seq<char>) -> Seq<char> {
    if field.len() > 0 {
        field
    } else {
        name
    }
}

fn or_name_exec<'a>(field: &'a str, name: &'a str) -> (r: &'a str)
    ensures
        r@ == or_name(field@, name@),
{
    if !field.is_empty() {
        field
    } else {
        name
    }
}

fn push_str(v: &mut Vec<String>, s: &str)
    ensures
        strs(final(v)@) == strs(old(v)@).push(s@),
{
    let x = s.to_owned();
    let ghost before = v@;
    v.push(x);
    proof {
        lemma_strs_push(before, x);
    }
}

// ── Paths and the cache ──────────────────────────────────────────────────────

/// The configuration directory: `$XDG_CONFIG_HOME` when it is set, else
/// `.config` in the home directory (`/tmp` when there is none).
pub open spec fn config_dir(xdg: Option<Seq<char>>, home: Option<Seq<char>>) -> Seq<char> {
    match xdg {
        Some(x) => x,
        None => join_path(
            match home {
                Some(h) => h,
                None => "/tmp"@,
            },
            ".config"@,
        ),
    }
}

/// The configuration directory (see [`config_dir`]).
pub fn config_dir_from(xdg: Option<&str>, home: Option<&str>) -> (r: String)
    ensures
        r@ == config_dir(
            match xdg {
                Some(x) => Some(x@),
                None => None,
            },
            match home {
                Some(h) => Some(h@),
                None => None,
            },
        ),
{
    match xdg {
        Some(x) => x.to_owned(),
        None => {
            let h = match home {
                Some(h) => h,
                None => "/tmp",
            };
            join_path_exec(h, ".config")
        },
    }
}

/// The home directory, `/tmp` when there is none.
pub fn home_dir_from(home: Option<&str>) -> (r: String)
    ensures
        r@ == (match home {
            Some(h) => h@,
            None => "/tmp"@,
        }),
{
    match home {
        Some(h) => h.to_owned(),
        None => "/tmp".to_owned(),
    }
}

/// The cached manifest's path inside the configuration directory.
pub open spec fn cache_file(config: Seq<char>) -> Seq<char> {
    join_path(join_path(config, "s8n"@), "lilith-cache.toml"@)
}

/// The cache is fresh when it exists and was written less than an hour
/// before `now` (a modification time after `now` counts as just written).
pub open spec fn fresh_at(exists: bool, mtime: u64, now: u64) -> bool {
    exists && (if now >= mtime { now - mtime } else { 0 }) < CACHE_TTL_SECS
}

/// Where the installed binaries go: `.local/bin` in the home directory.
pub open spec fn local_bin(home: Seq<char>) -> Seq<char> {
    join_path(join_path(home, ".local"@), "bin"@)
}

/// Where the installed binaries go (see [`local_bin`]).
pub fn local_bin_dir(home: &str) -> (r: String)
    ensures
        r@ == local_bin(home@),
{
    let l = join_path_exec(home, ".local");
    join_path_exec(l.as_str(), "bin")
}

/// Whether the cache is fresh at the time `now` (see [`fresh_at`]).
pub fn cache_is_fresh_at(exists: bool, mtime: u64, now: u64) -> (r: bool)
    ensures
        r == fresh_at(exists, mtime, now),
{
    exists && now.saturating_sub(mtime) < CACHE_TTL_SECS
}

/// The command that fetches the manifest.
pub fn manifest_fetch_argv() -> (r: Vec<String>)
    ensures
        strs(r@) == seq![
            "curl"@,
            "-fsSL"@,
            "--max-time"@,
            "20"@,
            "--user-agent"@,
            "s8n-package-manager/0.4"@,
            MANIFEST_URL@,
        ],
{
    let mut v: Vec<String> = Vec::new();
    push_str(&mut v, "curl");
    push_str(&mut v, "-fsSL");
    push_str(&mut v, "--max-time");
    push_str(&mut v, "20");
    push_str(&mut v, "--user-agent");
    push_str(&mut v, "s8n-package-manager/0.4");
    push_str(&mut v, MANIFEST_URL);
    v
}

// ── The package manager ──────────────────────────────────────────────────────

/// The Lilith package manager; it holds no state.
#[derive(Debug, Clone, Copy)]
pub struct LilithPm;

impl LilithPm {
    /// The manager.
    pub fn new() -> (r: LilithPm) {
        LilithPm
    }

    /// The cached manifest's path for the configuration directory `config`
    /// (see [`config_dir_from`]).
    pub fn cache_path(config: &str) -> (r: String)
        ensures
            r@ == cache_file(config@),
    {
        let d = join_path_exec(config, "s8n");
        join_path_exec(d.as_str(), "lilith-cache.toml")
    }

    /// Whether the cache is fresh now: it exists and was modified at `mtime`
    /// (seconds since the epoch, 0 when unknown) less than an hour ago. The
    /// answer rests on the clock.
    pub fn cache_is_fresh(exists: bool, mtime: u64) -> (r: bool)
        ensures
            r ==> exists,
            exists|now: u64| r == fresh_at(exists, mtime, now),
    {
        let now = crate::sys::now_unix_secs();
        cache_is_fresh_at(exists, mtime, now)
    }
}

impl PackageManager for LilithPm {
    fn name(&self) -> (n: &str)
        ensures
            n@ == "lilith"@,
    {
        "lilith"
    }

    /// Always available: the manifest is fetched with `curl`.
    fn is_available(&self) -> (b: bool)
        ensures
            b,
    {
        true
    }
}

// ── Search ───────────────────────────────────────────────────────────────────

/// The package matches the query: its name or description, or its category
/// when asked, contains the query, all compared in lower case.
pub open spec fn query_hit(p: LilithView, q: Seq<char>, with_category: bool) -> bool {
    let lq = lowercase(q);
    contains(lowercase(p.name), lq) || contains(lowercase(p.description), lq) || (with_category
        && contains(lowercase(p.category), lq))
}

/// The packages that match the query, in manifest order.
pub open spec fn hits(ps: Seq<LilithView>, q: Seq<char>, with_category: bool) -> Seq<LilithView>
    decreases ps.len(),
{
    if ps.len() == 0 {
        Seq::empty()
    } else {
        let prev = hits(ps.drop_last(), q, with_category);
        if query_hit(ps.last(), q, with_category) {
            prev.push(ps.last())
        } else {
            prev
        }
    }
}

/// Whether the package matches the query (see [`query_hit`]).
pub fn matches_query(p: &LilithPackage, q: &str, with_category: bool) -> (r: bool)
    ensures
        r == query_hit(p@, q@, with_category),
{
    let lq = to_lowercase(q);
    let lqc = chars_of(lq.as_str());
    let n = to_lowercase(p.name.as_str());
    if contains_exec(chars_of(n.as_str()).as_slice(), lqc.as_slice()) {
        return true;
    }
    let d = to_lowercase(p.description.as_str());
    if contains_exec(chars_of(d.as_str()).as_slice(), lqc.as_slice()) {
        return true;
    }
    if with_category {
        let c = to_lowercase(p.category.as_str());
        contains_exec(chars_of(c.as_str()).as_slice(), lqc.as_slice())
    } else {
        false
    }
}

/// The binary that shows whether a package is installed.
pub open spec fn binary_of(p: LilithView) -> Seq<char> {
    or_name(p.binary, p.name)
}

/// The package record of a manifest entry, from source `lilith`, installed
/// as `installed` says.
pub open spec fn info_of(p: LilithView, installed: bool) -> PackageInfoView {
    PackageInfoView {
        name: p.name,
        version: p.version,
        description: p.description,
        source: "lilith"@,
        installed: installed,
    }
}

/// The package record of a manifest entry, installed as `installed` says.
pub fn info_with(pkg: &LilithPackage, installed: bool) -> (r: PackageInfo)
    ensures
        r@ == info_of(pkg@, installed),
{
    PackageInfo {
        name: pkg.name.clone(),
        version: pkg.version.clone(),
        description: pkg.description.clone(),
        source: "lilith".to_owned(),
        installed,
    }
}

/// The package record of a manifest entry; it is installed when its binary
/// is found on the `PATH`, which rests on the machine.
pub fn to_info(pkg: &LilithPackage) -> (r: PackageInfo)
    ensures
        r@ == info_of(pkg@, r.installed),
{
    let bin = or_name_exec(pkg.binary.as_str(), pkg.name.as_str());
    let installed = which_path(bin).is_some();
    info_with(pkg, installed)
}

/// The records of the packages that match the query, name, description or
/// category; whether each is installed rests on the machine.
pub fn search_captured_in(manifest: &LilithManifest, query: &str) -> (r: Vec<PackageInfo>)
    ensures
        r@.len() == hits(lilith_views(manifest.packages@), query@, true).len(),
        forall|i: int|
            0 <= i < r@.len() ==> (#[trigger] r@[i])@ == info_of(
                hits(lilith_views(manifest.packages@), query@, true)[i],
                r@[i].installed,
            ),
{
    let ghost pv = lilith_views(manifest.packages@);
    let mut r: Vec<PackageInfo> = Vec::new();
    let mut k: usize = 0;
    while k < manifest.packages.len()
        invariant
            k <= manifest.packages@.len(),
            pv == lilith_views(manifest.packages@),
            r@.len() == hits(pv.take(k as int), query@, true).len(),
            forall|i: int|
                0 <= i < r@.len() ==> (#[trigger] r@[i])@ == info_of(
                    hits(pv.take(k as int), query@, true)[i],
                    r@[i].installed,
                ),
        decreases manifest.packages@.len() - k,
    {
        let p = &manifest.packages[k];
        assert(pv[k as int] == p@);
        assert(pv.take(k + 1).drop_last() =~= pv.take(k as int));
        if matches_query(p, query, true) {
            r.push(to_info(p));
        }
        k = k + 1;
    }
    assert(pv.take(manifest.packages@.len() as int) =~= pv);
    r
}

/// The installed records of the packages `ps` whose binary was found, as
/// `found` says package by package, in their order.
pub open spec fn installed_among(ps: Seq<LilithView>, found: Seq<bool>) -> Seq<PackageInfoView>
    decreases ps.len(),
{
    if ps.len() == 0 {
        Seq::empty()
    } else {
        let prev = installed_among(ps.drop_last(), found.take(ps.len() - 1));
        if found[ps.len() - 1] {
            prev.push(info_of(ps.last(), true))
        } else {
            prev
        }
    }
}

/// The installed records of the manifest's packages whose binary was found,
/// as `found` says package by package (see [`installed_among`]).
pub fn list_installed_with(manifest: &LilithManifest, found: &Vec<bool>) -> (r: Vec<PackageInfo>)
    requires
        found@.len() == manifest.packages@.len(),
    ensures
        pkg_views(r@) == installed_among(lilith_views(manifest.packages@), found@),
{
    let ghost pv = lilith_views(manifest.packages@);
    let mut r: Vec<PackageInfo> = Vec::new();
    let mut k: usize = 0;
    while k < manifest.packages.len()
        invariant
            k <= manifest.packages@.len(),
            found@.len() == manifest.packages@.len(),
            pv == lilith_views(manifest.packages@),
            pkg_views(r@) == installed_among(pv.take(k as int), found@.take(k as int)),
        decreases manifest.packages@.len() - k,
    {
        let p = &manifest.packages[k];
        assert(pv[k as int] == p@);
        assert(pv.take(k + 1).drop_last() =~= pv.take(k as int));
        assert(found@.take(k + 1).take(k as int) =~= found@.take(k as int));
        if found[k] {
            let info = info_with(p, true);
            let ghost before = pkg_views(r@);
            r.push(info);
            assert(pkg_views(r@) =~= before.push(info_of(p@, true)));
        }
        k = k + 1;
    }
    assert(pv.take(manifest.packages@.len() as int) =~= pv);
    assert(found@.take(manifest.packages@.len() as int) =~= found@);
    r
}

/// The records of the packages whose binary is found on the `PATH`, in
/// manifest order: those that `installed_among` keeps for what the lookups
/// found, package by package; what they find rests on the machine.
pub fn list_installed_in(manifest: &LilithManifest) -> (r: Vec<PackageInfo>)
    ensures
        exists|found: Seq<bool>|
            found.len() == manifest.packages@.len() && pkg_views(r@) == installed_among(
                lilith_views(manifest.packages@),
                found,
            ),
{
    let mut found: Vec<bool> = Vec::new();
    let mut k: usize = 0;
    while k < manifest.packages.len()
        invariant
            k <= manifest.packages@.len(),
            found@.len() == k,
        decreases manifest.packages@.len() - k,
    {
        let p = &manifest.packages[k];
        let bin = or_name_exec(p.binary.as_str(), p.name.as_str());
        found.push(which_path(bin).is_some());
        k = k + 1;
    }
    let r = list_installed_with(manifest, &found);
    assert(found@.len() == manifest.packages@.len());
    r
}

/// `s` padded with spaces to `w` characters (`{:w}` for a string).
pub open spec fn pad(s: Seq<char>, w: nat) -> Seq<char> {
    if s.len() < w {
        s + Seq::new((w - s.len()) as nat, |i: int| ' ')
    } else {
        s
    }
}

fn pad_exec(s: &str, w: usize) -> (r: Vec<char>)
    ensures
        r@ == pad(s@, w as nat),
{
    let mut v = chars_of(s);
    let n = v.len();
    if n < w {
        let ghost base = v@;
        let mut k = n;
        while k < w
            invariant
                n <= k <= w,
                n == base.len(),
                v@ == base + Seq::new((k - n) as nat, |i: int| ' '),
            decreases w - k,
        {
            v.push(' ');
            k = k + 1;
            assert(v@ =~= base + Seq::new((k - n) as nat, |i: int| ' '));
        }
    }
    v
}

/// A line of the interactive search's report: the name, version and status
/// in columns of 30, 10 and 8 characters, then the description.
pub open spec fn report_line(p: LilithView, installed: bool) -> Seq<char> {
    "  "@ + pad(p.name, 30) + " "@ + pad(p.version, 10) + " "@ + pad(
        if installed {
            "installed"@
        } else {
            "available"@
        },
        8,
    ) + " "@ + p.description
}

/// `l` is the report line of `p`, installed or not.
pub open spec fn is_report_line(l: Seq<char>, p: LilithView) -> bool {
    l == report_line(p, true) || l == report_line(p, false)
}

/// The interactive search's report for the query: a heading, then one line
/// per package whose name or description matches (see [`report_line`]); a
/// note when none does. Whether each is installed rests on the machine.
pub fn search_report(manifest: &LilithManifest, query: &str) -> (r: Vec<String>)
    ensures
        hits(lilith_views(manifest.packages@), query@, false).len() == 0 ==> strs(r@) == seq![
            "[lilith] No packages matching '"@ + query@ + "'"@,
        ],
        hits(lilith_views(manifest.packages@), query@, false).len() > 0 ==> r@.len() == hits(
            lilith_views(manifest.packages@),
            query@,
            false,
        ).len() + 1 && r@[0]@ == "[lilith] Packages matching '"@ + query@ + "':"@ && forall|i: int|
            1 <= i < r@.len() ==> is_report_line(
                (#[trigger] r@[i])@,
                hits(lilith_views(manifest.packages@), query@, false)[i - 1],
            ),
{
    let ghost pv = lilith_views(manifest.packages@);
    let mut lines: Vec<String> = Vec::new();
    let mut k: usize = 0;
    while k < manifest.packages.len()
        invariant
            k <= manifest.packages@.len(),
            pv == lilith_views(manifest.packages@),
            lines@.len() == hits(pv.take(k as int), query@, false).len(),
            forall|i: int|
                0 <= i < lines@.len() ==> is_report_line(
                    (#[trigger] lines@[i])@,
                    hits(pv.take(k as int), query@, false)[i],
                ),
        decreases manifest.packages@.len() - k,
    {
        let p = &manifest.packages[k];
        assert(pv[k as int] == p@);
        assert(pv.take(k + 1).drop_last() =~= pv.take(k as int));
        if matches_query(p, query, false) {
            let bin = or_name_exec(p.binary.as_str(), p.name.as_str());
            let installed = which_path(bin).is_some();
            let mut l = chars_of("  ");
            append_chars(&mut l, pad_exec(p.name.as_str(), 30).as_slice());
            append_str(&mut l, " ");
            append_chars(&mut l, pad_exec(p.version.as_str(), 10).as_slice());
            append_str(&mut l, " ");
            let status = if installed {
                "installed"
            } else {
                "available"
            };
            append_chars(&mut l, pad_exec(status, 8).as_slice());
            append_str(&mut l, " ");
            append_str(&mut l, p.description.as_str());
            let line = string_of(l.as_slice());
            assert(line@ == report_line(p@, installed));
            lines.push(line);
        }
        k = k + 1;
    }
    assert(pv.take(manifest.packages@.len() as int) =~= pv);
    let mut r: Vec<String> = Vec::new();
    if lines.len() == 0 {
        let mut h = chars_of("[lilith] No packages matching '");
        append_str(&mut h, query);
        append_str(&mut h, "'");
        let hs = string_of(h.as_slice());
        r.push(hs);
        assert(strs(r@) =~= seq![hs@]);
    } else {
        let mut h = chars_of("[lilith] Packages matching '");
        append_str(&mut h, query);
        append_str(&mut h, "':");
        r.push(string_of(h.as_slice()));
        let mut j: usize = 0;
        while j < lines.len()
            invariant
                j <= lines@.len(),
                r@.len() == j + 1,
                r@[0]@ == "[lilith] Packages matching '"@ + query@ + "':"@,
                forall|i: int| 1 <= i < r@.len() ==> (#[trigger] r@[i]) == lines@[i - 1],
            decreases lines@.len() - j,
        {
            r.push(lines[j].clone());
            j = j + 1;
        }
        assert forall|i: int| 1 <= i < r@.len() implies is_report_line(
            (#[trigger] r@[i])@,
            hits(pv, query@, false)[i - 1],
        ) by {
            assert(r@[i] == lines@[i - 1]);
        }
    }
    r
}

/// The index of the first manifest package named `name`.
pub open spec fn package_position(ps: Seq<LilithView>, name: Seq<char>, i: int) -> Option<int>
    decreases ps.len() - i,
{
    if i < 0 || i >= ps.len() {
        None
    } else if ps[i].name == name {
        Some(i)
    } else {
        package_position(ps, name, i + 1)
    }
}

/// The index of the first manifest package named `name` (see
/// [`package_position`]).
pub fn find_package(manifest: &LilithManifest, name: &str) -> (r: Option<usize>)
    ensures
        match r {
            Some(i) => package_position(lilith_views(manifest.packages@), name@, 0) == Some(i as int)
                && i < manifest.packages@.len(),
            None => package_position(lilith_views(manifest.packages@), name@, 0) is None,
        },
{
    let ghost pv = lilith_views(manifest.packages@);
    let nc = chars_of(name);
    let mut k: usize = 0;
    while k < manifest.packages.len()
        invariant
            k <= manifest.packages@.len(),
            pv == lilith_views(manifest.packages@),
            nc@ == name@,
            package_position(pv, name@, 0) == package_position(pv, name@, k as int),
        decreases manifest.packages@.len() - k,
    {
        assert(pv[k as int] == manifest.packages@[k as int]@);
        if text_eq(chars_of(manifest.packages[k].name.as_str()).as_slice(), nc.as_slice()) {
            return Some(k);
        }
        k = k + 1;
    }
    None
}

/// The failure for a package that the manifest does not list.
pub open spec fn not_found(name: Seq<char>) -> Seq<char> {
    "Package '"@ + name + "' not found in Lilith repository"@
}

/// The failure for a package that the manifest does not list.
pub fn not_found_result(name: &str) -> (r: PmResult)
    ensures
        r matches PmResult::CommandFailed(c, m) && c == -1 && m@ == not_found(name@),
{
    let mut m = chars_of("Package '");
    append_str(&mut m, name);
    append_str(&mut m, "' not found in Lilith repository");
    PmResult::CommandFailed(-1, string_of(m.as_slice()))
}

/// The failure when the manifest could not be had.
pub fn manifest_failure() -> (r: PmResult)
    ensures
        r matches PmResult::CommandFailed(c, m) && c == -1 && m@
            == "Failed to fetch Lilith package manifest"@,
{
    PmResult::CommandFailed(-1, "Failed to fetch Lilith package manifest".to_owned())
}

// ── Installing and removing ──────────────────────────────────────────────────

/// What installing or removing a package runs.
#[derive(Debug)]
pub enum Step {
    /// Run this command, its output kept off the screen.
    Run(Vec<String>),
    /// Fail with this message (exit code -1).
    Fail(String),
}

/// The contents of a [`Step`].
pub enum StepView {
    Run(Seq<Seq<char>>),
    Fail(Seq<char>),
}

impl View for Step {
    type V = StepView;

    open spec fn view(&self) -> StepView {
        match self {
            Step::Run(v) => StepView::Run(strs(v@)),
            Step::Fail(m) => StepView::Fail(m@),
        }
    }
}

/// Running a shell script.
pub open spec fn bash(script: Seq<char>) -> StepView {
    StepView::Run(seq!["bash"@, "-c"@, script])
}

/// `text` followed by the quoted name (`text'name'`).
pub open spec fn quoted(text: Seq<char>, name: Seq<char>) -> Seq<char> {
    text + "'"@ + name + "'"@
}

/// The script that downloads and installs a `.deb` package.
pub open spec fn deb_script(url: Seq<char>) -> Seq<char> {
    "TMP=$(mktemp --suffix=.deb) && curl -fsSL -o \"$TMP\" '"@ + url
        + "' && sudo dpkg -i \"$TMP\"; rm -f \"$TMP\""@
}

/// The script that runs an installer script from the web.
pub open spec fn pipe_script(url: Seq<char>) -> Seq<char> {
    "curl -fsSL '"@ + url + "' | sh"@
}

/// The script that clones a repository into `tmp`, runs its install command
/// there, and removes the clone.
pub open spec fn git_script(tmp: Seq<char>, clone_url: Seq<char>, run_cmd: Seq<char>) -> Seq<char> {
    "rm -rf '"@ + tmp + "' && git clone --depth 1 '"@ + clone_url + "' '"@ + tmp + "' && cd '"@ + tmp
        + "' && "@ + run_cmd + "; rm -rf '"@ + tmp + "'"@
}

/// The script that downloads a binary into `dir`.
pub open spec fn binary_script(dir: Seq<char>, bin: Seq<char>, url: Seq<char>) -> Seq<char> {
    "curl -fsSL -o '"@ + dir + "/"@ + bin + "' '"@ + url + "' && chmod +x '"@ + dir + "/"@ + bin
        + "'"@
}

/// The `tar` command that unpacks the archive at `url`: by its extension,
/// `xz`, `bzip2`, or else `gzip`.
pub open spec fn decompressor(url: Seq<char>) -> Seq<char> {
    if ends_with(url, ".tar.xz"@) || ends_with(url, ".txz"@) {
        "tar -xJf"@
    } else if ends_with(url, ".tar.bz2"@) {
        "tar -xjf"@
    } else {
        "tar -xzf"@
    }
}

/// The script that downloads an archive, finds the binary in it (by name,
/// else the first executable that is not a library) and installs it into
/// `dir`.
pub open spec fn tarball_script(dir: Seq<char>, bin: Seq<char>, url: Seq<char>) -> Seq<char> {
    "TMP=$(mktemp -d) && curl -fsSL -o \"$TMP/archive\" '"@ + url + "' && "@ + decompressor(url)
        + " \"$TMP/archive\" -C \"$TMP\" 2>/dev/null; FOUND=$(find \"$TMP\" -type f -name '"@ + bin
        + "' | head -1); if [ -z \"$FOUND\" ]; then FOUND=$(find \"$TMP\" -type f -perm /111 ! -name '*.so' ! -name '*.dylib' | head -1); fi; [ -n \"$FOUND\" ] && install -m755 \"$FOUND\" '"@
        + dir + "/"@ + bin + "'; rm -rf \"$TMP\""@
}

/// Where an AppImage is kept.
pub open spec fn appimage_path(bin: Seq<char>) -> Seq<char> {
    "/opt/lilith/"@ + bin + ".AppImage"@
}

/// The script that downloads an AppImage into `/opt/lilith` and links it
/// from `dir`.
pub open spec fn appimage_script(dir: Seq<char>, bin: Seq<char>, url: Seq<char>) -> Seq<char> {
    let opt = appimage_path(bin);
    "sudo mkdir -p /opt/lilith && sudo curl -fsSL -o '"@ + opt + "' '"@ + url
        + "' && sudo chmod +x '"@ + opt + "' && ln -sf '"@ + opt + "' '"@ + dir + "/"@ + bin + "'"@
}

/// The script that downloads a release asset and installs it into `dir`: as
/// it is when it is an executable, else unpacked and searched like an
/// archive.
pub open spec fn github_script(dir: Seq<char>, bin: Seq<char>, url: Seq<char>) -> Seq<char> {
    "TMP=$(mktemp -d) && curl -fsSL -o \"$TMP/asset\" '"@ + url
        + "'; if file \"$TMP/asset\" 2>/dev/null | grep -q 'ELF'; then install -m755 \"$TMP/asset\" '"@
        + dir + "/"@ + bin + "'; else tar -xf \"$TMP/asset\" -C \"$TMP\" 2>/dev/null; FOUND=$(find \"$TMP\" -type f -name '"@
        + bin + "' | head -1); [ -z \"$FOUND\" ] && FOUND=$(find \"$TMP\" -type f -perm /111 ! -name '*.so' ! -name '*.dylib' | head -1); [ -n \"$FOUND\" ] && install -m755 \"$FOUND\" '"@
        + dir + "/"@ + bin + "'; fi; rm -rf \"$TMP\""@
}

/// Whether the install method downloads a file: `github`, `binary`,
/// `tarball` or `appimage`.
pub open spec fn downloads(m: Seq<char>) -> bool {
    m == "github"@ || m == "binary"@ || m == "tarball"@ || m == "appimage"@
}

/// The script that installs a downloaded file by its method.
pub open spec fn from_url_script(m: Seq<char>, dir: Seq<char>, bin: Seq<char>, url: Seq<char>) -> Seq<
    char,
> {
    if m == "binary"@ {
        binary_script(dir, bin, url)
    } else if m == "tarball"@ {
        tarball_script(dir, bin, url)
    } else if m == "appimage"@ {
        appimage_script(dir, bin, url)
    } else {
        github_script(dir, bin, url)
    }
}

/// The package's download address: its `url`, else the release asset found
/// on GitHub, when one was.
pub open spec fn download_url(p: LilithView, resolved: Option<Seq<char>>) -> Option<Seq<char>> {
    if p.url.len() > 0 {
        Some(p.url)
    } else {
        resolved
    }
}

/// The address to clone: the package's `url`, else its GitHub repository.
pub open spec fn clone_url(p: LilithView) -> Option<Seq<char>> {
    if p.url.len() > 0 {
        Some(p.url)
    } else if p.github.len() > 0 {
        Some("https://github.com/"@ + p.github + ".git"@)
    } else {
        None
    }
}

/// The name with `/` and spaces replaced by `-`.
pub open spec fn safe_name(name: Seq<char>) -> Seq<char> {
    name.map_values(|c: char| if c == '/' || c == ' ' { '-' } else { c })
}

/// Whether installing the package first looks its download up on GitHub:
/// for a method that downloads a file, or `deb`, when it has no `url`.
pub open spec fn needs_release_lookup(p: LilithView) -> bool {
    (downloads(p.install) || p.install == "deb"@) && p.url.len() == 0
}

/// What installing the package runs, with `home` the home directory and
/// `resolved` the release asset that a GitHub lookup found.
///
/// `cargo`, `apt`, `flatpak`, `npm` and `pip` run the tool's install command
/// on the package's name for that tool (its own name when it has none);
/// `deb` downloads and installs the package; `script` runs the installer at
/// `url`; `git` clones and runs the install command (`bash install.sh` when
/// it has none); `github`, `binary`, `tarball` and `appimage` download into
/// `.local/bin` of the home directory. A missing address, or an unknown
/// method, fails with a message.
pub open spec fn install_step(p: LilithView, home: Seq<char>, resolved: Option<Seq<char>>) -> StepView {
    let m = p.install;
    if m == "cargo"@ {
        StepView::Run(seq!["cargo"@, "install"@, or_name(p.crate_name, p.name)])
    } else if m == "apt"@ {
        StepView::Run(seq!["sudo"@, "apt"@, "install"@, "-y"@, or_name(p.apt_name, p.name)])
    } else if m == "flatpak"@ {
        StepView::Run(seq!["flatpak"@, "install"@, "-y"@, "flathub"@, or_name(p.flatpak_id, p.name)])
    } else if m == "npm"@ {
        StepView::Run(seq!["npm"@, "install"@, "-g"@, or_name(p.npm_name, p.name)])
    } else if m == "pip"@ {
        StepView::Run(seq!["pip3"@, "install"@, or_name(p.pip_name, p.name)])
    } else if m == "deb"@ {
        match download_url(p, resolved) {
            Some(u) => bash(deb_script(u)),
            None => StepView::Fail(quoted("No .deb URL for "@, p.name)),
        }
    } else if m == "script"@ {
        if p.url.len() == 0 {
            StepView::Fail(quoted("No installer URL for "@, p.name))
        } else {
            bash(pipe_script(p.url))
        }
    } else if m == "git"@ {
        match clone_url(p) {
            Some(c) => bash(
                git_script(
                    "/tmp/lilith-install-"@ + safe_name(p.name),
                    c,
                    if p.install_cmd.len() == 0 {
                        "bash install.sh"@
                    } else {
                        p.install_cmd
                    },
                ),
            ),
            None => StepView::Fail(quoted("No git URL for "@, p.name)),
        }
    } else if downloads(m) {
        match download_url(p, resolved) {
            Some(u) => bash(from_url_script(m, local_bin(home), binary_of(p), u)),
            None => StepView::Fail(quoted("No download URL for "@, p.name)),
        }
    } else {
        StepView::Fail("Unknown install method '"@ + m + "' for '"@ + p.name + "'"@)
    }
}

/// What removing the package runs, with `found` where its binary was found
/// on the `PATH`.
///
/// `cargo`, `apt`, `flatpak`, `npm` and `pip` run the tool's removal command;
/// `deb` removes the Debian package; any other method deletes the binary and
/// the package's AppImage, and fails when the binary was not found.
pub open spec fn remove_step(p: LilithView, found: Option<Seq<char>>) -> StepView {
    let m = p.install;
    if m == "cargo"@ {
        StepView::Run(seq!["cargo"@, "uninstall"@, or_name(p.crate_name, p.name)])
    } else if m == "apt"@ {
        StepView::Run(seq!["sudo"@, "apt"@, "remove"@, "-y"@, or_name(p.apt_name, p.name)])
    } else if m == "flatpak"@ {
        StepView::Run(seq!["flatpak"@, "remove"@, "-y"@, or_name(p.flatpak_id, p.name)])
    } else if m == "npm"@ {
        StepView::Run(seq!["npm"@, "uninstall"@, "-g"@, or_name(p.npm_name, p.name)])
    } else if m == "pip"@ {
        StepView::Run(seq!["pip3"@, "uninstall"@, "-y"@, or_name(p.pip_name, p.name)])
    } else if m == "deb"@ {
        StepView::Run(seq!["sudo"@, "dpkg"@, "--remove"@, or_name(p.apt_name, p.name)])
    } else {
        match found {
            Some(path) => bash(
                "rm -f '"@ + path + "' '"@ + appimage_path(binary_of(p)) + "' 2>/dev/null; true"@,
            ),
            None => StepView::Fail("Binary '"@ + binary_of(p) + "' not found in PATH"@),
        }
    }
}

fn run3(a: &str, b: &str, c: &str) -> (r: Step)
    ensures
        r@ == StepView::Run(seq![a@, b@, c@]),
{
    let mut v: Vec<String> = Vec::new();
    push_str(&mut v, a);
    push_str(&mut v, b);
    push_str(&mut v, c);
    assert(strs(v@) =~= seq![a@, b@, c@]);
    Step::Run(v)
}

fn run4(a: &str, b: &str, c: &str, d: &str) -> (r: Step)
    ensures
        r@ == StepView::Run(seq![a@, b@, c@, d@]),
{
    let mut v: Vec<String> = Vec::new();
    push_str(&mut v, a);
    push_str(&mut v, b);
    push_str(&mut v, c);
    push_str(&mut v, d);
    assert(strs(v@) =~= seq![a@, b@, c@, d@]);
    Step::Run(v)
}

fn run5(a: &str, b: &str, c: &str, d: &str, e: &str) -> (r: Step)
    ensures
        r@ == StepView::Run(seq![a@, b@, c@, d@, e@]),
{
    let mut v: Vec<String> = Vec::new();
    push_str(&mut v, a);
    push_str(&mut v, b);
    push_str(&mut v, c);
    push_str(&mut v, d);
    push_str(&mut v, e);
    assert(strs(v@) =~= seq![a@, b@, c@, d@, e@]);
    Step::Run(v)
}

fn bash_step(script: Vec<char>) -> (r: Step)
    ensures
        r@ == bash(script@),
{
    run3("bash", "-c", string_of(script.as_slice()).as_str())
}

fn quoted_exec(text: &str, name: &str) -> (r: String)
    ensures
        r@ == quoted(text@, name@),
{
    let mut m = chars_of(text);
    append_str(&mut m, "'");
    append_str(&mut m, name);
    append_str(&mut m, "'");
    string_of(m.as_slice())
}

fn is_method(m: &[char], name: &str) -> (r: bool)
    ensures
        r == (m@ == name@),
{
    eq_str(m, name)
}

/// Whether installing the package downloads a file into `.local/bin` (see
/// [`downloads`]), which the caller creates first.
pub fn downloads_file(pkg: &LilithPackage) -> (r: bool)
    ensures
        r == downloads(pkg@.install),
{
    let m = chars_of(pkg.install.as_str());
    let ms = m.as_slice();
    is_method(ms, "github") || is_method(ms, "binary") || is_method(ms, "tarball") || is_method(
        ms,
        "appimage",
    )
}

/// Whether installing the package first looks its download up on GitHub
/// (see [`needs_release_lookup`]).
pub fn needs_release_lookup_exec(pkg: &LilithPackage) -> (r: bool)
    ensures
        r == needs_release_lookup(pkg@),
{
    let m = chars_of(pkg.install.as_str());
    let ms = m.as_slice();
    (is_method(ms, "github") || is_method(ms, "binary") || is_method(ms, "tarball") || is_method(
        ms,
        "appimage",
    ) || is_method(ms, "deb")) && pkg.url.as_str().is_empty()
}

fn safe_name_exec(name: &str) -> (r: Vec<char>)
    ensures
        r@ == safe_name(name@),
{
    let nc = chars_of(name);
    let mut r: Vec<char> = Vec::new();
    let mut k: usize = 0;
    while k < nc.len()
        invariant
            k <= nc@.len(),
            nc@ == name@,
            r@ == safe_name(name@).take(k as int),
        decreases nc@.len() - k,
    {
        let c = nc[k];
        r.push(
            if c == '/' || c == ' ' {
                '-'
            } else {
                c
            },
        );
        assert(r@ =~= safe_name(name@).take(k + 1));
        k = k + 1;
    }
    assert(safe_name(name@).take(nc@.len() as int) =~= safe_name(name@));
    r
}

fn from_url_script_exec(m: &[char], dir: &str, bin: &str, url: &str) -> (r: Vec<char>)
    ensures
        r@ == from_url_script(m@, dir@, bin@, url@),
{
    if is_method(m, "binary") {
        let mut s = chars_of("curl -fsSL -o '");
        append_str(&mut s, dir);
        append_str(&mut s, "/");
        append_str(&mut s, bin);
        append_str(&mut s, "' '");
        append_str(&mut s, url);
        append_str(&mut s, "' && chmod +x '");
        append_str(&mut s, dir);
        append_str(&mut s, "/");
        append_str(&mut s, bin);
        append_str(&mut s, "'");
        s
    } else if is_method(m, "tarball") {
        let uc = chars_of(url);
        let decomp = if ends_with_exec(uc.as_slice(), chars_of(".tar.xz").as_slice()) || ends_with_exec(
            uc.as_slice(),
            chars_of(".txz").as_slice(),
        ) {
            "tar -xJf"
        } else if ends_with_exec(uc.as_slice(), chars_of(".tar.bz2").as_slice()) {
            "tar -xjf"
        } else {
            "tar -xzf"
        };
        assert(decomp@ == decompressor(url@));
        let mut s = chars_of("TMP=$(mktemp -d) && curl -fsSL -o \"$TMP/archive\" '");
        append_str(&mut s, url);
        append_str(&mut s, "' && ");
        append_str(&mut s, decomp);
        append_str(
            &mut s,
            " \"$TMP/archive\" -C \"$TMP\" 2>/dev/null; FOUND=$(find \"$TMP\" -type f -name '",
        );
        append_str(&mut s, bin);
        append_str(
            &mut s,
            "' | head -1); if [ -z \"$FOUND\" ]; then FOUND=$(find \"$TMP\" -type f -perm /111 ! -name '*.so' ! -name '*.dylib' | head -1); fi; [ -n \"$FOUND\" ] && install -m755 \"$FOUND\" '",
        );
        append_str(&mut s, dir);
        append_str(&mut s, "/");
        append_str(&mut s, bin);
        append_str(&mut s, "'; rm -rf \"$TMP\"");
        s
    } else if is_method(m, "appimage") {
        let mut opt = chars_of("/opt/lilith/");
        append_str(&mut opt, bin);
        append_str(&mut opt, ".AppImage");
        let mut s = chars_of("sudo mkdir -p /opt/lilith && sudo curl -fsSL -o '");
        append_chars(&mut s, opt.as_slice());
        append_str(&mut s, "' '");
        append_str(&mut s, url);
        append_str(&mut s, "' && sudo chmod +x '");
        append_chars(&mut s, opt.as_slice());
        append_str(&mut s, "' && ln -sf '");
        append_chars(&mut s, opt.as_slice());
        append_str(&mut s, "' '");
        append_str(&mut s, dir);
        append_str(&mut s, "/");
        append_str(&mut s, bin);
        append_str(&mut s, "'");
        s
    } else {
        let mut s = chars_of("TMP=$(mktemp -d) && curl -fsSL -o \"$TMP/asset\" '");
        append_str(&mut s, url);
        append_str(
            &mut s,
            "'; if file \"$TMP/asset\" 2>/dev/null | grep -q 'ELF'; then install -m755 \"$TMP/asset\" '",
        );
        append_str(&mut s, dir);
        append_str(&mut s, "/");
        append_str(&mut s, bin);
        append_str(
            &mut s,
            "'; else tar -xf \"$TMP/asset\" -C \"$TMP\" 2>/dev/null; FOUND=$(find \"$TMP\" -type f -name '",
        );
        append_str(&mut s, bin);
        append_str(
            &mut s,
            "' | head -1); [ -z \"$FOUND\" ] && FOUND=$(find \"$TMP\" -type f -perm /111 ! -name '*.so' ! -name '*.dylib' | head -1); [ -n \"$FOUND\" ] && install -m755 \"$FOUND\" '",
        );
        append_str(&mut s, dir);
        append_str(&mut s, "/");
        append_str(&mut s, bin);
        append_str(&mut s, "'; fi; rm -rf \"$TMP\"");
        s
    }
}

/// What installing the package runs (see [`install_step`]).
pub fn install_step_exec(pkg: &LilithPackage, home: &str, resolved: Option<&str>) -> (r: Step)
    ensures
        r@ == install_step(
            pkg@,
            home@,
            match resolved {
                Some(u) => Some(u@),
                None => None,
            },
        ),
{
    let m = chars_of(pkg.install.as_str());
    let ms = m.as_slice();
    let name = pkg.name.as_str();
    let dl: Option<&str> = if !pkg.url.as_str().is_empty() {
        Some(pkg.url.as_str())
    } else {
        resolved
    };
    if is_method(ms, "cargo") {
        run3("cargo", "install", or_name_exec(pkg.crate_name.as_str(), name))
    } else if is_method(ms, "apt") {
        run5("sudo", "apt", "install", "-y", or_name_exec(pkg.apt_name.as_str(), name))
    } else if is_method(ms, "flatpak") {
        run5("flatpak", "install", "-y", "flathub", or_name_exec(pkg.flatpak_id.as_str(), name))
    } else if is_method(ms, "npm") {
        run4("npm", "install", "-g", or_name_exec(pkg.npm_name.as_str(), name))
    } else if is_method(ms, "pip") {
        run3("pip3", "install", or_name_exec(pkg.pip_name.as_str(), name))
    } else if is_method(ms, "deb") {
        match dl {
            Some(u) => {
                let mut s = chars_of("TMP=$(mktemp --suffix=.deb) && curl -fsSL -o \"$TMP\" '");
                append_str(&mut s, u);
                append_str(&mut s, "' && sudo dpkg -i \"$TMP\"; rm -f \"$TMP\"");
                bash_step(s)
            },
            None => Step::Fail(quoted_exec("No .deb URL for ", name)),
        }
    } else if is_method(ms, "script") {
        if pkg.url.as_str().is_empty() {
            Step::Fail(quoted_exec("No installer URL for ", name))
        } else {
            let mut s = chars_of("curl -fsSL '");
            append_str(&mut s, pkg.url.as_str());
            append_str(&mut s, "' | sh");
            bash_step(s)
        }
    } else if is_method(ms, "git") {
        let clone: Option<String> = if !pkg.url.as_str().is_empty() {
            Some(pkg.url.clone())
        } else if !pkg.github.as_str().is_empty() {
            let mut c = chars_of("https://github.com/");
            append_str(&mut c, pkg.github.as_str());
            append_str(&mut c, ".git");
            Some(string_of(c.as_slice()))
        } else {
            None
        };
        match clone {
            Some(c) => {
                let mut tmp = chars_of("/tmp/lilith-install-");
                append_chars(&mut tmp, safe_name_exec(name).as_slice());
                let run_cmd: &str = if pkg.install_cmd.as_str().is_empty() {
                    "bash install.sh"
                } else {
                    pkg.install_cmd.as_str()
                };
                let mut s = chars_of("rm -rf '");
                append_chars(&mut s, tmp.as_slice());
                append_str(&mut s, "' && git clone --depth 1 '");
                append_str(&mut s, c.as_str());
                append_str(&mut s, "' '");
                append_chars(&mut s, tmp.as_slice());
                append_str(&mut s, "' && cd '");
                append_chars(&mut s, tmp.as_slice());
                append_str(&mut s, "' && ");
                append_str(&mut s, run_cmd);
                append_str(&mut s, "; rm -rf '");
                append_chars(&mut s, tmp.as_slice());
                append_str(&mut s, "'");
                bash_step(s)
            },
            None => Step::Fail(quoted_exec("No git URL for ", name)),
        }
    } else if is_method(ms, "github") || is_method(ms, "binary") || is_method(ms, "tarball")
        || is_method(ms, "appimage") {
        match dl {
            Some(u) => {
                let dir = local_bin_dir(home);
                let bin = or_name_exec(pkg.binary.as_str(), name);
                bash_step(from_url_script_exec(ms, dir.as_str(), bin, u))
            },
            None => Step::Fail(quoted_exec("No download URL for ", name)),
        }
    } else {
        let mut msg = chars_of("Unknown install method '");
        append_str(&mut msg, pkg.install.as_str());
        append_str(&mut msg, "' for '");
        append_str(&mut msg, name);
        append_str(&mut msg, "'");
        Step::Fail(string_of(msg.as_slice()))
    }
}

/// What removing the package runs, given where its binary was found (see
/// [`remove_step`]).
pub fn remove_step_with(pkg: &LilithPackage, found: Option<&str>) -> (r: Step)
    ensures
        r@ == remove_step(
            pkg@,
            match found {
                Some(f) => Some(f@),
                None => None,
            },
        ),
{
    let m = chars_of(pkg.install.as_str());
    let ms = m.as_slice();
    let name = pkg.name.as_str();
    if is_method(ms, "cargo") {
        run3("cargo", "uninstall", or_name_exec(pkg.crate_name.as_str(), name))
    } else if is_method(ms, "apt") {
        run5("sudo", "apt", "remove", "-y", or_name_exec(pkg.apt_name.as_str(), name))
    } else if is_method(ms, "flatpak") {
        run4("flatpak", "remove", "-y", or_name_exec(pkg.flatpak_id.as_str(), name))
    } else if is_method(ms, "npm") {
        run4("npm", "uninstall", "-g", or_name_exec(pkg.npm_name.as_str(), name))
    } else if is_method(ms, "pip") {
        run4("pip3", "uninstall", "-y", or_name_exec(pkg.pip_name.as_str(), name))
    } else if is_method(ms, "deb") {
        run4("sudo", "dpkg", "--remove", or_name_exec(pkg.apt_name.as_str(), name))
    } else {
        let bin = or_name_exec(pkg.binary.as_str(), name);
        match found {
            Some(path) => {
                let mut s = chars_of("rm -f '");
                append_str(&mut s, path);
                append_str(&mut s, "' '");
                append_str(&mut s, "/opt/lilith/");
                append_str(&mut s, bin);
                append_str(&mut s, ".AppImage");
                append_str(&mut s, "' 2>/dev/null; true");
                assert(s@ =~= "rm -f '"@ + path@ + "' '"@ + appimage_path(bin@) + "' 2>/dev/null; true"@);
                bash_step(s)
            },
            None => {
                let mut msg = chars_of("Binary '");
                append_str(&mut msg, bin);
                append_str(&mut msg, "' not found in PATH");
                Step::Fail(string_of(msg.as_slice()))
            },
        }
    }
}

/// What removing the package runs; where its binary is found on the `PATH`
/// rests on the machine.
pub fn remove_step_exec(pkg: &LilithPackage) -> (r: Step)
    ensures
        exists|found: Option<Seq<char>>| r@ == remove_step(pkg@, found),
{
    let bin = or_name_exec(pkg.binary.as_str(), pkg.name.as_str());
    match which_path(bin) {
        Some(p) => remove_step_with(pkg, Some(p.as_str())),
        None => remove_step_with(pkg, None),
    }
}

/// The outcome of a step that fails: exit code -1 with its message.
pub fn step_failure(msg: String) -> (r: PmResult)
    ensures
        r matches PmResult::CommandFailed(c, m) && c == -1 && m@ == msg@,
{
    PmResult::CommandFailed(-1, msg)
}

/// For a package that the manifest does not list, the binary that removal
/// deletes: the path `found` for it on the `PATH`, or, when none was found,
/// the failure that the manifest does not list the package.
pub fn unlisted_removal_with(name: &str, found: Option<String>) -> (r: Result<String, PmResult>)
    ensures
        match found {
            Some(p) => r matches Ok(q) && q@ == p@,
            None => r matches Err(e) && (e matches PmResult::CommandFailed(c, m) && c == -1 && m@
                == not_found(name@)),
        },
{
    match found {
        Some(p) => Ok(p),
        None => Err(not_found_result(name)),
    }
}

/// For a package that the manifest does not list, removal still deletes a
/// binary of that name found on the `PATH`: its path, or the failure when
/// there is none (see [`unlisted_removal_with`]). Which it is rests on the
/// machine.
pub fn unlisted_removal(name: &str) -> (r: Result<String, PmResult>)
    ensures
        r matches Err(e) ==> (e matches PmResult::CommandFailed(c, m) && c == -1 && m@ == not_found(
            name@,
        )),
{
    unlisted_removal_with(name, which_path(name))
}

// ── Release lookup ───────────────────────────────────────────────────────────

/// The GitHub API request for the package's latest release; none unless the
/// package names both a repository and an asset.
pub open spec fn release_request(p: LilithView) -> Option<Seq<Seq<char>>> {
    if p.github.len() == 0 || p.asset.len() == 0 {
        None
    } else {
        Some(
            seq![
                "curl"@,
                "-fsSL"@,
                "--max-time"@,
                "15"@,
                "-H"@,
                "Accept: application/vnd.github+json"@,
                "-H"@,
                "X-GitHub-Api-Version: 2022-11-28"@,
                "https://api.github.com/repos/"@ + p.github + "/releases/latest"@,
            ],
        )
    }
}

/// The GitHub API request for the package's latest release (see
/// [`release_request`]).
pub fn release_request_argv(pkg: &LilithPackage) -> (r: Option<Vec<String>>)
    ensures
        match r {
            Some(v) => release_request(pkg@) == Some(strs(v@)),
            None => release_request(pkg@) is None,
        },
{
    if pkg.github.as_str().is_empty() || pkg.asset.as_str().is_empty() {
        return None;
    }
    let mut api = chars_of("https://api.github.com/repos/");
    append_str(&mut api, pkg.github.as_str());
    append_str(&mut api, "/releases/latest");
    let api_s = string_of(api.as_slice());
    let mut v: Vec<String> = Vec::new();
    push_str(&mut v, "curl");
    push_str(&mut v, "-fsSL");
    push_str(&mut v, "--max-time");
    push_str(&mut v, "15");
    push_str(&mut v, "-H");
    push_str(&mut v, "Accept: application/vnd.github+json");
    push_str(&mut v, "-H");
    push_str(&mut v, "X-GitHub-Api-Version: 2022-11-28");
    push_str(&mut v, api_s.as_str());
    Some(v)
}

/// The download link on a line of the release's JSON: when the line, in lower
/// case, names a `browser_download_url` and holds the asset pattern, the
/// text from its first `https://` up to the next `"`.
pub open spec fn asset_link(line: Seq<char>, pattern: Seq<char>) -> Option<Seq<char>> {
    let lower = lowercase(line);
    if contains(lower, "browser_download_url"@) && contains(lower, pattern) {
        match find(line, "https://"@) {
            Some(start) => match find(line.skip(start), "\""@) {
                Some(e) => Some(line.subrange(start, start + e)),
                None => None,
            },
            None => None,
        }
    } else {
        None
    }
}

/// The first download link among the lines from `i` on.
pub open spec fn first_link(ls: Seq<Seq<char>>, pattern: Seq<char>, i: int) -> Option<Seq<char>>
    decreases ls.len() - i,
{
    if i < 0 || i >= ls.len() {
        None
    } else {
        match asset_link(ls[i], pattern) {
            Some(u) => Some(u),
            None => first_link(ls, pattern, i + 1),
        }
    }
}

/// The release asset's download address in the GitHub API's answer `json`:
/// the first link whose line mentions the asset, compared in lower case.
pub open spec fn release_asset(json: Seq<char>, asset: Seq<char>) -> Option<Seq<char>> {
    first_link(lines(json), lowercase(asset), 0)
}

fn asset_link_exec(line: &[char], pattern: &[char]) -> (r: Option<Vec<char>>)
    ensures
        match r {
            Some(u) => asset_link(line@, pattern@) == Some(u@),
            None => asset_link(line@, pattern@) is None,
        },
{
    let ls = string_of(line);
    let lower = to_lowercase(ls.as_str());
    let lc = chars_of(lower.as_str());
    if !(contains_exec(lc.as_slice(), chars_of("browser_download_url").as_slice())
        && contains_exec(lc.as_slice(), pattern)) {
        return None;
    }
    let https = chars_of("https://");
    match find_exec(line, https.as_slice()) {
        Some(start) => {
            proof {
                lemma_find_some(line@, https@);
            }
            let n = line.len();
            let rest = crate::text::slice_copy(line, start, n);
            assert(rest@ =~= line@.skip(start as int));
            let quote = chars_of("\"");
            match find_exec(rest.as_slice(), quote.as_slice()) {
                Some(e) => {
                    proof {
                        lemma_find_some(rest@, quote@);
                    }
                    let u = crate::text::slice_copy(line, start, start + e);
                    Some(u)
                },
                None => None,
            }
        },
        None => None,
    }
}

/// The release asset's download address (see [`release_asset`]).
pub fn release_asset_url(json: &str, asset: &str) -> (r: Option<String>)
    ensures
        match r {
            Some(u) => release_asset(json@, asset@) == Some(u@),
            None => release_asset(json@, asset@) is None,
        },
{
    let pattern = to_lowercase(asset);
    let pc = chars_of(pattern.as_str());
    let jc = chars_of(json);
    let ls = lines_of(jc.as_slice());
    let ghost lv = views(ls@);
    let mut k: usize = 0;
    while k < ls.len()
        invariant
            k <= ls@.len(),
            lv == views(ls@),
            lv == lines(json@),
            pc@ == lowercase(asset@),
            first_link(lv, pc@, 0) == first_link(lv, pc@, k as int),
        decreases ls@.len() - k,
    {
        assert(lv[k as int] == ls@[k as int]@);
        match asset_link_exec(ls[k].as_slice(), pc.as_slice()) {
            Some(u) => {
                return Some(string_of(u.as_slice()));
            },
            None => {},
        }
        k = k + 1;
    }
    None
}


// ── Where the manifest comes from ────────────────────────────────────────────

/// A place to read the manifest from.
#[derive(Debug, Clone, Copy, PartialEq, Eq, Structural)]
pub enum ManifestSource {
    /// The cached file, while it is fresh.
    FreshCache,
    /// A download from the repository, kept in the cache.
    Download,
    /// The cached file, however old.
    StaleCache,
}

/// The first place to read the manifest from: the cache when it is fresh,
/// else a download.
pub open spec fn first_source(cache_fresh: bool) -> ManifestSource {
    if cache_fresh {
        ManifestSource::FreshCache
    } else {
        ManifestSource::Download
    }
}

/// The place to try when `tried` gave no manifest: a download after the fresh
/// cache, the stale cache after a download, and nothing after that.
pub open spec fn next_source(tried: ManifestSource) -> Option<ManifestSource> {
    match tried {
        ManifestSource::FreshCache => Some(ManifestSource::Download),
        ManifestSource::Download => Some(ManifestSource::StaleCache),
        ManifestSource::StaleCache => None,
    }
}

/// The first place to read the manifest from (see [`first_source`]).
pub fn first_manifest_source(cache_fresh: bool) -> (r: ManifestSource)
    ensures
        r == first_source(cache_fresh),
{
    if cache_fresh {
        ManifestSource::FreshCache
    } else {
        ManifestSource::Download
    }
}

/// The place to try after `tried` (see [`next_source`]).
pub fn next_manifest_source(tried: ManifestSource) -> (r: Option<ManifestSource>)
    ensures
        r == next_source(tried),
{
    match tried {
        ManifestSource::FreshCache => Some(ManifestSource::Download),
        ManifestSource::Download => Some(ManifestSource::StaleCache),
        ManifestSource::StaleCache => None,
    }
}

} // verus!
