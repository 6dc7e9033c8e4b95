use s8n::pm::builtin::{
    parse_am_list_output, parse_am_output, parse_apt_list_output, parse_apt_output,
    parse_brew_list_output, parse_brew_output, parse_cargo_list_output, parse_cargo_search_output,
    parse_flatpak_list_output, parse_flatpak_output, parse_generic_output, parse_list_output,
    parse_npm_list_output, parse_npm_output, parse_pacstall_list_output, parse_pacstall_output,
    parse_pip_list_output, parse_pip_output, parse_search_output, parse_snap_list_output,
    parse_snap_output, parse_soar_list_output, parse_soar_output,
};
use s8n::pm::PackageInfo;

fn row(p: &PackageInfo) -> (String, String, String, String, bool) {
    (
        p.name.clone(),
        p.version.clone(),
        p.description.clone(),
        p.source.clone(),
        p.installed,
    )
}

fn r(n: &str, v: &str, d: &str, s: &str, i: bool) -> (String, String, String, String, bool) {
    (n.to_string(), v.to_string(), d.to_string(), s.to_string(), i)
}

#[test]
fn apt_search_reads_entries_with_descriptions() {
    let out = "Sorting... Done\nFull Text Search... Done\nfirefox/jammy 120.0 amd64 [installed]\n  Web browser\nvim/jammy 9.0 amd64\n  Vi IMproved\n";
    let got: Vec<_> = parse_apt_output(out, "apt").iter().map(row).collect();
    assert_eq!(
        got,
        vec![
            r("firefox", "120.0", "Web browser", "apt", true),
            r("vim", "9.0", "Vi IMproved", "apt", false),
        ]
    );
}

#[test]
fn apt_search_reads_the_version_after_the_suite() {
    let got: Vec<_> = parse_apt_output("vim/jammy 2:8.2.3995 amd64 [installed]\n  Vi IMproved\n", "apt")
        .iter()
        .map(row)
        .collect();
    assert_eq!(got, vec![r("vim", "2:8.2.3995", "Vi IMproved", "apt", true)]);
}

#[test]
fn apt_search_entry_without_description_skips_the_next_line() {
    let out = "curl/jammy 7.81 amd64\nwget/jammy 1.21 amd64\n  retriever\n";
    let got: Vec<_> = parse_apt_output(out, "apt").iter().map(row).collect();
    assert_eq!(got, vec![r("curl", "7.81", "", "apt", false)]);
}

#[test]
fn flatpak_search_prefers_application_id() {
    let out = "Firefox\tWeb browser\torg.mozilla.firefox\t120.0\tstable\tflathub\nShort\tonly\n";
    let got: Vec<_> = parse_flatpak_output(out, "flatpak").iter().map(row).collect();
    assert_eq!(got, vec![r("org.mozilla.firefox", "120.0", "Web browser", "flatpak", false)]);
}

#[test]
fn snap_find_skips_header_and_joins_summary() {
    let out = "Name  Version  Publisher  Notes  Summary\nhello  2.10  canonical  -  GNU Hello world\nshort 1 x\n";
    let got: Vec<_> = parse_snap_output(out, "snap").iter().map(row).collect();
    assert_eq!(got, vec![r("hello", "2.10", "GNU Hello world", "snap", false)]);
}

#[test]
fn brew_search_names_one_per_line() {
    let out = "==> Formulae\nwget\n\nwget2\n";
    let got: Vec<_> = parse_brew_output(out, "brew").iter().map(row).collect();
    assert_eq!(
        got,
        vec![
            r("wget", "", "Homebrew formula/cask", "brew", false),
            r("wget2", "", "Homebrew formula/cask", "brew", false),
        ]
    );
}

#[test]
fn npm_search_table_rows() {
    let out = "NAME | DESCRIPTION | AUTHOR | DATE | VERSION | KEYWORDS\nexpress | Fast web framework | =tj | 2024 | 4.18.2 | web\n| continuation\n";
    let got: Vec<_> = parse_npm_output(out, "npm").iter().map(row).collect();
    assert_eq!(got, vec![r("express", "4.18.2", "Fast web framework", "npm", false)]);
}

#[test]
fn pip_search_description_follows_the_separator() {
    let got: Vec<_> = parse_pip_output(
        "requests (2.31.0) - HTTP library\nx (1) -\ny (2) - \nodd) name (3\nü (1) - é\n",
        "pip",
    )
    .iter()
    .map(row)
    .collect();
    assert_eq!(
        got,
        vec![
            r("requests", "2.31.0", "HTTP library", "pip", false),
            r("x", "1", "", "pip", false),
            r("y", "2", "", "pip", false),
            r("odd) name (3", "", "", "pip", false),
            r("ü", "1", "é", "pip", false),
        ]
    );
}

#[test]
fn pip_search_name_version_description() {
    let out = "requests (2.31.0) - Python HTTP\nplainname\n";
    let got: Vec<_> = parse_pip_output(out, "pip").iter().map(row).collect();
    assert_eq!(
        got,
        vec![r("requests", "2.31.0", "Python HTTP", "pip", false), r("plainname", "", "", "pip", false)]
    );
}

#[test]
fn pacstall_search_marks_installed() {
    let out = "[info] header\nneofetch @ 7.1.0\nbat\nfoo @bar\n";
    let got: Vec<_> = parse_pacstall_output(out, "pacstall").iter().map(row).collect();
    assert_eq!(
        got,
        vec![
            r("neofetch", "7.1.0", "", "pacstall", true),
            r("bat", "", "", "pacstall", false),
            r("foo", "bar", "", "pacstall", false),
        ]
    );
}

#[test]
fn soar_search_skips_frames_and_totals() {
    let out = "┌────┐\n│ x │\nripgrep 14.0\nTotal: 3\nfd\n";
    let got: Vec<_> = parse_soar_output(out, "soar").iter().map(row).collect();
    assert_eq!(got, vec![r("ripgrep", "14.0", "", "soar", false), r("fd", "", "", "soar", false)]);
}

#[test]
fn generic_lines_are_installed_names() {
    let got: Vec<_> = parse_generic_output("  one \n\ntwo\n", "x").iter().map(row).collect();
    assert_eq!(got, vec![r("one", "", "", "x", true), r("two", "", "", "x", true)]);
}

#[test]
fn cargo_search_name_version_description() {
    let out = "serde = \"1.0.193\"    # A serialization framework\nserde_json = \"1.0\" # JSON\n# comment\n... and 100 crates more\n";
    let got: Vec<_> = parse_cargo_search_output(out).iter().map(row).collect();
    assert_eq!(
        got,
        vec![
            r("serde", "1.0.193", "A serialization framework", "cargo", false),
            r("serde_json", "1.0", "JSON", "cargo", false),
        ]
    );
}

#[test]
fn cargo_list_reads_headers_only() {
    let out = "ripgrep v14.1.0:\n    rg\nlocal v0.1.0 (/home/u/local):\n    local\n";
    let got: Vec<_> = parse_cargo_list_output(out).iter().map(row).collect();
    assert_eq!(
        got,
        vec![r("ripgrep", "v14.1.0", "", "cargo", true), r("local", "v0.1.0", "", "cargo", true)]
    );
}

#[test]
fn am_search_and_list() {
    let out = "# header\n- item\nfirefox Web browser AppImage\n";
    let s: Vec<_> = parse_am_output(out, "am").iter().map(row).collect();
    assert_eq!(s, vec![r("firefox", "", "Web browser AppImage", "am", false)]);
    let l: Vec<_> = parse_am_list_output("= list\nkdenlive 23.08\n", "am").iter().map(row).collect();
    assert_eq!(l, vec![r("kdenlive", "23.08", "", "am", true)]);
}

#[test]
fn list_parsers_per_manager() {
    let apt: Vec<_> = parse_apt_list_output("Listing...\nvim/jammy,now 2:9.0 amd64 [installed]\n", "apt")
        .iter()
        .map(row)
        .collect();
    assert_eq!(apt, vec![r("vim/jammy,now", "2:9.0", "", "apt", true)]);
    let flat: Vec<_> = parse_flatpak_list_output("Name\tx\nGIMP\torg.gimp.GIMP\tx\t2.10\n", "flatpak")
        .iter()
        .map(row)
        .collect();
    assert_eq!(flat, vec![r("GIMP", "2.10", "", "flatpak", true)]);
    let snap: Vec<_> = parse_snap_list_output("Name Version Rev\ncore 16 100\n", "snap").iter().map(row).collect();
    assert_eq!(snap, vec![r("core", "16", "", "snap", true)]);
    let brew: Vec<_> = parse_brew_list_output("==> Formulae\njq 1.7\n", "brew").iter().map(row).collect();
    assert_eq!(brew, vec![r("jq", "1.7", "", "brew", true)]);
    let pip: Vec<_> = parse_pip_list_output("Package Version\n------- -------\npip 23.0\n", "pip")
        .iter()
        .map(row)
        .collect();
    assert_eq!(pip, vec![r("pip", "23.0", "", "pip", true)]);
    let pac: Vec<_> = parse_pacstall_list_output("[x]\nneofetch 7.1.0\n", "pacstall").iter().map(row).collect();
    assert_eq!(pac, vec![r("neofetch", "7.1.0", "", "pacstall", true)]);
    let soar: Vec<_> = parse_soar_list_output("Installed: 2\nbat 0.24\n", "soar").iter().map(row).collect();
    assert_eq!(soar, vec![r("bat", "0.24", "", "soar", true)]);
}

#[test]
fn npm_list_reads_the_tree_entries() {
    let out = "/usr/lib\n├── corepack@0.20.0\n└── npm@10.2.0\ntypescript@5.3.0\n@scope/pkg@1.0\n";
    let got: Vec<_> = parse_npm_list_output(out, "npm").iter().map(row).collect();
    assert_eq!(
        got,
        vec![
            r("corepack", "0.20.0", "", "npm", true),
            r("npm", "10.2.0", "", "npm", true),
            r("typescript", "5.3.0", "", "npm", true),
        ]
    );
}

#[test]
fn dispatch_by_source_and_drop_nameless() {
    let got: Vec<_> = parse_search_output("brew", "wget\n---\n").iter().map(row).collect();
    assert_eq!(got, vec![r("wget", "", "Homebrew formula/cask", "brew", false)]);
    let unknown: Vec<_> = parse_search_output("other", "pkg\n").iter().map(row).collect();
    assert_eq!(unknown, vec![r("pkg", "", "", "other", true)]);
    let listed: Vec<_> = parse_list_output("cargo", "ripgrep v14.1.0:\n").iter().map(row).collect();
    assert_eq!(listed, vec![r("ripgrep", "v14.1.0", "", "cargo", true)]);
}
