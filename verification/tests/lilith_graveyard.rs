use s8n::graveyard::{entry_from_walk, sort_newest_first, BuriedEntry, GraveyardConfig};
use s8n::pm::builtin::PackageManager;
use s8n::pm::lilith::{
    cache_is_fresh_at, cat_xtra, config_dir_from, find_package, info_with, install_step_exec,
    list_installed_with, local_bin_dir, manifest_fetch_argv, matches_query, needs_release_lookup_exec,
    not_found_result, release_asset_url, release_request_argv, remove_step_with, unlisted_removal_with, ver_latest,
    LilithManifest, LilithPackage, LilithPm, Step,
};
use s8n::pm::PmResult;
use s8n::ui::{action_text_of, done_line, info_text, items_for, outcome_line, progress_text, spinner_frame, UIOperation};

fn lpkg(name: &str, install: &str) -> LilithPackage {
    LilithPackage {
        name: name.to_string(),
        description: format!("{} tool", name),
        version: ver_latest(),
        category: cat_xtra(),
        install: install.to_string(),
        ..Default::default()
    }
}

fn argv(step: Step) -> Vec<String> {
    match step {
        Step::Run(v) => v,
        Step::Fail(m) => panic!("failed: {}", m),
    }
}

fn failure(step: Step) -> String {
    match step {
        Step::Fail(m) => m,
        Step::Run(v) => panic!("ran {:?}", v),
    }
}

fn s(v: &[&str]) -> Vec<String> {
    v.iter().map(|x| x.to_string()).collect()
}

#[test]
fn lilith_paths_and_cache() {
    assert_eq!(config_dir_from(Some("/x"), Some("/home/u")), "/x");
    assert_eq!(config_dir_from(None, Some("/home/u")), "/home/u/.config");
    assert_eq!(config_dir_from(None, None), "/tmp/.config");
    assert_eq!(LilithPm::cache_path("/home/u/.config"), "/home/u/.config/s8n/lilith-cache.toml");
    assert_eq!(local_bin_dir("/home/u"), "/home/u/.local/bin");
    assert!(cache_is_fresh_at(true, 1000, 1000 + 3599));
    assert!(!cache_is_fresh_at(true, 1000, 1000 + 3600));
    assert!(!cache_is_fresh_at(false, 1000, 1000));
    assert!(cache_is_fresh_at(true, 5000, 1000));
    assert_eq!(manifest_fetch_argv()[6], "https://blancobam.github.io/lilith-packages/packages.toml");
    assert_eq!(LilithPm::new().name(), "lilith");
}

#[test]
fn install_commands_by_method() {
    let mut p = lpkg("ripgrep", "cargo");
    assert_eq!(argv(install_step_exec(&p, "/h", None)), s(&["cargo", "install", "ripgrep"]));
    p.crate_name = "rg-crate".into();
    assert_eq!(argv(install_step_exec(&p, "/h", None)), s(&["cargo", "install", "rg-crate"]));
    let apt = lpkg("vim", "apt");
    assert_eq!(argv(install_step_exec(&apt, "/h", None)), s(&["sudo", "apt", "install", "-y", "vim"]));
    let fp = lpkg("gimp", "flatpak");
    assert_eq!(argv(install_step_exec(&fp, "/h", None)), s(&["flatpak", "install", "-y", "flathub", "gimp"]));
    let pip = lpkg("black", "pip");
    assert_eq!(argv(install_step_exec(&pip, "/h", None)), s(&["pip3", "install", "black"]));
    let npm = lpkg("tsc", "npm");
    assert_eq!(argv(install_step_exec(&npm, "/h", None)), s(&["npm", "install", "-g", "tsc"]));
}

#[test]
fn install_scripts_and_failures() {
    let mut deb = lpkg("code", "deb");
    assert!(needs_release_lookup_exec(&deb));
    assert_eq!(failure(install_step_exec(&deb, "/h", None)), "No .deb URL for 'code'");
    assert_eq!(
        argv(install_step_exec(&deb, "/h", Some("https://d/code.deb"))),
        s(&["bash", "-c", "TMP=$(mktemp --suffix=.deb) && curl -fsSL -o \"$TMP\" 'https://d/code.deb' && sudo dpkg -i \"$TMP\"; rm -f \"$TMP\""])
    );
    deb.url = "https://u/x.deb".into();
    assert!(!needs_release_lookup_exec(&deb));
    let script = lpkg("tool", "script");
    assert_eq!(failure(install_step_exec(&script, "/h", None)), "No installer URL for 'tool'");
    let mut git = lpkg("my tool/x", "git");
    assert_eq!(failure(install_step_exec(&git, "/h", None)), "No git URL for 'my tool/x'");
    git.github = "owner/repo".into();
    assert_eq!(
        argv(install_step_exec(&git, "/h", None))[2],
        "rm -rf '/tmp/lilith-install-my-tool-x' && git clone --depth 1 'https://github.com/owner/repo.git' '/tmp/lilith-install-my-tool-x' && cd '/tmp/lilith-install-my-tool-x' && bash install.sh; rm -rf '/tmp/lilith-install-my-tool-x'"
    );
    let mut bin = lpkg("fd", "binary");
    bin.url = "https://x/fd".into();
    assert_eq!(
        argv(install_step_exec(&bin, "/h", None))[2],
        "curl -fsSL -o '/h/.local/bin/fd' 'https://x/fd' && chmod +x '/h/.local/bin/fd'"
    );
    let mut tar = lpkg("bat", "tarball");
    tar.url = "https://x/bat.tar.xz".into();
    assert!(argv(install_step_exec(&tar, "/h", None))[2].contains("&& tar -xJf \"$TMP/archive\""));
    let mut app = lpkg("kdenlive", "appimage");
    app.binary = "kden".into();
    assert_eq!(
        argv(install_step_exec(&app, "/h", Some("https://r/k.AppImage")))[2],
        "sudo mkdir -p /opt/lilith && sudo curl -fsSL -o '/opt/lilith/kden.AppImage' 'https://r/k.AppImage' && sudo chmod +x '/opt/lilith/kden.AppImage' && ln -sf '/opt/lilith/kden.AppImage' '/h/.local/bin/kden'"
    );
    let gh = lpkg("zoxide", "github");
    assert_eq!(failure(install_step_exec(&gh, "/h", None)), "No download URL for 'zoxide'");
    let odd = lpkg("x", "snapcraft");
    assert_eq!(failure(install_step_exec(&odd, "/h", None)), "Unknown install method 'snapcraft' for 'x'");
}

#[test]
fn remove_commands_by_method() {
    let cargo = lpkg("ripgrep", "cargo");
    assert_eq!(argv(remove_step_with(&cargo, None)), s(&["cargo", "uninstall", "ripgrep"]));
    let mut deb = lpkg("code", "deb");
    deb.apt_name = "code-bin".into();
    assert_eq!(argv(remove_step_with(&deb, None)), s(&["sudo", "dpkg", "--remove", "code-bin"]));
    let fp = lpkg("gimp", "flatpak");
    assert_eq!(argv(remove_step_with(&fp, None)), s(&["flatpak", "remove", "-y", "gimp"]));
    let gh = lpkg("fd", "github");
    assert_eq!(
        argv(remove_step_with(&gh, Some("/usr/bin/fd")))[2],
        "rm -f '/usr/bin/fd' '/opt/lilith/fd.AppImage' 2>/dev/null; true"
    );
    assert_eq!(failure(remove_step_with(&gh, None)), "Binary 'fd' not found in PATH");
    match not_found_result("zzz") {
        PmResult::CommandFailed(c, m) => {
            assert_eq!(c, -1);
            assert_eq!(m, "Package 'zzz' not found in Lilith repository");
        }
        other => panic!("unexpected {:?}", other),
    }
}

#[test]
fn release_lookup() {
    let mut p = lpkg("fd", "github");
    assert_eq!(release_request_argv(&p), None);
    p.github = "sharkdp/fd".into();
    p.asset = "X86_64-unknown-linux".into();
    let req = release_request_argv(&p).unwrap();
    assert_eq!(req.last().unwrap(), "https://api.github.com/repos/sharkdp/fd/releases/latest");
    let json = "{\n  \"browser_download_url\": \"https://github.com/sharkdp/fd/releases/download/v9/fd-arm.tar.gz\",\n  \"browser_download_url\": \"https://github.com/sharkdp/fd/releases/download/v9/fd-x86_64-unknown-linux-gnu.tar.gz\"\n}";
    assert_eq!(
        release_asset_url(json, &p.asset),
        Some("https://github.com/sharkdp/fd/releases/download/v9/fd-x86_64-unknown-linux-gnu.tar.gz".to_string())
    );
    assert_eq!(release_asset_url(json, "windows"), None);
}

#[test]
fn manifest_lookup_and_matching() {
    let m = LilithManifest { packages: vec![lpkg("alpha", "cargo"), lpkg("Beta", "apt")] };
    assert_eq!(find_package(&m, "Beta"), Some(1));
    assert_eq!(find_package(&m, "beta"), None);
    assert!(matches_query(&m.packages[1], "BET", false));
    assert!(matches_query(&m.packages[0], "TOOL", false));
    assert!(!matches_query(&m.packages[0], "xtra", false));
    assert!(matches_query(&m.packages[0], "XTRA", true));
    let info = info_with(&m.packages[0], true);
    assert_eq!((info.name.as_str(), info.version.as_str(), info.source.as_str(), info.installed), ("alpha", "latest", "lilith", true));
}

fn buried(name: &str, modified: u64, size: u64) -> BuriedEntry {
    BuriedEntry {
        name: name.to_string(),
        graveyard_path: format!("/g/{}", name),
        original_path: format!("/home/u/{}", name),
        size_bytes: size,
        modified,
    }
}

#[test]
fn graveyard_configuration_and_commands() {
    let err = GraveyardConfig::from_found(None, None, None, Some("/home/u")).unwrap_err();
    assert_eq!(err, "rip2 is not installed. Install it with: cargo install rm-improved");
    let g = GraveyardConfig::from_found(None, Some("/usr/bin/rip2".into()), None, Some("/home/u")).unwrap();
    assert_eq!(g.rip_bin, "/usr/bin/rip2");
    assert_eq!(g.s8n_dir, "/home/u/.local/share/graveyard/s8n");
    let x = GraveyardConfig::from_found(Some("/bin/rip".into()), None, Some("/data"), None).unwrap();
    assert_eq!(x.s8n_dir, "/data/graveyard/s8n");
    assert_eq!(x.bury_argv("/home/u/a.txt"), s(&["/bin/rip", "--graveyard", "/data/graveyard/s8n", "/home/u/a.txt"]));
    assert_eq!(x.exhume_argv(None), s(&["/bin/rip", "--graveyard", "/data/graveyard/s8n", "-u"]));
    assert_eq!(x.exhume_argv(Some("a.txt")).len(), 5);
    let f = x.buried_file("/home/u/a.txt");
    assert_eq!(f.graveyard_path, "/data/graveyard/s8n/home/u/a.txt");
    assert_eq!(GraveyardConfig::bury_failure("/x"), "rip failed to bury: /x");
    assert_eq!(GraveyardConfig::recover_failure("x"), "Failed to recover: x");
}

#[test]
fn listing_is_newest_first_and_stable() {
    let list = sort_newest_first(vec![buried("a", 10, 1), buried("b", 30, 1), buried("c", 10, 1), buried("d", 20, 1)]);
    let names: Vec<&str> = list.iter().map(|e| e.name.as_str()).collect();
    assert_eq!(names, vec!["b", "d", "a", "c"]);
    let g = GraveyardConfig { rip_bin: "rip".into(), s8n_dir: "/g".into() };
    let listed = g.list_buried(vec![buried("x", 1, 1), buried("y", 2, 1)]);
    assert_eq!(listed[0].name, "y");
    assert_eq!(g.find_buried(&listed, "x"), Some("/g/x".to_string()));
    assert_eq!(g.find_buried(&listed, "home/u/y"), Some("/g/y".to_string()));
    assert_eq!(g.find_buried(&listed, "zzz"), None);
}

#[test]
fn walked_entries_restore_original_paths() {
    let e = entry_from_walk("/g/s8n", "/g/s8n/home/u/a.txt", 5, 7);
    assert_eq!(e.name, "a.txt");
    assert_eq!(e.original_path, "/home/u/a.txt");
    assert_eq!(e.graveyard_path, "/g/s8n/home/u/a.txt");
    let other = entry_from_walk("/g/s8n", "/elsewhere/b", 0, 0);
    assert_eq!(other.original_path, "/elsewhere/b");
}

#[test]
fn ages_for_display() {
    let e = buried("a", 1_000_000, 1);
    assert_eq!(e.modified_str_at(1_000_030), "30s ago");
    assert_eq!(e.modified_str_at(1_000_000 + 125), "2m ago");
    assert_eq!(e.modified_str_at(1_000_000 + 7300), "2h ago");
    assert_eq!(e.modified_str_at(1_000_000 + 3 * 86400 + 5), "3d ago");
    assert_eq!(e.modified_str_at(10), "0s ago");
    assert_eq!(buried("z", 0, 1).modified_str_at(99), "unknown");
    assert!(e.modified_str().ends_with(" ago"));
}

fn reference_size(s: u64) -> String {
    if s < 1024 {
        format!("{}B", s)
    } else if s < 1024 * 1024 {
        format!("{:.1}K", s as f64 / 1024.0)
    } else if s < 1024 * 1024 * 1024 {
        format!("{:.1}M", s as f64 / (1024.0 * 1024.0))
    } else {
        format!("{:.1}G", s as f64 / (1024.0 * 1024.0 * 1024.0))
    }
}

#[test]
fn sizes_for_display() {
    assert_eq!(buried("a", 1, 512).size_str(), "512B");
    assert_eq!(buried("a", 1, 1536).size_str(), "1.5K");
    assert_eq!(buried("a", 1, 1280).size_str(), "1.2K");
    assert_eq!(buried("a", 1, 1024 * 1024 * 3).size_str(), "3.0M");
    let samples: [u64; 14] = [
        0, 1023, 1024, 1126, 1280, 1331, 10_000, 1_048_575, 1_048_576, 5_000_000,
        1_073_741_823, 1_073_741_824, 123_456_789_012, u64::MAX,
    ];
    for s in samples {
        assert_eq!(buried("a", 1, s).size_str(), reference_size(s), "size {}", s);
    }
    let big: [u64; 4] = [(1u64 << 53) + 1, (1u64 << 60) + 12345, (1u64 << 63) + (1u64 << 10) + 1, u64::MAX - 1024];
    for s in big {
        assert_eq!(buried("a", 1, s).size_str(), reference_size(s), "size {}", s);
    }
}

#[test]
fn inline_progress_texts() {
    assert_eq!(items_for(UIOperation::Update, &vec![]), Some(vec!["System Packages".to_string()]));
    assert_eq!(items_for(UIOperation::Install, &vec![]), None);
    assert_eq!(items_for(UIOperation::Remove, &s(&["a"])), Some(s(&["a"])));
    assert_eq!(action_text_of(UIOperation::Update), "Updating");
    assert_eq!(info_text(spinner_frame(11), UIOperation::Install, "vim"), "⠙ Installing vim ");
    assert_eq!(progress_text(1, 3), " 1/3");
    assert_eq!(outcome_line(true, "vim"), "✓ vim");
    assert_eq!(outcome_line(false, "vim"), "✗ vim");
    assert_eq!(done_line(2), "Done! Processed 2 packages.");
}

#[test]
fn installed_records_follow_what_was_found() {
    let m = LilithManifest { packages: vec![lpkg("alpha", "cargo"), lpkg("beta", "apt"), lpkg("gamma", "apt")] };
    let r = list_installed_with(&m, &vec![true, false, true]);
    assert_eq!(r.len(), 2);
    assert_eq!(r[0].name, "alpha");
    assert_eq!(r[1].name, "gamma");
    assert!(r.iter().all(|p| p.installed && p.source == "lilith"));
    assert!(list_installed_with(&m, &vec![false, false, false]).is_empty());
}

#[test]
fn unlisted_removal_deletes_the_binary_found() {
    match unlisted_removal_with("tool", Some("/usr/local/bin/tool".to_string())) {
        Ok(p) => assert_eq!(p, "/usr/local/bin/tool"),
        other => panic!("unexpected {:?}", other),
    }
    match unlisted_removal_with("tool", None) {
        Err(PmResult::CommandFailed(c, m)) => {
            assert_eq!(c, -1);
            assert_eq!(m, "Package 'tool' not found in Lilith repository");
        }
        other => panic!("unexpected {:?}", other),
    }
}
