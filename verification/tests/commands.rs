use s8n::cli::{
    choose_primary_manager, group_by_source, parse_source_prefix, split_urls, update_target,
    url_install_target, UrlInstall,
};
use s8n::config::{get_theme_from, load_config, theme_file_content};
use s8n::pm::builtin::{get_default_managers, AmWrapper, CargoWrapper, GenericWrapper, Manager, PackageManager};
use s8n::pm::lilith::{first_manifest_source, next_manifest_source, ManifestSource};
use s8n::pm::{captured_result, next_item, pm_result_from_status, ItemStep, PmResult};
use s8n::tui::source_picker::{picker_step, PickerStep};
use s8n::tui::Key;
use s8n::ui::{operation_for, UIOperation};
use s8n::tui::theme::{palette_named, reload, set_theme};

fn strings(v: &[&str]) -> Vec<String> {
    v.iter().map(|s| s.to_string()).collect()
}

fn generic(name: &str, sudo: bool) -> GenericWrapper {
    GenericWrapper {
        name: name.to_string(),
        binary: name.to_string(),
        search_cmd: strings(&["search"]),
        install_cmd: strings(&["install", "-y"]),
        remove_cmd: strings(&["remove"]),
        update_cmd: strings(&["upgrade"]),
        list_cmd: vec![],
        needs_sudo: sudo,
    }
}

fn managers(names: &[&str]) -> Vec<Manager> {
    names.iter().map(|n| Manager::Generic(generic(n, false))).collect()
}

#[test]
fn default_managers_in_order() {
    let ms = get_default_managers();
    let names: Vec<&str> = ms.iter().map(|m| m.name()).collect();
    assert_eq!(
        names,
        vec![
            "apt", "pacstall", "flatpak", "snap", "brew", "soar", "npm", "bun", "pip", "topgrade",
            "cargo", "am", "cargo-binstall"
        ]
    );
}

#[test]
fn generic_commands_use_sudo_when_needed() {
    let g = generic("apt", true);
    let pkgs = strings(&["vim", "git"]);
    assert_eq!(g.install_argv(&pkgs), strings(&["sudo", "apt", "install", "-y", "vim", "git"]));
    assert_eq!(g.remove_argv(&pkgs), strings(&["sudo", "apt", "remove", "vim", "git"]));
    assert_eq!(g.update_argv(), strings(&["sudo", "apt", "upgrade"]));
    assert_eq!(g.search_argv("vim"), strings(&["apt", "search", "vim"]));
    assert_eq!(g.search_captured_argv("vim"), Some(strings(&["apt", "search", "vim"])));
    assert_eq!(g.list_argv(), None);
    let plain = generic("brew", false);
    assert_eq!(plain.update_argv(), strings(&["brew", "upgrade"]));
}

#[test]
fn cargo_and_am_commands() {
    let c = CargoWrapper;
    assert_eq!(c.search_captured_argv("serde"), strings(&["cargo", "search", "serde", "--limit", "10"]));
    assert_eq!(c.install_argv_with(&strings(&["rg"]), true), strings(&["cargo-binstall", "--no-confirm", "rg"]));
    assert_eq!(c.install_argv_with(&strings(&["rg"]), false), strings(&["cargo", "install", "rg"]));
    assert_eq!(c.remove_argv(&strings(&["rg"])), strings(&["cargo", "uninstall", "rg"]));
    assert_eq!(c.list_argv(), strings(&["cargo", "install", "--list"]));
    match c.update_result() {
        PmResult::Error(m) => assert_eq!(m, "Use 'cargo install --force <pkg>' to update crates."),
        other => panic!("unexpected {:?}", other),
    }
    let a = AmWrapper::with_am_found(false);
    assert_eq!(a.binary(), "appman");
    assert_eq!(a.install_argv(&strings(&["x"])), strings(&["appman", "-i", "x"]));
    assert_eq!(a.update_argv(), strings(&["appman", "-u", "all"]));
    let b = AmWrapper::with_am_found(true);
    assert_eq!(b.search_argv("q"), strings(&["am", "-q", "q"]));
}

#[test]
fn source_prefix_only_for_known_managers() {
    assert_eq!(parse_source_prefix("apt:firefox"), (Some("apt".to_string()), "firefox".to_string()));
    assert_eq!(parse_source_prefix("foo:bar"), (None, "foo:bar".to_string()));
    assert_eq!(parse_source_prefix("apt:"), (None, "apt:".to_string()));
    assert_eq!(parse_source_prefix("vim"), (None, "vim".to_string()));
}

#[test]
fn primary_manager_prefers_apt_pacstall_brew() {
    let ms = managers(&["snap", "brew", "apt"]);
    assert_eq!(choose_primary_manager(&ms, None), Ok(1));
    assert_eq!(choose_primary_manager(&ms, Some("apt")), Ok(2));
    assert_eq!(
        choose_primary_manager(&ms, Some("npm")),
        Err("Package manager 'npm' not available. Available: snap, brew, apt".to_string())
    );
    let none: Vec<Manager> = vec![];
    assert_eq!(
        choose_primary_manager(&none, None),
        Err("No package managers found on this system".to_string())
    );
    let other = managers(&["snap", "npm"]);
    assert_eq!(choose_primary_manager(&other, None), Ok(0));
}

#[test]
fn grouping_by_source_keeps_first_order() {
    let g = group_by_source(&strings(&["apt:vim", "flatpak:gimp", "neovim", "apt:git"]));
    assert_eq!(g.sources, strings(&["apt", "flatpak"]));
    assert_eq!(g.names, vec![strings(&["vim", "git"]), strings(&["gimp"])]);
    assert_eq!(g.plain, strings(&["neovim"]));
}

#[test]
fn urls_split_from_names() {
    let (urls, names) = split_urls(strings(&["https://x/a.tar.gz", "vim", "http://y"]));
    assert_eq!(urls, strings(&["https://x/a.tar.gz", "http://y"]));
    assert_eq!(names, strings(&["vim"]));
}

#[test]
fn update_prefers_topgrade() {
    let ms = managers(&["apt", "topgrade"]);
    assert_eq!(update_target(&ms, None), Ok(1));
    assert_eq!(update_target(&ms, Some("apt")), Ok(0));
    let no_top = managers(&["snap", "brew"]);
    assert_eq!(update_target(&no_top, None), Ok(1));
}

#[test]
fn url_installs_need_soar() {
    let ms = managers(&["apt", "soar"]);
    assert!(matches!(url_install_target(&ms, None), UrlInstall::Via(1)));
    assert!(matches!(url_install_target(&ms, Some("soar")), UrlInstall::Via(1)));
    assert!(matches!(url_install_target(&ms, Some("apt")), UrlInstall::WrongManager));
    let no_soar = managers(&["apt"]);
    assert!(matches!(url_install_target(&no_soar, None), UrlInstall::NoSoar));
    match url_install_target(&no_soar, Some("soar")) {
        UrlInstall::Failed(m) => assert_eq!(m, "Package manager 'soar' not available. Available: apt"),
        other => panic!("unexpected {:?}", other),
    }
}

#[test]
fn command_outcomes() {
    assert!(matches!(pm_result_from_status(true, Some(0), "x".to_string()), PmResult::Success));
    match pm_result_from_status(false, None, "boom".to_string()) {
        PmResult::CommandFailed(c, m) => {
            assert_eq!(c, -1);
            assert_eq!(m, "boom");
        }
        other => panic!("unexpected {:?}", other),
    }
    assert_eq!(captured_result(true, Some(0), "out".into(), "err".into()), Ok("out".to_string()));
    assert_eq!(
        captured_result(false, Some(2), "out".into(), "bad".into()),
        Err("Exit 2: bad".to_string())
    );
    assert_eq!(
        captured_result(false, None, "".into(), "sig".into()),
        Err("Exit -1: sig".to_string())
    );
}

#[test]
fn theme_file_round_trip() {
    for name in ["Fire", "Sunset", "Ocean", "Forest", "Purple Dream"] {
        let content = theme_file_content(name);
        assert_eq!(content, format!("theme = \"{}\"\n", name));
        assert_eq!(get_theme_from(Some(content.as_str())), name);
    }
    assert_eq!(get_theme_from(None), "Fire");
    assert_eq!(get_theme_from(Some("other = 1\n")), "Fire");
    assert_eq!(get_theme_from(Some("x\ntheme = \"Ocean\"  \r\n")), "Ocean");
    assert_eq!(load_config().unwrap().package_managers.len(), 0);
}

#[test]
fn palettes_by_name() {
    let fire = palette_named("Fire");
    assert_eq!((fire.bg.r, fire.bg.g, fire.bg.b), (25, 15, 15));
    let ocean = palette_named("Ocean");
    assert_ne!((ocean.bg.r, ocean.bg.g, ocean.bg.b), (25, 15, 15));
    let unknown = palette_named("Nope");
    assert_eq!((unknown.bg.r, unknown.bg.g, unknown.bg.b), (25, 15, 15));
    let mut p = palette_named("Fire");
    set_theme(&mut p, "Ocean");
    assert_eq!((p.bg.r, p.bg.g, p.bg.b), (ocean.bg.r, ocean.bg.g, ocean.bg.b));
    reload(&mut p, Some("theme = \"Fire\"\n"));
    assert_eq!((p.bg.r, p.bg.g, p.bg.b), (25, 15, 15));
}

#[test]
fn runs_stop_at_the_first_failure() {
    assert_eq!(next_item(0, 3, true), ItemStep::Next(1));
    assert_eq!(next_item(2, 3, true), ItemStep::AllDone);
    assert_eq!(next_item(1, 3, false), ItemStep::Stop);
    assert_eq!(next_item(0, 1, true), ItemStep::AllDone);
}

#[test]
fn manifest_sources_in_order() {
    assert_eq!(first_manifest_source(true), ManifestSource::FreshCache);
    assert_eq!(first_manifest_source(false), ManifestSource::Download);
    assert_eq!(next_manifest_source(ManifestSource::FreshCache), Some(ManifestSource::Download));
    assert_eq!(next_manifest_source(ManifestSource::Download), Some(ManifestSource::StaleCache));
    assert_eq!(next_manifest_source(ManifestSource::StaleCache), None);
}

#[test]
fn actions_name_operations() {
    assert_eq!(operation_for("install"), Some(UIOperation::Install));
    assert_eq!(operation_for("remove"), Some(UIOperation::Remove));
    assert_eq!(operation_for("update"), Some(UIOperation::Update));
    assert_eq!(operation_for("bury"), None);
}

#[test]
fn source_picker_keys() {
    assert_eq!(picker_step(0, 3, Key::Up), PickerStep::Stay(0));
    assert_eq!(picker_step(1, 3, Key::Up), PickerStep::Stay(0));
    assert_eq!(picker_step(1, 3, Key::Down), PickerStep::Stay(2));
    assert_eq!(picker_step(2, 3, Key::Down), PickerStep::Stay(2));
    assert_eq!(picker_step(2, 3, Key::Enter), PickerStep::Pick(2));
    assert_eq!(picker_step(2, 3, Key::Char('q')), PickerStep::Cancel);
    assert_eq!(picker_step(2, 3, Key::Esc), PickerStep::Cancel);
    assert_eq!(picker_step(1, 3, Key::Char('x')), PickerStep::Stay(1));
}
