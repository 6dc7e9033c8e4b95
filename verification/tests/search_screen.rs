use s8n::pm::PackageInfo;
use s8n::tui::search::{
    install_manager_index, is_searchable, merge_groups, row_texts, search_terms_of, Action, App, Mode,
    SourceResults,
};
use s8n::tui::tabs::TabMode;
use s8n::tui::Key;

fn pkg(name: &str, source: &str) -> PackageInfo {
    PackageInfo {
        name: name.to_string(),
        version: "1.0".to_string(),
        description: format!("{} package", name),
        source: source.to_string(),
        installed: false,
    }
}

fn group(source: &str, names: &[&str]) -> SourceResults {
    SourceResults {
        source: source.to_string(),
        packages: names.iter().map(|n| pkg(n, source)).collect(),
    }
}

fn typed(app: &mut App, text: &str) {
    for c in text.chars() {
        app.handle_key(Key::Char(c), false);
    }
}

fn browsing(groups: Vec<SourceResults>) -> App {
    let mut app = App::new();
    app.search_finished(groups);
    app
}

#[test]
fn typing_and_editing_the_query() {
    let mut app = App::new();
    typed(&mut app, "vim");
    assert_eq!(app.search_input.iter().collect::<String>(), "vim");
    assert_eq!(app.cursor_pos, 3);
    app.handle_key(Key::Left, false);
    app.handle_key(Key::Backspace, false);
    assert_eq!(app.search_input.iter().collect::<String>(), "vm");
    assert_eq!(app.cursor_pos, 1);
    app.handle_key(Key::Home, false);
    app.handle_key(Key::Delete, false);
    assert_eq!(app.search_input.iter().collect::<String>(), "m");
    app.handle_key(Key::End, false);
    assert_eq!(app.cursor_pos, 1);
    app.handle_key(Key::Right, false);
    assert_eq!(app.cursor_pos, 1);
}

#[test]
fn backspace_after_typing_restores_the_query() {
    let mut app = App::new();
    typed(&mut app, "ab");
    app.handle_key(Key::Left, false);
    app.handle_key(Key::Char('x'), false);
    app.handle_key(Key::Backspace, false);
    assert_eq!(app.search_input.iter().collect::<String>(), "ab");
    assert_eq!(app.cursor_pos, 1);
}

#[test]
fn enter_asks_for_a_search() {
    let mut app = App::new();
    assert!(app.handle_key(Key::Enter, false).is_none());
    typed(&mut app, "fire");
    match app.handle_key(Key::Enter, false) {
        Some(Action::Search(q)) => assert_eq!(q, "fire"),
        other => panic!("unexpected {:?}", other),
    }
    assert_eq!(app.status_message, "Searching for 'fire'...");
}

#[test]
fn results_make_tabs_and_select_the_first_row() {
    let app = browsing(vec![group("apt", &["vim", "git"]), group("snap", &["vim"])]);
    assert_eq!(app.mode, Mode::Browse);
    assert_eq!(app.tab_titles, vec!["All".to_string(), "apt (2)".to_string(), "snap (1)".to_string()]);
    assert_eq!(app.all_results.len(), 3);
    assert_eq!(app.selected, Some(0));
    assert_eq!(app.source_options, vec!["apt".to_string(), "snap".to_string()]);
    assert_eq!(app.status_message, "");
    assert!(app.is_well_formed());
}

#[test]
fn moving_down_and_across_pages() {
    let names: Vec<String> = (0..5).map(|i| format!("p{}", i)).collect();
    let refs: Vec<&str> = names.iter().map(|s| s.as_str()).collect();
    let mut app = browsing(vec![group("apt", &refs)]);
    app.set_page_size(6); // two rows per page
    assert_eq!(app.page_size, 2);
    assert_eq!(app.total_pages(), 3);
    app.handle_key(Key::Down, false);
    assert_eq!((app.page, app.selected), (0, Some(1)));
    app.handle_key(Key::Down, false);
    assert_eq!((app.page, app.selected), (1, Some(0)));
    app.handle_key(Key::Up, false);
    assert_eq!((app.page, app.selected), (0, Some(1)));
    app.handle_key(Key::Right, false);
    assert_eq!((app.page, app.selected), (1, Some(0)));
    app.handle_key(Key::Right, false);
    app.handle_key(Key::Down, false);
    assert_eq!((app.page, app.selected), (2, Some(0)));
    let items = app.page_items();
    assert_eq!(items.len(), 1);
    assert_eq!(items[0].0, 4);
    assert_eq!(items[0].1.name, "p4");
    app.handle_key(Key::Left, false);
    assert_eq!((app.page, app.selected), (1, Some(0)));
    match app.tab_mode() {
        TabMode::Pages { current, total } => assert_eq!((current, total), (1, 3)),
        other => panic!("unexpected {:?}", other),
    }
}

#[test]
fn tabs_cycle_and_back_tab_returns() {
    let mut app = browsing(vec![group("apt", &["a"]), group("snap", &["b", "c"])]);
    app.handle_key(Key::Tab, false);
    assert_eq!(app.active_tab, 1);
    assert_eq!(app.current_len(), 1);
    app.handle_key(Key::Tab, false);
    assert_eq!(app.active_tab, 2);
    app.handle_key(Key::Tab, false);
    assert_eq!(app.active_tab, 0);
    app.handle_key(Key::BackTab, false);
    assert_eq!(app.active_tab, 2);
    app.handle_key(Key::Tab, false);
    assert_eq!(app.active_tab, 0);
    match app.tab_mode() {
        TabMode::Sources { titles, active } => {
            assert_eq!(titles.len(), 3);
            assert_eq!(active, 0);
        }
        other => panic!("unexpected {:?}", other),
    }
}

#[test]
fn install_flow_with_several_sources() {
    let mut app = browsing(vec![group("apt", &["vim"]), group("snap", &["vim"])]);
    match app.tab_mode() {
        TabMode::PackageSources { sources, selected, pkg_name } => {
            assert_eq!(sources, vec!["apt".to_string(), "snap".to_string()]);
            assert_eq!(selected, 0);
            assert_eq!(pkg_name, "vim");
        }
        other => panic!("unexpected {:?}", other),
    }
    app.handle_key(Key::Right, false);
    assert_eq!(app.source_selected, 1);
    app.handle_key(Key::Right, false);
    assert_eq!(app.source_selected, 1);
    app.handle_key(Key::Char('i'), false);
    assert_eq!(app.mode, Mode::Confirm);
    assert_eq!(app.confirm_packages, vec!["vim".to_string()]);
    app.handle_key(Key::Tab, false);
    assert!(!app.confirm_selected_yes);
    app.handle_key(Key::Tab, false);
    match app.handle_key(Key::Enter, false) {
        Some(Action::Install(pkgs, source)) => {
            assert_eq!(pkgs, vec!["vim".to_string()]);
            assert_eq!(source, "snap");
        }
        other => panic!("unexpected {:?}", other),
    }
    assert_eq!(app.mode, Mode::Progress);
    assert_eq!(app.progress_items.len(), 1);
    app.mark_progress(0, true);
    assert_eq!(app.progress_counts(), (1, 1, 0));
}

#[test]
fn remove_flow_and_cancel() {
    let mut app = browsing(vec![group("apt", &["git"])]);
    app.handle_key(Key::Char('d'), false);
    assert_eq!(app.mode, Mode::Confirm);
    app.handle_key(Key::Char('n'), false);
    assert_eq!(app.mode, Mode::Browse);
    app.handle_key(Key::Char('r'), false);
    match app.handle_key(Key::Char('y'), false) {
        Some(Action::Remove(pkgs, source)) => {
            assert_eq!(pkgs, vec!["git".to_string()]);
            assert_eq!(source, "apt");
        }
        other => panic!("unexpected {:?}", other),
    }
}

#[test]
fn install_source_from_the_first_result_of_that_name() {
    let mut app = browsing(vec![group("brew", &["jq"])]);
    app.handle_key(Key::Enter, false);
    match app.handle_key(Key::Char('Y'), false) {
        Some(Action::Install(_, source)) => assert_eq!(source, "brew"),
        other => panic!("unexpected {:?}", other),
    }
}

#[test]
fn fuzzy_pick_keeps_one_package() {
    let mut app = browsing(vec![group("snap", &["vim", "git"]), group("apt", &["vim"])]);
    assert!(matches!(app.handle_key(Key::Char('f'), true), Some(Action::FuzzySearch)));
    assert_eq!(app.fuzzy_items(), "vim [snap]\ngit [snap]\nvim [apt]\n");
    app.apply_fuzzy_pick("  vim [apt]\n");
    assert_eq!(app.results_by_source.len(), 2);
    assert_eq!(app.results_by_source[0].source, "apt");
    assert_eq!(app.results_by_source[1].source, "snap");
    assert_eq!(app.all_results.len(), 2);
    app.apply_fuzzy_pick("unknown");
    assert_eq!(app.all_results.len(), 2);
}

#[test]
fn quitting_from_each_mode() {
    let mut app = App::new();
    app.handle_key(Key::Esc, false);
    assert!(app.should_quit);
    let mut b = browsing(vec![group("apt", &["x"])]);
    b.handle_key(Key::Char('q'), false);
    assert!(b.should_quit);
    let mut d = App::for_operation("update", vec![]);
    assert_eq!(d.progress_items.len(), 1);
    assert_eq!(d.progress_items[0].name, "System Packages");
    d.mode = Mode::Done;
    d.handle_key(Key::Char('x'), false);
    assert!(!d.should_quit);
    d.handle_key(Key::Char('q'), false);
    assert!(d.should_quit);
}

#[test]
fn merging_found_results_by_manager() {
    let merged = merge_groups(&vec![
        group("snap", &["a"]),
        group("apt", &["b"]),
        group("snap", &["c"]),
        group("npm", &[]),
    ]);
    let keys: Vec<&str> = merged.iter().map(|g| g.source.as_str()).collect();
    assert_eq!(keys, vec!["apt", "snap"]);
    let snap: Vec<&str> = merged[1].packages.iter().map(|p| p.name.as_str()).collect();
    assert_eq!(snap, vec!["a", "c"]);
}

#[test]
fn search_terms_and_managers() {
    assert_eq!(search_terms_of(" vim , ,git"), vec!["vim".to_string(), "git".to_string()]);
    assert!(search_terms_of(" , ").is_empty());
    assert!(is_searchable("apt", true));
    assert!(!is_searchable("apt", false));
    assert!(!is_searchable("topgrade", true));
    assert!(!is_searchable("bun", true));
    let names = vec!["apt".to_string(), "snap".to_string()];
    assert_eq!(install_manager_index(&names, "snap"), Some(1));
    assert_eq!(install_manager_index(&names, "zzz"), Some(0));
    assert_eq!(install_manager_index(&vec![], "zzz"), None);
}

#[test]
fn page_size_follows_the_table_height() {
    let mut app = browsing(vec![group("apt", &["a", "b", "c"])]);
    app.set_page_size(3);
    assert_eq!(app.page_size, 1);
    app.set_page_size(24);
    assert_eq!(app.page_size, 20);
    assert!(app.is_well_formed());
}

#[test]
fn vim_keys_move_like_the_arrows() {
    let names: Vec<String> = (0..5).map(|i| format!("p{}", i)).collect();
    let refs: Vec<&str> = names.iter().map(|s| s.as_str()).collect();
    let mut app = browsing(vec![group("apt", &refs)]);
    app.set_page_size(6);
    app.handle_key(Key::Char('j'), false);
    assert_eq!((app.page, app.selected), (0, Some(1)));
    app.handle_key(Key::Char('j'), false);
    assert_eq!((app.page, app.selected), (1, Some(0)));
    app.handle_key(Key::Char('k'), false);
    assert_eq!((app.page, app.selected), (0, Some(1)));
    app.handle_key(Key::Char('l'), false);
    assert_eq!((app.page, app.selected), (1, Some(0)));
    app.handle_key(Key::Char('h'), false);
    assert_eq!((app.page, app.selected), (0, Some(0)));
    let mut two = browsing(vec![group("apt", &["vim"]), group("snap", &["vim"])]);
    two.handle_key(Key::Char('l'), false);
    assert_eq!(two.source_selected, 1);
    two.handle_key(Key::Char('h'), false);
    assert_eq!(two.source_selected, 0);
}

#[test]
fn browse_keys_for_the_installed_view_and_the_theme_picker() {
    let mut app = browsing(vec![group("apt", &["vim"])]);
    assert!(matches!(app.handle_key(Key::Char('v'), false), Some(Action::ViewInstalled)));
    assert!(matches!(app.handle_key(Key::Char('t'), false), Some(Action::PickTheme)));
    assert_eq!(app.mode, Mode::Browse);
    let mut typing = App::new();
    assert!(matches!(typing.handle_key(Key::Char('v'), false), Some(Action::Search(q)) if q == "v"));
    assert_eq!(typing.search_input, vec!['v']);
}

#[test]
fn removal_goes_through_the_chosen_source() {
    let mut app = browsing(vec![group("apt", &["vim"]), group("snap", &["vim"])]);
    assert_eq!(app.source_options, vec!["apt".to_string(), "snap".to_string()]);
    app.handle_key(Key::Right, false);
    app.handle_key(Key::Char('d'), false);
    match app.handle_key(Key::Enter, false) {
        Some(Action::Remove(pkgs, source)) => {
            assert_eq!(pkgs, vec!["vim".to_string()]);
            assert_eq!(source, "snap");
        }
        other => panic!("unexpected {:?}", other),
    }
}

#[test]
fn installing_an_installed_package_only_says_so() {
    let mut p = pkg("vim", "apt");
    p.installed = true;
    let mut app = browsing(vec![SourceResults { source: "apt".to_string(), packages: vec![p] }]);
    assert!(app.handle_key(Key::Char('i'), false).is_none());
    assert_eq!(app.mode, Mode::Browse);
    assert_eq!(app.status_message, "'vim' is already installed");
}

#[test]
fn results_follow_the_typing() {
    let mut app = App::new();
    match app.handle_key(Key::Char('v'), false) {
        Some(Action::Search(q)) => assert_eq!(q, "v"),
        other => panic!("unexpected {:?}", other),
    }
    match app.handle_key(Key::Char('i'), false) {
        Some(Action::Search(q)) => assert_eq!(q, "vi"),
        other => panic!("unexpected {:?}", other),
    }
    app.handle_key(Key::Home, false);
    match app.handle_key(Key::Delete, false) {
        Some(Action::Search(q)) => assert_eq!(q, "i"),
        other => panic!("unexpected {:?}", other),
    }
    assert!(app.handle_key(Key::Delete, false).is_none());
    assert!(app.search_input.is_empty());
    assert!(app.handle_key(Key::Backspace, false).is_none());
    assert_eq!(app.mode, Mode::Input);
    assert_eq!(app.status_message, "");
}

#[test]
fn row_cells_mark_installed_and_cut_long_fields() {
    let mut p = pkg("vim", "apt");
    p.installed = true;
    p.version = "2:9.0.1234-1ubuntu".to_string();
    p.description = "Vi IMproved, a programmer's editor".to_string();
    assert_eq!(
        row_texts(&p, 0, 5),
        vec!["1", "vim ✓", "2:9.0.1234-1", "apt", "Vi IM"]
    );
    let mut q = pkg("curl", "flatpak-beta-repo");
    q.version = String::new();
    assert_eq!(row_texts(&q, 41, 100), vec!["42", "curl", "—", "flatpak-be", "curl package"]);
}
