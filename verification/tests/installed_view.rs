use s8n::pm::PackageInfo;
use s8n::tui::installed::{sort_by_name, matching_exec, InstalledAction, InstalledState};
use s8n::tui::Key;

fn pkg(name: &str, version: &str, source: &str) -> PackageInfo {
    PackageInfo {
        name: name.to_string(),
        version: version.to_string(),
        description: String::new(),
        source: source.to_string(),
        installed: true,
    }
}

fn names(ps: &[PackageInfo]) -> Vec<String> {
    ps.iter().map(|p| p.name.clone()).collect()
}

fn sample() -> Vec<PackageInfo> {
    vec![
        pkg("vim", "9.0", "apt"),
        pkg("curl", "8.5", "apt"),
        pkg("ripgrep", "14.1", "cargo"),
        pkg("firefox", "128", "flatpak"),
        pkg("curl", "8.6", "brew"),
    ]
}

#[test]
fn packages_are_listed_alphabetically() {
    let sorted = sort_by_name(sample());
    assert_eq!(names(&sorted), vec!["curl", "curl", "firefox", "ripgrep", "vim"]);
    assert_eq!(sorted[0].source, "apt");
    assert_eq!(sorted[1].source, "brew");
    let state = InstalledState::new(sample());
    assert_eq!(names(&state.packages), vec!["curl", "curl", "firefox", "ripgrep", "vim"]);
    assert_eq!(state.selected, Some(0));
    assert!(InstalledState::new(vec![]).selected.is_none());
}

#[test]
fn filter_matches_name_source_or_version() {
    let ps = sample();
    assert_eq!(names(&matching_exec(&ps, &['c', 'a', 'r', 'g', 'o'])), vec!["ripgrep"]);
    assert_eq!(names(&matching_exec(&ps, &['8', '.'])), vec!["curl", "curl"]);
    assert_eq!(names(&matching_exec(&ps, &['f', 'i', 'r'])), vec!["firefox"]);
    assert_eq!(matching_exec(&ps, &[]).len(), 5);
    assert!(matching_exec(&ps, &['z', 'z']).is_empty());
}

#[test]
fn typing_a_filter_and_browsing() {
    let mut state = InstalledState::new(sample());
    assert!(state.handle_key(Key::Char('/'), false).is_none());
    assert!(state.filtering);
    for c in "apt".chars() {
        state.handle_key(Key::Char(c), false);
    }
    assert_eq!(names(&state.shown_packages()), vec!["curl", "vim"]);
    assert_eq!(state.selected, Some(0));
    state.handle_key(Key::Backspace, false);
    assert_eq!(state.filter.iter().collect::<String>(), "ap");
    state.handle_key(Key::Char('t'), false);
    state.handle_key(Key::Enter, false);
    assert!(!state.filtering);
    state.handle_key(Key::Char('j'), false);
    assert_eq!(state.selected, Some(1));
    state.handle_key(Key::Down, false);
    assert_eq!(state.selected, Some(0));
    state.handle_key(Key::Char('k'), false);
    assert_eq!(state.selected, Some(1));
    match state.handle_key(Key::Char('d'), false) {
        Some(InstalledAction::Remove(name, source)) => {
            assert_eq!(name, "vim");
            assert_eq!(source, "apt");
        }
        other => panic!("unexpected {:?}", other),
    }
    state.handle_key(Key::Char('/'), false);
    state.handle_key(Key::Esc, false);
    assert!(state.filter.is_empty());
    assert_eq!(state.shown_packages().len(), 5);
    assert!(matches!(state.handle_key(Key::Char('f'), true), Some(InstalledAction::FuzzySearch)));
    assert!(matches!(state.handle_key(Key::Char('q'), false), Some(InstalledAction::Quit)));
}

#[test]
fn a_filter_that_matches_nothing_leaves_no_highlight() {
    let mut state = InstalledState::new(sample());
    state.handle_key(Key::Char('/'), false);
    state.handle_key(Key::Char('#'), false);
    assert!(state.shown_packages().is_empty());
    assert_eq!(state.selected, None);
    state.handle_key(Key::Enter, false);
    assert!(state.handle_key(Key::Char('r'), false).is_none());
}

#[test]
fn fuzzy_pick_highlights_the_package() {
    let mut state = InstalledState::new(sample());
    assert_eq!(
        state.fuzzy_items(),
        "curl [apt]\ncurl [brew]\nfirefox [flatpak]\nripgrep [cargo]\nvim [apt]\n"
    );
    state.apply_pick("ripgrep [cargo]\n");
    assert_eq!(state.selected, Some(3));
    state.apply_pick("nothing [here]");
    assert_eq!(state.selected, Some(3));
    state.apply_pick("");
    assert_eq!(state.selected, Some(3));
}
