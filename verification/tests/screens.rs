use s8n::paths::{file_name_exec, join_path_exec, parent_path_exec};
use s8n::tui::color_picker::{ColorPickerState, PickerOutcome};
use s8n::tui::file_manager::{
    dir_preview_exec, file_preview_exec, sort_entries, FileEntry, FileManagerState, FmCommand,
};
use s8n::tui::grid_table::{
    available_width_exec, data_rows, fixed_widths_exec, flex_widths_exec, needs_scaling_exec,
    pad_to_widths, truncate_pad_exec, Width,
};
use s8n::tui::menu::{screen_for_exec, MenuAction, MenuState};
use s8n::tui::paginator::{Glyph, Paginator};
use s8n::tui::tabs::{page_titles_exec, TabBar, TabMode};
use s8n::tui::theme::palette_named;
use s8n::tui::{AppMode, Key};

#[test]
fn menu_wraps_and_opens_screens() {
    let mut m = MenuState::new();
    assert_eq!(m.items.len(), 3);
    assert!(m.handle_key(Key::Up).is_none());
    assert_eq!(m.selected, Some(2));
    assert_eq!(m.handle_key(Key::Enter), Some(MenuAction::ColorTheme));
    m.handle_key(Key::Char('j'));
    assert_eq!(m.selected, Some(0));
    assert_eq!(m.handle_key(Key::Enter), Some(MenuAction::PackMan));
    assert_eq!(m.handle_key(Key::Esc), Some(MenuAction::Quit));
    assert_eq!(m.handle_key(Key::Char('z')), None);
    assert_eq!(screen_for_exec(MenuAction::PackMan), Some(AppMode::PackManSearch));
    assert_eq!(screen_for_exec(MenuAction::Quit), None);
}

#[test]
fn picker_previews_and_saves() {
    let mut p = ColorPickerState::new();
    let mut palette = palette_named("Fire");
    assert!(matches!(p.handle_key(Key::Down, &mut palette), PickerOutcome::Stay));
    assert_eq!(p.selected, Some(1));
    assert_eq!(palette, palette_named("Sunset"));
    p.handle_key(Key::Up, &mut palette);
    p.handle_key(Key::Up, &mut palette);
    assert_eq!(p.selected, Some(4));
    assert_eq!(palette, palette_named("Purple Dream"));
    match p.handle_key(Key::Enter, &mut palette) {
        PickerOutcome::Save(c) => assert_eq!(c, "theme = \"Purple Dream\"\n"),
        other => panic!("unexpected {:?}", other),
    }
    assert!(matches!(p.handle_key(Key::Char('q'), &mut palette), PickerOutcome::Quit));
}

fn entry(name: &str, is_dir: bool) -> FileEntry {
    FileEntry { name: name.to_string(), is_dir, size: 10 }
}

#[test]
fn listing_puts_directories_first_then_names() {
    let sorted = sort_entries(vec![
        entry("b.txt", false),
        entry("Zeta", true),
        entry("a.txt", false),
        entry("alpha", true),
        entry("B.txt", false),
    ]);
    let names: Vec<&str> = sorted.iter().map(|e| e.name.as_str()).collect();
    assert_eq!(names, vec!["alpha", "Zeta", "a.txt", "b.txt", "B.txt"]);
}

#[test]
fn paths_as_text() {
    assert_eq!(join_path_exec("/home/u", "x"), "/home/u/x");
    assert_eq!(join_path_exec("/", "x"), "/x");
    assert_eq!(join_path_exec("/a", "/abs"), "/abs");
    assert_eq!(parent_path_exec("/home/u"), Some("/home".to_string()));
    assert_eq!(parent_path_exec("/home"), Some("/".to_string()));
    assert_eq!(parent_path_exec("/"), None);
    assert_eq!(parent_path_exec("name"), Some("".to_string()));
    assert_eq!(file_name_exec("/home/u/notes.txt"), Some("notes.txt".to_string()));
    assert_eq!(file_name_exec("/"), None);
    assert_eq!(file_name_exec("/a/.."), None);
}

#[test]
fn file_manager_navigation_and_commands() {
    let mut fm = FileManagerState::new(Some("/home/u"));
    let req = fm.refresh(vec![entry("notes.txt", false), entry("docs", true)], vec![entry("u", true)]);
    let r = req.unwrap();
    assert_eq!(r.path, "/home/u/docs");
    assert!(r.is_dir);
    assert_eq!(fm.parent_entries.len(), 1);
    match fm.handle_key(Key::Char('j')) {
        FmCommand::Preview(p) => assert_eq!(p.path, "/home/u/notes.txt"),
        other => panic!("unexpected {:?}", other),
    }
    match fm.handle_key(Key::Char('o')) {
        FmCommand::Open(p) => assert_eq!(p, "/home/u/notes.txt"),
        other => panic!("unexpected {:?}", other),
    }
    assert!(matches!(fm.handle_key(Key::Enter), FmCommand::Nothing));
    fm.handle_key(Key::Char('m'));
    assert_eq!(fm.marked_for_move, Some("/home/u/notes.txt".to_string()));
    match fm.handle_key(Key::Char('k')) {
        FmCommand::Preview(p) => assert_eq!(p.path, "/home/u/docs"),
        other => panic!("unexpected {:?}", other),
    }
    match fm.handle_key(Key::Right) {
        FmCommand::DrillDown(d) => assert_eq!(d, "/home/u/docs"),
        other => panic!("unexpected {:?}", other),
    }
    fm.enter_dir("/home/u/docs".to_string());
    fm.refresh(vec![], vec![entry("docs", true), entry("notes.txt", false)]);
    assert_eq!(fm.selected, None);
    match fm.handle_key(Key::Char('p')) {
        FmCommand::Paste(from, to) => {
            assert_eq!(from, "/home/u/notes.txt");
            assert_eq!(to, "/home/u/docs/notes.txt");
        }
        other => panic!("unexpected {:?}", other),
    }
    assert_eq!(fm.marked_for_move, None);
    match fm.handle_key(Key::Left) {
        FmCommand::DrillUp(d) => assert_eq!(d, "/home/u"),
        other => panic!("unexpected {:?}", other),
    }
    let left = fm.enter_parent("/home/u".to_string());
    assert_eq!(left, Some("docs".to_string()));
    fm.refresh(vec![entry("notes.txt", false), entry("docs", true)], vec![]);
    let r = fm.select_named("docs").unwrap();
    assert_eq!(r.path, "/home/u/docs");
    assert_eq!(fm.selected, Some(0));
    assert!(matches!(fm.handle_key(Key::Char('d')), FmCommand::Nothing));
    assert_eq!(fm.pending_delete, Some(("/home/u/docs".to_string(), true)));
    match fm.handle_key(Key::Char('y')) {
        FmCommand::Delete(p, is_dir) => {
            assert_eq!(p, "/home/u/docs");
            assert!(is_dir);
        }
        other => panic!("unexpected {:?}", other),
    }
    assert!(matches!(fm.handle_key(Key::Esc), FmCommand::Quit));
}

#[test]
fn previews() {
    let entries: Vec<FileEntry> = (0..22).map(|i| entry(&format!("f{}", i), i == 0)).collect();
    let p = dir_preview_exec(&entries);
    assert_eq!(p.len(), 3 + 20 + 1);
    assert_eq!(p[0], "📁 Directory");
    assert_eq!(p[1], "Contains 22 items");
    assert_eq!(p[2], "");
    assert_eq!(p[3], "▸ f0");
    assert_eq!(p[4], "  f1");
    assert_eq!(p[23], "...");
    let long = "x".repeat(100);
    let text = format!("one\r\n{}\n", long);
    let f = file_preview_exec(Some(12), Some(text.as_str()));
    assert_eq!(f, vec!["📄 File: 12 bytes".to_string(), "".to_string(), "one".to_string(), "x".repeat(80)]);
    assert_eq!(file_preview_exec(None, None), vec!["Binary or unreadable file".to_string()]);
}

#[test]
fn cells_are_cut_and_padded_by_display_width() {
    assert_eq!(truncate_pad_exec("abc", 5), "abc  ");
    assert_eq!(truncate_pad_exec("abc", 3), "abc");
    assert_eq!(truncate_pad_exec("abcdef", 4), "abc…");
    assert_eq!(truncate_pad_exec("abcdef", 3), "ab…");
    assert_eq!(truncate_pad_exec("日本語", 5), "日本…");
    assert_eq!(truncate_pad_exec("日本語", 4), "日… ");
    assert_eq!(truncate_pad_exec("anything", 0), "");
    assert_eq!(truncate_pad_exec("", 2), "  ");
}

#[test]
fn cells_fit_the_given_widths() {
    let text: Vec<char> = "日本x".chars().collect();
    assert_eq!(pad_to_widths(&text, &[2, 2, 1], 4), "日… ");
    assert_eq!(pad_to_widths(&text, &[2, 2, 1], 5), "日本x");
    assert_eq!(pad_to_widths(&text, &[2, 2, 1], 3), "日…");
    assert_eq!(pad_to_widths(&text, &[1, 1, 1], 6), "日本x   ");
    assert_eq!(pad_to_widths(&text, &[7, 1, 1], 6), "…     ");
}

#[test]
fn column_widths() {
    let cols = [Width::Length(5), Width::Percentage(25), Width::Length(14), Width::Length(12), Width::Min(10)];
    let avail = available_width_exec(cols.len(), 100);
    assert_eq!(avail, 94);
    let (fixed, used) = fixed_widths_exec(&cols);
    assert_eq!(fixed, vec![5, 0, 14, 12, 0]);
    assert_eq!(used, 31);
    assert!(!needs_scaling_exec(used, avail));
    assert!(needs_scaling_exec(50, 40));
    assert!(!needs_scaling_exec(50, 0));
    let w = flex_widths_exec(&cols, &fixed, used, avail);
    // remaining 63, two flexible columns: 31 each; 25% of 94 is 23
    assert_eq!(w, vec![5, 23, 14, 12, 31]);
    // at 40 columns only 34 are available: the columns are cut left to right
    let narrow = available_width_exec(cols.len(), 40);
    assert_eq!(narrow, 34);
    let w = flex_widths_exec(&cols, &fixed, used, narrow);
    assert_eq!(w, vec![5, 3, 14, 12, 0]);
    assert_eq!(w.iter().map(|x| *x as u32).sum::<u32>(), 34);
    assert_eq!(data_rows(10, 100), 6);
    assert_eq!(data_rows(3, 100), 0);
    assert_eq!(data_rows(30, 4), 4);
}

#[test]
fn paginator_window_follows_the_page() {
    let p = Paginator { current_page: 0, total_pages: 3, tick: 0 };
    assert!(p.visible());
    assert_eq!(p.window(), (0, 3));
    assert_eq!(p.glyphs(), vec![Glyph::NoArrow, Glyph::ActiveDot(true), Glyph::Dot, Glyph::Dot, Glyph::RightArrow]);
    let mid = Paginator { current_page: 10, total_pages: 20, tick: 2 };
    assert_eq!(mid.window(), (6, 15));
    let last = Paginator { current_page: 19, total_pages: 20, tick: 0 };
    assert_eq!(last.window(), (11, 20));
    let g = last.glyphs();
    assert_eq!(g[0], Glyph::LeftArrow);
    assert_eq!(*g.last().unwrap(), Glyph::ActiveDot(true));
    assert_eq!(last.counter_text(), "  Page 20/20");
    assert!(!Paginator { current_page: 0, total_pages: 1, tick: 0 }.visible());
}

#[test]
fn page_tabs() {
    assert_eq!(page_titles_exec(1, 3), vec!["1".to_string(), "Page 2".to_string(), "3".to_string()]);
    let bar = TabBar { mode: TabMode::Pages { current: 0, total: 2 } };
    assert_eq!(bar.titles(), Some((vec!["Page 1".to_string(), "2".to_string()], 0)));
    let src = TabBar { mode: TabMode::PackageSources { sources: vec![], selected: 0, pkg_name: "x".into() } };
    assert_eq!(src.titles(), None);
}

#[test]
fn backspace_goes_up_a_level() {
    let mut fm = FileManagerState::new(Some("/home/u"));
    fm.refresh(vec![entry("docs", true)], vec![entry("u", true)]);
    match fm.handle_key(Key::Backspace) {
        FmCommand::DrillUp(d) => assert_eq!(d, "/home"),
        other => panic!("unexpected {:?}", other),
    }
}

#[test]
fn deleting_asks_first_and_any_other_key_keeps_the_entry() {
    let mut fm = FileManagerState::new(Some("/home/u"));
    fm.refresh(vec![entry("notes.txt", false)], vec![]);
    assert!(matches!(fm.handle_key(Key::Char('d')), FmCommand::Nothing));
    assert_eq!(fm.pending_delete, Some(("/home/u/notes.txt".to_string(), false)));
    assert!(matches!(fm.handle_key(Key::Char('n')), FmCommand::Nothing));
    assert_eq!(fm.pending_delete, None);
    assert!(matches!(fm.handle_key(Key::Char('d')), FmCommand::Nothing));
    match fm.handle_key(Key::Enter) {
        FmCommand::Delete(p, is_dir) => {
            assert_eq!(p, "/home/u/notes.txt");
            assert!(!is_dir);
        }
        other => panic!("unexpected {:?}", other),
    }
    assert_eq!(fm.pending_delete, None);
}

#[test]
fn renaming_types_a_new_name() {
    let mut fm = FileManagerState::new(Some("/home/u"));
    fm.refresh(vec![entry("notes.txt", false)], vec![]);
    assert!(matches!(fm.handle_key(Key::Char('r')), FmCommand::Nothing));
    assert_eq!(
        fm.rename_input,
        Some(("/home/u/notes.txt".to_string(), "notes.txt".chars().collect()))
    );
    for _ in 0..3 {
        fm.handle_key(Key::Backspace);
    }
    fm.handle_key(Key::Char('m'));
    fm.handle_key(Key::Char('d'));
    match fm.handle_key(Key::Enter) {
        FmCommand::Rename(from, to) => {
            assert_eq!(from, "/home/u/notes.txt");
            assert_eq!(to, "/home/u/notes.md");
        }
        other => panic!("unexpected {:?}", other),
    }
    assert_eq!(fm.rename_input, None);
    fm.handle_key(Key::Char('r'));
    assert!(matches!(fm.handle_key(Key::Esc), FmCommand::Nothing));
    assert_eq!(fm.rename_input, None);
    assert!(matches!(fm.handle_key(Key::Esc), FmCommand::Quit));
}

#[test]
fn fitted_cells_take_exactly_their_columns() {
    let width = |s: &str| -> usize {
        s.chars().map(|c| unicode_width::UnicodeWidthChar::width(c).unwrap_or(1)).sum()
    };
    for text in ["", "abc", "abcdef", "日本語", "a日b本c語d", "x\u{7}y"] {
        for max in 1..9 {
            assert_eq!(width(&truncate_pad_exec(text, max)), max, "{:?} at {}", text, max);
        }
    }
}
