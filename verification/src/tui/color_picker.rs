//! The color theme picker: a list of the built-in themes, previewed as the
//! selection moves and saved on enter.
use vstd::prelude::*;
use crate::tui::{Key, wrap_next, wrap_prev, wrap_next_exec, wrap_prev_exec};
use crate::tui::theme::{Palette, palette_for, set_theme};
use crate::config::{theme_file, theme_file_content, theme_setting, savable_theme_name, saved_theme_reads_back};
use crate::text::{matches_at, trim, is_ws};

verus! {

/// A theme that the picker offers.
#[derive(Debug, Clone)]
pub struct ColorTheme {
    pub name: String,
}

/// The picker's state: the themes and the selected one.
#[derive(Debug)]
pub struct ColorPickerState {
    pub selected: Option<usize>,
    pub themes: Vec<ColorTheme>,
}

/// The names of the themes that a picker offers.
pub open spec fn theme_names(ts: Seq<ColorTheme>) -> Seq<Seq<char>> {
    ts.map_values(|t: ColorTheme| t.name@)
}

/// The built-in themes, in the picker's order.
pub open spec fn builtin_theme_names() -> Seq<Seq<char>> {
    seq!["Fire"@, "Sunset"@, "Ocean"@, "Forest"@, "Purple Dream"@]
}

/// What a key press in the picker asks for.
#[derive(Debug)]
pub enum PickerOutcome {
    /// Stay in the picker.
    Stay,
    /// Save the theme file with these contents, then reload the theme.
    Save(String),
    /// Leave the picker.
    Quit,
}

/// The selection as an optional integer.
pub open spec fn sel_int(s: Option<usize>) -> Option<int> {
    match s {
        Some(i) => Some(i as int),
        None => None,
    }
}

impl ColorPickerState {
    /// The picker with the built-in themes and the first one selected.
    pub fn new() -> (r: ColorPickerState)
        ensures
            r.selected == Some(0usize),
            theme_names(r.themes@) == builtin_theme_names(),
    {
        let mut themes: Vec<ColorTheme> = Vec::new();
        themes.push(ColorTheme { name: "Fire".to_owned() });
        themes.push(ColorTheme { name: "Sunset".to_owned() });
        themes.push(ColorTheme { name: "Ocean".to_owned() });
        themes.push(ColorTheme { name: "Forest".to_owned() });
        themes.push(ColorTheme { name: "Purple Dream".to_owned() });
        assert(theme_names(themes@) =~= builtin_theme_names());
        ColorPickerState { selected: Some(0), themes }
    }

    /// Select the next theme, wrapping to the first, and preview it.
    pub fn next(&mut self, palette: &mut Palette)
        requires
            old(self).themes@.len() >= 1,
        ensures
            final(self).themes == old(self).themes,
            final(self).selected == Some(
                wrap_next(sel_int(old(self).selected), old(self).themes@.len() as int) as usize,
            ),
            *final(palette) == palette_for(
                theme_names(old(self).themes@)[wrap_next(
                    sel_int(old(self).selected),
                    old(self).themes@.len() as int,
                )],
            ),
    {
        let i = wrap_next_exec(self.selected, self.themes.len());
        self.selected = Some(i);
        assert(theme_names(self.themes@)[i as int] == self.themes@[i as int].name@);
        set_theme(palette, self.themes[i].name.as_str());
    }

    /// Select the previous theme, wrapping to the last, and preview it.
    pub fn previous(&mut self, palette: &mut Palette)
        requires
            old(self).themes@.len() >= 1,
            old(self).selected matches Some(i) ==> i < old(self).themes@.len(),
        ensures
            final(self).themes == old(self).themes,
            final(self).selected == Some(
                wrap_prev(sel_int(old(self).selected), old(self).themes@.len() as int) as usize,
            ),
            *final(palette) == palette_for(
                theme_names(old(self).themes@)[wrap_prev(
                    sel_int(old(self).selected),
                    old(self).themes@.len() as int,
                )],
            ),
    {
        let i = wrap_prev_exec(self.selected, self.themes.len());
        self.selected = Some(i);
        assert(theme_names(self.themes@)[i as int] == self.themes@[i as int].name@);
        set_theme(palette, self.themes[i].name.as_str());
    }

    /// The contents of the theme file that saves the selected theme; `None`
    /// when no theme is selected.
    pub fn apply_selected(&self) -> (r: Option<String>)
        requires
            self.selected matches Some(i) ==> i < self.themes@.len(),
        ensures
            match self.selected {
                Some(i) => r matches Some(c) && c@ == theme_file(theme_names(self.themes@)[i as int]),
                None => r is None,
            },
    {
        match self.selected {
            Some(i) => {
                assert(theme_names(self.themes@)[i as int] == self.themes@[i as int].name@);
                Some(theme_file_content(self.themes[i].name.as_str()))
            },
            None => None,
        }
    }

    /// Handle a key: down or `j` and up or `k` move the selection and
    /// preview the theme; enter saves the selected theme; `q` or escape
    /// leaves the picker.
    pub fn handle_key(&mut self, key: Key, palette: &mut Palette) -> (r: PickerOutcome)
        requires
            old(self).themes@.len() >= 1,
            old(self).selected matches Some(i) ==> i < old(self).themes@.len(),
        ensures
            final(self).themes == old(self).themes,
            (key == Key::Down || key == Key::Char('j')) ==> r is Stay && final(self).selected
                == Some(wrap_next(sel_int(old(self).selected), old(self).themes@.len() as int) as usize)
                && *final(palette) == palette_for(theme_names(old(self).themes@)[wrap_next(
                sel_int(old(self).selected),
                old(self).themes@.len() as int,
            )]),
            (key == Key::Up || key == Key::Char('k')) ==> r is Stay && final(self).selected
                == Some(wrap_prev(sel_int(old(self).selected), old(self).themes@.len() as int) as usize)
                && *final(palette) == palette_for(theme_names(old(self).themes@)[wrap_prev(
                sel_int(old(self).selected),
                old(self).themes@.len() as int,
            )]),
            key == Key::Enter ==> final(self).selected == old(self).selected && *final(palette)
                == *old(palette) && (match old(self).selected {
                Some(i) => (r matches PickerOutcome::Save(c) && c@ == theme_file(
                    theme_names(old(self).themes@)[i as int],
                )),
                None => r is Stay,
            }),
            (key == Key::Char('q') || key == Key::Esc) ==> r is Quit && final(self).selected
                == old(self).selected && *final(palette) == *old(palette),
            !(key == Key::Down || key == Key::Char('j') || key == Key::Up || key == Key::Char('k')
                || key == Key::Enter || key == Key::Char('q') || key == Key::Esc) ==> r is Stay
                && final(self).selected == old(self).selected && *final(palette) == *old(palette),
    {
        match key {
            Key::Down | Key::Char('j') => {
                self.next(palette);
                PickerOutcome::Stay
            },
            Key::Up | Key::Char('k') => {
                self.previous(palette);
                PickerOutcome::Stay
            },
            Key::Enter => match self.apply_selected() {
                Some(c) => PickerOutcome::Save(c),
                None => PickerOutcome::Stay,
            },
            Key::Char('q') | Key::Esc => PickerOutcome::Quit,
            _ => PickerOutcome::Stay,
        }
    }
}

proof fn lemma_plain_name(name: Seq<char>)
    requires
        name.len() >= 1,
        forall|i: int| 0 <= i < name.len() ==> name[i] != '\n' && name[i] != '"',
        name.len() < 8 || forall|i: int| 0 <= i < name.len() ==> name[i] != 't',
        !is_ws(name[0]),
        !is_ws(name.last()),
    ensures
        savable_theme_name(name),
{
    reveal_strlit("theme = ");
    assert forall|i: int| !matches_at(name, "theme = "@, i) by {
        if matches_at(name, "theme = "@, i) {
            assert(name.subrange(i, i + 8)[0] == 't');
            assert(name[i] == 't');
        }
    }
    assert(!name.contains('\n'));
    assert(!name.contains('"'));
}

/// Every theme that the picker offers survives saving: after its theme file
/// is written, reloading the theme gives that theme's palette.
pub proof fn picker_themes_round_trip(i: int)
    requires
        0 <= i < builtin_theme_names().len(),
    ensures
        savable_theme_name(builtin_theme_names()[i]),
        palette_for(theme_setting(Some(theme_file(builtin_theme_names()[i])))) == palette_for(
            builtin_theme_names()[i],
        ),
{
    reveal_strlit("Fire");
    reveal_strlit("Sunset");
    reveal_strlit("Ocean");
    reveal_strlit("Forest");
    reveal_strlit("Purple Dream");
    let name = builtin_theme_names()[i];
    if i == 0 {
        assert(name =~= seq!['F', 'i', 'r', 'e']);
    } else if i == 1 {
        assert(name =~= seq!['S', 'u', 'n', 's', 'e', 't']);
    } else if i == 2 {
        assert(name =~= seq!['O', 'c', 'e', 'a', 'n']);
    } else if i == 3 {
        assert(name =~= seq!['F', 'o', 'r', 'e', 's', 't']);
    } else {
        assert(name =~= seq!['P', 'u', 'r', 'p', 'l', 'e', ' ', 'D', 'r', 'e', 'a', 'm']);
    }
    lemma_plain_name(name);
    saved_theme_reads_back(name);
}

} // verus!
