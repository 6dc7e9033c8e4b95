//! Configuration: the package-manager table and the saved theme.
//!
//! The theme is saved in `~/.config/s8n/theme.toml` as one line
//! `theme = "<name>"`; reading the file back gives the name.
use vstd::prelude::*;
use crate::text::{
    chars_of, lines, lines_of, views, starts_with, starts_with_exec, trim, trimmed, remove_all,
    remove_all_exec, split_nl, strip_cr, matches_at, lemma_remove_absent, lemma_remove_char_suffix,
    lemma_match_found, find,
};
use crate::sys::string_of;

verus! {

/// The configured package managers.
#[derive(Debug, Default)]
pub struct Config {
    pub package_managers: Vec<PackageManagerConfig>,
}

/// A package manager described by its commands.
#[derive(Debug)]
pub struct PackageManagerConfig {
    pub name: String,
    pub command: String,
    pub search_args: Vec<String>,
    pub install_args: Vec<String>,
    pub remove_args: Vec<String>,
    pub update_args: Vec<String>,
}

/// The configuration: for now always the empty table.
pub fn load_config() -> (r: Result<Config, String>)
    ensures
        r matches Ok(c) && c.package_managers@.len() == 0,
{
    Ok(Config { package_managers: Vec::new() })
}

/// The first of the lines `ls` from position `i` on that starts with `p`.
pub open spec fn first_line_from(ls: Seq<Seq<char>>, p: Seq<char>, i: int) -> Option<Seq<char>>
    decreases ls.len() - i,
{
    if i < 0 || i >= ls.len() {
        None
    } else if starts_with(ls[i], p) {
        Some(ls[i])
    } else {
        first_line_from(ls, p, i + 1)
    }
}

/// The theme that a theme file names: on its first line that starts with
/// `theme = `, what is left without `theme = ` and quotes, trimmed; `Fire`
/// when no line names one.
pub open spec fn theme_name_in(content: Seq<char>) -> Seq<char> {
    match first_line_from(lines(content), "theme = "@, 0) {
        Some(l) => trim(remove_all(remove_all(l, "theme = "@), "\""@)),
        None => "Fire"@,
    }
}

/// The theme setting: the theme that the file names, or `Fire` when the file
/// could not be read.
pub open spec fn theme_setting(content: Option<Seq<char>>) -> Seq<char> {
    match content {
        Some(c) => theme_name_in(c),
        None => "Fire"@,
    }
}

/// The theme setting from the contents of the theme file, `None` when it
/// could not be read.
pub fn get_theme_from(content: Option<&str>) -> (r: String)
    ensures
        r@ == theme_setting(match content {
            Some(c) => Some(c@),
            None => None,
        }),
{
    match content {
        None => "Fire".to_owned(),
        Some(c) => {
            let cs = chars_of(c);
            let ls = lines_of(cs.as_slice());
            let pat = chars_of("theme = ");
            let quote = chars_of("\"");
            let n = ls.len();
            let mut i: usize = 0;
            while i < n
                invariant
                    i <= n,
                    n == ls@.len(),
                    views(ls@) == lines(c@),
                    pat@ == "theme = "@,
                    quote@ == "\""@,
                    content == Some(c),
                    first_line_from(lines(c@), "theme = "@, 0) == first_line_from(
                        lines(c@),
                        "theme = "@,
                        i as int,
                    ),
                decreases n - i,
            {
                assert(views(ls@)[i as int] == ls@[i as int]@);
                if starts_with_exec(ls[i].as_slice(), pat.as_slice()) {
                    let a = remove_all_exec(ls[i].as_slice(), pat.as_slice());
                    let b = remove_all_exec(a.as_slice(), quote.as_slice());
                    let t = trimmed(b.as_slice());
                    return string_of(t.as_slice());
                }
                i = i + 1;
            }
            "Fire".to_owned()
        },
    }
}

/// The contents of the theme file that saves the theme `name`.
pub open spec fn theme_file(name: Seq<char>) -> Seq<char> {
    "theme = \""@ + name + "\"\n"@
}

/// The contents of the theme file that saves the theme `theme_name`.
pub fn theme_file_content(theme_name: &str) -> (r: String)
    ensures
        r@ == theme_file(theme_name@),
{
    let mut v = chars_of("theme = \"");
    crate::text::append_str(&mut v, theme_name);
    crate::text::append_str(&mut v, "\"\n");
    string_of(v.as_slice())
}

/// A theme name that a theme file holds faithfully: one line, no quotes, no
/// `theme = ` inside it, and no whitespace at its ends.
pub open spec fn savable_theme_name(name: Seq<char>) -> bool {
    &&& !name.contains('\n')
    &&& !name.contains('"')
    &&& forall|i: int| !matches_at(name, "theme = "@, i)
    &&& trim(name) == name
}

proof fn lemma_split_nl_no_newline(l: Seq<char>)
    requires
        !l.contains('\n'),
    ensures
        split_nl(l) == (Seq::<Seq<char>>::empty(), l),
    decreases l.len(),
{
    if l.len() > 0 {
        let d = l.drop_last();
        assert(!d.contains('\n')) by {
            if d.contains('\n') {
                let k = choose|k: int| 0 <= k < d.len() && d[k] == '\n';
                assert(l[k] == '\n');
            }
        }
        lemma_split_nl_no_newline(d);
        assert(l.last() != '\n') by {
            if l.last() == '\n' {
                assert(l[l.len() - 1] == '\n');
            }
        }
        assert(d.push(l.last()) =~= l);
    }
}

/// Saving a theme and reading the theme file back gives the saved name, for
/// every name that the file can hold (see [`savable_theme_name`]).
pub proof fn saved_theme_reads_back(name: Seq<char>)
    requires
        savable_theme_name(name),
    ensures
        theme_setting(Some(theme_file(name))) == name,
{
    reveal_strlit("theme = \"");
    reveal_strlit("\"\n");
    reveal_strlit("theme = ");
    reveal_strlit("\"");
    let key = "theme = "@;
    let q = seq!['"'];
    let line = key + q + name + q;
    let content = theme_file(name);
    assert(content =~= line.push('\n'));
    assert(!line.contains('\n')) by {
        if line.contains('\n') {
            let k = choose|k: int| 0 <= k < line.len() && line[k] == '\n';
            if k >= 9 && k < 9 + name.len() {
                assert(name[k - 9] == '\n');
            }
        }
    }
    lemma_split_nl_no_newline(line);
    assert(split_nl(content) == (seq![line], Seq::<char>::empty())) by {
        assert(content.drop_last() =~= line);
    }
    assert(strip_cr(line) == line);
    assert(lines(content) =~= seq![line]);
    assert(line.subrange(0, 8) =~= key);
    assert(first_line_from(lines(content), key, 0) == Some(line));
    // Removing `theme = `: it starts the line and occurs nowhere after it.
    let rest = q + name + q;
    assert(line.skip(8) =~= rest);
    assert forall|i: int| !matches_at(rest, key, i) by {
        if matches_at(rest, key, i) {
            let w = rest.subrange(i, i + 8);
            if i == 0 {
                assert(w[0] == '"');
            } else if i + 8 == rest.len() {
                assert(w[7] == rest[rest.len() - 1]);
            } else {
                assert(name.subrange(i - 1, i + 7) =~= w);
                assert(matches_at(name, key, i - 1));
            }
        }
    }
    lemma_remove_absent(rest, key);
    assert(remove_all(line, key) == rest);
    // Removing the quotes.
    assert(rest =~= seq!['"'] + (name + q));
    assert(rest.subrange(0, 1) =~= q);
    assert(rest.skip(1) =~= name + q);
    lemma_remove_char_suffix(name, '"');
    assert(remove_all(rest, q) == name);
    assert("\""@ =~= q);
    assert("theme = "@ == key);
    assert(theme_name_in(content) == trim(remove_all(remove_all(line, key), q)));
}

} // verus!
