//! Calls into std and outside crates whose results the library builds on.
//! Each contract here describes the std or outside function that its item
//! calls, as that function's source or documentation shows it.
use vstd::prelude::*;

verus! {

/// The `String` holding the characters `cs`: std's `FromIterator<char>` for
/// `String`, which appends each character in order.
#[verifier::external_body]
pub(crate) fn string_of(cs: &[char]) -> (s: String)
    ensures
        s@ == cs@,
{
    cs.iter().collect()
}

/// What `char::is_alphanumeric` answers for `c` (Unicode Alphabetic or Numeric).
pub uninterp spec fn char_alphanumeric(c: char) -> bool;

/// std's `char::is_alphanumeric`: the result is named `char_alphanumeric(c)`;
/// its documentation also shows that ASCII letters and digits are alphanumeric,
/// which is stated. The Unicode tables behind other characters are left unsaid.
#[verifier::external_body]
pub(crate) fn is_alphanumeric(c: char) -> (b: bool)
    ensures
        b == char_alphanumeric(c),
        ('a' <= c <= 'z' || 'A' <= c <= 'Z' || '0' <= c <= '9') ==> b,
{
    c.is_alphanumeric()
}

/// What `str::to_lowercase` answers for a text.
pub uninterp spec fn lowercase(s: Seq<char>) -> Seq<char>;

/// std's `str::to_lowercase`: the result is named `lowercase(s@)`; the Unicode
/// case mapping itself is left unsaid.
#[verifier::external_body]
pub(crate) fn to_lowercase(s: &str) -> (r: String)
    ensures
        r@ == lowercase(s@),
{
    s.to_lowercase()
}

/// What `unicode_width::UnicodeWidthChar::width` answers for a character.
pub uninterp spec fn unicode_char_width(c: char) -> Option<usize>;

/// `unicode_width::UnicodeWidthChar::width` (crate unicode-width 0.2.0): the
/// displayed width of `c` in columns, `None` for a control character. The
/// result is named `unicode_char_width(c)`; what its source shows plainly is
/// stated too: below U+0020 and from U+007F to U+009F it is `None`, from
/// U+0020 to U+007E it is one column, and from U+00A0 on it is a table entry of
/// at most three columns; the ellipsis `…` (U+2026, of ambiguous width, which
/// the crate counts as narrow) takes one column. The rest of the table is
/// left unsaid.
#[verifier::external_body]
pub(crate) fn char_width(c: char) -> (w: Option<usize>)
    ensures
        w == unicode_char_width(c),
        (c as u32) < 0x20 ==> w is None,
        0x20 <= (c as u32) < 0x7F ==> w == Some(1usize),
        0x7F <= (c as u32) < 0xA0 ==> w is None,
        0xA0 <= (c as u32) ==> w is Some && w->0 <= 3,
        c == '\u{2026}' ==> w == Some(1usize),
{
    unicode_width::UnicodeWidthChar::width(c)
}

/// `which::which` (crate which 6.0.3): the path of the executable `name` found
/// on `PATH`, as text, or `None` when none is found. The outcome depends on the
/// machine's `PATH` and files, so nothing is stated of it.
#[verifier::external_body]
pub(crate) fn which_path(name: &str) -> (r: Option<String>)
{
    match which::which(name) {
        Ok(p) => Some(p.to_string_lossy().to_string()),
        Err(_) => None,
    }
}

/// The time elapsed since the Unix epoch, in whole seconds (std's
/// `SystemTime::elapsed` on `UNIX_EPOCH`), or 0 when the clock is before the
/// epoch. The clock's value is not stated.
#[verifier::external_body]
pub(crate) fn now_unix_secs() -> (t: u64)
{
    match std::time::UNIX_EPOCH.elapsed() {
        Ok(d) => d.as_secs(),
        Err(_) => 0,
    }
}

} // verus!
