use vstd::prelude::*;

verus! {

/// What `unicode_width::UnicodeWidthChar::width` returns for a character:
/// a function of the character alone (UAX #11 east-asian width tables).
pub uninterp spec fn char_width_of(c: char) -> Option<usize>;

/// What `unicode_width::UnicodeWidthStr::width` returns for a string:
/// a function of its characters alone.
pub uninterp spec fn str_width_of(s: Seq<char>) -> usize;

/// What `char::is_alphanumeric` returns: whether the character's Unicode
/// general category is one of the letter or number categories.
pub uninterp spec fn alphanumeric_of(c: char) -> bool;

/// ASCII letters and digits.
pub open spec fn ascii_alnum(c: char) -> bool {
    ('0' <= c && c <= '9') || ('a' <= c && c <= 'z') || ('A' <= c && c <= 'Z')
}

/// Relies on unicode_width::UnicodeWidthChar::width: the displayed width of
/// one character in columns, `None` for a control character; printable
/// ASCII is one column wide.
#[verifier::external_body]
pub fn char_width(c: char) -> (r: Option<usize>)
    ensures
        r == char_width_of(c),
        ' ' <= c && c < '\u{7f}' ==> r == Some(1usize),
        c < ' ' ==> r is None,
{
    unicode_width::UnicodeWidthChar::width(c)
}

/// Relies on unicode_width::UnicodeWidthStr::width: the displayed width of
/// a string in columns; the empty string has width zero, and a string of
/// printable ASCII is one column per character.
#[verifier::external_body]
pub fn str_width(s: &str) -> (r: usize)
    ensures
        r == str_width_of(s@),
        s@.len() == 0 ==> r == 0,
        (forall|i: int| 0 <= i < s@.len() ==> ' ' <= #[trigger] s@[i] <= '~') ==> r == s@.len(),
{
    unicode_width::UnicodeWidthStr::width(s)
}

/// Relies on char::is_alphanumeric of std: whether the character is in a
/// Unicode letter or number general category; on ASCII these are exactly
/// the letters and digits.
#[verifier::external_body]
pub fn is_alphanumeric_char(c: char) -> (r: bool)
    ensures
        r == alphanumeric_of(c),
        c < '\u{80}' ==> (r <==> ascii_alnum(c)),
{
    c.is_alphanumeric()
}

/// Relies on std's FromIterator impl for String: collecting characters
/// yields the string with exactly those characters.
#[verifier::external_body]
pub fn chars_to_string(v: Vec<char>) -> (r: String)
    ensures
        r@ == v@,
{
    String::from_iter(v)
}

} // verus!
