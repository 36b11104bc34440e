//! Normalisation of container names and of the configured domain suffix.

use vstd::prelude::*;
use vstd::string::*;

verus! {

/// The separator that the runtime puts in front of a container's name.
pub const NAME_SEPARATOR: char = '/';

/// The character that may lead the configured suffix.
pub const SUFFIX_DOT: char = '.';

/// `s` without its first character when that character is `c`.
pub open spec fn strip_one(s: Seq<char>, c: char) -> Seq<char> {
    if s.len() > 0 && s[0] == c {
        s.drop_first()
    } else {
        s
    }
}

/// A display name as it stands in the hosts file.
pub open spec fn display_name(raw: Seq<char>) -> Seq<char> {
    strip_one(raw, NAME_SEPARATOR)
}

/// The suffix as it stands in the hosts file.
pub open spec fn suffix_text(arg: Seq<char>) -> Seq<char> {
    strip_one(arg, SUFFIX_DOT)
}

/// Copies `s`, leaving out its first character when that character is `c`.
pub fn strip_leading(s: &str, c: char) -> (r: String)
    ensures
        r@ == strip_one(s@, c),
{
    let n = s.unicode_len();
    if n > 0 && s.get_char(0) == c {
        String::from_str(s.substring_char(1, n))
    } else {
        String::from_str(s)
    }
}

/// The name under which a container is written: a single leading separator
/// is dropped (`/web` becomes `web`).
pub fn strip_separator(name: &str) -> (r: String)
    ensures
        r@ == display_name(name@),
{
    strip_leading(name, NAME_SEPARATOR)
}

/// The suffix written after each name: a single leading dot of the argument
/// is dropped (`.local` becomes `local`).
pub fn normalize_suffix(arg: &str) -> (r: String)
    ensures
        r@ == suffix_text(arg@),
{
    strip_leading(arg, SUFFIX_DOT)
}

} // verus!
