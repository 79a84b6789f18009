//! Names of agents and functions: ASCII case folding and validation.
use vstd::prelude::*;
use vstd::std_specs::iter::IteratorSpec;

verus! {

/// The most characters that a name may have.
pub const MAX_NAME_LEN: usize = 64;

/// `c` with the ASCII letters `A` to `Z` mapped to `a` to `z`.
pub open spec fn lower_char(c: char) -> char {
    if 'A' <= c && c <= 'Z' {
        (c as u32 + 32) as char
    } else {
        c
    }
}

/// `s` in ASCII lower case; every character that is not an ASCII capital stays as it is.
pub open spec fn ascii_lower(s: Seq<char>) -> Seq<char> {
    s.map_values(|c: char| lower_char(c))
}

/// Gives `str::to_ascii_lowercase` its documented meaning: a copy of the string in which
/// `A` to `Z` are mapped to `a` to `z` and every other character is unchanged.
pub assume_specification[ str::to_ascii_lowercase ](s: &str) -> (lowered: String)
    ensures
        lowered@ == ascii_lower(s@),
;

/// Whether `c` is one of `a` to `z`.
pub open spec fn is_lower_letter(c: char) -> bool {
    'a' <= c && c <= 'z'
}

/// Whether `c` may stand in a name: `a` to `z`, `0` to `9` or `_`.
pub open spec fn is_name_char(c: char) -> bool {
    is_lower_letter(c) || ('0' <= c && c <= '9') || c == '_'
}

/// Whether `s` keeps all the rules of a name: not empty, no longer than [`MAX_NAME_LEN`],
/// starting with a lowercase letter, and made of lowercase letters, digits and underscores.
pub open spec fn is_valid_name(s: Seq<char>) -> bool {
    &&& 0 < s.len() <= MAX_NAME_LEN
    &&& is_lower_letter(s[0])
    &&& forall|i: int| 0 <= i < s.len() ==> is_name_char(#[trigger] s[i])
}

/// The rule that a rejected name breaks first.
#[derive(Debug, Clone, Copy, PartialEq, Eq, Structural)]
pub enum NameError {
    /// The name is empty.
    Empty,
    /// The name has more than [`MAX_NAME_LEN`] characters.
    TooLong,
    /// The name does not start with a lowercase letter.
    BadStart,
    /// The name holds this character, which no name may hold; it is the first such.
    BadCharacter(char),
}

/// Whether `c` is the first character of `s` that no name may hold.
pub open spec fn is_first_bad_char(s: Seq<char>, c: char) -> bool {
    exists|i: int|
        #![trigger s[i]]
        0 <= i < s.len() && s[i] == c && !is_name_char(c) && forall|j: int|
            0 <= j < i ==> is_name_char(#[trigger] s[j])
}

/// Whether `error` is why `s` is not a name.
pub open spec fn breaks_rule(s: Seq<char>, error: NameError) -> bool {
    match error {
        NameError::Empty => s.len() == 0,
        NameError::TooLong => s.len() > MAX_NAME_LEN,
        NameError::BadStart => 0 < s.len() <= MAX_NAME_LEN && !is_lower_letter(s[0]),
        NameError::BadCharacter(c) => {
            &&& 0 < s.len() <= MAX_NAME_LEN
            &&& is_lower_letter(s[0])
            &&& is_first_bad_char(s, c)
        },
    }
}

/// Checks that `name` keeps the rules of a name.
pub fn validate_function_name(name: &str) -> (checked: Result<(), NameError>)
    ensures
        match checked {
            Ok(()) => is_valid_name(name@),
            Err(error) => !is_valid_name(name@) && breaks_rule(name@, error),
        },
{
    if name.is_empty() {
        return Err(NameError::Empty);
    }
    if name.unicode_len() > MAX_NAME_LEN {
        return Err(NameError::TooLong);
    }
    let first: char = name.get_char(0);
    if !('a' <= first && first <= 'z') {
        return Err(NameError::BadStart);
    }
    for c in chars: name.chars()
        invariant
            chars.seq() == name@,
            0 < name@.len() <= MAX_NAME_LEN,
            is_lower_letter(name@[0]),
            forall|j: int| 0 <= j < chars.index() ==> is_name_char(#[trigger] name@[j]),
    {
        if !(('a' <= c && c <= 'z') || ('0' <= c && c <= '9') || c == '_') {
            assert(name@[chars.index()] == c);
            return Err(NameError::BadCharacter(c));
        }
    }
    Ok(())
}

} // verus!
