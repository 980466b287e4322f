//! Path-string sanitizing for asset and log file names.

use vstd::prelude::*;

verus! {

use vstd::string::*;

/// Characters that never belong in a file name.
pub open spec fn is_invalid_path_char(c: char) -> bool {
    c == ':' || c == '*' || c == '?' || c == '"' || c == '<' || c == '>' || c == '|'
}

/// The two separator characters, replaced only on request.
pub open spec fn is_slash(c: char) -> bool {
    c == '\\' || c == '/'
}

/// What `sanitize` turns one character into.
pub open spec fn sanitized_char(c: char, sanitize_slashes: bool) -> char {
    if is_invalid_path_char(c) || (sanitize_slashes && is_slash(c)) {
        '_'
    } else {
        c
    }
}

/// Replaces every character that is invalid in a file name with `_`; with
/// `sanitize_slashes` the separators are replaced too, flattening the value
/// into a single name.  Every other character stays as it is.
pub fn sanitize(value: &str, sanitize_slashes: bool) -> (result: String)
    ensures
        result@.len() == value@.len(),
        forall|i: int|
            0 <= i < value@.len() ==> result@[i] == sanitized_char(value@[i], sanitize_slashes),
{
    let len = value.unicode_len();
    let mut result = String::new();
    let mut i: usize = 0;
    while i < len
        invariant
            len == value@.len(),
            i <= len,
            result@.len() == i,
            forall|j: int|
                0 <= j < i ==> result@[j] == sanitized_char(value@[j], sanitize_slashes),
        decreases len - i,
    {
        let c = value.get_char(i);
        let replace = c == ':' || c == '*' || c == '?' || c == '"' || c == '<' || c == '>' || c
            == '|' || (sanitize_slashes && (c == '\\' || c == '/'));
        if replace {
            result.append("_");
            proof {
                reveal_strlit("_");
            }
        } else {
            let piece = value.substring_char(i, i + 1);
            result.append(piece);
        }
        i = i + 1;
    }
    result
}

} // verus!
