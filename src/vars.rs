use vstd::prelude::*;

verus! {

/// Whether `s` is wrapped in one pair of double quotes: at least two
/// characters, the first and the last of them `"`.
pub open spec fn is_quoted(s: Seq<char>) -> bool {
    s.len() >= 2 && s[0] == '"' && s[s.len() - 1] == '"'
}

/// The value that a raw value string stands for: one layer of surrounding
/// double quotes removed, any other string as it is.
pub open spec fn unquoted(s: Seq<char>) -> Seq<char> {
    if is_quoted(s) {
        s.subrange(1, s.len() - 1)
    } else {
        s
    }
}

/// Strips one layer of surrounding double quotes from `value`.
///
/// A string of fewer than two characters (a lone `"` included) is returned
/// unchanged.
pub fn parse_var(value: String) -> (r: String)
    ensures
        r@ == unquoted(value@),
        is_quoted(value@) ==> r@ == value@.subrange(1, value@.len() - 1),
        !is_quoted(value@) ==> r@ == value@,
{
    let n = value.as_str().unicode_len();
    if n >= 2 && value.as_str().get_char(0) == '"' && value.as_str().get_char(n - 1) == '"' {
        let inner = value.as_str().substring_char(1, n - 1);
        String::from_str(inner)
    } else {
        value
    }
}

} // verus!
