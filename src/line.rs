use vstd::prelude::*;

use crate::text::{trim, trimmed};
use crate::vars::{parse_var, unquoted};

verus! {

/// Whether `i` is the position of the first `=` in `l`.
pub open spec fn is_first_eq(l: Seq<char>, i: int) -> bool {
    &&& 0 <= i < l.len()
    &&& l[i] == '='
    &&& forall|k: int| 0 <= k < i ==> l[k] != '='
}

/// Whether `l` is skipped without a look at its content: it is empty, or it
/// starts with `#`.
pub open spec fn is_blank_or_comment(l: Seq<char>) -> bool {
    l.len() == 0 || l[0] == '#'
}

/// The entry that one line of a file contributes, if any.
///
/// Empty lines, lines starting with `#` and lines without `=` contribute
/// nothing. Any other line is split on its first `=`; the key is the part
/// before it with surrounding white space removed, and the value is the part
/// after it, with surrounding white space removed and then unquoted.
pub open spec fn line_entry(l: Seq<char>) -> Option<(Seq<char>, Seq<char>)> {
    if is_blank_or_comment(l) || !(exists|i: int| is_first_eq(l, i)) {
        None
    } else {
        let i = choose|i: int| is_first_eq(l, i);
        Some((trimmed(l.subrange(0, i)), unquoted(trimmed(l.subrange(i + 1, l.len() as int)))))
    }
}

/// The views of the two strings of an optional pair.
pub open spec fn pair_view(p: Option<(String, String)>) -> Option<(Seq<char>, Seq<char>)> {
    match p {
        Some(kv) => Some((kv.0@, kv.1@)),
        None => None,
    }
}

/// Parses one line of a file into a key and a value, as `line_entry` says.
pub fn parse_line(line: &str) -> (r: Option<(String, String)>)
    ensures
        pair_view(r) == line_entry(line@),
{
    let n = line.unicode_len();
    if n == 0 || line.get_char(0) == '#' {
        return None;
    }
    let mut i: usize = 0;
    while i < n
        invariant
            n == line@.len(),
            i <= n,
            !is_blank_or_comment(line@),
            forall|k: int| 0 <= k < i ==> line@[k] != '=',
        decreases n - i,
    {
        if line.get_char(i) == '=' {
            assert(is_first_eq(line@, i as int));
            let ghost j = choose|j: int| is_first_eq(line@, j);
            assert(j == i);
            let key = trim(line.substring_char(0, i));
            let value = parse_var(trim(line.substring_char(i + 1, n)));
            return Some((key, value));
        }
        i = i + 1;
    }
    None
}

} // verus!
