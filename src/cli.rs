//! Parsing of command-line variable assignments.
use vstd::prelude::*;
use vstd::string::StringExecFns;

use crate::text::owned;

verus! {

/// Whether `s` holds no `=` before position `n`.
pub open spec fn no_equals_before(s: Seq<char>, n: int) -> bool {
    forall|j: int| 0 <= j < n ==> s[j] != '='
}

pub open spec fn invalid_variable_text(s: Seq<char>) -> Seq<char> {
    "Invalid variable format: '"@ + s + "'. Expected format 'name=path'."@
}

fn invalid_variable_message(s: &str) -> (r: String)
    ensures
        r@ == invalid_variable_text(s@),
{
    let mut m = owned("Invalid variable format: '");
    m.append(s);
    m.append("'. Expected format 'name=path'.");
    m
}

/// Splits `name=path` at the first `=`: the name before it and the path after
/// it. Without an `=` the result is an error message quoting `s`.
pub fn parse_variable(s: &str) -> (r: Result<(String, String), String>)
    ensures
        (exists|i: int| 0 <= i < s@.len() && s@[i] == '=') ==> (r matches Ok(parts) && exists|i: int|
            0 <= i < s@.len() && s@[i] == '=' && no_equals_before(s@, i) && parts.0@ == s@.subrange(
                0,
                i,
            ) && parts.1@ == s@.subrange(i + 1, s@.len() as int)),
        (forall|i: int| 0 <= i < s@.len() ==> s@[i] != '=') ==> (r matches Err(m) && m@
            == invalid_variable_text(s@)),
{
    let n = s.unicode_len();
    let mut i: usize = 0;
    while i < n
        invariant
            n == s@.len(),
            i <= n,
            no_equals_before(s@, i as int),
        decreases n - i,
    {
        if s.get_char(i) == '=' {
            let name = owned(s.substring_char(0, i));
            let path = owned(s.substring_char(i + 1, n));
            return Ok((name, path));
        }
        i = i + 1;
    }
    Err(invalid_variable_message(s))
}

} // verus!
