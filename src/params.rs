//! `KEY=value` parameters given on the command line.

use vstd::prelude::*;

verus! {

/// Index of the first occurrence of `c` in `s`, if any.
fn first_index_of(s: &str, c: char) -> (r: Option<usize>)
    ensures
        match r {
            Some(i) => i < s@.len() && s@[i as int] == c && forall|j: int|
                0 <= j < i ==> s@[j] != c,
            None => forall|j: int| 0 <= j < s@.len() ==> s@[j] != c,
        },
{
    let n = s.unicode_len();
    let mut i: usize = 0;
    while i < n
        invariant
            n == s@.len(),
            i <= n,
            forall|j: int| 0 <= j < i ==> s@[j] != c,
        decreases n - i,
    {
        if s.get_char(i) == c {
            return Some(i);
        }
        i = i + 1;
    }
    None
}

/// A parameter that is not of the form `KEY=value`.
pub struct KeyValError {
    pub input: String,
}

impl KeyValError {
    /// The human-readable description of the error.
    pub fn message(&self) -> (r: String)
        ensures
            r@ == "Invalid KEY=value format: "@ + self.input@,
    {
        let mut r = String::from_str("Invalid KEY=value format: ");
        r.append(self.input.as_str());
        r
    }
}

/// Splits `s` at its first `=`: the key is what precedes it, the value all
/// that follows (further `=` included).
pub fn parse_key_val(s: &str) -> (r: Result<(String, String), KeyValError>)
    ensures
        match r {
            Ok((k, v)) => exists|p: int|
                0 <= p < s@.len() && s@[p] == '=' && (forall|j: int| 0 <= j < p ==> s@[j] != '=')
                    && k@ == s@.subrange(0, p) && v@ == s@.subrange(p + 1, s@.len() as int),
            Err(e) => e.input@ == s@ && forall|j: int| 0 <= j < s@.len() ==> s@[j] != '=',
        },
{
    match first_index_of(s, '=') {
        Some(p) => {
            let n = s.unicode_len();
            let k = s.substring_char(0, p).to_string();
            let v = s.substring_char(p + 1, n).to_string();
            Ok((k, v))
        },
        None => Err(KeyValError { input: s.to_string() }),
    }
}

} // verus!
