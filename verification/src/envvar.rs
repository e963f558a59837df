//! Environment variable bindings of the form `NAME=VAL`: the name is
//! everything before the first `=`, the value everything after it. A
//! binding without `=` is a command-line parse failure, found before
//! any engine setup.

use vstd::prelude::*;
use crate::errors::HostError;

verus! {

/// Whether the binding text contains a separator at all.
pub open spec fn spec_has_separator(s: Seq<char>) -> bool {
    exists|i: int| 0 <= i < s.len() && s[i] == '='
}

/// Splits `NAME=VAL` at the first `=`. The name may be empty and the
/// value may itself contain further `=` characters.
pub fn parse_env_var(s: &str) -> (r: Result<(String, String), HostError>)
    ensures
        match r {
            Ok(kv) => {
                &&& spec_has_separator(s@)
                &&& kv.0@ + seq!['='] + kv.1@ == s@
                &&& forall|i: int| 0 <= i < kv.0@.len() ==> kv.0@[i] != '='
            },
            Err(e) => !spec_has_separator(s@) && e == HostError::CliParseError,
        },
{
    let len = s.unicode_len();
    let mut i: usize = 0;
    while i < len
        invariant
            i <= len,
            len == s@.len(),
            forall|j: int| 0 <= j < i ==> s@[j] != '=',
        decreases len - i,
    {
        if s.get_char(i) == '=' {
            let name = s.substring_char(0, i);
            let value = s.substring_char(i + 1, len);
            proof {
                assert(name@ + seq!['='] + value@ =~= s@);
            }
            return Ok((String::from_str(name), String::from_str(value)));
        }
        i = i + 1;
    }
    Err(HostError::CliParseError)
}

} // verus!
