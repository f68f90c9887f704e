//! `KEY=value` command-line arguments.
use vstd::prelude::*;
use vstd::string::*;
use crate::text::{concat_text, find_char, is_first_index, slice_text};

verus! {

/// The key and value of `s`, split at its first `=`; none when it holds no `=`.
pub open spec fn key_val_spec(s: Seq<char>) -> Option<(Seq<char>, Seq<char>)> {
    if exists|i: int| is_first_index(s, '=', i) {
        let i = choose|i: int| is_first_index(s, '=', i);
        Some((s.subrange(0, i), s.subrange(i + 1, s.len() as int)))
    } else {
        None
    }
}

/// The message for an argument without `=`.
pub open spec fn key_val_error_spec(s: Seq<char>) -> Seq<char> {
    "invalid KEY=value: no `=` found in `"@ + s + "`"@
}

/// Splits a `KEY=value` argument at its first `=`.
pub fn parse_key_val(s: &str) -> (r: Result<(String, String), String>)
    ensures
        match r {
            Ok((k, v)) => key_val_spec(s@) == Some((k@, v@)),
            Err(e) => key_val_spec(s@).is_none() && e@ == key_val_error_spec(s@),
        },
{
    let n = s.unicode_len();
    match find_char(s, '=') {
        Some(pos) => {
            assert forall|k: int| is_first_index(s@, '=', k) implies k == pos as int by {
                if k < pos {
                    assert(s@[k] != '=');
                } else if k > pos {
                    assert(s@[pos as int] != '=');
                }
            }
            Ok((slice_text(s, 0, pos), slice_text(s, pos + 1, n)))
        },
        None => {
            let head = concat_text("invalid KEY=value: no `=` found in `", s);
            Err(concat_text(head.as_str(), "`"))
        },
    }
}

} // verus!
