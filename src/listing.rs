//! What the project listing shows and filters on.
use vstd::prelude::*;
use vstd::string::*;
use crate::manifest::{FieldValue, FieldView, Manifest};
use crate::paths::{file_name, file_name_spec};
use crate::text::text_eq;

verus! {

/// The status a manifest shows: its textual `status`, else `active`.
pub open spec fn project_status_spec(m: Map<Seq<char>, FieldView>) -> Seq<char> {
    let k = seq!['s', 't', 'a', 't', 'u', 's'];
    if m.contains_key(k) && m[k] is Text {
        m[k]->Text_0
    } else {
        seq!['a', 'c', 't', 'i', 'v', 'e']
    }
}

/// The status a manifest shows.
pub fn project_status(m: &Manifest) -> (r: String)
    ensures
        r@ == project_status_spec(m@),
{
    let (k, active) = ("status", "active");
    proof {
        reveal_strlit("status");
        reveal_strlit("active");
        assert(k@ =~= seq!['s', 't', 'a', 't', 'u', 's']);
        assert(active@ =~= seq!['a', 'c', 't', 'i', 'v', 'e']);
    }
    match m.get(k) {
        Some(FieldValue::Text(s)) => String::from_str(s.as_str()),
        _ => String::from_str(active),
    }
}

/// Whether a project of status `status` is listed under the filter `filter`: `all` lists
/// every project, any other filter those of exactly that status.
pub fn status_matches(filter: &str, status: &str) -> (r: bool)
    ensures
        r == (filter@ == seq!['a', 'l', 'l'] || status@ == filter@),
{
    let all = "all";
    proof {
        reveal_strlit("all");
        assert(all@ =~= seq!['a', 'l', 'l']);
    }
    text_eq(filter, all) || text_eq(status, filter)
}

/// The name shown for the project at `path`: its final component, or nothing.
pub fn display_name(path: &str) -> (r: String)
    ensures
        r@ == match file_name_spec(path@) {
            Some(n) => n,
            None => seq![],
        },
{
    match file_name(path) {
        Some(n) => n,
        None => String::new(),
    }
}

} // verus!
