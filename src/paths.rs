//! Paths as `/`-separated text: joining, the final component, and containment.
use vstd::prelude::*;
use vstd::string::*;
use crate::text::{concat_text, has_prefix, is_last_index, rfind_char, slice_text, starts_with_text, text_eq};

verus! {

/// `base` joined with `rel`: an absolute `rel` replaces `base`; otherwise one `/` separates them.
pub open spec fn join_spec(base: Seq<char>, rel: Seq<char>) -> Seq<char> {
    if rel.len() > 0 && rel[0] == '/' {
        rel
    } else if base.len() == 0 || base.last() == '/' {
        base + rel
    } else {
        base + seq!['/'] + rel
    }
}

/// The text after the last `/` of `p` (all of `p` when it holds none).
pub open spec fn last_segment(p: Seq<char>) -> Seq<char> {
    if exists|i: int| is_last_index(p, '/', i) {
        let i = choose|i: int| is_last_index(p, '/', i);
        p.subrange(i + 1, p.len() as int)
    } else {
        p
    }
}

/// The final component of `p`; none for a path that ends in `/`, `.` or `..`.
pub open spec fn file_name_spec(p: Seq<char>) -> Option<Seq<char>> {
    let s = last_segment(p);
    if s.len() == 0 || s == seq!['.'] || s == seq!['.', '.'] {
        None
    } else {
        Some(s)
    }
}

/// `p` is `base` itself or lies below it.
pub open spec fn within_spec(p: Seq<char>, base: Seq<char>) -> bool {
    if base.len() > 0 && base.last() == '/' {
        has_prefix(p, base)
    } else {
        p == base || has_prefix(p, base + seq!['/'])
    }
}

/// The registry directory under a home directory.
pub open spec fn projects_dir_spec(home: Seq<char>) -> Seq<char> {
    join_spec(home, seq!['p', 'r', 'o', 'j', 'e', 'c', 't', 's'])
}

/// The archives directory under a home directory.
pub open spec fn archives_dir_spec(home: Seq<char>) -> Seq<char> {
    join_spec(home, seq!['.', 'p', 'r', 'o', 'j', '/', 'a', 'r', 'c', 'h', 'i', 'v', 'e', 's'])
}

/// The directory inside a project that holds its manifest.
pub open spec fn manifest_dir_spec(root: Seq<char>) -> Seq<char> {
    join_spec(root, seq!['.', 'p', 'r', 'o', 'j'])
}

/// The manifest file of a project.
pub open spec fn manifest_file_spec(root: Seq<char>) -> Seq<char> {
    join_spec(root, seq!['.', 'p', 'r', 'o', 'j', '/', 'p', 'r', 'o', 'j', 'e', 'c', 't', '.', 'j', 's', 'o', 'n'])
}

/// `base` joined with `rel`.
pub fn join(base: &str, rel: &str) -> (r: String)
    ensures
        r@ == join_spec(base@, rel@),
{
    let n = base.unicode_len();
    if rel.unicode_len() > 0 && rel.get_char(0) == '/' {
        String::from_str(rel)
    } else if n == 0 || base.get_char(n - 1) == '/' {
        concat_text(base, rel)
    } else {
        let with_sep = concat_text(base, "/");
        proof {
            reveal_strlit("/");
        }
        let r = concat_text(with_sep.as_str(), rel);
        assert(r@ == base@ + seq!['/'] + rel@);
        r
    }
}

/// The text after the last `/` of `p`.
pub fn last_segment_of(p: &str) -> (r: String)
    ensures
        r@ == last_segment(p@),
{
    let n = p.unicode_len();
    match rfind_char(p, '/') {
        Some(i) => {
            assert(is_last_index(p@, '/', i as int));
            assert forall|k: int| is_last_index(p@, '/', k) implies k == i as int by {
                if k < i {
                    assert(p@[i as int] != '/');
                } else if k > i {
                    assert(p@[k] != '/');
                }
            }
            slice_text(p, i + 1, n)
        },
        None => String::from_str(p),
    }
}

/// The final component of `p`.
pub fn file_name(p: &str) -> (r: Option<String>)
    ensures
        match r {
            Some(s) => file_name_spec(p@) == Some(s@),
            None => file_name_spec(p@).is_none(),
        },
{
    let s = last_segment_of(p);
    let dot = ".";
    let dots = "..";
    proof {
        reveal_strlit(".");
        reveal_strlit("..");
        assert(dot@ == seq!['.']);
        assert(dots@ == seq!['.', '.']);
    }
    if s.as_str().unicode_len() == 0 || text_eq(s.as_str(), dot) || text_eq(s.as_str(), dots) {
        None
    } else {
        Some(s)
    }
}

/// Whether `p` is `base` or lies below it.
pub fn is_within(p: &str, base: &str) -> (r: bool)
    ensures
        r == within_spec(p@, base@),
{
    let n = base.unicode_len();
    if n > 0 && base.get_char(n - 1) == '/' {
        starts_with_text(p, base)
    } else {
        let with_sep = concat_text(base, "/");
        proof {
            reveal_strlit("/");
        }
        assert(with_sep@ == base@ + seq!['/']);
        text_eq(p, base) || starts_with_text(p, with_sep.as_str())
    }
}

/// The registry directory under `home`.
pub fn projects_dir_in(home: &str) -> (r: String)
    ensures
        r@ == projects_dir_spec(home@),
{
    proof {
        reveal_strlit("projects");
    }
    join(home, "projects")
}

/// The archives directory under `home`.
pub fn archives_dir_in(home: &str) -> (r: String)
    ensures
        r@ == archives_dir_spec(home@),
{
    proof {
        reveal_strlit(".proj/archives");
    }
    join(home, ".proj/archives")
}

/// The manifest directory of the project at `root`.
pub fn manifest_dir(root: &str) -> (r: String)
    ensures
        r@ == manifest_dir_spec(root@),
{
    proof {
        reveal_strlit(".proj");
    }
    join(root, ".proj")
}

/// The manifest file of the project at `root`.
pub fn manifest_file(root: &str) -> (r: String)
    ensures
        r@ == manifest_file_spec(root@),
{
    proof {
        reveal_strlit(".proj/project.json");
    }
    join(root, ".proj/project.json")
}

/// Relies on dirs::home_dir: the user's home directory, when the platform reports one.
/// What it returns depends on the environment, so nothing is stated of it.
#[verifier::external_body]
fn home_dir() -> (r: Option<String>) {
    dirs::home_dir().map(|p| p.to_string_lossy().into_owned())
}

/// The registry directory (`<home>/projects`), when a home directory is known.
pub fn projects_dir() -> (r: Option<String>)
    ensures
        match r {
            Some(p) => exists|h: Seq<char>| p@ == projects_dir_spec(h),
            None => true,
        },
{
    match home_dir() {
        Some(h) => Some(projects_dir_in(h.as_str())),
        None => None,
    }
}

/// The archives directory (`<home>/.proj/archives`), when a home directory is known.
pub fn get_archives_dir() -> (r: Option<String>)
    ensures
        match r {
            Some(p) => exists|h: Seq<char>| p@ == archives_dir_spec(h),
            None => true,
        },
{
    match home_dir() {
        Some(h) => Some(archives_dir_in(h.as_str())),
        None => None,
    }
}

} // verus!
