//! What a clone's synthesized manifest takes from the cloned files: a description from the
//! README and a version from a tag, an `info.py` or a `VERSION` file.
use vstd::prelude::*;
use vstd::string::*;
use crate::text::{concat_text, find_char_from, has_prefix, is_first_index, slice_text, starts_with_text, text_eq, trim_spec, trim_text};

verus! {

/// A line without the `\r` of a `\r\n` ending.
pub open spec fn strip_cr(line: Seq<char>) -> Seq<char> {
    if line.len() > 0 && line.last() == '\r' {
        line.drop_last()
    } else {
        line
    }
}

/// The lines of `s`, as `str::lines` gives them: split at `\n`, a `\r` before it dropped,
/// no empty line after a final `\n`.
pub open spec fn lines_spec(s: Seq<char>) -> Seq<Seq<char>>
    decreases s.len(),
{
    if s.len() == 0 {
        seq![]
    } else if exists|i: int| is_first_index(s, '\n', i) {
        let i = choose|i: int| is_first_index(s, '\n', i);
        seq![strip_cr(s.subrange(0, i))] + lines_spec(s.subrange(i + 1, s.len() as int))
    } else {
        seq![s]
    }
}

/// The views of a vector of strings.
pub open spec fn string_views(v: Seq<String>) -> Seq<Seq<char>> {
    v.map_values(|s: String| s@)
}

/// The lines of `s`.
pub fn split_lines(s: &str) -> (r: Vec<String>)
    ensures
        string_views(r@) == lines_spec(s@),
{
    let n = s.unicode_len();
    let mut out: Vec<String> = Vec::new();
    let mut pos: usize = 0;
    assert(s@.subrange(0, n as int) =~= s@);
    assert(string_views(out@) =~= Seq::<Seq<char>>::empty());
    while pos < n
        invariant
            n == s@.len(),
            pos <= n,
            lines_spec(s@) == string_views(out@) + lines_spec(s@.subrange(pos as int, n as int)),
        decreases n - pos,
    {
        let ghost t = s@.subrange(pos as int, n as int);
        let ghost before = string_views(out@);
        match find_char_from(s, '\n', pos) {
            Some(e) => {
                let ghost k = (e - pos) as int;
                assert(is_first_index(t, '\n', k));
                assert forall|m: int| is_first_index(t, '\n', m) implies m == k by {
                    if m < k {
                        assert(t[m] == s@[pos + m]);
                    } else if m > k {
                        assert(t[k] == s@[e as int]);
                    }
                }
                assert(t.subrange(0, k) =~= s@.subrange(pos as int, e as int));
                assert(t.subrange(k + 1, t.len() as int) =~= s@.subrange(e + 1, n as int));
                let raw = slice_text(s, pos, e);
                let line = if e > pos && s.get_char(e - 1) == '\r' {
                    assert(raw@.last() == s@[e - 1]);
                    slice_text(s, pos, e - 1)
                } else {
                    raw
                };
                assert(line@ =~= strip_cr(s@.subrange(pos as int, e as int)));
                out.push(line);
                pos = e + 1;
            },
            None => {
                assert forall|m: int| !is_first_index(t, '\n', m) by {
                    if 0 <= m < t.len() {
                        assert(t[m] == s@[pos + m]);
                    }
                }
                out.push(slice_text(s, pos, n));
                pos = n;
                assert(s@.subrange(n as int, n as int) =~= Seq::<char>::empty());
            },
        }
        assert(string_views(out@) =~= before.push(string_views(out@).last()));
        assert(before + lines_spec(t) =~= string_views(out@) + lines_spec(s@.subrange(pos as int, n as int)));
    }
    assert(s@.subrange(n as int, n as int) =~= Seq::<char>::empty());
    assert(string_views(out@) + Seq::<Seq<char>>::empty() =~= string_views(out@));
    out
}

/// Lines joined by single spaces.
pub open spec fn join_spaces(ls: Seq<Seq<char>>) -> Seq<char>
    decreases ls.len(),
{
    if ls.len() == 0 {
        seq![]
    } else if ls.len() == 1 {
        ls[0]
    } else {
        join_spaces(ls.drop_last()) + seq![' '] + ls.last()
    }
}

/// The first three of `ls`, or all of them when there are fewer.
pub open spec fn first_three(ls: Seq<Seq<char>>) -> Seq<Seq<char>> {
    if ls.len() < 3 { ls } else { ls.take(3) }
}

/// The description taken from a README: its first three lines joined by spaces.
pub open spec fn readme_description_spec(content: Seq<char>) -> Seq<char> {
    join_spaces(first_three(lines_spec(content)))
}

/// The description taken from a README's content.
pub fn readme_description(content: &str) -> (r: String)
    ensures
        r@ == readme_description_spec(content@),
{
    let lines = split_lines(content);
    let ghost ls = string_views(lines@);
    let limit: usize = if lines.len() < 3 { lines.len() } else { 3 };
    let mut acc = String::new();
    let mut i: usize = 0;
    let sp = " ";
    proof {
        reveal_strlit(" ");
        assert(sp@ =~= seq![' ']);
        assert(ls.take(0) =~= Seq::<Seq<char>>::empty());
    }
    while i < limit
        invariant
            sp@ == seq![' '],
            ls == string_views(lines@),
            limit <= lines@.len(),
            limit <= 3,
            i <= limit,
            acc@ == join_spaces(ls.take(i as int)),
        decreases limit - i,
    {
        assert(ls.take(i + 1).drop_last() =~= ls.take(i as int));
        assert(ls.take(i + 1).last() == lines@[i as int]@);
        if i == 0 {
            acc = String::from_str(lines[i].as_str());
        } else {
            let with_sep = concat_text(acc.as_str(), sp);
            acc = concat_text(with_sep.as_str(), lines[i].as_str());
        }
        i = i + 1;
    }
    assert(ls.take(limit as int) =~= first_three(ls));
    acc
}

/// `__version__`
pub open spec fn version_marker() -> Seq<char> {
    seq!['_', '_', 'v', 'e', 'r', 's', 'i', 'o', 'n', '_', '_']
}

/// The part of `s` after its first `=`, up to the next `=` or the end.
pub open spec fn second_eq_field(s: Seq<char>) -> Option<Seq<char>> {
    if exists|i: int| is_first_index(s, '=', i) {
        let i = choose|i: int| is_first_index(s, '=', i);
        let after = s.subrange(i + 1, s.len() as int);
        if exists|j: int| is_first_index(after, '=', j) {
            Some(after.subrange(0, choose|j: int| is_first_index(after, '=', j)))
        } else {
            Some(after)
        }
    } else {
        None
    }
}

/// The version a line of `info.py` assigns: for a line starting `__version__` with an
/// `=`, the text after the `=`, without quotes and white space around it.
pub open spec fn line_version(line: Seq<char>) -> Option<Seq<char>> {
    if has_prefix(line, version_marker()) {
        match second_eq_field(line.subrange(version_marker().len() as int, line.len() as int)) {
            Some(f) => Some(trim_spec(f, true)),
            None => None,
        }
    } else {
        None
    }
}

/// The version the first assigning line among `lines` gives.
pub open spec fn first_line_version(lines: Seq<Seq<char>>) -> Option<Seq<char>>
    decreases lines.len(),
{
    if lines.len() == 0 {
        None
    } else {
        match line_version(lines[0]) {
            Some(v) => Some(v),
            None => first_line_version(lines.drop_first()),
        }
    }
}

/// The part of `s` after its first `=`, up to the next `=` or the end.
fn second_eq_field_of(s: &str) -> (r: Option<String>)
    ensures
        match r {
            Some(f) => second_eq_field(s@) == Some(f@),
            None => second_eq_field(s@).is_none(),
        },
{
    let n = s.unicode_len();
    match find_char_from(s, '=', 0) {
        Some(i) => {
            assert(is_first_index(s@, '=', i as int));
            assert forall|k: int| is_first_index(s@, '=', k) implies k == i as int by {
                if k < i {
                    assert(s@[k] != '=');
                } else if k > i {
                    assert(s@[i as int] != '=');
                }
            }
            let after = slice_text(s, i + 1, n);
            let m = after.as_str().unicode_len();
            match find_char_from(after.as_str(), '=', 0) {
                Some(j) => {
                    assert(is_first_index(after@, '=', j as int));
                    assert forall|k: int| is_first_index(after@, '=', k) implies k == j as int by {
                        if k < j {
                            assert(after@[k] != '=');
                        } else if k > j {
                            assert(after@[j as int] != '=');
                        }
                    }
                    Some(slice_text(after.as_str(), 0, j))
                },
                None => {
                    assert forall|k: int| !is_first_index(after@, '=', k) by {}
                    Some(after)
                },
            }
        },
        None => {
            assert forall|k: int| !is_first_index(s@, '=', k) by {}
            None
        },
    }
}

/// The version an `info.py` assigns to `__version__`, from its first assigning line.
pub fn version_from_info(content: &str) -> (r: Option<String>)
    ensures
        match r {
            Some(v) => first_line_version(lines_spec(content@)) == Some(v@),
            None => first_line_version(lines_spec(content@)).is_none(),
        },
{
    let lines = split_lines(content);
    let ghost ls = string_views(lines@);
    let marker = "__version__";
    proof {
        reveal_strlit("__version__");
        assert(marker@ =~= version_marker());
    }
    let mut i: usize = 0;
    assert(ls.subrange(0, ls.len() as int) =~= ls);
    while i < lines.len()
        invariant
            marker@ == version_marker(),
            ls == string_views(lines@),
            ls == lines_spec(content@),
            i <= lines@.len(),
            first_line_version(ls) == first_line_version(ls.subrange(i as int, ls.len() as int)),
        decreases lines@.len() - i,
    {
        let line = lines[i].as_str();
        let ghost rest = ls.subrange(i as int, ls.len() as int);
        assert(rest[0] == line@);
        assert(rest.drop_first() =~= ls.subrange(i + 1, ls.len() as int));
        if starts_with_text(line, marker) {
            let n = line.unicode_len();
            let tail = slice_text(line, 11, n);
            match second_eq_field_of(tail.as_str()) {
                Some(f) => {
                    assert(version_marker().len() == 11);
                    assert(line_version(line@) == Some(trim_spec(f@, true)));
                    let v = trim_text(f.as_str(), true);
                    assert(rest.len() > 0);
                    assert(first_line_version(rest) == Some(v@));
                    return Some(v);
                },
                None => {},
            }
        }
        i = i + 1;
    }
    None
}

/// `0.0.1`, the version of a clone that names none.
pub open spec fn default_version() -> Seq<char> {
    seq!['0', '.', '0', '.', '1']
}

/// The version a synthesized manifest records: the latest tag when there is one, else the
/// `info.py` version, else the `VERSION` file's, else `0.0.1`.
pub open spec fn resolve_version_spec(tag: Option<Seq<char>>, info: Option<Seq<char>>, file: Option<Seq<char>>) -> Seq<char> {
    match (tag, info, file) {
        (Some(t), _, _) => t,
        (None, Some(i), _) => i,
        (None, None, Some(f)) => f,
        (None, None, None) => default_version(),
    }
}

/// The version a synthesized manifest records, from the sources that were found.
pub fn resolve_version(tag: Option<&str>, info: Option<&str>, file: Option<&str>) -> (r: String)
    ensures
        r@ == resolve_version_spec(
            match tag { Some(t) => Some(t@), None => None },
            match info { Some(t) => Some(t@), None => None },
            match file { Some(t) => Some(t@), None => None },
        ),
{
    match (tag, info, file) {
        (Some(t), _, _) => String::from_str(t),
        (None, Some(i), _) => String::from_str(i),
        (None, None, Some(f)) => String::from_str(f),
        (None, None, None) => {
            let d = "0.0.1";
            proof {
                reveal_strlit("0.0.1");
                assert(d@ =~= default_version());
            }
            String::from_str(d)
        },
    }
}

/// The version given by a tag listing or a `VERSION` file: its text, trimmed.
pub fn version_text(output: &str) -> (r: String)
    ensures
        r@ == trim_spec(output@, false),
{
    trim_text(output, false)
}

/// The README files looked for, in order.
pub fn readme_names() -> (r: Vec<String>)
    ensures
        string_views(r@) == seq![
            seq!['R', 'E', 'A', 'D', 'M', 'E', '.', 'm', 'd'],
            seq!['R', 'E', 'A', 'D', 'M', 'E', '.', 'm', 'k', 'd'],
            seq!['R', 'E', 'A', 'D', 'M', 'E'],
        ],
{
    let (a, b, c) = ("README.md", "README.mkd", "README");
    proof {
        reveal_strlit("README.md");
        reveal_strlit("README.mkd");
        reveal_strlit("README");
        assert(a@ =~= seq!['R', 'E', 'A', 'D', 'M', 'E', '.', 'm', 'd']);
        assert(b@ =~= seq!['R', 'E', 'A', 'D', 'M', 'E', '.', 'm', 'k', 'd']);
        assert(c@ =~= seq!['R', 'E', 'A', 'D', 'M', 'E']);
    }
    let mut r: Vec<String> = Vec::new();
    r.push(String::from_str(a));
    r.push(String::from_str(b));
    r.push(String::from_str(c));
    assert(string_views(r@) =~= seq![
        seq!['R', 'E', 'A', 'D', 'M', 'E', '.', 'm', 'd'],
        seq!['R', 'E', 'A', 'D', 'M', 'E', '.', 'm', 'k', 'd'],
        seq!['R', 'E', 'A', 'D', 'M', 'E'],
    ]);
    r
}

} // verus!
