//! Archive entry names: the name a file gets inside an archive, and the path an entry is
//! written to when the archive is restored.
use vstd::prelude::*;
use vstd::string::*;
use crate::archive::{archive_file_name_spec, archive_path_spec, archive_stem_spec, archived_name_spec, restore_destination_spec};
use crate::paths::{archives_dir_spec, join, join_spec, projects_dir_spec, within_spec};
use crate::text::{concat_text, has_prefix, is_first_index, slice_text, starts_with_text};

verus! {

/// The name inside an archive of the file `file` under the root `root`: its path relative
/// to the root; none for a file outside the root, or the root itself.
pub open spec fn entry_name_spec(root: Seq<char>, file: Seq<char>) -> Option<Seq<char>> {
    let base = if root.len() > 0 && root.last() == '/' { root } else { root + seq!['/'] };
    if has_prefix(file, base) && file.len() > base.len() {
        Some(file.subrange(base.len() as int, file.len() as int))
    } else {
        None
    }
}

/// The archive entry name of `file`, a file found under `root`.
pub fn zip_entry_name(root: &str, file: &str) -> (r: Option<String>)
    ensures
        match r {
            Some(s) => entry_name_spec(root@, file@) == Some(s@),
            None => entry_name_spec(root@, file@).is_none(),
        },
{
    let n = root.unicode_len();
    let base = if n > 0 && root.get_char(n - 1) == '/' {
        String::from_str(root)
    } else {
        proof {
            reveal_strlit("/");
        }
        concat_text(root, "/")
    };
    assert(base@ == (if root@.len() > 0 && root@.last() == '/' { root@ } else { root@ + seq!['/'] }));
    let b = base.as_str().unicode_len();
    let m = file.unicode_len();
    if starts_with_text(file, base.as_str()) && m > b {
        Some(slice_text(file, b, m))
    } else {
        None
    }
}

/// A path component that names a child: not empty, `.` or `..`.
pub open spec fn is_normal_segment(seg: Seq<char>) -> bool {
    seg.len() > 0 && seg != seq!['.'] && seg != seq!['.', '.']
}

/// Two paths joined by one `/`, where either may be empty.
pub open spec fn glue(a: Seq<char>, b: Seq<char>) -> Seq<char> {
    if a.len() == 0 {
        b
    } else if b.len() == 0 {
        a
    } else {
        a + seq!['/'] + b
    }
}

/// The normal components of `cur + s`, where `cur` is a component begun before `s`,
/// joined by `/`.
pub open spec fn keep_normal(s: Seq<char>, cur: Seq<char>) -> Seq<char>
    decreases s.len(),
{
    if s.len() == 0 {
        if is_normal_segment(cur) { cur } else { seq![] }
    } else if s[0] == '/' {
        let rest = keep_normal(s.drop_first(), seq![]);
        if is_normal_segment(cur) { glue(cur, rest) } else { rest }
    } else {
        keep_normal(s.drop_first(), cur.push(s[0]))
    }
}

/// An entry name with every empty, `.` and `..` component dropped.
pub open spec fn sanitize_spec(name: Seq<char>) -> Seq<char> {
    keep_normal(name, seq![])
}

/// Where the entry named `name` is written under the destination `dest`.
pub open spec fn entry_target_spec(dest: Seq<char>, name: Seq<char>) -> Seq<char> {
    join_spec(dest, sanitize_spec(name))
}

proof fn lemma_glue_assoc(a: Seq<char>, b: Seq<char>, c: Seq<char>)
    ensures
        glue(a, glue(b, c)) == glue(glue(a, b), c),
{
    if a.len() > 0 && b.len() > 0 && c.len() > 0 {
        assert(a + seq!['/'] + (b + seq!['/'] + c) =~= a + seq!['/'] + b + seq!['/'] + c);
    }
}

/// `a` and `b` joined by one `/`, where either may be empty.
pub fn glue_text(a: &str, b: &str) -> (r: String)
    ensures
        r@ == glue(a@, b@),
{
    if a.unicode_len() == 0 {
        String::from_str(b)
    } else if b.unicode_len() == 0 {
        String::from_str(a)
    } else {
        proof {
            reveal_strlit("/");
        }
        let with_sep = concat_text(a, "/");
        concat_text(with_sep.as_str(), b)
    }
}

/// An entry name with its empty, `.` and `..` components dropped.
pub fn sanitize_entry_name(name: &str) -> (r: String)
    ensures
        r@ == sanitize_spec(name@),
{
    let n = name.unicode_len();
    let mut acc = String::new();
    let mut start: usize = 0;
    let mut i: usize = 0;
    proof {
        assert(name@.subrange(0, 0) =~= Seq::<char>::empty());
        assert(name@.subrange(0, n as int) =~= name@);
    }
    while i < n
        invariant
            n == name@.len(),
            start <= i <= n,
            sanitize_spec(name@) == glue(
                acc@,
                keep_normal(name@.subrange(i as int, n as int), name@.subrange(start as int, i as int)),
            ),
        decreases n - i,
    {
        let c = name.get_char(i);
        let ghost tail = name@.subrange(i as int, n as int);
        assert(tail.drop_first() =~= name@.subrange(i + 1, n as int));
        if c == '/' {
            let seg = slice_text(name, start, i);
            proof {
                lemma_glue_assoc(acc@, seg@, keep_normal(name@.subrange(i + 1, n as int), seq![]));
            }
            if is_normal(seg.as_str()) {
                acc = glue_text(acc.as_str(), seg.as_str());
            }
            start = i + 1;
            assert(name@.subrange(start as int, start as int) =~= Seq::<char>::empty());
        } else {
            assert(name@.subrange(start as int, i + 1) =~= name@.subrange(start as int, i as int).push(c));
        }
        i = i + 1;
    }
    assert(name@.subrange(n as int, n as int) =~= Seq::<char>::empty());
    let seg = slice_text(name, start, n);
    if is_normal(seg.as_str()) {
        glue_text(acc.as_str(), seg.as_str())
    } else {
        acc
    }
}

/// Whether a component names a child.
fn is_normal(seg: &str) -> (r: bool)
    ensures
        r == is_normal_segment(seg@),
{
    let n = seg.unicode_len();
    if n == 0 {
        return false;
    }
    if n == 1 {
        let c = seg.get_char(0);
        if c == '.' {
            assert(seg@ =~= seq!['.']);
        }
        return c != '.';
    }
    if n == 2 {
        let c0 = seg.get_char(0);
        let c1 = seg.get_char(1);
        if c0 == '.' && c1 == '.' {
            assert(seg@ =~= seq!['.', '.']);
        }
        return !(c0 == '.' && c1 == '.');
    }
    true
}

/// The path under `dest` that the archive entry `name` is written to.
pub fn restore_entry_target(dest: &str, name: &str) -> (r: String)
    ensures
        r@ == entry_target_spec(dest@, name@),
{
    let clean = sanitize_entry_name(name);
    join(dest, clean.as_str())
}

/// The archive entry names of `files`, the regular files found under `root`; none when one
/// of them lies outside it.
pub fn archive_entries(root: &str, files: &Vec<String>) -> (r: Option<Vec<String>>)
    ensures
        match r {
            Some(v) => v@.len() == files@.len() && forall|i: int| 0 <= i < files@.len()
                ==> entry_name_spec(root@, #[trigger] files@[i]@) == Some(v@[i]@),
            None => exists|i: int| 0 <= i < files@.len() && entry_name_spec(root@, #[trigger] files@[i]@).is_none(),
        },
{
    let mut v: Vec<String> = Vec::new();
    let mut i: usize = 0;
    while i < files.len()
        invariant
            i <= files@.len(),
            v@.len() == i,
            forall|j: int| 0 <= j < i ==> entry_name_spec(root@, #[trigger] files@[j]@) == Some(v@[j]@),
        decreases files@.len() - i,
    {
        match zip_entry_name(root, files[i].as_str()) {
            Some(n) => v.push(n),
            None => {
                assert(entry_name_spec(root@, files@[i as int]@).is_none());
                return None;
            },
        }
        i = i + 1;
    }
    Some(v)
}

/// Where each archive entry of `names` is written under `dest`: inside `dest`, whatever the
/// names hold.
pub fn restore_targets(dest: &str, names: &Vec<String>) -> (r: Vec<String>)
    ensures
        r@.len() == names@.len(),
        forall|i: int| 0 <= i < names@.len() ==> #[trigger] r@[i]@ == entry_target_spec(dest@, names@[i]@),
        dest@.len() > 0 ==> forall|i: int| 0 <= i < names@.len() ==> within_spec(#[trigger] r@[i]@, dest@),
{
    let mut v: Vec<String> = Vec::new();
    let mut i: usize = 0;
    while i < names.len()
        invariant
            i <= names@.len(),
            v@.len() == i,
            forall|j: int| 0 <= j < i ==> #[trigger] v@[j]@ == entry_target_spec(dest@, names@[j]@),
            dest@.len() > 0 ==> forall|j: int| 0 <= j < i ==> within_spec(#[trigger] v@[j]@, dest@),
        decreases names@.len() - i,
    {
        let t = restore_entry_target(dest, names[i].as_str());
        proof {
            if dest@.len() > 0 {
                lemma_entry_target_within(dest@, names@[i as int]@);
            }
        }
        v.push(t);
        i = i + 1;
    }
    v
}

/// Components joined by `/`.
pub open spec fn join_segments(segs: Seq<Seq<char>>) -> Seq<char>
    decreases segs.len(),
{
    if segs.len() == 0 {
        seq![]
    } else if segs.len() == 1 {
        segs[0]
    } else {
        segs[0] + seq!['/'] + join_segments(segs.drop_first())
    }
}

/// Every component names a child and holds no `/`.
pub open spec fn clean_segments(segs: Seq<Seq<char>>) -> bool {
    forall|i: int| 0 <= i < segs.len() ==> is_normal_segment(#[trigger] segs[i]) && !segs[i].contains('/')
}

proof fn lemma_keep_normal_no_slash_prefix(t: Seq<char>, u: Seq<char>, cur: Seq<char>)
    requires
        !t.contains('/'),
    ensures
        keep_normal(t + u, cur) == keep_normal(u, cur + t),
    decreases t.len(),
{
    if t.len() == 0 {
        assert(t + u =~= u);
        assert(cur + t =~= cur);
    } else {
        assert((t + u)[0] == t[0]);
        assert((t + u).drop_first() =~= t.drop_first() + u);
        assert(!t.drop_first().contains('/')) by {
            if t.drop_first().contains('/') {
                let k = choose|k: int| 0 <= k < t.drop_first().len() && t.drop_first()[k] == '/';
                assert(t[k + 1] == '/');
            }
        }
        assert(t[0] != '/') by {
            if t[0] == '/' {
                assert(t.contains('/'));
            }
        }
        lemma_keep_normal_no_slash_prefix(t.drop_first(), u, cur.push(t[0]));
        assert(cur.push(t[0]) + t.drop_first() =~= cur + t);
    }
}

proof fn lemma_join_segments_nonempty(segs: Seq<Seq<char>>)
    requires
        segs.len() > 0,
        clean_segments(segs),
    ensures
        join_segments(segs).len() > 0,
        join_segments(segs)[0] != '/',
    decreases segs.len(),
{
    assert(is_normal_segment(segs[0]) && !segs[0].contains('/'));
    if segs[0][0] == '/' {
        assert(segs[0].contains('/'));
    }
}

/// A path of clean components is its own sanitized form.
proof fn lemma_sanitize_clean(segs: Seq<Seq<char>>)
    requires
        segs.len() > 0,
        clean_segments(segs),
    ensures
        sanitize_spec(join_segments(segs)) == join_segments(segs),
    decreases segs.len(),
{
    let s0 = segs[0];
    assert(is_normal_segment(s0) && !s0.contains('/'));
    if segs.len() == 1 {
        lemma_keep_normal_no_slash_prefix(s0, seq![], seq![]);
        assert(s0 + Seq::<char>::empty() =~= s0);
        assert(Seq::<char>::empty() + s0 =~= s0);
    } else {
        let rest = segs.drop_first();
        assert(clean_segments(rest)) by {
            assert forall|i: int| 0 <= i < rest.len() implies is_normal_segment(#[trigger] rest[i]) && !rest[i].contains('/') by {
                assert(rest[i] == segs[i + 1]);
            }
        }
        let j = join_segments(rest);
        lemma_sanitize_clean(rest);
        lemma_join_segments_nonempty(rest);
        let tail = seq!['/'] + j;
        assert(s0 + seq!['/'] + j =~= s0 + tail);
        lemma_keep_normal_no_slash_prefix(s0, tail, seq![]);
        assert(Seq::<char>::empty() + s0 =~= s0);
        assert(tail[0] == '/');
        assert(tail.drop_first() =~= j);
    }
}

proof fn lemma_keep_normal_no_leading_slash(s: Seq<char>, cur: Seq<char>)
    requires
        !cur.contains('/'),
    ensures
        keep_normal(s, cur).len() == 0 || keep_normal(s, cur)[0] != '/',
    decreases s.len(),
{
    if s.len() == 0 {
        if cur.len() > 0 && cur[0] == '/' {
            assert(cur.contains('/'));
        }
    } else if s[0] == '/' {
        lemma_keep_normal_no_leading_slash(s.drop_first(), seq![]);
        if cur.len() > 0 && cur[0] == '/' {
            assert(cur.contains('/'));
        }
    } else {
        assert(!cur.push(s[0]).contains('/')) by {
            if cur.push(s[0]).contains('/') {
                let k = choose|k: int| 0 <= k < cur.push(s[0]).len() && cur.push(s[0])[k] == '/';
                if k < cur.len() {
                    assert(cur[k] == '/');
                }
            }
        }
        lemma_keep_normal_no_leading_slash(s.drop_first(), cur.push(s[0]));
    }
}

/// Whatever an archive entry is named, restoring it writes inside the destination directory.
pub proof fn lemma_entry_target_within(dest: Seq<char>, name: Seq<char>)
    requires
        dest.len() > 0,
    ensures
        within_spec(entry_target_spec(dest, name), dest),
{
    let clean = sanitize_spec(name);
    lemma_keep_normal_no_leading_slash(name, seq![]);
    if dest.last() == '/' {
        assert((dest + clean).subrange(0, dest.len() as int) =~= dest);
    } else {
        let base = dest + seq!['/'];
        assert((base + clean).subrange(0, base.len() as int) =~= base);
    }
}

/// Archiving a project `name` whose files lie at clean relative paths under `root`, and
/// restoring that archive to the default place, puts each file at the same relative path
/// under `<registry>/<name>`, for a name without `_`: the archive is listed as
/// `<name>_<stamp>`, restoring that name reads the very file archiving wrote, the
/// project's name comes back from it, and each entry lands at its relative path.
pub proof fn lemma_archive_restore_round_trip(
    root: Seq<char>,
    home: Seq<char>,
    name: Seq<char>,
    stamp: Seq<char>,
    segs: Seq<Seq<char>>,
)
    requires
        root.len() > 0,
        segs.len() > 0,
        clean_segments(segs),
        !name.contains('_'),
    ensures
        ({
            let rel = join_segments(segs);
            let stem = archive_stem_spec(name, stamp);
            &&& archived_name_spec(stem) == name
            &&& restore_destination_spec(stem, None, home) == join_spec(projects_dir_spec(home), name)
            &&& entry_name_spec(root, join_spec(root, rel)) == Some(rel)
            &&& entry_target_spec(restore_destination_spec(stem, None, home), rel)
                == join_spec(restore_destination_spec(stem, None, home), rel)
            &&& archive_path_spec(archives_dir_spec(home), stem)
                == join_spec(archives_dir_spec(home), archive_file_name_spec(name, stamp))
        }),
{
    let rel = join_segments(segs);
    let stem = archive_stem_spec(name, stamp);
    lemma_join_segments_nonempty(segs);
    lemma_sanitize_clean(segs);
    let n = name.len() as int;
    assert(is_first_index(stem, '_', n)) by {
        assert forall|j: int| 0 <= j < n implies stem[j] != '_' by {
            assert(stem[j] == name[j]);
            if name[j] == '_' {
                assert(name.contains('_'));
            }
        }
    }
    assert forall|k: int| is_first_index(stem, '_', k) implies k == n by {
        if k < n {
            assert(stem[k] == name[k]);
            assert(name.contains('_'));
        }
    }
    assert(stem.subrange(0, n) =~= name);
    assert(stem + seq!['.', 'z', 'i', 'p'] =~= archive_file_name_spec(name, stamp));
    if root.last() == '/' {
        let file = root + rel;
        assert(file.subrange(0, root.len() as int) =~= root);
        assert(file.subrange(root.len() as int, file.len() as int) =~= rel);
    } else {
        let file = root + seq!['/'] + rel;
        assert(file.subrange(0, root.len() as int + 1) =~= root + seq!['/']);
        assert(file.subrange(root.len() as int + 1, file.len() as int) =~= rel);
    }
}

} // verus!
