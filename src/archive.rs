//! The archive engine: naming archives, choosing what to archive, listing and removing
//! archives, and restoring one into a fresh directory.
use vstd::prelude::*;
use vstd::string::*;
use crate::paths::{archives_dir_in, archives_dir_spec, is_within, join, join_spec, projects_dir_in, projects_dir_spec, within_spec};
use crate::plan::{outcome_of, steps_of, writes_nothing, FsAction, FsStep, ProjError};
use crate::text::{concat_text, ends_with_text, find_char, has_suffix, is_first_index, slice_text};

verus! {

/// `.zip`
pub open spec fn zip_ext() -> Seq<char> {
    seq!['.', 'z', 'i', 'p']
}

/// The name under which an archive is listed: `<project>_<stamp>`.
pub open spec fn archive_stem_spec(name: Seq<char>, stamp: Seq<char>) -> Seq<char> {
    name + seq!['_'] + stamp
}

/// The file name of an archive: `<project>_<stamp>.zip`.
pub open spec fn archive_file_name_spec(name: Seq<char>, stamp: Seq<char>) -> Seq<char> {
    archive_stem_spec(name, stamp) + zip_ext()
}

/// The project name recorded in an archive's name: everything before its first `_`.
pub open spec fn archived_name_spec(archive: Seq<char>) -> Seq<char> {
    if exists|i: int| is_first_index(archive, '_', i) {
        archive.subrange(0, choose|i: int| is_first_index(archive, '_', i))
    } else {
        archive
    }
}

/// Relies on chrono's Local::now and its formatting: the local time as `YYYYMMDD_HHMMSS`.
/// It depends on the clock; what holds of every outcome is that it is made of the digits and
/// signs of the numeric fields and `_`, so it holds no `/`.
#[verifier::external_body]
fn local_timestamp() -> (r: String)
    ensures
        !r@.contains('/'),
{
    chrono::Local::now().format("%Y%m%d_%H%M%S").to_string()
}

/// The file name of an archive of `name` made at `stamp`.
pub fn archive_file_name(name: &str, stamp: &str) -> (r: String)
    ensures
        r@ == archive_file_name_spec(name@, stamp@),
{
    proof {
        reveal_strlit("_");
        reveal_strlit(".zip");
    }
    let a = concat_text(name, "_");
    let b = concat_text(a.as_str(), stamp);
    concat_text(b.as_str(), ".zip")
}

/// The project name that an archive named `archive_name` restores to.
pub fn archived_project_name(archive_name: &str) -> (r: String)
    ensures
        r@ == archived_name_spec(archive_name@),
{
    match find_char(archive_name, '_') {
        Some(i) => {
            assert forall|k: int| is_first_index(archive_name@, '_', k) implies k == i as int by {
                if k < i {
                    assert(archive_name@[k] != '_');
                } else if k > i {
                    assert(archive_name@[i as int] != '_');
                }
            }
            slice_text(archive_name, 0, i)
        },
        None => String::from_str(archive_name),
    }
}

/// The places where a project to archive is looked for, in order.
pub open spec fn archive_candidates_spec(name: Seq<char>, home: Seq<char>, cwd: Seq<char>) -> Seq<Seq<char>> {
    seq![
        join_spec(join_spec(home, seq!['.', 'p', 'r', 'o', 'j', '/', 'p', 'r', 'o', 'j', 'e', 'c', 't', 's']), name),
        join_spec(projects_dir_spec(home), name),
        join_spec(cwd, name),
    ]
}

/// The places where a project to archive is looked for: under `~/.proj/projects`, in the
/// registry, and in the working directory, in that order.
pub fn archive_candidates(name: &str, home: &str, cwd: &str) -> (r: Vec<String>)
    ensures
        r@.len() == 3,
        forall|i: int| 0 <= i < 3 ==> #[trigger] r@[i]@ == archive_candidates_spec(name@, home@, cwd@)[i],
{
    proof {
        reveal_strlit(".proj/projects");
    }
    let scoped = join(home, ".proj/projects");
    let a = join(scoped.as_str(), name);
    let reg = projects_dir_in(home);
    let b = join(reg.as_str(), name);
    let c = join(cwd, name);
    let mut r: Vec<String> = Vec::new();
    r.push(a);
    r.push(b);
    r.push(c);
    r
}

/// What archiving decides, given which candidate places exist.
pub open spec fn archive_spec(
    name: Seq<char>,
    home: Seq<char>,
    cwd: Seq<char>,
    stamp: Seq<char>,
    exists: (bool, bool, bool),
    canonical: Option<Seq<char>>,
) -> Result<Seq<FsStep>, ProjError> {
    let c = archive_candidates_spec(name, home, cwd);
    let found = if exists.0 {
        Some(c[0])
    } else if exists.1 {
        Some(c[1])
    } else if exists.2 {
        Some(c[2])
    } else {
        None
    };
    match (found, canonical) {
        (None, _) => Err(ProjError::NotFound),
        (Some(_), None) => Err(ProjError::IoFailure),
        (Some(_), Some(dir)) => Ok(seq![
            FsStep::CreateDirAll(archives_dir_spec(home)),
            FsStep::WriteArchive(dir, join_spec(archives_dir_spec(home), archive_file_name_spec(name, stamp))),
            FsStep::RemoveDirAll(dir),
            FsStep::RemoveFileQuietly(c[1]),
        ]),
    }
}

/// Decides how to archive `name`: the project is the first existing candidate (see
/// `archive_candidates`); its canonical directory is written to
/// `<archives>/<name>_<stamp>.zip`, then deleted, and the registry entry of its name goes
/// too. `exists` says, in order, whether each candidate exists; `canonical` is the canonical
/// path of the first that does, none when it could not be resolved.
pub fn archive_project(
    name: &str,
    home: &str,
    cwd: &str,
    stamp: &str,
    exists: (bool, bool, bool),
    canonical: Option<&str>,
) -> (r: Result<Vec<FsAction>, ProjError>)
    ensures
        outcome_of(r) == archive_spec(name@, home@, cwd@, stamp@, exists, match canonical {
            Some(c) => Some(c@),
            None => None,
        }),
{
    let c = archive_candidates(name, home, cwd);
    assert(c@[0]@ == archive_candidates_spec(name@, home@, cwd@)[0]);
    assert(c@[1]@ == archive_candidates_spec(name@, home@, cwd@)[1]);
    assert(c@[2]@ == archive_candidates_spec(name@, home@, cwd@)[2]);
    if !(exists.0 || exists.1 || exists.2) {
        return Err(ProjError::NotFound);
    }
    let src = match canonical {
        Some(p) => String::from_str(p),
        None => return Err(ProjError::IoFailure),
    };
    let dir = archives_dir_in(home);
    let file = archive_file_name(name, stamp);
    let path = join(dir.as_str(), file.as_str());
    let v = vec![
        FsAction::CreateDirAll(dir.clone()),
        FsAction::WriteArchive(src.clone(), path),
        FsAction::RemoveDirAll(src.clone()),
        FsAction::RemoveFileQuietly(c[1].clone()),
    ];
    assert(steps_of(v@) =~= archive_spec(name@, home@, cwd@, stamp@, exists, match canonical {
        Some(c) => Some(c@),
        None => None,
    })->Ok_0);
    Ok(v)
}

/// Decides how to archive `name` now: as `archive_project`, with the local time as stamp.
pub fn archive_project_now(
    name: &str,
    home: &str,
    cwd: &str,
    exists: (bool, bool, bool),
    canonical: Option<&str>,
) -> (r: Result<Vec<FsAction>, ProjError>)
    ensures
        exists|stamp: Seq<char>| !stamp.contains('/') && outcome_of(r) == archive_spec(name@, home@, cwd@, stamp, exists,
            match canonical {
                Some(c) => Some(c@),
                None => None,
            }),
{
    let stamp = local_timestamp();
    archive_project(name, home, cwd, stamp.as_str(), exists, canonical)
}

/// The name under which an archive file is listed: its `.zip` extension removed.
pub open spec fn strip_zip(f: Seq<char>) -> Seq<char> {
    f.subrange(0, f.len() - 4)
}

/// A file name whose extension is `zip` (a bare `.zip` has none).
pub open spec fn is_archive_file(f: Seq<char>) -> bool {
    has_suffix(f, zip_ext()) && f.len() > 4
}

/// The listed names of the archive files among `names`, in order.
pub open spec fn archive_listing_spec(names: Seq<Seq<char>>) -> Seq<Seq<char>>
    decreases names.len(),
{
    if names.len() == 0 {
        seq![]
    } else {
        let rest = archive_listing_spec(names.drop_last());
        if is_archive_file(names.last()) {
            rest.push(strip_zip(names.last()))
        } else {
            rest
        }
    }
}

/// The names to list for the files of the archives directory: those with a `zip`
/// extension, stripped of it, in directory order.
pub fn list_archives(file_names: &Vec<String>) -> (r: Vec<String>)
    ensures
        r@.map_values(|s: String| s@) == archive_listing_spec(file_names@.map_values(|s: String| s@)),
{
    let z = ".zip";
    proof {
        reveal_strlit(".zip");
        assert(z@ =~= zip_ext());
    }
    let mut r: Vec<String> = Vec::new();
    let mut i: usize = 0;
    while i < file_names.len()
        invariant
            z@ == zip_ext(),
            i <= file_names@.len(),
            r@.map_values(|s: String| s@) == archive_listing_spec(
                file_names@.subrange(0, i as int).map_values(|s: String| s@),
            ),
        decreases file_names@.len() - i,
    {
        let f = file_names[i].as_str();
        let keep = ends_with_text(f, z) && f.unicode_len() > 4;
        let ghost before = r@.map_values(|s: String| s@);
        if keep {
            let n = f.unicode_len();
            r.push(slice_text(f, 0, n - 4));
            assert(r@.map_values(|s: String| s@) =~= before.push(strip_zip(f@)));
        }
        let ghost names_next = file_names@.subrange(0, i + 1).map_values(|s: String| s@);
        assert(names_next.drop_last() =~= file_names@.subrange(0, i as int).map_values(|s: String| s@));
        assert(names_next.last() == f@);
        i = i + 1;
    }
    assert(file_names@.subrange(0, file_names@.len() as int) =~= file_names@);
    r
}

/// The archive file for a listed archive name: `<archives>/<name>.zip`.
pub open spec fn archive_path_spec(archives: Seq<char>, name: Seq<char>) -> Seq<char> {
    join_spec(archives, name + zip_ext())
}

/// The archive file for a listed archive name.
pub fn archive_path(archives: &str, name: &str) -> (r: String)
    ensures
        r@ == archive_path_spec(archives@, name@),
{
    proof {
        reveal_strlit(".zip");
    }
    let f = concat_text(name, ".zip");
    join(archives, f.as_str())
}

/// Decides how to remove the archive listed as `name`, given whether its file exists.
pub fn remove_archive(archives: &str, name: &str, archive_exists: bool) -> (r: Result<Vec<FsAction>, ProjError>)
    ensures
        outcome_of(r) == (if archive_exists {
            Ok(seq![FsStep::RemoveFile(archive_path_spec(archives@, name@))])
        } else {
            Err(ProjError::NotFound)
        }),
{
    if !archive_exists {
        return Err(ProjError::NotFound);
    }
    let v = vec![FsAction::RemoveFile(archive_path(archives, name))];
    assert(steps_of(v@) =~= seq![FsStep::RemoveFile(archive_path_spec(archives@, name@))]);
    Ok(v)
}

/// Where an archive is restored: `<destination>/<project>`, or `<registry>/<project>`.
pub open spec fn restore_destination_spec(archive_name: Seq<char>, destination: Option<Seq<char>>, home: Seq<char>) -> Seq<char> {
    match destination {
        Some(d) => join_spec(d, archived_name_spec(archive_name)),
        None => join_spec(projects_dir_spec(home), archived_name_spec(archive_name)),
    }
}

/// Where the archive listed as `archive_name` is restored.
pub fn restore_destination(archive_name: &str, destination: Option<&str>, home: &str) -> (r: String)
    ensures
        r@ == restore_destination_spec(archive_name@, match destination {
            Some(d) => Some(d@),
            None => None,
        }, home@),
{
    let project_name = archived_project_name(archive_name);
    match destination {
        Some(d) => join(d, project_name.as_str()),
        None => {
            let reg = projects_dir_in(home);
            join(reg.as_str(), project_name.as_str())
        },
    }
}

/// What restoring decides, given whether the archive, the destination and a registry entry
/// of the project's name exist.
pub open spec fn restore_spec(
    archive_name: Seq<char>,
    destination: Option<Seq<char>>,
    home: Seq<char>,
    archives: Seq<char>,
    archive_exists: bool,
    dest_exists: bool,
    link_exists: bool,
) -> Result<Seq<FsStep>, ProjError> {
    let dest = restore_destination_spec(archive_name, destination, home);
    let reg = projects_dir_spec(home);
    let link = join_spec(reg, archived_name_spec(archive_name));
    let unpack = seq![
        FsStep::CreateDirAll(dest),
        FsStep::ExtractArchive(archive_path_spec(archives, archive_name), dest),
    ];
    if !archive_exists {
        Err(ProjError::NotFound)
    } else if dest_exists {
        Err(ProjError::Conflict)
    } else if within_spec(dest, reg) {
        Ok(unpack)
    } else if link_exists {
        Ok(unpack + seq![FsStep::RemoveFile(link), FsStep::Symlink(dest, link)])
    } else {
        Ok(unpack + seq![FsStep::Symlink(dest, link)])
    }
}

/// Decides how to restore the archive listed as `archive_name` (in the directory `archives`):
/// into `restore_destination(..)`, which must not exist yet, relinking it in the registry when
/// it lies outside it.
pub fn restore_archive(
    archive_name: &str,
    destination: Option<&str>,
    home: &str,
    archives: &str,
    archive_exists: bool,
    dest_exists: bool,
    link_exists: bool,
) -> (r: Result<Vec<FsAction>, ProjError>)
    ensures
        outcome_of(r) == restore_spec(archive_name@, match destination {
            Some(d) => Some(d@),
            None => None,
        }, home@, archives@, archive_exists, dest_exists, link_exists),
{
    if !archive_exists {
        return Err(ProjError::NotFound);
    }
    if dest_exists {
        return Err(ProjError::Conflict);
    }
    let dest = restore_destination(archive_name, destination, home);
    let reg = projects_dir_in(home);
    let project_name = archived_project_name(archive_name);
    let link = join(reg.as_str(), project_name.as_str());
    let mut v = vec![
        FsAction::CreateDirAll(dest.clone()),
        FsAction::ExtractArchive(archive_path(archives, archive_name), dest.clone()),
    ];
    let ghost unpack = steps_of(v@);
    if !is_within(dest.as_str(), reg.as_str()) {
        if link_exists {
            v.push(FsAction::RemoveFile(link.clone()));
        }
        v.push(FsAction::Symlink(dest, link));
    }
    let ghost spec_dest = restore_destination_spec(archive_name@, match destination {
        Some(d) => Some(d@),
        None => None,
    }, home@);
    let ghost spec_r = restore_spec(archive_name@, match destination {
        Some(d) => Some(d@),
        None => None,
    }, home@, archives@, archive_exists, dest_exists, link_exists);
    assert(steps_of(v@) =~= spec_r->Ok_0);
    Ok(v)
}

/// Restoring into a destination that already exists fails with `Conflict` and writes nothing,
/// whenever the archive itself is there.
pub proof fn lemma_restore_into_existing_conflicts(
    archive_name: Seq<char>,
    destination: Option<Seq<char>>,
    home: Seq<char>,
    archives: Seq<char>,
    link_exists: bool,
)
    ensures
        restore_spec(archive_name, destination, home, archives, true, true, link_exists) == Err::<Seq<FsStep>, ProjError>(ProjError::Conflict),
        forall|archive_exists: bool| writes_nothing(#[trigger] restore_spec(archive_name, destination, home, archives, archive_exists, true, link_exists)),
{
}

} // verus!
