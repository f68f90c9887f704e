//! Lifecycle operations on registered projects: lookup in the registry, linking, migrate,
//! remove and clone.
use vstd::prelude::*;
use vstd::string::*;
use crate::paths::{file_name, file_name_spec, is_within, join, join_spec, last_segment, last_segment_of, within_spec};
use crate::manifest::{default_manifest_spec, pair_views, synthesized_manifest_spec, text_vars_spec, FieldView, Manifest};
use crate::metadata::{first_line_version, lines_spec, readme_description, readme_description_spec, resolve_version,
    resolve_version_spec, version_from_info, version_text};
use crate::text::trim_spec;
use crate::plan::{outcome_of, steps_of, writes_nothing, FsAction, FsStep, ProjError};
use crate::text::{ends_with_text, has_prefix, has_suffix, is_last_index, rfind_char, slice_text, starts_with_text, text_eq};

verus! {

/// One entry of the registry directory.
#[derive(Debug)]
pub struct RegistryEntry {
    /// The entry's file name.
    pub name: String,
    /// The entry's path.
    pub path: String,
    /// Whether the entry holds a manifest file.
    pub has_manifest: bool,
}

/// The index of the first registry entry named `name` that holds a manifest.
pub open spec fn is_registry_match(names: Seq<Seq<char>>, manifests: Seq<bool>, name: Seq<char>, i: int) -> bool {
    0 <= i < names.len() && names[i] == name && manifests[i]
        && forall|j: int| 0 <= j < i ==> !(names[j] == name && manifests[j])
}

/// The file names of registry entries.
pub open spec fn entry_names(v: Seq<RegistryEntry>) -> Seq<Seq<char>> {
    v.map_values(|e: RegistryEntry| e.name@)
}

/// Whether each registry entry holds a manifest.
pub open spec fn entry_manifests(v: Seq<RegistryEntry>) -> Seq<bool> {
    v.map_values(|e: RegistryEntry| e.has_manifest)
}

/// The path of the project registered as `name`: the first entry of the registry listing
/// with that name that holds a manifest.
pub fn find_project_path(entries: &Vec<RegistryEntry>, name: &str) -> (r: Option<String>)
    ensures
        match r {
            Some(p) => exists|i: int| is_registry_match(entry_names(entries@), entry_manifests(entries@), name@, i)
                && p@ == entries@[i].path@,
            None => forall|i: int| 0 <= i < entries@.len() ==> !(entries@[i].name@ == name@ && entries@[i].has_manifest),
        },
{
    let mut i: usize = 0;
    while i < entries.len()
        invariant
            i <= entries@.len(),
            forall|j: int| 0 <= j < i ==> !(entries@[j].name@ == name@ && entries@[j].has_manifest),
        decreases entries@.len() - i,
    {
        let e = &entries[i];
        if e.has_manifest && text_eq(e.name.as_str(), name) {
            assert(is_registry_match(entry_names(entries@), entry_manifests(entries@), name@, i as int));
            return Some(String::from_str(e.path.as_str()));
        }
        i = i + 1;
    }
    None
}

/// The registry entry for the project at `project_path`: named after its final component.
pub open spec fn link_path_spec(projects: Seq<char>, project_path: Seq<char>) -> Seq<char> {
    join_spec(projects, match file_name_spec(project_path) {
        Some(n) => n,
        None => seq![],
    })
}

/// The registry entry for the project at `project_path`.
pub fn registry_link_path(projects: &str, project_path: &str) -> (r: String)
    ensures
        r@ == link_path_spec(projects@, project_path@),
{
    match file_name(project_path) {
        Some(n) => join(projects, n.as_str()),
        None => {
            let empty = "";
            proof {
                reveal_strlit("");
                assert(empty@ =~= Seq::<char>::empty());
            }
            join(projects, empty)
        },
    }
}

/// Links the project at `project_path` into the registry, unless it already lies inside
/// the registry or an entry of its name (`link_exists`) is already there, whatever that
/// entry points at.
pub fn link_in_projects_dir(projects: &str, project_path: &str, link_exists: bool) -> (r: Vec<FsAction>)
    ensures
        steps_of(r@) == (if within_spec(project_path@, projects@) || link_exists {
            seq![]
        } else {
            seq![FsStep::Symlink(project_path@, link_path_spec(projects@, project_path@))]
        }),
{
    let mut v: Vec<FsAction> = Vec::new();
    if !is_within(project_path, projects) && !link_exists {
        let link = registry_link_path(projects, project_path);
        v.push(FsAction::Symlink(String::from_str(project_path), link));
    }
    assert(steps_of(v@) =~= (if within_spec(project_path@, projects@) || link_exists {
        seq![]
    } else {
        seq![FsStep::Symlink(project_path@, link_path_spec(projects@, project_path@))]
    }));
    v
}

/// The project a name resolves to: the registry's entry, else a directory of that name in
/// the working directory when one exists (`cwd_exists`).
pub fn resolve_project(registry_hit: Option<&str>, cwd: &str, name: &str, cwd_exists: bool) -> (r: Option<String>)
    ensures
        match registry_hit {
            Some(h) => r.is_some() && r->Some_0@ == h@,
            None => if cwd_exists { r.is_some() && r->Some_0@ == join_spec(cwd@, name@) } else { r.is_none() },
        },
{
    match registry_hit {
        Some(h) => Some(String::from_str(h)),
        None => if cwd_exists {
            Some(join(cwd, name))
        } else {
            None
        },
    }
}

/// Where a project is migrated: `<destination>/<name>`, the destination defaulting to the
/// registry.
pub open spec fn migrate_destination_spec(name: Seq<char>, destination: Option<Seq<char>>, projects: Seq<char>) -> Seq<char> {
    join_spec(match destination {
        Some(d) => d,
        None => projects,
    }, name)
}

/// Where a project is migrated.
pub fn migrate_destination(name: &str, destination: Option<&str>, projects: &str) -> (r: String)
    ensures
        r@ == migrate_destination_spec(name@, match destination {
            Some(d) => Some(d@),
            None => None,
        }, projects@),
{
    match destination {
        Some(d) => join(d, name),
        None => join(projects, name),
    }
}

/// What migrating decides. `source` is the resolved project path, `canonical` its canonical path
/// (none when it could not be resolved), `source_is_symlink` whether `source` is a symlink.
pub open spec fn migrate_spec(
    name: Seq<char>,
    destination: Option<Seq<char>>,
    projects: Seq<char>,
    source: Option<Seq<char>>,
    canonical: Option<Seq<char>>,
    dest_exists: bool,
    source_is_symlink: bool,
) -> Result<Seq<FsStep>, ProjError> {
    let dir = match destination {
        Some(d) => d,
        None => projects,
    };
    let moved = seq![
        FsStep::CreateDirAll(dir),
        FsStep::Rename(canonical->Some_0, migrate_destination_spec(name, destination, projects)),
    ];
    if source is None {
        Err(ProjError::NotFound)
    } else if canonical is None {
        Err(ProjError::IoFailure)
    } else if dest_exists {
        Err(ProjError::Conflict)
    } else if source_is_symlink {
        Ok(moved.push(FsStep::RemoveFile(source->Some_0)))
    } else {
        Ok(moved)
    }
}

/// The view of an optional string.
pub open spec fn opt_view(o: Option<&str>) -> Option<Seq<char>> {
    match o {
        Some(s) => Some(s@),
        None => None,
    }
}

/// Decides how to migrate the project `name` to `migrate_destination(..)`: the canonical
/// directory is renamed there, and a registry symlink that pointed at it is removed.
pub fn migrate_project(
    name: &str,
    destination: Option<&str>,
    projects: &str,
    source: Option<&str>,
    canonical: Option<&str>,
    dest_exists: bool,
    source_is_symlink: bool,
) -> (r: Result<Vec<FsAction>, ProjError>)
    ensures
        outcome_of(r) == migrate_spec(name@, opt_view(destination), projects@, opt_view(source),
            opt_view(canonical), dest_exists, source_is_symlink),
{
    let src = match source {
        Some(s) => s,
        None => return Err(ProjError::NotFound),
    };
    let real_path = match canonical {
        Some(p) => p,
        None => return Err(ProjError::IoFailure),
    };
    if dest_exists {
        return Err(ProjError::Conflict);
    }
    let dir = match destination {
        Some(d) => String::from_str(d),
        None => String::from_str(projects),
    };
    let dest = migrate_destination(name, destination, projects);
    let mut v: Vec<FsAction> = Vec::new();
    v.push(FsAction::CreateDirAll(dir));
    v.push(FsAction::Rename(String::from_str(real_path), dest));
    if source_is_symlink {
        v.push(FsAction::RemoveFile(String::from_str(src)));
    }
    let ghost spec_r = migrate_spec(name@, opt_view(destination), projects@, opt_view(source),
        opt_view(canonical), dest_exists, source_is_symlink);
    assert(steps_of(v@) =~= spec_r->Ok_0);
    Ok(v)
}

/// Migrating a project that resolves, to a destination that already holds an entry of its
/// name, fails with `Conflict` and changes nothing, so the source stays where it was.
pub proof fn lemma_migrate_conflict_leaves_source(
    name: Seq<char>,
    destination: Option<Seq<char>>,
    projects: Seq<char>,
    source: Seq<char>,
    canonical: Seq<char>,
    source_is_symlink: bool,
)
    ensures
        migrate_spec(name, destination, projects, Some(source), Some(canonical), true, source_is_symlink)
            == Err::<Seq<FsStep>, ProjError>(ProjError::Conflict),
        writes_nothing(migrate_spec(name, destination, projects, Some(source), Some(canonical), true, source_is_symlink)),
{
}

/// What removing decides. `found` is the registry's path for `name`, `canonical` its canonical
/// path, `confirmed` the user's answer when not forced, `link_exists` whether the registry
/// entry `<projects>/<name>` exists once the project is gone.
pub open spec fn remove_spec(
    name: Seq<char>,
    force: bool,
    confirmed: bool,
    projects: Seq<char>,
    found: Option<Seq<char>>,
    canonical: Option<Seq<char>>,
    link_exists: bool,
) -> Result<Seq<FsStep>, ProjError> {
    if found is None {
        Err(ProjError::NotFound)
    } else if !force && !confirmed {
        Ok(seq![])
    } else if canonical is None {
        Err(ProjError::IoFailure)
    } else if !within_spec(canonical->Some_0, projects) && link_exists {
        Ok(seq![FsStep::RemoveDirAll(canonical->Some_0), FsStep::RemoveEntry(join_spec(projects, name))])
    } else {
        Ok(seq![FsStep::RemoveDirAll(canonical->Some_0)])
    }
}

/// Whether removing `name` has to ask for confirmation first.
pub fn needs_confirmation(force: bool, found: bool) -> (r: bool)
    ensures
        r == (!force && found),
{
    !force && found
}

/// Decides how to remove the registered project `name`: its canonical directory is deleted,
/// and, when that lay outside the registry, its registry entry too. Without `force` an
/// answer other than yes leaves everything in place.
pub fn remove_project(
    name: &str,
    force: bool,
    confirmed: bool,
    projects: &str,
    found: Option<&str>,
    canonical: Option<&str>,
    link_exists: bool,
) -> (r: Result<Vec<FsAction>, ProjError>)
    ensures
        outcome_of(r) == remove_spec(name@, force, confirmed, projects@, opt_view(found), opt_view(canonical), link_exists),
{
    if found.is_none() {
        return Err(ProjError::NotFound);
    }
    let mut v: Vec<FsAction> = Vec::new();
    if !force && !confirmed {
        assert(steps_of(v@) =~= Seq::<FsStep>::empty());
        return Ok(v);
    }
    let real_path = match canonical {
        Some(p) => p,
        None => return Err(ProjError::IoFailure),
    };
    v.push(FsAction::RemoveDirAll(String::from_str(real_path)));
    if !is_within(real_path, projects) && link_exists {
        v.push(FsAction::RemoveEntry(join(projects, name)));
    }
    let ghost spec_r = remove_spec(name@, force, confirmed, projects@, opt_view(found), opt_view(canonical), link_exists);
    assert(steps_of(v@) =~= spec_r->Ok_0);
    Ok(v)
}

/// `http://`, `https://` or `git@`.
pub open spec fn remote_prefixes() -> Seq<Seq<char>> {
    seq![
        seq!['h', 't', 't', 'p', ':', '/', '/'],
        seq!['h', 't', 't', 'p', 's', ':', '/', '/'],
        seq!['g', 'i', 't', '@'],
    ]
}

/// A source that names a remote repository.
pub open spec fn is_remote_spec(source: Seq<char>) -> bool {
    has_prefix(source, remote_prefixes()[0]) || has_prefix(source, remote_prefixes()[1])
        || has_prefix(source, remote_prefixes()[2])
}

/// Whether `source` names a remote repository.
pub fn is_remote_source(source: &str) -> (r: bool)
    ensures
        r == is_remote_spec(source@),
{
    let (a, b, c) = ("http://", "https://", "git@");
    proof {
        reveal_strlit("http://");
        reveal_strlit("https://");
        reveal_strlit("git@");
        assert(a@ =~= remote_prefixes()[0]);
        assert(b@ =~= remote_prefixes()[1]);
        assert(c@ =~= remote_prefixes()[2]);
    }
    starts_with_text(source, a) || starts_with_text(source, b) || starts_with_text(source, c)
}

/// `.git`
pub open spec fn git_ext() -> Seq<char> {
    seq!['.', 'g', 'i', 't']
}

/// `s` with every trailing `.git` removed.
pub open spec fn strip_git(s: Seq<char>) -> Seq<char>
    decreases s.len(),
{
    if has_suffix(s, git_ext()) && s.len() >= 4 {
        strip_git(s.subrange(0, s.len() - 4))
    } else {
        s
    }
}

/// The name a clone of `source` gets: its last `/`-separated part without trailing `.git`s.
pub open spec fn clone_base_name_spec(source: Seq<char>) -> Seq<char> {
    strip_git(last_segment(source))
}

/// The name a clone of `source` gets.
pub fn clone_base_name(source: &str) -> (r: String)
    ensures
        r@ == clone_base_name_spec(source@),
{
    let last = last_segment_of(source);
    let g = ".git";
    proof {
        reveal_strlit(".git");
        assert(g@ =~= git_ext());
    }
    let mut cur = last;
    while ends_with_text(cur.as_str(), g)
        invariant
            g@ == git_ext(),
            strip_git(cur@) == clone_base_name_spec(source@),
        decreases cur@.len(),
    {
        let m = cur.as_str().unicode_len();
        cur = slice_text(cur.as_str(), 0, m - 4);
    }
    cur
}

/// `.` or `./`
pub open spec fn is_here_spec(d: Seq<char>) -> bool {
    d == seq!['.'] || d == seq!['.', '/']
}

/// Where a clone of `source` goes: for `.` the working directory, for an absolute path
/// that directory, each with the source's name appended; a relative path names a place in
/// the registry; with none, the source's name in the registry.
pub open spec fn clone_destination_spec(source: Seq<char>, dest: Option<Seq<char>>, cwd: Seq<char>, projects: Seq<char>) -> Seq<char> {
    match dest {
        Some(d) => if is_here_spec(d) {
            join_spec(cwd, clone_base_name_spec(source))
        } else if d.len() > 0 && d[0] == '/' {
            join_spec(d, clone_base_name_spec(source))
        } else {
            join_spec(projects, d)
        },
        None => join_spec(projects, clone_base_name_spec(source)),
    }
}

/// Where a clone of `source` goes.
pub fn clone_destination(source: &str, dest: Option<&str>, cwd: &str, projects: &str) -> (r: String)
    ensures
        r@ == clone_destination_spec(source@, opt_view(dest), cwd@, projects@),
{
    let base = clone_base_name(source);
    match dest {
        Some(d) => {
            let (dot, dot_slash) = (".", "./");
            proof {
                reveal_strlit(".");
                reveal_strlit("./");
                assert(dot@ =~= seq!['.']);
                assert(dot_slash@ =~= seq!['.', '/']);
            }
            if text_eq(d, dot) || text_eq(d, dot_slash) {
                join(cwd, base.as_str())
            } else if d.unicode_len() > 0 && d.get_char(0) == '/' {
                join(d, base.as_str())
            } else {
                join(projects, d)
            }
        },
        None => join(projects, base.as_str()),
    }
}

/// The directory that holds `p`: the text before its last `/` (`/` itself for a top-level
/// path), or nothing when `p` has no `/`.
pub open spec fn parent_spec(p: Seq<char>) -> Seq<char> {
    if exists|i: int| is_last_index(p, '/', i) {
        let i = choose|i: int| is_last_index(p, '/', i);
        if i == 0 { seq!['/'] } else { p.subrange(0, i) }
    } else {
        seq![]
    }
}

/// The directory that holds `p`.
pub fn parent_of(p: &str) -> (r: String)
    ensures
        r@ == parent_spec(p@),
{
    match rfind_char(p, '/') {
        Some(i) => {
            assert forall|k: int| is_last_index(p@, '/', k) implies k == i as int by {
                if k < i {
                    assert(p@[i as int] != '/');
                } else if k > i {
                    assert(p@[k] != '/');
                }
            }
            if i == 0 {
                proof {
                    reveal_strlit("/");
                }
                String::from_str("/")
            } else {
                slice_text(p, 0, i)
            }
        },
        None => String::new(),
    }
}

/// What cloning decides before any manifest is written. The destination is
/// `clone_destination_spec(..)`; for a local source, `local` is the registry's path for it
/// and `local_has_git` whether it holds a repository; `link_exists` whether the registry
/// already has an entry of the destination's name.
pub open spec fn clone_spec(
    source: Seq<char>,
    dest: Option<Seq<char>>,
    cwd: Seq<char>,
    projects: Seq<char>,
    dest_exists: bool,
    git_clone: bool,
    local: Option<Seq<char>>,
    local_has_git: bool,
    link_exists: bool,
) -> Result<Seq<FsStep>, ProjError> {
    let d = clone_destination_spec(source, dest, cwd, projects);
    let mk = FsStep::CreateDirAll(parent_spec(d));
    let link = if within_spec(d, projects) || link_exists {
        seq![]
    } else {
        seq![FsStep::Symlink(d, link_path_spec(projects, d))]
    };
    if dest_exists {
        Err(ProjError::Conflict)
    } else if is_remote_spec(source) {
        Ok(seq![mk, FsStep::GitClone(source, d)] + link)
    } else if local is None {
        Err(ProjError::NotFound)
    } else if git_clone && local_has_git {
        Ok(seq![mk, FsStep::GitClone(local->Some_0, d)] + link)
    } else {
        Ok(seq![mk, FsStep::CopyDirInto(local->Some_0, d)] + link)
    }
}

/// Decides how to clone `source` to the destination that `clone_destination` gives: a
/// remote source is cloned with git; a registered local one is cloned with git when asked
/// and it has a repository, else its contents are copied into the destination itself. A
/// destination outside the registry is then linked into it. The manifest is decided
/// afterwards, from what the clone holds (`clone_manifest`).
pub fn clone_project(
    source: &str,
    dest: Option<&str>,
    cwd: &str,
    projects: &str,
    dest_exists: bool,
    git_clone: bool,
    local: Option<&str>,
    local_has_git: bool,
    link_exists: bool,
) -> (r: Result<Vec<FsAction>, ProjError>)
    ensures
        outcome_of(r) == clone_spec(source@, opt_view(dest), cwd@, projects@, dest_exists, git_clone,
            opt_view(local), local_has_git, link_exists),
{
    if dest_exists {
        return Err(ProjError::Conflict);
    }
    let remote = is_remote_source(source);
    let from = if remote {
        String::from_str(source)
    } else {
        match local {
            Some(l) => String::from_str(l),
            None => return Err(ProjError::NotFound),
        }
    };
    let d = clone_destination(source, dest, cwd, projects);
    let mut v: Vec<FsAction> = Vec::new();
    v.push(FsAction::CreateDirAll(parent_of(d.as_str())));
    if remote || (git_clone && local_has_git) {
        v.push(FsAction::GitClone(from, String::from_str(d.as_str())));
    } else {
        v.push(FsAction::CopyDirInto(from, String::from_str(d.as_str())));
    }
    let ghost head = steps_of(v@);
    let mut tail = link_in_projects_dir(projects, d.as_str(), link_exists);
    v.append(&mut tail);
    let ghost spec_r = clone_spec(source@, opt_view(dest), cwd@, projects@, dest_exists, git_clone,
        opt_view(local), local_has_git, link_exists);
    assert(steps_of(v@) =~= spec_r->Ok_0);
    Ok(v)
}

/// The name a synthesized manifest gives a clone at `dest`.
pub open spec fn cloned_name_spec(dest: Seq<char>) -> Seq<char> {
    match file_name_spec(dest) {
        Some(n) => n,
        None => seq!['c', 'l', 'o', 'n', 'e', 'd', '_', 'p', 'r', 'o', 'j', 'e', 'c', 't'],
    }
}

/// The template a synthesized manifest records: the source itself when it is remote.
pub open spec fn clone_template_spec(source: Seq<char>) -> Option<Seq<char>> {
    if is_remote_spec(source) { Some(source) } else { None }
}

/// The manifest a clone gets: none when it already has one; else one named after the
/// destination, recording a remote source as template, described by the first three lines
/// of its README, with the version of the priority chain (the latest tag, else the
/// `__version__` of `info.py`, else the `VERSION` file, else `0.0.1`), complete and active.
pub open spec fn clone_manifest_spec(
    source: Seq<char>,
    dest: Seq<char>,
    manifest_exists: bool,
    readme: Option<Seq<char>>,
    tag_output: Option<Seq<char>>,
    info_py: Option<Seq<char>>,
    version_file: Option<Seq<char>>,
) -> Option<Map<Seq<char>, FieldView>> {
    if manifest_exists {
        None
    } else {
        Some(synthesized_manifest_spec(
            cloned_name_spec(dest),
            clone_template_spec(source),
            match readme {
                Some(c) => readme_description_spec(c),
                None => seq![],
            },
            resolve_version_spec(
                match tag_output {
                    Some(t) => Some(trim_spec(t, false)),
                    None => None,
                },
                match info_py {
                    Some(c) => first_line_version(lines_spec(c)),
                    None => None,
                },
                match version_file {
                    Some(c) => Some(trim_spec(c, false)),
                    None => None,
                },
            ),
        ))
    }
}

/// Decides the manifest of a clone at `dest`, given whether it has one, the content of its
/// first readable README, the output of a successful latest-tag query, the content of its
/// first `info.py` and of its first `VERSION` file.
pub fn clone_manifest(
    source: &str,
    dest: &str,
    manifest_exists: bool,
    readme: Option<&str>,
    tag_output: Option<&str>,
    info_py: Option<&str>,
    version_file: Option<&str>,
) -> (r: Option<Manifest>)
    ensures
        match r {
            Some(m) => m.wf() && clone_manifest_spec(source@, dest@, manifest_exists, opt_view(readme),
                opt_view(tag_output), opt_view(info_py), opt_view(version_file)) == Some(m@),
            None => clone_manifest_spec(source@, dest@, manifest_exists, opt_view(readme),
                opt_view(tag_output), opt_view(info_py), opt_view(version_file)).is_none(),
        },
{
    if manifest_exists {
        return None;
    }
    let name = cloned_project_name(dest);
    let template = clone_template(source);
    let description = match readme {
        Some(c) => readme_description(c),
        None => String::new(),
    };
    let tag = match tag_output {
        Some(t) => Some(version_text(t)),
        None => None,
    };
    let info = match info_py {
        Some(c) => version_from_info(c),
        None => None,
    };
    let file = match version_file {
        Some(c) => Some(version_text(c)),
        None => None,
    };
    let version = resolve_version(
        match &tag { Some(t) => Some(t.as_str()), None => None },
        match &info { Some(t) => Some(t.as_str()), None => None },
        match &file { Some(t) => Some(t.as_str()), None => None },
    );
    let m = Manifest::synthesized(
        name.as_str(),
        match &template { Some(t) => Some(t.as_str()), None => None },
        description.as_str(),
        version.as_str(),
    );
    Some(m)
}

/// What initializing a directory starts with.
#[derive(Debug)]
pub struct InitStart {
    /// The project's name: the directory's final component, or nothing.
    pub name: String,
    /// The default manifest to write first, when the directory has no manifest directory yet.
    pub default_manifest: Option<Manifest>,
    /// The manifest once the command-line pairs are applied, as text, to the default one or
    /// to the one already there.
    pub manifest: Manifest,
    /// Whether a repository has to be created.
    pub git_init: bool,
}

/// The name of the project in the directory `dir`.
pub open spec fn init_name_spec(dir: Seq<char>) -> Seq<char> {
    match file_name_spec(dir) {
        Some(n) => n,
        None => seq![],
    }
}

/// Decides how initializing the directory `dir` begins, given whether it already has a
/// manifest directory (and then its manifest, `existing`), whether it has a repository, and
/// the `KEY=value` pairs given.
pub fn init_project(
    dir: &str,
    manifest_dir_exists: bool,
    existing: &Manifest,
    git_dir_exists: bool,
    vars: &Vec<(String, String)>,
) -> (r: InitStart)
    requires
        existing.wf(),
    ensures
        r.name@ == init_name_spec(dir@),
        r.default_manifest.is_some() == !manifest_dir_exists,
        r.default_manifest.is_some() ==> r.default_manifest->Some_0.wf()
            && r.default_manifest->Some_0@ == default_manifest_spec(r.name@),
        r.manifest.wf(),
        r.manifest@ == text_vars_spec(
            if manifest_dir_exists { existing@ } else { default_manifest_spec(init_name_spec(dir@)) },
            pair_views(vars@),
        ),
        r.git_init == !git_dir_exists,
{
    let name = match file_name(dir) {
        Some(n) => n,
        None => String::new(),
    };
    let (default_manifest, mut manifest) = if manifest_dir_exists {
        (None, existing.copy())
    } else {
        (Some(Manifest::default_for(name.as_str())), Manifest::default_for(name.as_str()))
    };
    manifest.set_text_vars(vars);
    InitStart { name, default_manifest, manifest, git_init: !git_dir_exists }
}

/// Decides how to create the project directory `name`: at its canonical path when that
/// resolves, else at `name` itself; an existing directory there is a conflict.
pub fn create_project(name: &str, canonical: Option<&str>, target_exists: bool) -> (r: Result<Vec<FsAction>, ProjError>)
    ensures
        outcome_of(r) == (if target_exists {
            Err(ProjError::Conflict)
        } else {
            Ok(seq![FsStep::CreateDirAll(match canonical {
                Some(c) => c@,
                None => name@,
            })])
        }),
{
    if target_exists {
        return Err(ProjError::Conflict);
    }
    let target = match canonical {
        Some(c) => String::from_str(c),
        None => String::from_str(name),
    };
    let mut v: Vec<FsAction> = Vec::new();
    v.push(FsAction::CreateDirAll(target));
    assert(steps_of(v@) =~= seq![FsStep::CreateDirAll(match canonical {
        Some(c) => c@,
        None => name@,
    })]);
    Ok(v)
}

/// The name a synthesized manifest gives a clone at `dest`: its final component, or
/// `cloned_project` when it has none.
pub fn cloned_project_name(dest: &str) -> (r: String)
    ensures
        r@ == cloned_name_spec(dest@),
{
    match file_name(dest) {
        Some(n) => n,
        None => {
            proof {
                reveal_strlit("cloned_project");
            }
            let r = String::from_str("cloned_project");
            assert(r@ =~= seq!['c', 'l', 'o', 'n', 'e', 'd', '_', 'p', 'r', 'o', 'j', 'e', 'c', 't']);
            r
        },
    }
}

/// The template a synthesized manifest records: the source itself when it is remote.
pub fn clone_template(source: &str) -> (r: Option<String>)
    ensures
        match r {
            Some(t) => clone_template_spec(source@) == Some(t@),
            None => clone_template_spec(source@).is_none(),
        },
{
    if is_remote_source(source) {
        Some(String::from_str(source))
    } else {
        None
    }
}

} // verus!
