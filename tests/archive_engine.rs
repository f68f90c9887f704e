use project::archive::{
    archive_candidates, archive_file_name, archive_path, archive_project, list_archives,
    archived_project_name, remove_archive, restore_archive, restore_destination,
};
use project::entries::{archive_entries, restore_entry_target, restore_targets, sanitize_entry_name, zip_entry_name};
use project::plan::{FsAction, ProjError};

fn s(x: &str) -> String {
    x.to_string()
}

#[test]
fn archive_file_name_has_name_stamp_and_extension() {
    assert_eq!(archive_file_name("demo", "20240102_030405"), "demo_20240102_030405.zip");
}

#[test]
fn archived_name_is_text_before_first_underscore() {
    assert_eq!(archived_project_name("demo_20240102_030405"), "demo");
    assert_eq!(archived_project_name("my_app_20240102_030405"), "my");
    assert_eq!(archived_project_name("plain"), "plain");
}

#[test]
fn archive_candidates_in_order() {
    let c = archive_candidates("demo", "/home/u", "/work");
    assert_eq!(c, vec![s("/home/u/.proj/projects/demo"), s("/home/u/projects/demo"), s("/work/demo")]);
}

#[test]
fn archive_uses_first_existing_candidate() {
    // Found through its registry symlink: the real directory is archived and deleted.
    let r = archive_project("demo", "/home/u", "/work", "20240102_030405", (false, true, true), Some("/src/demo")).unwrap();
    assert_eq!(
        r,
        vec![
            FsAction::CreateDirAll(s("/home/u/.proj/archives")),
            FsAction::WriteArchive(s("/src/demo"), s("/home/u/.proj/archives/demo_20240102_030405.zip")),
            FsAction::RemoveDirAll(s("/src/demo")),
            FsAction::RemoveFileQuietly(s("/home/u/projects/demo")),
        ]
    );
    let r = archive_project("demo", "/home/u", "/work", "x", (false, false, true), Some("/work/demo")).unwrap();
    assert_eq!(r[1], FsAction::WriteArchive(s("/work/demo"), s("/home/u/.proj/archives/demo_x.zip")));
    let r = archive_project("demo", "/home/u", "/work", "x", (false, false, true), None);
    assert_eq!(r.unwrap_err(), ProjError::IoFailure);
}

#[test]
fn archive_of_missing_project_is_not_found() {
    let r = archive_project("demo", "/home/u", "/work", "x", (false, false, false), None);
    assert_eq!(r.unwrap_err(), ProjError::NotFound);
}

#[test]
fn listing_strips_zip_and_skips_other_files() {
    let names = vec![s("demo_20240102_030405.zip"), s("notes.txt"), s(".zip"), s("a.zip.zip"), s("zip")];
    assert_eq!(list_archives(&names), vec![s("demo_20240102_030405"), s("a.zip")]);
    assert_eq!(list_archives(&vec![]), Vec::<String>::new());
}

#[test]
fn archive_then_listing_then_remove_reports_none() {
    // The archives directory holds `demo.zip`: it is listed as `demo`.
    let listed = list_archives(&vec![s("demo.zip")]);
    assert_eq!(listed, vec![s("demo")]);
    let r = remove_archive("/home/u/.proj/archives", &listed[0], true).unwrap();
    assert_eq!(r, vec![FsAction::RemoveFile(s("/home/u/.proj/archives/demo.zip"))]);
    // Once removed, the directory holds no archive and the listing is empty.
    assert!(list_archives(&vec![]).is_empty());
}

#[test]
fn removing_missing_archive_is_not_found() {
    assert_eq!(remove_archive("/a", "demo", false).unwrap_err(), ProjError::NotFound);
    assert_eq!(archive_path("/a", "demo"), "/a/demo.zip");
}

#[test]
fn restore_into_existing_destination_conflicts() {
    let r = restore_archive("demo_20240102_030405", None, "/home/u", "/home/u/.proj/archives", true, true, false);
    assert_eq!(r.unwrap_err(), ProjError::Conflict);
    let r = restore_archive("demo_20240102_030405", Some("/elsewhere"), "/home/u", "/a", true, true, true);
    assert_eq!(r.unwrap_err(), ProjError::Conflict);
}

#[test]
fn restore_of_missing_archive_is_not_found() {
    let r = restore_archive("demo_1", None, "/home/u", "/a", false, false, false);
    assert_eq!(r.unwrap_err(), ProjError::NotFound);
}

#[test]
fn restore_to_registry_needs_no_link() {
    let r = restore_archive("demo_20240102_030405", None, "/home/u", "/home/u/.proj/archives", true, false, false).unwrap();
    assert_eq!(
        r,
        vec![
            FsAction::CreateDirAll(s("/home/u/projects/demo")),
            FsAction::ExtractArchive(s("/home/u/.proj/archives/demo_20240102_030405.zip"), s("/home/u/projects/demo")),
        ]
    );
}

#[test]
fn restore_elsewhere_relinks_in_registry() {
    let r = restore_archive("demo_1", Some("/work"), "/home/u", "/a", true, false, true).unwrap();
    assert_eq!(
        r,
        vec![
            FsAction::CreateDirAll(s("/work/demo")),
            FsAction::ExtractArchive(s("/a/demo_1.zip"), s("/work/demo")),
            FsAction::RemoveFile(s("/home/u/projects/demo")),
            FsAction::Symlink(s("/work/demo"), s("/home/u/projects/demo")),
        ]
    );
    let r = restore_archive("demo_1", Some("/work"), "/home/u", "/a", true, false, false).unwrap();
    assert_eq!(r.len(), 3);
    assert_eq!(restore_destination("demo_1", Some("/work"), "/home/u"), "/work/demo");
}

#[test]
fn entry_names_are_relative_to_the_root() {
    assert_eq!(zip_entry_name("/p/demo", "/p/demo/src/main.rs"), Some(s("src/main.rs")));
    assert_eq!(zip_entry_name("/p/demo/", "/p/demo/a.txt"), Some(s("a.txt")));
    assert_eq!(zip_entry_name("/p/demo", "/p/demo"), None);
    assert_eq!(zip_entry_name("/p/demo", "/p/demox/a"), None);
}

#[test]
fn restore_targets_never_escape_destination() {
    assert_eq!(restore_entry_target("/dest", "../../etc/passwd"), "/dest/etc/passwd");
    assert_eq!(restore_entry_target("/dest", "/abs/x"), "/dest/abs/x");
    assert_eq!(restore_entry_target("/dest", "a/./b//c/"), "/dest/a/b/c");
    assert_eq!(sanitize_entry_name("a/../b"), "a/b");
    assert_eq!(sanitize_entry_name(".."), "");
}

#[test]
fn archive_then_restore_keeps_relative_paths() {
    let root = "/work/demo";
    let files = ["/work/demo/README.md", "/work/demo/src/lib.rs", "/work/demo/a/b/c.txt"];
    let archive = archive_file_name("demo", "20240102_030405");
    let stem = archive.trim_end_matches(".zip");
    let dest = restore_destination(stem, None, "/home/u");
    assert_eq!(dest, "/home/u/projects/demo");
    for f in files {
        let entry = zip_entry_name(root, f).unwrap();
        let target = restore_entry_target(&dest, &entry);
        assert_eq!(target, format!("/home/u/projects/demo/{}", &f[root.len() + 1..]));
    }
}

#[test]
fn archive_now_stamps_local_time() {
    let r = project::archive::archive_project_now("demo", "/home/u", "/work", (true, false, false), Some("/home/u/.proj/projects/demo")).unwrap();
    match &r[1] {
        FsAction::WriteArchive(src, file) => {
            assert_eq!(src, "/home/u/.proj/projects/demo");
            let name = file.strip_prefix("/home/u/.proj/archives/demo_").unwrap();
            let stamp = name.strip_suffix(".zip").unwrap();
            assert_eq!(stamp.len(), 15);
            assert_eq!(&stamp[8..9], "_");
            assert!(stamp.chars().filter(|c| *c != '_').all(|c| c.is_ascii_digit()));
        }
        other => panic!("unexpected step {:?}", other),
    }
}

#[test]
fn registry_and_archives_lie_under_home() {
    if let Some(p) = project::paths::projects_dir() {
        assert!(p.ends_with("/projects"));
    }
    if let Some(a) = project::paths::get_archives_dir() {
        assert!(a.ends_with("/.proj/archives"));
    }
}

#[test]
fn archive_entries_and_restore_targets() {
    let files = vec![s("/w/demo/a.txt"), s("/w/demo/src/b.rs")];
    assert_eq!(archive_entries("/w/demo", &files), Some(vec![s("a.txt"), s("src/b.rs")]));
    assert_eq!(archive_entries("/w/demo", &vec![s("/w/other/x")]), None);
    let names = vec![s("a.txt"), s("../../x"), s("/etc/passwd")];
    assert_eq!(restore_targets("/d", &names), vec![s("/d/a.txt"), s("/d/x"), s("/d/etc/passwd")]);
}
