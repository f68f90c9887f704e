use project::lifecycle::{
    clone_base_name, clone_destination, clone_manifest, clone_project, clone_template, cloned_project_name,
    create_project, find_project_path, is_remote_source, link_in_projects_dir, migrate_destination,
    migrate_project, needs_confirmation, parent_of, registry_link_path, remove_project, resolve_project,
    RegistryEntry,
};
use project::manifest::{FieldValue, Manifest};
use project::metadata::{readme_description, resolve_version, version_from_info, version_text};
use project::plan::{FsAction, ProjError};

fn s(x: &str) -> String {
    x.to_string()
}

fn reg(name: &str, path: &str, has_manifest: bool) -> RegistryEntry {
    RegistryEntry { name: s(name), path: s(path), has_manifest }
}

#[test]
fn registry_lookup_needs_a_manifest() {
    let entries = vec![reg("demo", "/p/demo-old", false), reg("tool", "/p/tool", true), reg("demo", "/p/demo", true)];
    assert_eq!(find_project_path(&entries, "demo"), Some(s("/p/demo")));
    assert_eq!(find_project_path(&entries, "tool"), Some(s("/p/tool")));
    assert_eq!(find_project_path(&entries, "none"), None);
}

#[test]
fn linking_into_the_registry() {
    assert_eq!(registry_link_path("/home/u/projects", "/work/demo"), "/home/u/projects/demo");
    assert_eq!(
        link_in_projects_dir("/home/u/projects", "/work/demo", false),
        vec![FsAction::Symlink(s("/work/demo"), s("/home/u/projects/demo"))]
    );
    assert!(link_in_projects_dir("/home/u/projects", "/work/demo", true).is_empty());
    assert!(link_in_projects_dir("/home/u/projects", "/home/u/projects/demo", false).is_empty());
    assert!(link_in_projects_dir("/home/u/projects", "/home/u/projects/a/b", false).is_empty());
    assert_eq!(link_in_projects_dir("/home/u/projects", "/home/u/projects2/demo", false).len(), 1);
}

#[test]
fn migrate_into_existing_destination_conflicts() {
    let r = migrate_project("demo", Some("/dst"), "/home/u/projects", Some("/home/u/projects/demo"), Some("/work/demo"), true, true);
    assert_eq!(r.unwrap_err(), ProjError::Conflict);
}

#[test]
fn migrate_moves_and_drops_the_symlink() {
    let r = migrate_project("demo", Some("/dst"), "/home/u/projects", Some("/home/u/projects/demo"), Some("/work/demo"), false, true)
        .unwrap();
    assert_eq!(
        r,
        vec![
            FsAction::CreateDirAll(s("/dst")),
            FsAction::Rename(s("/work/demo"), s("/dst/demo")),
            FsAction::RemoveFile(s("/home/u/projects/demo")),
        ]
    );
    assert_eq!(migrate_destination("demo", None, "/home/u/projects"), "/home/u/projects/demo");
}

#[test]
fn migrate_errors_in_order() {
    let r = migrate_project("demo", None, "/p", None, None, true, false);
    assert_eq!(r.unwrap_err(), ProjError::NotFound);
    let r = migrate_project("demo", None, "/p", Some("/p/demo"), None, true, false);
    assert_eq!(r.unwrap_err(), ProjError::IoFailure);
}

#[test]
fn resolution_falls_back_to_working_directory() {
    assert_eq!(resolve_project(Some("/p/demo"), "/work", "demo", true), Some(s("/p/demo")));
    assert_eq!(resolve_project(None, "/work", "demo", true), Some(s("/work/demo")));
    assert_eq!(resolve_project(None, "/work", "demo", false), None);
}

#[test]
fn remove_outside_registry_drops_link() {
    let r = remove_project("demo", true, false, "/home/u/projects", Some("/home/u/projects/demo"), Some("/work/demo"), true).unwrap();
    assert_eq!(r, vec![FsAction::RemoveDirAll(s("/work/demo")), FsAction::RemoveEntry(s("/home/u/projects/demo"))]);
    let r = remove_project("demo", false, true, "/home/u/projects", Some("/home/u/projects/demo"), Some("/home/u/projects/demo"), true)
        .unwrap();
    assert_eq!(r, vec![FsAction::RemoveDirAll(s("/home/u/projects/demo"))]);
}

#[test]
fn remove_declined_or_missing() {
    let r = remove_project("demo", false, false, "/p", Some("/p/demo"), Some("/p/demo"), false).unwrap();
    assert!(r.is_empty());
    assert_eq!(remove_project("demo", true, true, "/p", None, None, false).unwrap_err(), ProjError::NotFound);
    assert!(needs_confirmation(false, true));
    assert!(!needs_confirmation(true, true));
}

#[test]
fn clone_of_url_without_destination() {
    let src = "https://example.com/foo.git";
    assert!(is_remote_source(src));
    let p = "/home/u/projects";
    assert_eq!(clone_destination(src, None, "/work", p), "/home/u/projects/foo");
    let r = clone_project(src, None, "/work", p, false, false, None, false, false).unwrap();
    assert_eq!(
        r,
        vec![FsAction::CreateDirAll(s("/home/u/projects")), FsAction::GitClone(s(src), s("/home/u/projects/foo"))]
    );
    let m = clone_manifest(src, "/home/u/projects/foo", false, None, None, None, None).unwrap();
    assert_eq!(m.get("name"), Some(&FieldValue::Text(s("foo"))));
    assert_eq!(m.get("template"), Some(&FieldValue::Text(s(src))));
    assert_eq!(m.get("completion"), Some(&FieldValue::Number(s("1.0"))));
    assert_eq!(m.get("status"), Some(&FieldValue::Text(s("active"))));
    assert_eq!(m.get("version"), Some(&FieldValue::Text(s("0.0.1"))));
    assert_eq!(m.get("description"), Some(&FieldValue::Text(s(""))));
    assert_eq!(cloned_project_name("/home/u/projects/foo"), "foo");
    assert_eq!(clone_template(src), Some(s(src)));
}

#[test]
fn clone_keeps_an_existing_manifest() {
    assert!(clone_manifest("https://x/y.git", "/p/y", true, Some("Y"), Some("v1"), None, None).is_none());
}

#[test]
fn clone_manifest_from_files() {
    let m = clone_manifest("demo", "/d/copy", false, Some("Title\nline two\nthree\nfour"), None,
        Some("__version__ = '1.2'\n"), Some(" 9.9 \n")).unwrap();
    assert_eq!(m.get("description"), Some(&FieldValue::Text(s("Title line two three"))));
    assert_eq!(m.get("version"), Some(&FieldValue::Text(s("1.2"))));
    assert_eq!(m.get("template"), Some(&FieldValue::Null));
    let m = clone_manifest("demo", "/d/copy", false, None, Some("v3.0\n"), Some("__version__ = '1.2'"), None).unwrap();
    assert_eq!(m.get("version"), Some(&FieldValue::Text(s("v3.0"))));
    let m = clone_manifest("demo", "/d/copy", false, None, Some("0.0.1"), Some("__version__ = '1.2'"), None).unwrap();
    assert_eq!(m.get("version"), Some(&FieldValue::Text(s("0.0.1"))));
    let m = clone_manifest("demo", "/d/copy", false, None, None, Some("nothing here"), Some("VER\n")).unwrap();
    assert_eq!(m.get("version"), Some(&FieldValue::Text(s("VER"))));
}

#[test]
fn clone_outside_registry_is_linked() {
    let r = clone_project("demo", Some("/opt"), "/work", "/home/u/projects", false, false, Some("/home/u/projects/demo"), false, false)
        .unwrap();
    assert_eq!(
        r,
        vec![
            FsAction::CreateDirAll(s("/opt")),
            FsAction::CopyDirInto(s("/home/u/projects/demo"), s("/opt/demo")),
            FsAction::Symlink(s("/opt/demo"), s("/home/u/projects/demo")),
        ]
    );
    let r = clone_project("demo", Some("/opt"), "/work", "/home/u/projects", false, false, Some("/home/u/projects/demo"), false, true)
        .unwrap();
    assert_eq!(r.len(), 2);
}

#[test]
fn clone_destination_rules() {
    let p = "/home/u/projects";
    assert_eq!(clone_destination("git@host:me/bar.git", Some("."), "/work", p), "/work/bar");
    assert_eq!(clone_destination("demo", Some("./"), "/work", p), "/work/demo");
    assert_eq!(clone_destination("demo", Some("/opt"), "/work", p), "/opt/demo");
    assert_eq!(clone_destination("demo", Some("copies/demo2"), "/work", p), "/home/u/projects/copies/demo2");
    assert_eq!(clone_base_name("a/b/c.git.git"), "c");
    assert_eq!(clone_base_name("plain"), "plain");
    assert_eq!(parent_of("/home/u/projects/foo"), "/home/u/projects");
    assert_eq!(parent_of("/foo"), "/");
    assert_eq!(parent_of("foo"), "");
}

#[test]
fn clone_of_local_project() {
    let p = "/p";
    assert_eq!(clone_project("demo", Some("x"), "/w", p, true, false, Some("/p/demo"), false, false).unwrap_err(), ProjError::Conflict);
    assert_eq!(clone_project("demo", Some("x"), "/w", p, false, false, None, false, false).unwrap_err(), ProjError::NotFound);
    assert_eq!(
        clone_project("demo", Some("x"), "/w", p, false, true, Some("/p/demo"), true, false).unwrap(),
        vec![FsAction::CreateDirAll(s("/p")), FsAction::GitClone(s("/p/demo"), s("/p/x"))]
    );
    assert_eq!(
        clone_project("demo", Some("x"), "/w", p, false, true, Some("/p/demo"), false, false).unwrap(),
        vec![FsAction::CreateDirAll(s("/p")), FsAction::CopyDirInto(s("/p/demo"), s("/p/x"))]
    );
    assert_eq!(clone_template("demo"), None);
}

#[test]
fn readme_description_joins_three_lines() {
    assert_eq!(readme_description("# Foo\r\nA tool.\n\nMore text\n"), "# Foo A tool. ");
    assert_eq!(readme_description("one\ntwo"), "one two");
    assert_eq!(readme_description(""), "");
}

#[test]
fn version_from_info_py() {
    let content = "# info\n__version__ = '1.2.3'\n__version__ = \"9\"\n";
    assert_eq!(version_from_info(content), Some(s("1.2.3")));
    assert_eq!(version_from_info("__version__\n__version__=\"2.0\"  \n"), Some(s("2.0")));
    assert_eq!(version_from_info("version = 1"), None);
}

#[test]
fn version_priority_chain() {
    assert_eq!(resolve_version(Some("v2.1"), Some("1.0"), Some("3.0")), "v2.1");
    assert_eq!(resolve_version(None, Some("1.0"), Some("3.0")), "1.0");
    assert_eq!(resolve_version(None, None, Some("3.0")), "3.0");
    assert_eq!(resolve_version(Some("0.0.1"), None, Some("3.0")), "0.0.1");
    assert_eq!(resolve_version(None, None, None), "0.0.1");
    assert_eq!(version_text("  4.5.6\n"), "4.5.6");
}

#[test]
fn create_needs_a_free_target() {
    assert_eq!(create_project("demo", None, false).unwrap(), vec![FsAction::CreateDirAll(s("demo"))]);
    assert_eq!(create_project("demo", Some("/work/demo"), false).unwrap(), vec![FsAction::CreateDirAll(s("/work/demo"))]);
    assert_eq!(create_project("demo", Some("/work/demo"), true).unwrap_err(), ProjError::Conflict);
}
