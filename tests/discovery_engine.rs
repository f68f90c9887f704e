use project::discovery::{list_policy, scan_policy, Discovery, EntryInfo};

fn entry(name: &str, is_dir: bool, has_manifest: bool, canonical: Option<&str>) -> EntryInfo {
    EntryInfo {
        name: name.to_string(),
        is_dir,
        has_manifest,
        canonical: canonical.map(|c| c.to_string()),
    }
}

#[test]
fn project_reached_twice_is_reported_once() {
    let mut d = Discovery::new(scan_policy(true));
    // Found in the working directory, then again through its registry symlink.
    let first = d.consider(&entry("demo", true, true, Some("/work/demo")));
    let other = d.consider(&entry("tool", true, true, Some("/work/tool")));
    let again = d.consider(&entry("demo", true, true, Some("/work/demo")));
    assert!(first.report);
    assert!(other.report);
    assert!(!again.report);
    assert_eq!(d.found(), &vec!["/work/demo".to_string(), "/work/tool".to_string()]);
}

#[test]
fn n_projects_give_n_paths() {
    let mut d = Discovery::new(scan_policy(true));
    let canon = ["/a", "/b", "/c", "/a", "/c", "/b"];
    for c in canon {
        d.consider(&entry("x", true, true, Some(c)));
    }
    assert_eq!(d.found().len(), 3);
}

#[test]
fn non_projects_are_not_reported() {
    let mut d = Discovery::new(scan_policy(false));
    let file = d.consider(&entry("notes.txt", false, false, Some("/w/notes.txt")));
    let plain = d.consider(&entry("src", true, false, Some("/w/src")));
    let broken = d.consider(&entry("gone", true, true, None));
    assert!(!file.report && !plain.report && !broken.report);
    // Without recursion nothing is descended into.
    assert!(!file.descend && !plain.descend && !broken.descend);
    assert!(d.found().is_empty());
}

#[test]
fn recursive_scan_descends_each_directory_once() {
    let mut d = Discovery::new(scan_policy(true));
    let a = d.consider(&entry("src", true, false, Some("/w/src")));
    let b = d.consider(&entry("link-to-src", true, false, Some("/w/src")));
    let p = d.consider(&entry("demo", true, true, Some("/w/demo")));
    assert!(a.descend);
    assert!(!b.descend);
    assert!(p.descend);
}

#[test]
fn listing_skips_hidden_and_enters_projects() {
    let mut d = Discovery::new(list_policy());
    let hidden = d.consider(&entry(".cache", true, true, Some("/w/.cache")));
    let p = d.consider(&entry("demo", true, true, Some("/w/demo")));
    let dir = d.consider(&entry("group", true, false, Some("/w/group")));
    assert!(!hidden.report && !hidden.descend);
    assert!(p.report && p.descend);
    assert!(!dir.report && dir.descend);
}

#[test]
fn listing_finds_projects_nested_in_projects() {
    let mut d = Discovery::new(list_policy());
    let outer = d.consider(&entry("outer", true, true, Some("/w/outer")));
    assert!(outer.descend);
    let inner = d.consider(&entry("inner", true, true, Some("/w/outer/inner")));
    assert!(inner.report);
    assert_eq!(d.found().len(), 2);
}
