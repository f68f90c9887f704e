use project::listing::{project_status, status_matches};
use project::manifest::{FieldValue, Manifest};

fn text(x: &str) -> FieldValue {
    FieldValue::Text(x.to_string())
}

fn pairs(v: &[(&str, &str)]) -> Vec<(String, String)> {
    v.iter().map(|(k, x)| (k.to_string(), x.to_string())).collect()
}

#[test]
fn set_then_get_returns_the_text() {
    let mut m = Manifest::default_for("demo");
    m.set_var("owner", "alice", false);
    assert_eq!(m.get("owner"), Some(&text("alice")));
    m.set_var("status", "archived", true);
    assert_eq!(m.get("status"), Some(&text("archived")));
}

#[test]
fn set_completion_stores_a_number() {
    let mut m = Manifest::default_for("demo");
    m.set_var("completion", "0.42", true);
    assert_eq!(m.get("completion"), Some(&FieldValue::Number("0.42".to_string())));
    m.set_var("completion", "most", false);
    assert_eq!(m.get("completion"), Some(&text("most")));
}

#[test]
fn set_project_vars_applies_in_order() {
    let mut m = Manifest::new();
    let vars = pairs(&[("a", "1"), ("completion", "0.5"), ("a", "2")]);
    m.set_project_vars(&vars, &vec![true, true, true]);
    assert_eq!(m.get("a"), Some(&text("2")));
    assert_eq!(m.get("completion"), Some(&FieldValue::Number("0.5".to_string())));
    assert_eq!(m.entries().len(), 2);
}

#[test]
fn init_vars_are_stored_as_text() {
    let mut m = Manifest::default_for("demo");
    m.set_text_vars(&pairs(&[("completion", "0.3"), ("team", "core")]));
    assert_eq!(m.get("completion"), Some(&text("0.3")));
    assert_eq!(m.get("team"), Some(&text("core")));
}

#[test]
fn get_of_missing_key_is_none() {
    let m = Manifest::default_for("demo");
    assert_eq!(m.get("owner"), None);
}

#[test]
fn default_manifest_of_demo() {
    let m = Manifest::default_for("demo");
    assert_eq!(m.get("name"), Some(&text("demo")));
    assert_eq!(m.get("version"), Some(&text("0.1.0")));
    assert_eq!(m.get("description"), Some(&text("New project")));
    assert_eq!(m.get("template"), Some(&FieldValue::Null));
    assert_eq!(m.get("status"), Some(&text("active")));
    assert_eq!(m.get("completion"), Some(&FieldValue::Number("0.0".to_string())));
    assert_eq!(m.entries().len(), 6);
    assert!(m.needs_template());
}

#[test]
fn template_choice_only_without_textual_template() {
    let mut m = Manifest::default_for("demo");
    m.set("template", text("rust-cli"));
    assert!(!m.needs_template());
}

#[test]
fn status_shown_and_filtered() {
    let mut m = Manifest::new();
    assert_eq!(project_status(&m), "active");
    m.set("status", text("archived"));
    assert_eq!(project_status(&m), "archived");
    assert!(status_matches("all", "archived"));
    assert!(status_matches("archived", "archived"));
    assert!(!status_matches("active", "archived"));
}

#[test]
fn missing_numeric_flag_stores_text() {
    let mut m = Manifest::new();
    m.set_project_vars(&pairs(&[("completion", "0.9")]), &vec![]);
    assert_eq!(m.get("completion"), Some(&text("0.9")));
}

#[test]
fn init_in_empty_demo_directory() {
    let none = Manifest::new();
    let start = project::lifecycle::init_project("/work/demo", false, &none, false, &vec![]);
    assert_eq!(start.name, "demo");
    assert!(start.git_init);
    let m = start.default_manifest.unwrap();
    assert_eq!(m.get("name"), Some(&text("demo")));
    assert_eq!(m.get("template"), Some(&FieldValue::Null));
    assert_eq!(start.manifest.entries().len(), 6);
    let mut existing = Manifest::new();
    existing.set("name", text("kept"));
    let again = project::lifecycle::init_project("/work/demo", true, &existing, true, &pairs(&[("owner", "me"), ("completion", "0.5")]));
    assert!(again.default_manifest.is_none());
    assert!(!again.git_init);
    assert_eq!(again.manifest.get("name"), Some(&text("kept")));
    assert_eq!(again.manifest.get("owner"), Some(&text("me")));
    assert_eq!(again.manifest.get("completion"), Some(&text("0.5")));
}

#[test]
fn adopted_template_only_when_missing() {
    let mut m = Manifest::default_for("demo");
    m.adopt_template(Some("rust-cli"));
    assert_eq!(m.get("template"), Some(&text("rust-cli")));
    m.adopt_template(Some("other"));
    assert_eq!(m.get("template"), Some(&text("rust-cli")));
    let mut n = Manifest::default_for("demo");
    n.adopt_template(None);
    assert_eq!(n.get("template"), Some(&FieldValue::Null));
}
