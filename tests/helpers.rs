use project::cli::{init_shell, TodoAction, TodoArgs, FISH_SHELL_CODE, OTHER_SHELL_CODE, POSIX_SHELL_CODE};
use project::git::{flag_marks, git_status_flags, no_repository_flags, query_args, CommandOutcome, GitFlags, GitQuery};
use project::interact::{answer_is_yes, boilr_args, choose_template, detect_shell, eq_ignore_case, is_affirmative, parse_usize};
use project::keyval::parse_key_val;
use project::paths::{file_name, is_within, join, projects_dir_in, archives_dir_in, manifest_file};
use project::text::trim_text;

fn s(x: &str) -> String {
    x.to_string()
}

#[test]
fn key_val_splits_at_first_equals() {
    assert_eq!(parse_key_val("a=b=c"), Ok((s("a"), s("b=c"))));
    assert_eq!(parse_key_val("=x"), Ok((s(""), s("x"))));
    assert_eq!(parse_key_val("noeq"), Err(s("invalid KEY=value: no `=` found in `noeq`")));
}

#[test]
fn paths_join_and_contain() {
    assert_eq!(join("/home/u", "projects"), "/home/u/projects");
    assert_eq!(join("/home/u/", "projects"), "/home/u/projects");
    assert_eq!(join("/home/u", "/abs"), "/abs");
    assert_eq!(projects_dir_in("/home/u"), "/home/u/projects");
    assert_eq!(archives_dir_in("/home/u"), "/home/u/.proj/archives");
    assert_eq!(manifest_file("/w/demo"), "/w/demo/.proj/project.json");
    assert_eq!(file_name("/w/demo"), Some(s("demo")));
    assert_eq!(file_name("/w/.."), None);
    assert!(is_within("/home/u/projects/demo", "/home/u/projects"));
    assert!(is_within("/home/u/projects", "/home/u/projects"));
    assert!(!is_within("/home/u/projects2", "/home/u/projects"));
}

#[test]
fn git_flags_from_outcomes() {
    let printed = CommandOutcome::Finished { code: Some(0), stdout_empty: false };
    let quiet_ok = CommandOutcome::Finished { code: Some(0), stdout_empty: true };
    let changed = CommandOutcome::Finished { code: Some(1), stdout_empty: true };
    let error = CommandOutcome::Finished { code: Some(128), stdout_empty: true };
    let f = git_status_flags(printed, quiet_ok, changed, quiet_ok, printed);
    assert_eq!(f, GitFlags { untracked: true, uncommitted: true, unpushed: true });
    let f = git_status_flags(quiet_ok, quiet_ok, quiet_ok, changed, printed);
    assert_eq!(f, GitFlags { untracked: false, uncommitted: false, unpushed: false });
    let n = CommandOutcome::NotRun;
    assert_eq!(git_status_flags(n, n, n, n, n), no_repository_flags());
    // Outside a repository every command errors: nothing is flagged.
    let e_printing = CommandOutcome::Finished { code: Some(128), stdout_empty: false };
    assert_eq!(git_status_flags(e_printing, error, error, error, e_printing), no_repository_flags());
    let killed = CommandOutcome::Finished { code: None, stdout_empty: true };
    assert_eq!(git_status_flags(killed, killed, killed, killed, killed), no_repository_flags());
    assert_eq!(query_args(GitQuery::Diff), vec![s("diff"), s("--quiet")]);
}

#[test]
fn flag_marks_are_colored() {
    let f = GitFlags { untracked: true, uncommitted: false, unpushed: true };
    assert_eq!(flag_marks(f), "\x1b[31m+\x1b[0m\x1b[31m^\x1b[0m");
    assert_eq!(flag_marks(no_repository_flags()), "");
}

#[test]
fn confirmation_answers() {
    assert!(is_affirmative(" Yes \n"));
    assert!(is_affirmative("y"));
    assert!(!is_affirmative("no"));
    assert!(!is_affirmative(""));
    assert!(answer_is_yes("yes"));
    assert!(!answer_is_yes("YES"));
}

#[test]
fn template_choice_by_number_or_name() {
    let t = vec![s("rust-cli"), s("Python-Lib")];
    assert_eq!(choose_template(&t, "2\n"), Some(s("Python-Lib")));
    assert_eq!(choose_template(&t, " python-lib "), Some(s("Python-Lib")));
    assert_eq!(choose_template(&t, "3"), None);
    assert_eq!(choose_template(&t, "0"), None);
    assert_eq!(choose_template(&t, "go"), None);
    assert!(eq_ignore_case("AbC", "aBc"));
}

#[test]
fn usize_parsing_matches_std() {
    for x in ["0", "+12", "007", "18446744073709551615", "18446744073709551616", "", "+", "-1", "1a", " 1"] {
        assert_eq!(parse_usize(x), x.parse::<usize>().ok(), "{}", x);
    }
}

#[test]
fn trimming_matches_std() {
    for x in ["  a b \n", "\u{3000}x\u{85}", "", "   ", "a"] {
        assert_eq!(trim_text(x, false), x.trim());
    }
    assert_eq!(trim_text(" '1.0' ", true), "1.0");
}

#[test]
fn boilr_arguments() {
    assert_eq!(boilr_args("t", "{}", true), vec![s("template"), s("use"), s("t"), s(".")]);
    assert_eq!(
        boilr_args("t", "{}", false),
        vec![s("template"), s("use"), s("t"), s("."), s("--use-defaults"), s("-d"), s("{}")]
    );
}

#[test]
fn shell_detection_and_code() {
    assert_eq!(detect_shell(true, true, Some("/bin/fish")), "bash");
    assert_eq!(detect_shell(false, true, None), "zsh");
    assert_eq!(detect_shell(false, false, Some("/usr/bin/fish")), "fish");
    assert_eq!(detect_shell(false, false, None), "");
    assert_eq!(init_shell("zsh"), POSIX_SHELL_CODE);
    assert_eq!(init_shell("fish"), FISH_SHELL_CODE);
    assert_eq!(init_shell("tcsh"), OTHER_SHELL_CODE);
    assert!(POSIX_SHELL_CODE.contains("alias todo=\"project todo\""));
}

#[test]
fn todo_arguments_resolve() {
    let a = TodoArgs { action: Some(TodoAction::Remove { pattern: s("x") }), list_flag: true, add: None, remove: None };
    assert_eq!(a.resolve(), TodoAction::Remove { pattern: s("x") });
    let a = TodoArgs { action: None, list_flag: false, add: Some(s("buy milk")), remove: Some(s("y")) };
    assert_eq!(a.resolve(), TodoAction::Add { text: s("buy milk") });
    let a = TodoArgs { action: None, list_flag: false, add: None, remove: Some(s("y")) };
    assert_eq!(a.resolve(), TodoAction::Remove { pattern: s("y") });
    let a = TodoArgs { action: None, list_flag: false, add: None, remove: None };
    assert_eq!(a.resolve(), TodoAction::List);
}
