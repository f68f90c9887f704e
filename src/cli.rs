//! The command-line surface as plain data, and the small decisions made on it.
use vstd::prelude::*;
use vstd::string::*;
use crate::text::text_eq;

verus! {

/// A todo item.
#[derive(Debug)]
pub struct Todo {
    pub title: String,
    pub description: String,
    pub complete: bool,
}

/// A todo sub-command.
#[derive(Debug, PartialEq, Eq)]
pub enum TodoAction {
    /// List todos.
    List,
    /// Add a todo.
    Add { text: String },
    /// Remove a todo by index or text.
    Remove { pattern: String },
}

/// A `TodoAction` with its text as a character sequence.
pub enum TodoActionView {
    List,
    Add(Seq<char>),
    Remove(Seq<char>),
}

impl View for TodoAction {
    type V = TodoActionView;

    open spec fn view(&self) -> TodoActionView {
        match self {
            TodoAction::List => TodoActionView::List,
            TodoAction::Add { text } => TodoActionView::Add(text@),
            TodoAction::Remove { pattern } => TodoActionView::Remove(pattern@),
        }
    }
}

/// The arguments of the `todo` command: a sub-command, or one of the shortcut flags.
#[derive(Debug)]
pub struct TodoArgs {
    pub action: Option<TodoAction>,
    pub list_flag: bool,
    pub add: Option<String>,
    pub remove: Option<String>,
}

/// The action the `todo` arguments ask for: the sub-command if given, else the first
/// shortcut given among list, add and remove, else listing.
pub open spec fn todo_resolve_spec(action: Option<TodoActionView>, list_flag: bool, add: Option<Seq<char>>, remove: Option<Seq<char>>) -> TodoActionView {
    match action {
        Some(a) => a,
        None => if list_flag {
            TodoActionView::List
        } else if add is Some {
            TodoActionView::Add(add->Some_0)
        } else if remove is Some {
            TodoActionView::Remove(remove->Some_0)
        } else {
            TodoActionView::List
        },
    }
}

impl TodoArgs {
    /// The action these arguments ask for.
    pub fn resolve(&self) -> (r: TodoAction)
        ensures
            r@ == todo_resolve_spec(
                match self.action { Some(a) => Some(a@), None => None },
                self.list_flag,
                match self.add { Some(s) => Some(s@), None => None },
                match self.remove { Some(s) => Some(s@), None => None },
            ),
    {
        match &self.action {
            Some(TodoAction::List) => TodoAction::List,
            Some(TodoAction::Add { text }) => TodoAction::Add { text: String::from_str(text.as_str()) },
            Some(TodoAction::Remove { pattern }) => TodoAction::Remove { pattern: String::from_str(pattern.as_str()) },
            None => if self.list_flag {
                TodoAction::List
            } else {
                match (&self.add, &self.remove) {
                    (Some(t), _) => TodoAction::Add { text: String::from_str(t.as_str()) },
                    (None, Some(p)) => TodoAction::Remove { pattern: String::from_str(p.as_str()) },
                    (None, None) => TodoAction::List,
                }
            },
        }
    }
}

/// A command of the tool.
#[derive(Debug)]
pub enum Commands {
    /// Initialise the current directory as a project.
    Init { interactive: bool, template: Option<String>, vars: Vec<(String, String)> },
    /// Create a new project.
    Create { name: String, template: Option<String>, vars: Vec<(String, String)>, interactive: bool },
    /// Scan for projects.
    Scan { recursive: bool },
    /// Set project variables.
    SetVars { vars: Vec<(String, String)> },
    /// Get a project variable.
    Get { key: String },
    /// List projects with a status.
    List { status: String, progress: bool },
    /// Move a project to a destination.
    Migrate { name: String, destination: Option<String>, copy: bool },
    /// Remove a project.
    Remove { name: String, force: bool },
    /// Clone a project.
    Clone { source: String, dest: Option<String>, git_clone: bool },
    /// Archive a project.
    Archive { name: String, destination: Option<String> },
    /// List archived projects.
    Archives,
    /// Remove an archived project.
    ArchiveRemove { name: String },
    /// Restore an archived project.
    Restore { name: String, destination: Option<String> },
    /// Manage todos.
    Todo(TodoArgs),
    /// Print the shell integration.
    Initshell,
}

/// The parsed command line.
#[derive(Debug)]
pub struct Cli {
    pub command: Commands,
}

/// The shell integration for bash and zsh.
pub const POSIX_SHELL_CODE: &'static str = "

project() {
    # If no args, just call the CLI
    if [ $# -eq 0 ]; then
        command project
        return
    fi

    local proj_name=\"$1\"
    shift  # Remove the first arg

    local proj_dir=\"$HOME/projects/$proj_name\"

    if [ -d \"$proj_dir\" ]; then
        real_path=$(readlink -f \"$proj_dir\")
        cd \"$real_path\" || return
        # Optionally activate .env if it exists
        if [ -f \".env\" ]; then
            # Using direnv style, or just source it
            set -a
            source \".env\"
            set +a
        fi
        # Print status
        command project list | grep \"^$proj_name\"
    else
        # Not a project dir, pass everything to Rust CLI
        command project \"$proj_name\" \"$@\"
    fi
}


alias todo=\"project todo\"
alias projects=\"cd ~/projects/\"
";

/// The shell integration for fish.
pub const FISH_SHELL_CODE: &'static str = "

";

/// What is printed for any other shell.
pub const OTHER_SHELL_CODE: &'static str = "
echo Unsupported shell

";

/// The shell integration printed for a shell.
pub open spec fn shell_code_spec(shell: Seq<char>) -> Seq<char> {
    if shell == "bash"@ || shell == "zsh"@ {
        POSIX_SHELL_CODE@
    } else if shell == "fish"@ {
        FISH_SHELL_CODE@
    } else {
        OTHER_SHELL_CODE@
    }
}

/// The shell integration for `shell`.
pub fn init_shell(shell: &str) -> (r: String)
    ensures
        r@ == shell_code_spec(shell@),
{
    if text_eq(shell, "bash") || text_eq(shell, "zsh") {
        String::from_str(POSIX_SHELL_CODE)
    } else if text_eq(shell, "fish") {
        String::from_str(FISH_SHELL_CODE)
    } else {
        String::from_str(OTHER_SHELL_CODE)
    }
}

/// What a new todo list file holds.
pub fn default_todos_json() -> (r: String)
    ensures
        r@ == "{\"todos\":[\"Configure Project Todos\"]}"@,
{
    String::from_str("{\"todos\":[\"Configure Project Todos\"]}")
}

} // verus!
