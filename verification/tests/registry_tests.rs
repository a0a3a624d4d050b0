use paschek_shell::registry::{
    levenshtein, CommandAction, CommandRegistry, Command, CommandKind, HelloCommand,
};

#[test]
fn levenshtein_exact_values() {
    assert_eq!(levenshtein("", ""), 0);
    assert_eq!(levenshtein("", "abc"), 3);
    assert_eq!(levenshtein("abc", ""), 3);
    assert_eq!(levenshtein("kitten", "sitting"), 3);
    assert_eq!(levenshtein("hlep", "help"), 2);
    assert_eq!(levenshtein("help", "help"), 0);
    assert_eq!(levenshtein("flaw", "lawn"), 2);
}

#[test]
fn suggest_close_name() {
    let r = CommandRegistry::new();
    assert_eq!(r.suggest("hlep").as_deref(), Some("help"));
    assert_eq!(r.suggest("helo").as_deref(), Some("hello"));
}

#[test]
fn suggest_far_name_is_none() {
    let r = CommandRegistry::new();
    assert!(r.suggest("zzzzz").is_none());
}

#[test]
fn resolve_alias() {
    let r = CommandRegistry::new();
    let act = r.execute("h", &Vec::new());
    assert!(matches!(act, Some(CommandAction::HelpList(_))));
    let act = r.execute("cls", &Vec::new());
    assert!(matches!(act, Some(CommandAction::ClearScreen)));
}

#[test]
fn execute_unknown_returns_none() {
    let r = CommandRegistry::new();
    assert!(r.execute("nosuch", &Vec::new()).is_none());
}

#[test]
fn cd_requires_a_path() {
    let r = CommandRegistry::new();
    assert!(matches!(r.execute("cd", &Vec::new()), Some(CommandAction::CdUsage)));
    let args = vec!["/tmp".to_string()];
    match r.execute("cd", &args) {
        Some(CommandAction::Cd(p)) => assert_eq!(p, "/tmp"),
        other => panic!("unexpected action: {:?}", other.is_some()),
    }
}

#[test]
fn theme_reload_needs_its_argument() {
    let r = CommandRegistry::new_with_prompt();
    let args = vec!["reload".to_string()];
    assert!(matches!(r.execute("theme", &args), Some(CommandAction::ThemeReload)));
    assert!(matches!(r.execute("theme", &Vec::new()), Some(CommandAction::ThemeUsage)));
}

#[test]
fn help_detail_and_unknown() {
    let r = CommandRegistry::new();
    let args = vec!["cd".to_string()];
    match r.execute("help", &args) {
        Some(CommandAction::HelpDetail(n, _a, u)) => {
            assert_eq!(n, "cd");
            assert_eq!(u, "cd <path>");
        },
        _ => panic!("expected a detail"),
    }
    let args = vec!["hlep".to_string()];
    match r.execute("help", &args) {
        Some(CommandAction::HelpUnknown(w, sug)) => {
            assert_eq!(w, "hlep");
            assert_eq!(sug.as_deref(), Some("help"));
        },
        _ => panic!("expected unknown with suggestion"),
    }
}

#[test]
fn list_metadata_is_sorted_by_name() {
    let r = CommandRegistry::new_with_prompt();
    let rows = r.list_metadata();
    let names: Vec<&str> = rows.iter().map(|t| t.0.as_str()).collect();
    assert_eq!(names, vec!["cd", "clear", "hello", "help", "theme"]);
}

#[test]
fn list_names_is_sorted() {
    let r = CommandRegistry::new();
    let names = r.list_names();
    assert_eq!(names, vec!["cd", "clear", "hello", "help"]);
}

#[test]
fn register_overwrites_colliding_name() {
    let mut r = CommandRegistry::new();
    let before = r.commands.len();
    r.register(&HelloCommand);
    assert_eq!(r.commands.len(), before);
    // The re-registered command moved to the end.
    assert_eq!(r.commands.last().unwrap().name, "hello");
    assert_eq!(HelloCommand.kind(), CommandKind::Hello);
}
