use line_shell::dispatch::{CommandRegistry, Dispatch, echo_output, help_text,
    unknown_command_message, tokenize};
use line_shell::editor::Editor;

fn builtin_registry() -> CommandRegistry {
    let mut reg = CommandRegistry::new();
    reg.register("help");
    reg.register("clear");
    reg.register("echo");
    reg
}

#[test]
fn tokenize_echo_line() {
    let tokens = tokenize("echo a b c");
    assert_eq!(
        tokens,
        vec!["echo".to_string(), "a".to_string(), "b".to_string(), "c".to_string()]
    );
    assert_eq!(tokens.len(), 4);
}

#[test]
fn tokenize_collapses_whitespace_runs() {
    assert_eq!(tokenize("  a\t\t bb  c "), vec![
        "a".to_string(),
        "bb".to_string(),
        "c".to_string()
    ]);
}

#[test]
fn tokenize_empty_and_blank_lines() {
    assert_eq!(tokenize(""), Vec::<String>::new());
    assert_eq!(tokenize(" \t \r\n"), Vec::<String>::new());
}

#[test]
fn dispatch_blank_line_is_empty() {
    let reg = builtin_registry();
    assert_eq!(reg.dispatch("   "), Dispatch::Empty);
    assert_eq!(reg.dispatch(""), Dispatch::Empty);
}

#[test]
fn dispatch_finds_registered_command() {
    let reg = builtin_registry();
    match reg.dispatch("echo a b c") {
        Dispatch::Invoke(idx, args) => {
            assert_eq!(idx, 2);
            assert_eq!(args, vec![
                "echo".to_string(),
                "a".to_string(),
                "b".to_string(),
                "c".to_string()
            ]);
        },
        other => panic!("expected an invocation, got {:?}", other),
    }
}

#[test]
fn dispatch_miss_reports_unknown() {
    let reg = builtin_registry();
    assert_eq!(reg.dispatch("frobnicate a b"), Dispatch::Unknown);
    assert_eq!(unknown_command_message(), "unknown command.".to_string());
}

#[test]
fn dispatch_is_case_sensitive() {
    let reg = builtin_registry();
    assert_eq!(reg.dispatch("Echo x"), Dispatch::Unknown);
}

#[test]
fn dispatch_miss_leaves_editor_state_unchanged() {
    let mut ed = Editor::new(50, 50);
    for &b in "history entry".as_bytes() {
        ed.handle_key(b);
    }
    ed.handle_key(13);
    for &b in "typed".as_bytes() {
        ed.handle_key(b);
    }
    let reg = builtin_registry();
    assert_eq!(reg.dispatch("nosuchcmd"), Dispatch::Unknown);
    assert_eq!(ed.text(), "typed".to_string());
    assert_eq!(ed.cursor_pos(), 5);
    assert_eq!(ed.history().len(), 1);
    assert_eq!(ed.history().entry_at(0), "history entry".to_string());
}

#[test]
fn echo_joins_arguments_with_spaces() {
    let args = vec![
        "echo".to_string(),
        "a".to_string(),
        "b".to_string(),
        "c".to_string(),
    ];
    assert_eq!(echo_output(&args), "a b c\n\r".to_string());
}

#[test]
fn echo_with_one_argument() {
    let args = vec!["echo".to_string(), "x".to_string()];
    assert_eq!(echo_output(&args), "x\n\r".to_string());
}

#[test]
fn echo_without_arguments_prints_nothing() {
    let args = vec!["echo".to_string()];
    assert_eq!(echo_output(&args), String::new());
}

#[test]
fn help_lists_the_builtins() {
    assert_eq!(help_text(), "help\n\rclear\n\recho\n\r".to_string());
}

#[test]
fn registering_twice_keeps_the_first_index() {
    let mut reg = CommandRegistry::new();
    let first = reg.register("echo");
    let again = reg.register("echo");
    assert_eq!(first, 0);
    assert_eq!(again, 0);
    assert_eq!(reg.len(), 1);
}

#[test]
fn lookup_by_name() {
    let reg = builtin_registry();
    assert_eq!(reg.lookup(&"clear".to_string()), Some(1));
    assert_eq!(reg.lookup(&"nope".to_string()), None);
}
