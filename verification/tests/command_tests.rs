use phantomtty::command::{
    builtin_completions, classify_command, encode_submission, phantom_response, trim_blanks,
    Directive,
};

#[test]
fn classify_history_and_exit() {
    assert!(matches!(classify_command("history"), Directive::ShowHistory));
    assert!(matches!(classify_command("exit"), Directive::Exit));
}

#[test]
fn classify_phantom_keeps_rest() {
    match classify_command("phantom:hello") {
        Directive::Phantom(w) => assert_eq!(w, "hello"),
        other => panic!("expected a phantom directive, got {:?}", other),
    }
    match classify_command("phantom: shell ") {
        Directive::Phantom(w) => assert_eq!(w, " shell "),
        other => panic!("expected a phantom directive, got {:?}", other),
    }
}

#[test]
fn classify_everything_else_goes_to_shell() {
    assert!(matches!(classify_command("ls -l"), Directive::Shell));
    assert!(matches!(classify_command("histor"), Directive::Shell));
    assert!(matches!(classify_command("exit now"), Directive::Shell));
    assert!(matches!(classify_command(""), Directive::Shell));
    assert!(matches!(classify_command("phantom"), Directive::Shell));
}

#[test]
fn phantom_hello_and_shell() {
    assert_eq!(phantom_response("hello", "/bin/sh"), "Hello from PhantomTTY!");
    assert_eq!(phantom_response(" hello ", "/bin/sh"), "Hello from PhantomTTY!");
    assert_eq!(phantom_response("shell", "/bin/zsh"), "Current shell: /bin/zsh");
}

#[test]
fn phantom_unknown_echoes_word() {
    assert_eq!(
        phantom_response("frobnicate", "/bin/sh"),
        "Unknown PhantomTTY command: frobnicate"
    );
    // the unknown answer echoes the word as given, blanks and all
    assert_eq!(
        phantom_response(" nothing", "/bin/sh"),
        "Unknown PhantomTTY command:  nothing"
    );
}

#[test]
fn trimming_strips_both_ends() {
    assert_eq!(trim_blanks("  a b \t"), "a b");
    assert_eq!(trim_blanks("word"), "word");
    assert_eq!(trim_blanks(" \t\r\n"), "");
    assert_eq!(trim_blanks(""), "");
}

#[test]
fn submission_gets_a_newline() {
    assert_eq!(encode_submission("echo ready"), "echo ready\n");
    assert_eq!(encode_submission(""), "\n");
}

#[test]
fn completions_filter_by_prefix() {
    let all = builtin_completions("");
    assert_eq!(all, vec!["cd", "ls", "echo", "cat", "grep", "history", "exit"]);
    assert_eq!(builtin_completions("c"), vec!["cd", "cat"]);
    assert_eq!(builtin_completions("hist"), vec!["history"]);
    assert_eq!(builtin_completions("e"), vec!["echo", "exit"]);
    assert!(builtin_completions("z").is_empty());
    assert_eq!(builtin_completions("exit"), vec!["exit"]);
}
