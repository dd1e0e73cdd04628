use ebpf_tracker::shell::{pty_wrapper_command, shell_quote, shell_quote_command};

#[test]
fn quoting_keeps_values_literal() {
    assert_eq!(shell_quote(""), "''");
    assert_eq!(shell_quote("cargo"), "'cargo'");
    assert_eq!(shell_quote("it's"), "'it'\"'\"'s'");
    assert_eq!(shell_quote("$HOME `x`"), "'$HOME `x`'");
}

#[test]
fn commands_are_quoted_word_by_word() {
    let words = vec!["npm".to_string(), "run".to_string(), "dev server".to_string()];
    assert_eq!(shell_quote_command(&words), "'npm' 'run' 'dev server'");
    assert_eq!(
        pty_wrapper_command(&words),
        "exec script -qefc ''\"'\"'npm'\"'\"' '\"'\"'run'\"'\"' '\"'\"'dev server'\"'\"'' /dev/null >&2"
    );
    assert_eq!(shell_quote_command(&Vec::new()), "");
}
