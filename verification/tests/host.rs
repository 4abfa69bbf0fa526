use luvus_jira::host::{command, command_error, failure_message, CommandOutput};

fn output(stdout: &[u8], stderr: &[u8]) -> CommandOutput {
    CommandOutput {
        success: false,
        code: Some(3),
        status: "exit status: 3".to_owned(),
        stdout: stdout.to_vec(),
        stderr: stderr.to_vec(),
    }
}

#[test]
fn the_error_output_comes_first() {
    assert_eq!(command_error(&output(b"out", b" went wrong \n")), "went wrong");
}

#[test]
fn the_output_comes_where_there_are_no_errors() {
    assert_eq!(command_error(&output(b"\tout\n", b" \n")), "out");
}

#[test]
fn a_silent_command_is_told_by_its_end() {
    assert_eq!(command_error(&output(b"", b"")), "exit status exit status: 3");
}

#[test]
fn bytes_that_are_no_text_are_replaced() {
    assert_eq!(command_error(&output(b"", b"a\xffb\xe2\x82")), "a\u{fffd}b\u{fffd}");
    assert_eq!(command_error(&output("größe".as_bytes(), b"")), "größe");
}

#[test]
fn a_command_has_its_arguments_in_order() {
    let next = command("luvus", &["a", "", "b c"]);
    assert_eq!(next.program, "luvus");
    assert_eq!(next.args, vec!["a", "", "b c"]);
    assert_eq!(next.env_remove, Vec::<String>::new());
}

#[test]
fn a_failure_is_told_by_the_texts() {
    assert_eq!(failure_message(" e ", "o", "s"), "e");
    assert_eq!(failure_message(" ", "o\n", "s"), "o");
    assert_eq!(failure_message("", "", "signal: 9"), "exit status signal: 9");
}
