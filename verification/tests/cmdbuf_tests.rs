use rqs::cmdbuf::Cmd;

#[test]
fn buf_basic() {
    let mut cmd = Cmd::new();

    cmd.buf_add_text("First cmd;");
    cmd.buf_add_text("Second cmd;");
    cmd.buf_insert_text("Third cmd;");

    assert_eq!(cmd.cmd_text, "Third cmd;First cmd;Second cmd;");
}

#[test]
fn execute_basic() {
    let mut cmd = Cmd::new();

    cmd.buf_add_text("First cmd;");
    cmd.buf_add_text("Second cmd\n");
    cmd.buf_add_text("third");

    cmd.buf_execute();
    assert_eq!(cmd.cmd_text, "");
}

#[test]
fn execute_wait() {
    let mut cmd = Cmd::new();

    cmd.buf_add_text("First cmd;");
    cmd.buf_add_text("Second cmd\n");
    cmd.buf_add_text("remainder");

    cmd.wait = true;
    cmd.buf_execute();
    assert_eq!(cmd.cmd_text, "Second cmd\nremainder");

    cmd.wait = true;
    cmd.buf_execute();
    assert_eq!(cmd.cmd_text, "remainder");
}

#[test]
fn execute_escape() {
    let mut cmd = Cmd::new();

    cmd.buf_add_text(r#"First "cmd";"#);
    cmd.buf_add_text(r#"Second "cmd;" thing;"#);
    cmd.buf_add_text("Third \"cmd; consumed\n");
    cmd.buf_add_text("remainder");

    cmd.wait = true;
    cmd.buf_execute();
    assert_eq!(
        cmd.cmd_text,
        "Second \"cmd;\" thing;Third \"cmd; consumed\nremainder"
    );

    cmd.wait = true;
    cmd.buf_execute();
    assert_eq!(cmd.cmd_text, "Third \"cmd; consumed\nremainder");

    cmd.wait = true;
    cmd.buf_execute();
    assert_eq!(cmd.cmd_text, "remainder");
}

#[test]
fn executed_lines_come_back_in_order() {
    let mut cmd = Cmd::new();
    cmd.buf_add_text("alpha;beta\ngamma");
    let executed = cmd.buf_execute();
    assert_eq!(executed, vec!["alpha", "beta", "gamma"]);
    assert_eq!(cmd.cmd_text, "");
}

#[test]
fn command_registry() {
    let mut cmd = Cmd::new();
    assert!(!cmd.command_exists("quit"));
    cmd.add_command("quit");
    cmd.add_command("quip");
    assert!(cmd.command_exists("quit"));
    assert!(!cmd.command_exists("map"));
    assert_eq!(cmd.complete_command(&"qui".to_string()), Some("quit".to_string()));
    assert_eq!(cmd.complete_command(&"quip".to_string()), Some("quip".to_string()));
    assert_eq!(cmd.complete_command(&"map".to_string()), None);
}
