use luvus_jira::dock::{dock_rows, publish, published, push_command, run_dock};
use luvus_jira::environment::{Environment, Variable};
use luvus_jira::host::CommandOutput;
use luvus_jira::jira::Pair;
use luvus_jira::json::{parse, Entry, Json};
use luvus_jira::ticket::{Fields, NamedValue, StatusValue, Ticket};

fn environment(list: &[(&str, &str)]) -> Environment {
    Environment {
        variables: list
            .iter()
            .map(|(name, value)| Variable { name: name.to_string(), value: value.to_string() })
            .collect(),
    }
}

fn ticket(key: &str, summary: &str) -> Ticket {
    Ticket {
        key: key.to_owned(),
        fields: Fields {
            summary: summary.to_owned(),
            status: StatusValue { name: "Open".to_owned(), category: None },
            issuetype: NamedValue { name: "Bug".to_owned() },
            priority: None,
            description: None,
            attachments: None,
        },
    }
}

fn pair(name: &str, value: &str) -> Pair {
    Pair { name: name.to_owned(), value: value.to_owned() }
}

fn entry(key: &str, value: &str) -> Entry {
    Entry { key: key.to_owned(), value: Json::Text(value.to_owned()) }
}

fn output(success: bool, stderr: &[u8]) -> CommandOutput {
    CommandOutput {
        success,
        code: None,
        status: "signal: 9".to_owned(),
        stdout: b"out".to_vec(),
        stderr: stderr.to_vec(),
    }
}

#[test]
fn the_dock_shows_the_first_ticket() {
    let rows = dock_rows(&[ticket("A-1", "First"), ticket("A-2", "Second")]).unwrap();
    assert_eq!(
        rows,
        vec![
            vec![pair("action", "open"), pair("text", "A-1: First"), pair("tone", "accent")],
            vec![pair("text", "Open · Bug"), pair("tone", "normal")],
        ]
    );
    assert_eq!(dock_rows(&[]), Err("No Jira tickets matched the JQL".to_owned()));
}

#[test]
fn the_rows_are_pushed_as_json() {
    let env = environment(&[("LUVUS_BIN_PATH", "/bin/luvus")]);
    let next = run_dock(&env, Ok(vec![ticket("A-1", "say \"hi\"\n\\")])).unwrap();
    assert_eq!(next.program, "/bin/luvus");
    assert_eq!(
        next.args,
        vec![
            "ui",
            "dock",
            "push",
            "--id",
            "jira-ticket",
            "--rows",
            r#"[{"action":"open","text":"A-1: say \"hi\"\n\\","tone":"accent"},{"text":"Open · Bug","tone":"normal"}]"#,
        ]
    );
}

#[test]
fn the_rows_read_back_as_they_are() {
    let env = environment(&[("LUVUS_BIN_PATH", "luvus")]);
    let next = run_dock(&env, Ok(vec![ticket("A-1", "\u{1}\"\u{10ffff}é")])).unwrap();
    assert_eq!(
        parse(next.args[6].as_bytes()).unwrap(),
        Json::Array(vec![
            Json::Object(vec![
                entry("action", "open"),
                entry("text", "A-1: \u{1}\"\u{10ffff}é"),
                entry("tone", "accent"),
            ]),
            Json::Object(vec![entry("text", "Open · Bug"), entry("tone", "normal")]),
        ])
    );
}

#[test]
fn what_keeps_the_dock_empty_is_told() {
    let env = environment(&[("LUVUS_BIN_PATH", "luvus")]);
    assert_eq!(run_dock(&env, Err("no".to_owned())), Err("no".to_owned()));
    assert_eq!(run_dock(&env, Ok(vec![])), Err("No Jira tickets matched the JQL".to_owned()));
    assert_eq!(
        run_dock(&environment(&[]), Ok(vec![ticket("A-1", "x")])),
        Err("Missing LUVUS_BIN_PATH".to_owned())
    );
    assert_eq!(publish(&environment(&[]), vec![]), Err("Missing LUVUS_BIN_PATH".to_owned()));
    assert_eq!(publish(&env, vec![]).unwrap().args[6], "[]");
}

#[test]
fn the_end_of_the_push_is_told() {
    assert_eq!(published(Ok(output(true, b"noise"))), Ok(()));
    assert_eq!(published(Ok(output(false, b" bad \xff\n"))), Err("bad \u{fffd}".to_owned()));
    assert_eq!(published(Ok(output(false, b""))), Err("".to_owned()));
    assert_eq!(published(Err("not found".to_owned())), Err("not found".to_owned()));
}

#[test]
fn the_text_of_the_rows_is_the_last_argument() {
    let next = push_command("luvus", "[1]");
    assert_eq!(next.program, "luvus");
    assert_eq!(next.args, vec!["ui", "dock", "push", "--id", "jira-ticket", "--rows", "[1]"]);
}
