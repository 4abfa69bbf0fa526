use luvus_jira::json::{parse, Json};
use luvus_jira::text::lines;
use luvus_jira::ticket::{
    color_by_name, description_text, status_color, ticket_attachments, ticket_description, Attachment, Color,
    Fields, NamedValue, StatusCategory, StatusValue, Ticket,
};

fn named(name: &str) -> NamedValue {
    NamedValue { name: name.to_owned() }
}

fn status(name: &str, category: Option<&str>) -> StatusValue {
    StatusValue {
        name: name.to_owned(),
        category: category.map(|key| StatusCategory { key: key.to_owned() }),
    }
}

fn ticket_with(description: Option<Json>, attachments: Option<Vec<Attachment>>) -> Ticket {
    Ticket {
        key: "ABC-1".to_owned(),
        fields: Fields {
            summary: "Fix it".to_owned(),
            status: status("Open", None),
            issuetype: named("Bug"),
            priority: None,
            description,
            attachments,
        },
    }
}

fn described(document: &str) -> Ticket {
    ticket_with(Some(parse(document.as_bytes()).unwrap()), None)
}

fn attachment(filename: &str, content: &str) -> Attachment {
    Attachment { filename: filename.to_owned(), content: content.to_owned() }
}

#[test]
fn a_document_becomes_plain_text() {
    let ticket = described(
        r#"{"type": "doc", "content": [
            {"type": "heading", "content": [{"type": "text", "text": "Steps"}]},
            {"type": "paragraph", "content": [
                {"type": "text", "text": "one"}, {"type": "hardBreak"}, {"type": "text", "text": "two"}
            ]},
            {"type": "bulletList", "content": [
                {"type": "listItem", "content": [
                    {"type": "paragraph", "content": [{"type": "text", "text": "a"}]}
                ]},
                {"type": "listItem", "text": "b"}
            ]},
            {"type": "codeBlock", "content": [{"type": "text", "text": "x = 1"}]}
        ]}"#,
    );
    assert_eq!(
        ticket_description(&ticket),
        "Steps\none\ntwo\n- a\n\n- b\n\nx = 1"
    );
}

#[test]
fn each_block_ends_its_line() {
    for kind in
        ["paragraph", "heading", "listItem", "codeBlock", "blockquote", "bulletList", "orderedList"]
    {
        let document = format!(r#"{{"type": "{}", "text": "x"}}"#, kind);
        let mut output = "+".to_owned();
        description_text(&parse(document.as_bytes()).unwrap(), &mut output);
        let lead = if kind == "listItem" { "- " } else { "" };
        assert_eq!(output, format!("+{}x\n", lead));
    }
    for kind in ["doc", "text", "panel", "Paragraph"] {
        let document = format!(r#"{{"type": "{}", "text": "x"}}"#, kind);
        let mut output = String::new();
        description_text(&parse(document.as_bytes()).unwrap(), &mut output);
        assert_eq!(output, "x");
    }
}

#[test]
fn a_hard_break_is_a_newline_and_nothing_else() {
    let mut output = "a".to_owned();
    let node = parse(br#"{"type": "hardBreak", "text": "t", "content": [{"text": "c"}]}"#).unwrap();
    description_text(&node, &mut output);
    assert_eq!(output, "a\n");
}

#[test]
fn what_is_no_node_has_no_text() {
    for document in ["1", "null", "true", "\"bare\"", "{}", "[]", r#"{"text": 3, "content": "c"}"#] {
        let mut output = String::new();
        description_text(&parse(document.as_bytes()).unwrap(), &mut output);
        assert_eq!(output, "", "{}", document);
    }
}

#[test]
fn the_texts_of_nodes_follow_each_other() {
    let node = parse(br#"[{"text": "a"}, [{"text": "b"}], {"content": [{"text": "c"}]}]"#).unwrap();
    let mut output = String::new();
    description_text(&node, &mut output);
    assert_eq!(output, "abc");
}

#[test]
fn a_description_is_trimmed() {
    let ticket = described(r#"{"type": "paragraph", "text": " \n x y \t"}"#);
    assert_eq!(ticket_description(&ticket), "x y");
    assert_eq!(ticket_description(&ticket_with(None, None)), "");
}

#[test]
fn attachments_have_a_line_each() {
    let ticket = ticket_with(
        None,
        Some(vec![attachment("log.txt", "https://a/1"), attachment("pic.png", "https://a/2")]),
    );
    let shown = ticket_attachments(&ticket);
    assert_eq!(shown, "- log.txt: https://a/1\n- pic.png: https://a/2");
    assert_eq!(lines(&shown).len(), 2);
    assert_eq!(ticket_attachments(&ticket_with(None, Some(vec![]))), "");
    assert_eq!(ticket_attachments(&ticket_with(None, None)), "");
}

#[test]
fn the_category_decides_the_colour() {
    assert_eq!(status_color(&status("Blocked", Some("done"))), Color::Green);
    assert_eq!(status_color(&status("Blocked", Some("indeterminate"))), Color::Yellow);
    assert_eq!(status_color(&status("Blocked", Some("new"))), Color::Cyan);
    assert_eq!(status_color(&status("Blocked", Some("Done"))), Color::White);
    assert_eq!(status_color(&status("Blocked", Some(""))), Color::White);
}

#[test]
fn without_a_category_the_name_decides_the_colour() {
    let cases = [
        ("Done", Color::Green),
        ("CLOSED", Color::Green),
        ("Resolved, to do", Color::Green),
        ("In Progress", Color::Yellow),
        ("Code REVIEW", Color::Yellow),
        ("Validation", Color::Yellow),
        ("Blocked", Color::Red),
        ("rejected", Color::Red),
        ("Cancelled", Color::Red),
        ("To Do", Color::Cyan),
        ("Reopened", Color::Cyan),
        ("BACKLOG", Color::Cyan),
        ("Canceled", Color::White),
        ("ToDo", Color::White),
        ("ERLEDIGT ÄÖ", Color::White),
        ("", Color::White),
    ];
    for (name, color) in cases {
        assert_eq!(status_color(&status(name, None)), color, "{}", name);
    }
}

#[test]
fn a_copy_of_a_ticket_is_equal() {
    let ticket = Ticket {
        key: "K-1".to_owned(),
        fields: Fields {
            summary: "S".to_owned(),
            status: status("Open", Some("new")),
            issuetype: named("Task"),
            priority: Some(named("High")),
            description: Some(parse(br#"{"a": ["b", 1]}"#).unwrap()),
            attachments: Some(vec![attachment("f", "c")]),
        },
    };
    assert_eq!(ticket.clone(), ticket);
}

#[test]
fn a_name_in_small_letters_has_a_colour() {
    assert_eq!(color_by_name("not done"), Color::Green);
    assert_eq!(color_by_name("in review"), Color::Yellow);
    assert_eq!(color_by_name("DONE"), Color::White);
}
