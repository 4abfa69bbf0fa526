use luvus_jira::board::{Action, Board, Event, Key};
use luvus_jira::json::parse;
use luvus_jira::screen::{notice_color, Span};
use luvus_jira::ticket::{
    Attachment, Color, Fields, NamedValue, StatusCategory, StatusValue, Ticket, Transition,
};

fn span(text: &str, bold: bool, color: Option<Color>) -> Span {
    Span { text: text.to_owned(), bold, color }
}

fn raw(text: &str) -> Span {
    span(text, false, None)
}

fn label(text: &str) -> Span {
    span(text, true, None)
}

fn ticket() -> Ticket {
    Ticket {
        key: "ABC-1".to_owned(),
        fields: Fields {
            summary: "Fix it".to_owned(),
            status: StatusValue {
                name: "Doing".to_owned(),
                category: Some(StatusCategory { key: "indeterminate".to_owned() }),
            },
            issuetype: NamedValue { name: "Bug".to_owned() },
            priority: Some(NamedValue { name: "High".to_owned() }),
            description: Some(
                parse(br#"[{"type": "paragraph", "text": "a"}, {"text": "b"}]"#).unwrap(),
            ),
            attachments: Some(vec![Attachment {
                filename: "log".to_owned(),
                content: "https://a/1".to_owned(),
            }]),
        },
    }
}

fn board() -> Board {
    Board::new(
        vec![ticket()],
        vec!["ABC".to_owned()],
        vec![],
        vec!["High".to_owned()],
        String::new(),
    )
}

fn actions() -> Vec<Span> {
    vec![
        span("[t] Switch status", true, Some(Color::Yellow)),
        raw("  "),
        span("[w] Work this ticket", true, Some(Color::Yellow)),
        raw("  "),
        span("[o] Open in browser", true, Some(Color::Yellow)),
        raw("  [Esc] Back"),
    ]
}

fn about() -> Vec<Vec<Span>> {
    vec![
        vec![label("ABC-1: Fix it")],
        vec![],
        vec![label("Status: "), span("Doing", false, Some(Color::Yellow))],
        vec![label("Type: "), raw("Bug")],
        vec![label("Priority: "), raw("High")],
        vec![],
        vec![label("Description")],
        vec![raw("a")],
        vec![raw("b")],
        vec![],
        vec![label("Attachments")],
        vec![raw("- log: https://a/1")],
        vec![],
        actions(),
    ]
}

#[test]
fn the_details_tell_about_the_ticket() {
    assert_eq!(board().details(), Some(about()));
}

#[test]
fn without_details_there_is_a_hint() {
    let mut board = board();
    board.handle(Event::Key(Key::Esc));
    assert_eq!(
        board.details(),
        Some(vec![vec![raw("Select a ticket and press Enter for details.")]])
    );
}

#[test]
fn without_a_ticket_there_are_no_details() {
    let empty = Board::new(vec![], vec![], vec![], vec![], String::new());
    assert_eq!(empty.details(), None);
    assert_eq!(empty.selection(), None);
    assert_eq!(empty.items(), Vec::<String>::new());
}

#[test]
fn what_is_asked_is_what_enter_does() {
    let mut board = board();
    board.handle(Event::Key(Key::Char('t')));
    let done = Transition {
        id: "1".to_owned(),
        to: StatusValue { name: "Done".to_owned(), category: None },
    };
    board.handle(Event::Transitions(Ok(vec![done.clone()])));
    let mut expected = about();
    expected.push(vec![
        span("Confirm status change to ", false, Some(Color::Yellow)),
        span("Done", true, Some(Color::Green)),
        span("? [Enter] confirm  [Esc] cancel  [↑/↓] choose", false, Some(Color::Yellow)),
    ]);
    assert_eq!(board.details(), Some(expected));
    assert_eq!(board.handle(Event::Key(Key::Enter)), Action::ApplyTransition(ticket(), done));
}

#[test]
fn the_notice_stands_at_the_foot() {
    let mut board = board();
    board.handle(Event::Key(Key::Char('w')));
    board.handle(Event::HandedOver(Err("no".to_owned())));
    let mut expected = about();
    expected.push(vec![span("Work handoff failed: no", false, Some(Color::Red))]);
    assert_eq!(board.details(), Some(expected));
}

#[test]
fn the_colour_of_a_notice() {
    assert_eq!(notice_color("Status switched to Done"), Color::Green);
    assert_eq!(notice_color("Started agent"), Color::Green);
    assert_eq!(notice_color("Started worktree agent for ABC-1"), Color::Red);
    assert_eq!(notice_color("Status switch failed: x"), Color::Red);
    assert_eq!(notice_color(""), Color::Red);
}

#[test]
fn the_filters_are_shown() {
    let mut board = Board::new(
        vec![ticket()],
        vec![],
        vec!["Doing".to_owned()],
        vec!["High".to_owned()],
        "ABC".to_owned(),
    );
    board.handle(Event::Key(Key::Char('y')));
    assert_eq!(
        board.filters_text(),
        " Project [ ABC ]   Status [  ]   Priority [ High ]   (p/s/y: select, x: clear, r: refresh)"
    );
}

#[test]
fn the_list_shows_keys_and_summaries() {
    let board = board();
    assert_eq!(board.items(), vec!["ABC-1  Fix it"]);
    assert_eq!(board.selection(), Some(0));
}
