use luvus_jira::board::{Action, Board, Event, Key};
use luvus_jira::filters::{FilterKind, Filters};
use luvus_jira::ticket::{
    Fields, NamedValue, StatusCategory, StatusValue, Ticket, Transition,
};

fn ticket(key: &str, status: &str) -> Ticket {
    Ticket {
        key: key.to_owned(),
        fields: Fields {
            summary: format!("About {}", key),
            status: StatusValue {
                name: status.to_owned(),
                category: Some(StatusCategory { key: "new".to_owned() }),
            },
            issuetype: NamedValue { name: "Bug".to_owned() },
            priority: None,
            description: None,
            attachments: None,
        },
    }
}

fn strings(list: &[&str]) -> Vec<String> {
    list.iter().map(|s| s.to_string()).collect()
}

fn tickets() -> Vec<Ticket> {
    vec![ticket("ABC-1", "Open"), ticket("ABC-2", "Done"), ticket("XY-3", "Open")]
}

fn board() -> Board {
    Board::new(
        tickets(),
        strings(&["ABC", "XY"]),
        strings(&["Done", "Open"]),
        strings(&["High", "None"]),
        String::new(),
    )
}

fn key(board: &mut Board, key: Key) -> Action {
    board.handle(Event::Key(key))
}

fn press(board: &mut Board, c: char) -> Action {
    key(board, Key::Char(c))
}

fn shown(board: &Board) -> Vec<&str> {
    board.tickets.iter().map(|ticket| ticket.key.as_str()).collect()
}

fn change(id: &str, status: &str) -> Transition {
    Transition {
        id: id.to_owned(),
        to: StatusValue { name: status.to_owned(), category: None },
    }
}

fn choosing() -> Board {
    let mut board = board();
    press(&mut board, 't');
    let answer = Event::Transitions(Ok(vec![change("1", "Doing"), change("2", "Done")]));
    assert_eq!(board.handle(answer), Action::Wait);
    board
}

#[test]
fn the_board_opens_with_its_project() {
    let board = Board::new(tickets(), vec![], vec![], vec![], "abc".to_owned());
    assert_eq!(shown(&board), vec!["ABC-1", "ABC-2"]);
    assert_eq!(board.filters, Filters::with_project("abc".to_owned()));
    assert_eq!(board.selected, 0);
    assert!(board.detail);
    assert_eq!(board.notice, "");
    assert_eq!(board.pending_transitions, None);
}

#[test]
fn the_selection_stays_in_the_list() {
    let mut board = board();
    for expected in [1, 2, 2] {
        assert_eq!(key(&mut board, Key::Down), Action::Wait);
        assert_eq!(board.selected, expected);
    }
    for expected in [1, 0, 0] {
        assert_eq!(press(&mut board, 'k'), Action::Wait);
        assert_eq!(board.selected, expected);
    }
    press(&mut board, 'j');
    assert_eq!(board.selected, 1);
    key(&mut board, Key::Up);
    assert_eq!(board.selected, 0);
}

#[test]
fn moving_clears_the_notice() {
    let mut board = board();
    board.notice = "old".to_owned();
    key(&mut board, Key::Down);
    assert_eq!(board.notice, "");
    let mut empty = Board::new(vec![], vec![], vec![], vec![], String::new());
    empty.notice = "old".to_owned();
    assert_eq!(key(&mut empty, Key::Down), Action::Wait);
    assert_eq!(key(&mut empty, Key::Up), Action::Wait);
    assert_eq!(empty.notice, "old");
    assert_eq!(empty.selected, 0);
}

#[test]
fn esc_goes_back_and_then_out() {
    let mut board = board();
    assert_eq!(key(&mut board, Key::Esc), Action::Wait);
    assert!(!board.detail);
    assert_eq!(key(&mut board, Key::Enter), Action::Wait);
    assert!(board.detail);
    key(&mut board, Key::Esc);
    assert_eq!(key(&mut board, Key::Esc), Action::Quit);
}

#[test]
fn q_leaves_the_board() {
    assert_eq!(press(&mut board(), 'q'), Action::Quit);
    let mut editing = board();
    press(&mut editing, '/');
    assert_eq!(press(&mut editing, 'q'), Action::Wait);
    assert_eq!(editing.filters.input, "q");
    assert_eq!(press(&mut choosing(), 'q'), Action::Wait);
}

#[test]
fn a_search_is_typed_and_taken_over() {
    let mut board = board();
    key(&mut board, Key::Down);
    assert_eq!(press(&mut board, '/'), Action::Wait);
    assert_eq!(board.filters.active, Some(FilterKind::Search));
    for c in "xyé".chars() {
        press(&mut board, c);
    }
    key(&mut board, Key::Backspace);
    assert_eq!(board.filters.value(FilterKind::Search), "xy");
    assert_eq!(shown(&board).len(), 3);
    assert_eq!(board.selected, 1);
    assert_eq!(key(&mut board, Key::Up), Action::Wait);
    assert_eq!(key(&mut board, Key::Enter), Action::Wait);
    assert_eq!(shown(&board), vec!["XY-3"]);
    assert_eq!(board.selected, 0);
    assert_eq!(board.filters.active, None);
    assert_eq!(board.filters.input, "");
}

#[test]
fn a_search_is_given_up() {
    let mut board = board();
    press(&mut board, '/');
    key(&mut board, Key::Backspace);
    press(&mut board, 'z');
    assert_eq!(key(&mut board, Key::Esc), Action::Wait);
    assert_eq!(board.filters.active, None);
    assert_eq!(board.filters.search, "");
    assert_eq!(shown(&board).len(), 3);
    assert!(board.detail);
}

#[test]
fn a_project_is_chosen() {
    let mut board = board();
    board.filters.status = "Open".to_owned();
    assert_eq!(press(&mut board, 'p'), Action::FetchProjectStatuses("ABC".to_owned()));
    assert_eq!(shown(&board).len(), 3);
    let answer = Event::ProjectStatuses(Ok(strings(&["Done", "Open"])));
    assert_eq!(board.handle(answer), Action::Wait);
    assert_eq!(shown(&board), vec!["ABC-1"]);
    assert_eq!(board.filters.status, "Open");
}

#[test]
fn a_status_of_another_project_is_dropped() {
    let mut board = board();
    board.filters.status = "Open".to_owned();
    press(&mut board, 'p');
    assert_eq!(board.handle(Event::ProjectStatuses(Ok(strings(&["Done"])))), Action::Wait);
    assert_eq!(board.filters.status, "");
    assert_eq!(shown(&board), vec!["ABC-1", "ABC-2"]);
}

#[test]
fn the_tickets_tell_the_statuses_where_jira_does_not() {
    let mut board = board();
    board.filters.status = "Done".to_owned();
    board.filters.project = "ABC".to_owned();
    assert_eq!(press(&mut board, 'p'), Action::FetchProjectStatuses("XY".to_owned()));
    assert_eq!(board.handle(Event::ProjectStatuses(Err("no".to_owned()))), Action::Wait);
    assert_eq!(board.filters.status, "");
    assert_eq!(shown(&board), vec!["XY-3"]);
}

#[test]
fn an_empty_project_asks_for_nothing() {
    let mut board = Board::new(tickets(), strings(&[""]), strings(&["Open"]), vec![], String::new());
    board.filters.status = "Done".to_owned();
    assert_eq!(press(&mut board, 'p'), Action::Wait);
    assert_eq!(board.filters.status, "");
    assert_eq!(shown(&board).len(), 3);
}

#[test]
fn a_status_is_chosen() {
    let mut board = board();
    assert_eq!(press(&mut board, 's'), Action::Wait);
    assert_eq!(board.filters.status, "Done");
    assert_eq!(shown(&board), vec!["ABC-2"]);
    press(&mut board, 's');
    assert_eq!(board.filters.status, "Open");
    board.filters.project = "ABC".to_owned();
    assert_eq!(press(&mut board, 's'), Action::FetchStatusChoices("ABC".to_owned()));
    assert_eq!(board.handle(Event::StatusChoices(Err("no".to_owned()))), Action::Wait);
    assert_eq!(board.filters.status, "Done");
    press(&mut board, 's');
    board.handle(Event::StatusChoices(Ok(strings(&["Done", "Later"]))));
    assert_eq!(board.filters.status, "Later");
    assert_eq!(shown(&board), Vec::<&str>::new());
}

#[test]
fn a_priority_is_chosen() {
    let mut board = board();
    key(&mut board, Key::Down);
    assert_eq!(press(&mut board, 'y'), Action::Wait);
    assert_eq!(board.filters.priority, "High");
    assert_eq!(shown(&board), Vec::<&str>::new());
    assert_eq!(board.selected, 0);
    press(&mut board, 'y');
    assert_eq!(board.filters.priority, "None");
    assert_eq!(shown(&board).len(), 3);
}

#[test]
fn clearing_shows_every_ticket() {
    let mut board = Board::new(tickets(), vec![], vec![], vec![], "XY".to_owned());
    assert_eq!(press(&mut board, 'x'), Action::Wait);
    assert_eq!(board.filters, Filters::new());
    assert_eq!(board.tickets, board.all_tickets);
    assert_eq!(board.selected, 0);
}

#[test]
fn the_tickets_are_fetched_anew() {
    let mut board = Board::new(tickets(), vec![], vec![], vec![], "abc".to_owned());
    key(&mut board, Key::Down);
    assert_eq!(press(&mut board, 'r'), Action::FetchTickets);
    let answer = Event::Tickets(Ok(vec![ticket("XY-3", "Open"), ticket("ABC-9", "Open")]));
    assert_eq!(board.handle(answer), Action::Wait);
    assert_eq!(shown(&board), vec!["ABC-9"]);
    assert_eq!(board.all_tickets.len(), 2);
    assert_eq!(board.selected, 1);
    assert_eq!(press(&mut board, 'w'), Action::Wait);
    key(&mut board, Key::Down);
    assert_eq!(board.selected, 0);
}

#[test]
fn a_failed_refresh_ends_the_board() {
    let mut board = board();
    press(&mut board, 'r');
    assert_eq!(
        board.handle(Event::Tickets(Err("Jira is away".to_owned()))),
        Action::Fail("Jira is away".to_owned())
    );
}

#[test]
fn the_selected_ticket_is_acted_on() {
    let mut board = board();
    key(&mut board, Key::Down);
    assert_eq!(press(&mut board, 'o'), Action::OpenTicket(ticket("ABC-2", "Done")));
    assert_eq!(press(&mut board, 't'), Action::FetchTransitions(ticket("ABC-2", "Done")));
    assert_eq!(press(&mut board, 'w'), Action::WorkTicket(ticket("ABC-2", "Done")));
    key(&mut board, Key::Esc);
    for c in ['o', 't', 'w'] {
        assert_eq!(press(&mut board, c), Action::Wait);
    }
}

#[test]
fn opening_a_page_says_nothing_unless_it_fails() {
    let mut board = board();
    press(&mut board, 'o');
    assert_eq!(board.handle(Event::Opened(Ok(()))), Action::Wait);
    assert_eq!(board.notice, "");
    press(&mut board, 'o');
    assert_eq!(
        board.handle(Event::Opened(Err("URL opener failed".to_owned()))),
        Action::Fail("URL opener failed".to_owned())
    );
}

#[test]
fn a_handing_over_is_told() {
    let mut board = board();
    press(&mut board, 'w');
    assert_eq!(board.handle(Event::HandedOver(Ok(()))), Action::Wait);
    assert_eq!(board.notice, "Started worktree agent for ABC-1");
    press(&mut board, 'w');
    assert_eq!(board.handle(Event::HandedOver(Err("no host".to_owned()))), Action::Wait);
    assert_eq!(board.notice, "Work handoff failed: no host");
}

#[test]
fn a_ticket_without_status_changes_says_so() {
    let mut board = board();
    press(&mut board, 't');
    assert_eq!(board.handle(Event::Transitions(Ok(vec![]))), Action::Wait);
    assert_eq!(board.notice, "No status transition is available");
    assert_eq!(board.pending_transitions, None);
    press(&mut board, 't');
    assert_eq!(board.handle(Event::Transitions(Err("denied".to_owned()))), Action::Wait);
    assert_eq!(board.notice, "Status switch failed: denied");
}

#[test]
fn up_and_down_go_round_the_status_changes() {
    let mut board = choosing();
    assert_eq!(board.transition_index, 0);
    key(&mut board, Key::Up);
    assert_eq!(board.transition_index, 1);
    press(&mut board, 'j');
    assert_eq!(board.transition_index, 0);
    key(&mut board, Key::Down);
    assert_eq!(board.transition_index, 1);
    press(&mut board, 'k');
    assert_eq!(board.transition_index, 0);
    assert_eq!(board.selected, 0);
}

#[test]
fn a_status_change_is_given_up() {
    let mut board = choosing();
    assert_eq!(key(&mut board, Key::Esc), Action::Wait);
    assert_eq!(board.pending_transitions, None);
    assert!(board.detail);
}

#[test]
fn a_status_change_is_confirmed_and_made() {
    let mut board = choosing();
    key(&mut board, Key::Down);
    assert_eq!(
        key(&mut board, Key::Enter),
        Action::ApplyTransition(ticket("ABC-1", "Open"), change("2", "Done"))
    );
    assert_eq!(board.handle(Event::TransitionApplied(Ok("Done".to_owned()))), Action::Wait);
    assert_eq!(board.notice, "Status switched to Done");
    assert_eq!(board.pending_transitions, None);
    assert_eq!(board.tickets[0], ticket("ABC-1", "Done"));
    assert_eq!(board.all_tickets[0], ticket("ABC-1", "Done"));
    assert_eq!(board.tickets[1..], tickets()[1..]);
    assert_eq!(board.all_tickets[1..], tickets()[1..]);
}

#[test]
fn every_ticket_with_the_key_gets_the_status() {
    let mut list = tickets();
    list.push(ticket("ABC-1", "Open"));
    let mut board = Board::new(list, vec![], vec![], vec![], String::new());
    press(&mut board, 't');
    board.handle(Event::Transitions(Ok(vec![change("1", "Doing")])));
    key(&mut board, Key::Enter);
    board.handle(Event::TransitionApplied(Ok("Doing".to_owned())));
    assert_eq!(board.all_tickets[0].fields.status.name, "Doing");
    assert_eq!(board.all_tickets[3].fields.status.name, "Doing");
    assert_eq!(board.tickets[0].fields.status.name, "Doing");
    assert_eq!(board.tickets[3].fields.status.name, "Open");
}

#[test]
fn a_failed_status_change_changes_no_ticket() {
    let mut board = choosing();
    key(&mut board, Key::Enter);
    assert_eq!(board.handle(Event::TransitionApplied(Err("409".to_owned()))), Action::Wait);
    assert_eq!(board.notice, "Status switch failed: 409");
    assert_eq!(board.pending_transitions, None);
    assert_eq!(board.tickets, tickets());
    assert_eq!(board.all_tickets, tickets());
}

#[test]
fn an_answer_that_was_not_asked_for_is_ignored() {
    let mut board = board();
    assert_eq!(board.handle(Event::TransitionApplied(Ok("Done".to_owned()))), Action::Wait);
    assert_eq!(board.tickets, tickets());
    let mut busy = choosing();
    assert_eq!(busy.handle(Event::Tickets(Ok(vec![]))), Action::Wait);
    assert_eq!(busy.tickets, tickets());
}

#[test]
fn other_keys_do_nothing() {
    for mut board in [board(), choosing()] {
        let before = format!("{:?}", board);
        assert_eq!(key(&mut board, Key::Other), Action::Wait);
        assert_eq!(key(&mut board, Key::Backspace), Action::Wait);
        assert_eq!(press(&mut board, 'ü'), Action::Wait);
        assert_eq!(format!("{:?}", board), before);
    }
}
