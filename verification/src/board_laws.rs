//! What holds of the board whatever happens to it.

use vstd::prelude::*;

use crate::board::{with_status, Action, ActionView, Board, BoardView, Event, Key};
use crate::filters::{
    cycled, filtered, law_cycling_changes_one_filter, law_editing_does_not_filter,
    law_empty_filters_let_all_through, law_filtered_members, passes, FilterKind, FiltersView,
};
use crate::options::{priority_of, status_choices, tickets_view};
use crate::ticket::{
    attachments_of, description_of, Ticket, TicketView, Transition, TransitionView,
};

verus! {

/// Whether the tickets that are shown are those that pass the filters.
pub open spec fn up_to_date(board: BoardView) -> bool {
    board.tickets == filtered(board.all, board.filters)
}

/// Every event keeps a board valid.
pub proof fn law_every_event_keeps_the_board_valid(board: BoardView, event: Event)
    requires
        board.valid(),
    ensures
        board.step(event).0.valid(),
{
}

/// A board that shows the tickets that pass its filters goes on doing so through every event but
/// the end of a status change, which changes a ticket where it stands. The one pause is while the
/// statuses of a newly chosen project are asked for.
pub proof fn law_the_board_shows_what_passes(board: BoardView, event: Event)
    requires
        board.valid(),
        up_to_date(board),
        !(event is TransitionApplied),
    ensures
        up_to_date(board.step(event).0) || board.step(event).1 is FetchProjectStatuses,
{
    let next = board.step(event).0;
    law_editing_does_not_filter(
        board.all,
        board.filters,
        next.filters.active,
        next.filters.input,
    );
    assert(FiltersView {
        active: next.filters.active,
        input: next.filters.input,
        ..board.filters
    } == next.filters || next.filters.search != board.filters.search || next.filters.project
        != board.filters.project || next.filters.status != board.filters.status
        || next.filters.priority != board.filters.priority);
}

/// A board is valid as it opens, and shows the tickets that pass its filters.
pub proof fn law_the_board_opens_up_to_date(
    all: Seq<TicketView>,
    projects: Seq<Seq<char>>,
    statuses: Seq<Seq<char>>,
    priorities: Seq<Seq<char>>,
    project: Seq<char>,
)
    ensures
        BoardView::opened(all, projects, statuses, priorities, project).valid(),
        up_to_date(BoardView::opened(all, projects, statuses, priorities, project)),
{
}

/// The answer about a newly chosen project brings the board up to date, whatever it is.
pub proof fn law_the_answer_ends_the_pause(
    board: BoardView,
    reply: Result<Vec<String>, String>,
)
    requires
        board.valid(),
        board.browsing(),
    ensures
        up_to_date(board.step(Event::ProjectStatuses(reply)).0),
{
}

/// A selection never runs off the list, except that a refresh leaves it where it is.
pub proof fn law_the_selection_stays_in_the_list(board: BoardView, event: Event)
    requires
        board.valid(),
        board.selected == 0 || board.selected < board.tickets.len(),
        !(event is Tickets),
    ensures
        ({
            let next = board.step(event).0;
            next.selected == 0 || next.selected < next.tickets.len()
        }),
{
}

/// While a filter is edited no key does anything but edit it: none quits, and none asks for
/// anything.
pub proof fn law_typing_asks_for_nothing(board: BoardView, key: Key)
    requires
        board.filters.active is Some,
    ensures
        board.step(Event::Key(key)).1 == ActionView::Wait,
        board.step(Event::Key(key)).0.all == board.all,
        board.step(Event::Key(key)).0.detail == board.detail,
        board.step(Event::Key(key)).0.notice == board.notice,
        key != Key::Enter ==> board.step(Event::Key(key)).0.tickets == board.tickets,
{
}

/// The board is left by `q`, or by `Esc` where no details are shown, from the list of tickets
/// alone; and these always leave it.
pub proof fn law_when_the_board_is_left(board: BoardView, event: Event)
    requires
        board.valid(),
    ensures
        board.step(event).1 is Quit <==> {
            &&& board.browsing()
            &&& event == Event::Key(Key::Char('q')) || event == Event::Key(Key::Esc)
                && !board.detail
        },
{
}

/// `Esc` goes back by one step: from the editing of a filter, from the choice of a status
/// change, from the details, and then out.
pub proof fn law_esc_goes_back(board: BoardView)
    requires
        board.valid(),
    ensures
        ({
            let (next, action) = board.step(Event::Key(Key::Esc));
            &&& board.filters.active is Some ==> next.filters.active is None && action
                == ActionView::Wait
            &&& board.pending is Some ==> next.browsing() && action == ActionView::Wait
            &&& board.browsing() && board.detail ==> !next.detail && action == ActionView::Wait
            &&& board.browsing() && !board.detail ==> action == ActionView::Quit
        }),
{
}

/// A status change is asked for only by confirming it with `Enter` while one is chosen, and it
/// is the one that is picked out, for the ticket that is selected.
pub proof fn law_a_status_change_is_confirmed(
    board: BoardView,
    event: Event,
    ticket: TicketView,
    transition: TransitionView,
)
    requires
        board.valid(),
        board.step(event).1 == ActionView::ApplyTransition(ticket, transition),
    ensures
        event == Event::Key(Key::Enter),
        board.selected_ticket() == Some(ticket),
        board.pending matches Some(list) && list[board.transition_index] == transition,
        board.step(event).0 == board,
{
}

/// Once a status change is made, the selected ticket and every ticket with its key have the new
/// status, and nothing else about the tickets is different.
pub proof fn law_a_status_change_changes_that_status_alone(
    board: BoardView,
    name: String,
    i: int,
)
    requires
        board.valid(),
        board.pending is Some,
        0 <= i < board.all.len(),
    ensures
        ({
            let next = board.step(Event::TransitionApplied(Ok(name))).0;
            let status = board.pending->0[board.transition_index].to.name;
            let ticket = board.tickets[board.selected];
            &&& next.pending is None
            &&& next.selected_ticket() == Some(with_status(ticket, status))
            &&& next.all.len() == board.all.len()
            &&& next.all[i] == if board.all[i].key == ticket.key {
                with_status(board.all[i], status)
            } else {
                board.all[i]
            }
            &&& forall|j: int|
                0 <= j < board.tickets.len() && j != board.selected ==> #[trigger] next.tickets[j]
                    == board.tickets[j]
        }),
{
}

/// A status change that fails changes no ticket, ends the choice, and is told.
pub proof fn law_a_failed_status_change_changes_no_ticket(board: BoardView, error: String)
    requires
        board.valid(),
        board.pending is Some,
    ensures
        board.step(Event::TransitionApplied(Err(error))).0 == (BoardView {
            pending: None,
            notice: "Status switch failed: "@ + error@,
            ..board
        }),
{
}

/// `Down` and then `Up`, and `Up` and then `Down`, come back to the same status change.
pub proof fn law_up_and_down_undo_each_other(board: BoardView)
    requires
        board.valid(),
        board.pending is Some,
    ensures
        board.step(Event::Key(Key::Down)).0.step(Event::Key(Key::Up)).0 == board,
        board.step(Event::Key(Key::Up)).0.step(Event::Key(Key::Down)).0 == board,
{
    let n = board.pending->0.len() as int;
    let i = board.transition_index;
    if i + 1 < n {
        vstd::arithmetic::div_mod::lemma_small_mod((i + 1) as nat, n as nat);
    } else {
        vstd::arithmetic::div_mod::lemma_mod_self_0(n);
    }
    vstd::arithmetic::div_mod::lemma_small_mod(i as nat, n as nat);
    if i == 0 {
        vstd::arithmetic::div_mod::lemma_mod_self_0(n);
    }
}

/// `x` shows every ticket, whatever the filters were.
pub proof fn law_clearing_shows_every_ticket(board: BoardView)
    requires
        board.browsing(),
    ensures
        board.step(Event::Key(Key::Char('x'))).0 == (BoardView {
            filters: FiltersView::empty(),
            tickets: board.all,
            selected: 0,
            ..board
        }),
{
    law_empty_filters_let_all_through(board.all);
}

/// Only the tickets' own details can be acted on: with the details hidden, or with no ticket
/// selected, nothing is opened, switched or handed over.
pub proof fn law_acts_on_the_shown_ticket(board: BoardView, event: Event, ticket: TicketView)
    requires
        board.valid(),
        board.step(event).1 == ActionView::OpenTicket(ticket) || board.step(event).1
            == ActionView::FetchTransitions(ticket) || board.step(event).1
            == ActionView::WorkTicket(ticket),
    ensures
        board.browsing(),
        board.detail,
        board.selected_ticket() == Some(ticket),
        board.step(event).0 == board,
{
}

/// A status filter that a newly chosen project does not have is dropped, and one that it has is
/// kept.
pub proof fn law_a_status_of_another_project_is_dropped(
    board: BoardView,
    reply: Result<Vec<String>, String>,
)
    requires
        board.browsing(),
    ensures
        ({
            let next = board.step(Event::ProjectStatuses(reply)).0;
            next.filters == if board.statuses_after(reply).contains(board.filters.status) {
                board.filters
            } else {
                FiltersView { status: seq![], ..board.filters }
            }
        }),
{
}

/// The board as it opens: all the tickets, the lists to choose from as they were given, the filter
/// for the project alone set, the first ticket selected, its details shown, and nothing said or
/// chosen.
pub proof fn law_how_the_board_opens(
    all: Seq<TicketView>,
    projects: Seq<Seq<char>>,
    statuses: Seq<Seq<char>>,
    priorities: Seq<Seq<char>>,
    project: Seq<char>,
)
    ensures
        ({
            let board = BoardView::opened(all, projects, statuses, priorities, project);
            &&& board.all == all
            &&& board.projects == projects
            &&& board.statuses == statuses
            &&& board.priorities == priorities
            &&& board.filters.project == project
            &&& board.filters.search.len() == 0
            &&& board.filters.status.len() == 0
            &&& board.filters.priority.len() == 0
            &&& board.filters.input.len() == 0
            &&& board.filters.active is None
            &&& board.tickets == filtered(all, board.filters)
            &&& board.selected == 0
            &&& board.detail
            &&& board.notice.len() == 0
            &&& board.pending is None
        }),
{
}

/// The selected ticket is the one at the selected place of those that are shown.
pub proof fn law_the_selected_ticket(board: BoardView)
    ensures
        board.selected_ticket() is Some <==> 0 <= board.selected < board.tickets.len(),
        board.selected_ticket() matches Some(ticket) ==> ticket == board.tickets[board.selected],
        board.browsing() <==> board.filters.active is None && board.pending is None,
{
}

/// While a filter is edited a character is added to what is typed, `Backspace` takes the last one
/// off, `Esc` ends the editing with no filter changed, and the keys that move do nothing.
pub proof fn law_editing(board: BoardView, c: char)
    requires
        board.filters.active is Some,
    ensures
        board.step(Event::Key(Key::Char(c))).0 == (BoardView {
            filters: FiltersView { input: board.filters.input.push(c), ..board.filters },
            ..board
        }),
        board.filters.input.len() > 0 ==> board.step(Event::Key(Key::Backspace)).0 == (BoardView {
            filters: FiltersView { input: board.filters.input.drop_last(), ..board.filters },
            ..board
        }),
        board.filters.input.len() == 0 ==> board.step(Event::Key(Key::Backspace)).0 == board,
        board.step(Event::Key(Key::Esc)).0 == (BoardView {
            filters: FiltersView { active: None, ..board.filters },
            ..board
        }),
        board.step(Event::Key(Key::Up)).0 == board,
        board.step(Event::Key(Key::Down)).0 == board,
        board.step(Event::Key(Key::Other)).0 == board,
        board.step(Event::Key(Key::Char(c))).0.step(Event::Key(Key::Backspace)).0 == board,
{
    assert(board.filters.input.push(c).drop_last() =~= board.filters.input);
}

/// `Enter` sets the filter that is edited to what was typed and leaves the other filters; the board
/// then shows the tickets that pass, from the first one.
pub proof fn law_taking_over_what_was_typed(board: BoardView, kind: FilterKind)
    requires
        board.filters.active == Some(kind),
    ensures
        ({
            let next = board.step(Event::Key(Key::Enter)).0;
            &&& next.filters.active is None
            &&& next.filters.input.len() == 0
            &&& next.filters.search == if kind == FilterKind::Search {
                board.filters.input
            } else {
                board.filters.search
            }
            &&& next.filters.project == if kind == FilterKind::Project {
                board.filters.input
            } else {
                board.filters.project
            }
            &&& next.filters.status == if kind == FilterKind::Status {
                board.filters.input
            } else {
                board.filters.status
            }
            &&& next.filters.priority == if kind == FilterKind::Priority {
                board.filters.input
            } else {
                board.filters.priority
            }
            &&& next == (BoardView {
                filters: next.filters,
                tickets: filtered(board.all, next.filters),
                selected: 0,
                ..board
            })
        }),
{
}

/// While a status change is chosen, `Down` and `j` pick the next one and after the last the first,
/// `Up` and `k` the one before and before the first the last, `Esc` gives the choice up, `Enter`
/// asks for the change that is picked, and no other key does anything.
pub proof fn law_choosing_a_status_change(board: BoardView, list: Seq<TransitionView>, key: Key)
    requires
        board.valid(),
        board.pending == Some(list),
    ensures
        ({
            let (next, action) = board.step(Event::Key(key));
            let i = board.transition_index;
            let after = if i + 1 < list.len() {
                i + 1
            } else {
                0
            };
            let previous = if i > 0 {
                i - 1
            } else {
                list.len() - 1
            };
            &&& key == Key::Down || key == Key::Char('j') ==> next == (BoardView {
                transition_index: after,
                ..board
            })
            &&& key == Key::Up || key == Key::Char('k') ==> next == (BoardView {
                transition_index: previous,
                ..board
            })
            &&& key == Key::Esc ==> next == (BoardView { pending: None, ..board })
            &&& key == Key::Enter ==> next == board && action == ActionView::ApplyTransition(
                board.tickets[board.selected],
                list[i],
            )
            &&& key != Key::Enter ==> action == ActionView::Wait
            &&& key == Key::Backspace || key == Key::Other ==> next == board
            &&& key matches Key::Char(c) ==> (c != 'j' && c != 'k' ==> next == board)
        }),
{
    let n = list.len() as int;
    let i = board.transition_index;
    if i + 1 < n {
        vstd::arithmetic::div_mod::lemma_small_mod((i + 1) as nat, n as nat);
    } else {
        vstd::arithmetic::div_mod::lemma_mod_self_0(n);
    }
}

/// In the list, `Down` and `j` select the next ticket and stay at the last, `Up` and `k` select the
/// one before and stay at the first, and both clear what was said; an empty list stays as it is.
pub proof fn law_moving_through_the_tickets(board: BoardView)
    requires
        board.valid(),
        board.browsing(),
    ensures
        ({
            let down = board.step(Event::Key(Key::Down));
            let up = board.step(Event::Key(Key::Up));
            let count = board.tickets.len();
            &&& board.step(Event::Key(Key::Char('j'))) == down
            &&& board.step(Event::Key(Key::Char('k'))) == up
            &&& down.1 == ActionView::Wait
            &&& up.1 == ActionView::Wait
            &&& count == 0 ==> down.0 == board && up.0 == board
            &&& board.selected + 1 < count ==> down.0 == (BoardView {
                selected: board.selected + 1,
                notice: seq![],
                ..board
            })
            &&& count > 0 && board.selected + 1 >= count ==> down.0 == (BoardView {
                selected: count - 1,
                notice: seq![],
                ..board
            })
            &&& count > 0 && board.selected > 0 ==> up.0 == (BoardView {
                selected: board.selected - 1,
                notice: seq![],
                ..board
            })
            &&& count > 0 && board.selected == 0 ==> up.0 == (BoardView { notice: seq![], ..board })
        }),
{
}

/// In the list, `Enter` shows the details, `Esc` hides them, `/` edits the search from what it is
/// set to, and nothing else about the board changes; the keys that mean nothing there change
/// nothing and ask for nothing.
pub proof fn law_other_keys_in_the_list(board: BoardView, c: char)
    requires
        board.valid(),
        board.browsing(),
    ensures
        board.step(Event::Key(Key::Enter)) == (BoardView { detail: true, ..board }, ActionView::Wait),
        board.detail ==> board.step(Event::Key(Key::Esc)) == (
            BoardView { detail: false, ..board },
            ActionView::Wait,
        ),
        board.step(Event::Key(Key::Char('/'))) == (
            BoardView {
                filters: FiltersView {
                    active: Some(FilterKind::Search),
                    input: board.filters.search,
                    ..board.filters
                },
                ..board
            },
            ActionView::Wait,
        ),
        board.step(Event::Key(Key::Backspace)) == (board, ActionView::Wait),
        board.step(Event::Key(Key::Other)) == (board, ActionView::Wait),
        c != 'q' && c != 'j' && c != 'k' && c != '/' && c != 'p' && c != 's' && c != 'y' && c != 'x'
            && c != 'r' && c != 'o' && c != 't' && c != 'w' ==> board.step(Event::Key(Key::Char(c)))
            == (board, ActionView::Wait),
        board.step(Event::Key(Key::Char('r'))) == (board, ActionView::FetchTickets),
{
}

/// `o` opens the selected ticket, `t` asks for its status changes and `w` hands it over, where its
/// details are shown; else they do nothing.
pub proof fn law_acting_on_the_selected_ticket(board: BoardView)
    requires
        board.valid(),
        board.browsing(),
    ensures
        board.detail && 0 <= board.selected < board.tickets.len() ==> {
            let ticket = board.tickets[board.selected];
            &&& board.step(Event::Key(Key::Char('o'))) == (board, ActionView::OpenTicket(ticket))
            &&& board.step(Event::Key(Key::Char('t'))) == (
                board,
                ActionView::FetchTransitions(ticket),
            )
            &&& board.step(Event::Key(Key::Char('w'))) == (board, ActionView::WorkTicket(ticket))
        },
        !board.detail || board.selected >= board.tickets.len() ==> {
            &&& board.step(Event::Key(Key::Char('o'))) == (board, ActionView::Wait)
            &&& board.step(Event::Key(Key::Char('t'))) == (board, ActionView::Wait)
            &&& board.step(Event::Key(Key::Char('w'))) == (board, ActionView::Wait)
        },
{
}

/// `p` moves the project filter on, and no other but that a status is dropped which is none of the
/// statuses. Where the project is then set, its statuses are asked for first.
pub proof fn law_choosing_a_project(board: BoardView)
    requires
        board.valid(),
        board.browsing(),
    ensures
        ({
            let (next, action) = board.step(Event::Key(Key::Char('p')));
            let project = cycled(board.filters, FilterKind::Project, board.projects).project;
            &&& next.filters.project == project
            &&& next.filters.search == board.filters.search
            &&& next.filters.priority == board.filters.priority
            &&& project.len() > 0 ==> action == ActionView::FetchProjectStatuses(project) && next
                == (BoardView { filters: FiltersView { project, ..board.filters }, ..board })
            &&& project.len() == 0 ==> action == ActionView::Wait && next == (BoardView {
                filters: FiltersView {
                    project,
                    status: if board.statuses.contains(board.filters.status) {
                        board.filters.status
                    } else {
                        seq![]
                    },
                    ..board.filters
                },
                tickets: filtered(board.all, next.filters),
                selected: 0,
                ..board
            })
        }),
{
}

/// `s` moves the status filter on through the board's statuses where no project is set, and else
/// asks for those of the project; `y` moves the priority filter on. The board then shows the tickets
/// that pass, from the first one.
pub proof fn law_choosing_a_status_or_a_priority(board: BoardView)
    requires
        board.valid(),
        board.browsing(),
    ensures
        board.filters.project.len() > 0 ==> board.step(Event::Key(Key::Char('s'))) == (
            board,
            ActionView::FetchStatusChoices(board.filters.project),
        ),
        board.filters.project.len() == 0 ==> {
            let (next, action) = board.step(Event::Key(Key::Char('s')));
            let status = cycled(board.filters, FilterKind::Status, board.statuses).status;
            &&& action == ActionView::Wait
            &&& next.filters == (FiltersView { status, ..board.filters })
            &&& next == (BoardView {
                filters: next.filters,
                tickets: filtered(board.all, next.filters),
                selected: 0,
                ..board
            })
        },
        ({
            let (next, action) = board.step(Event::Key(Key::Char('y')));
            let priority = cycled(board.filters, FilterKind::Priority, board.priorities).priority;
            &&& action == ActionView::Wait
            &&& next.filters == (FiltersView { priority, ..board.filters })
            &&& next == (BoardView {
                filters: next.filters,
                tickets: filtered(board.all, next.filters),
                selected: 0,
                ..board
            })
        }),
{
}

/// What Jira says of a project's statuses is what they are chosen from, each at its place; where it
/// says nothing they are those of the project's tickets, or the board's where it has none.
pub proof fn law_the_statuses_to_choose_from(
    board: BoardView,
    reply: Result<Vec<String>, String>,
    i: int,
)
    ensures
        reply matches Ok(list) ==> board.statuses_after(reply).len() == list@.len() && (0 <= i
            < list@.len() ==> board.statuses_after(reply)[i] == list@[i]@),
        reply is Err ==> board.statuses_after(reply) == status_choices(
            board.all,
            board.filters.project,
            board.statuses,
        ),
{
}

/// The answer about a new project's statuses changes no filter but the status, shows the tickets
/// that pass, and selects the first one; the answer about the next status moves that filter on.
pub proof fn law_the_answers_about_statuses(board: BoardView, reply: Result<Vec<String>, String>)
    requires
        board.valid(),
        board.browsing(),
    ensures
        ({
            let (next, action) = board.step(Event::ProjectStatuses(reply));
            let status = if board.statuses_after(reply).contains(board.filters.status) {
                board.filters.status
            } else {
                seq![]
            };
            &&& action == ActionView::Wait
            &&& next == (BoardView {
                filters: FiltersView { status, ..board.filters },
                tickets: filtered(board.all, FiltersView { status, ..board.filters }),
                selected: 0,
                ..board
            })
        }),
        ({
            let (next, action) = board.step(Event::StatusChoices(reply));
            let status = cycled(
                board.filters,
                FilterKind::Status,
                board.statuses_after(reply),
            ).status;
            &&& action == ActionView::Wait
            &&& next == (BoardView {
                filters: FiltersView { status, ..board.filters },
                tickets: filtered(board.all, FiltersView { status, ..board.filters }),
                selected: 0,
                ..board
            })
        }),
{
    law_cycling_changes_one_filter(
        board.filters,
        FilterKind::Status,
        board.statuses_after(reply),
    );
}

/// A refresh leaves every filter as it is: all tickets are those that were fetched, and those of
/// them are shown that pass the filters that were set before. Nothing else changes.
pub proof fn law_a_refresh_keeps_the_filters(board: BoardView, list: Vec<Ticket>, ticket: TicketView)
    requires
        board.valid(),
        board.browsing(),
    ensures
        ({
            let (next, action) = board.step(Event::Tickets(Ok(list)));
            &&& action == ActionView::Wait
            &&& next.filters.search == board.filters.search
            &&& next.filters.project == board.filters.project
            &&& next.filters.status == board.filters.status
            &&& next.filters.priority == board.filters.priority
            &&& next.filters.active == board.filters.active
            &&& next.filters.input == board.filters.input
            &&& next.all == tickets_view(list@)
            &&& next.tickets == filtered(tickets_view(list@), board.filters)
            &&& next.tickets.contains(ticket) <==> tickets_view(list@).contains(ticket) && passes(
                ticket,
                board.filters,
            )
            &&& next.projects == board.projects
            &&& next.statuses == board.statuses
            &&& next.priorities == board.priorities
            &&& next.selected == board.selected
            &&& next.detail == board.detail
            &&& next.notice == board.notice
            &&& next.pending is None
        }),
{
    law_filtered_members(tickets_view(list@), board.filters, ticket);
}

/// A refresh of the same tickets changes nothing on a board that is up to date.
pub proof fn law_a_refresh_without_news_changes_nothing(board: BoardView, list: Vec<Ticket>)
    requires
        board.valid(),
        board.browsing(),
        up_to_date(board),
        tickets_view(list@) == board.all,
    ensures
        board.step(Event::Tickets(Ok(list))).0 == board,
{
}

/// A refresh or an opening that fails leaves the board with what went wrong; an opening that
/// succeeds changes nothing.
pub proof fn law_what_ends_the_board(board: BoardView, error: String)
    requires
        board.valid(),
        board.browsing(),
    ensures
        board.step(Event::Tickets(Err(error))) == (board, ActionView::Fail(error@)),
        board.step(Event::Opened(Err(error))) == (board, ActionView::Fail(error@)),
        board.step(Event::Opened(Ok(()))) == (board, ActionView::Wait),
{
}

/// The status changes that a ticket can make are offered from the first one on, as Jira lists them;
/// where there are none, or they could not be had, that is said and nothing is offered.
pub proof fn law_the_status_changes_are_offered(
    board: BoardView,
    list: Vec<Transition>,
    error: String,
    i: int,
)
    requires
        board.valid(),
        board.browsing(),
        board.selected < board.tickets.len(),
    ensures
        ({
            let (next, action) = board.step(Event::Transitions(Ok(list)));
            &&& action == ActionView::Wait
            &&& list@.len() > 0 ==> {
                &&& next.pending matches Some(offered) && offered.len() == list@.len() && (0 <= i
                    < list@.len() ==> offered[i] == list@[i]@)
                &&& next.transition_index == 0
                &&& next == (BoardView {
                    pending: next.pending,
                    transition_index: 0,
                    notice: seq![],
                    ..board
                })
            }
            &&& list@.len() == 0 ==> next == (BoardView {
                notice: "No status transition is available"@,
                ..board
            })
        }),
        board.step(Event::Transitions(Err(error))) == (
            BoardView { notice: "Status switch failed: "@ + error@, ..board },
            ActionView::Wait,
        ),
{
}

/// Whether two tickets differ in the name of the status alone, which is the given one in the second:
/// field by field.
pub open spec fn differ_in_status_alone(
    before: TicketView,
    after: TicketView,
    status: Seq<char>,
) -> bool {
    &&& after.fields.status.name == status
    &&& after.fields.status.category == before.fields.status.category
    &&& after.key == before.key
    &&& after.fields.summary == before.fields.summary
    &&& after.fields.issuetype == before.fields.issuetype
    &&& after.fields.priority == before.fields.priority
    &&& after.fields.description == before.fields.description
    &&& after.fields.attachments == before.fields.attachments
}

/// Once a status change is made, the selected ticket and every ticket with its key have the name of
/// the new status, and each of their other fields is what it was; every other ticket is as it was,
/// and so is the rest of the board, but that the choice is over and the change is told.
pub proof fn law_a_status_change_keeps_the_rest(board: BoardView, name: String, i: int)
    requires
        board.valid(),
        board.pending is Some,
    ensures
        ({
            let (next, action) = board.step(Event::TransitionApplied(Ok(name)));
            let status = board.pending->0[board.transition_index].to.name;
            let key = board.tickets[board.selected].key;
            &&& action == ActionView::Wait
            &&& next.tickets.len() == board.tickets.len()
            &&& next.all.len() == board.all.len()
            &&& differ_in_status_alone(
                board.tickets[board.selected],
                next.tickets[board.selected],
                status,
            )
            &&& next.tickets[board.selected].fields.description
                == board.tickets[board.selected].fields.description
            &&& next.tickets[board.selected].fields.attachments
                == board.tickets[board.selected].fields.attachments
            &&& 0 <= i < board.tickets.len() && i != board.selected ==> next.tickets[i]
                == board.tickets[i]
            &&& 0 <= i < board.all.len() && board.all[i].key == key ==> differ_in_status_alone(
                board.all[i],
                next.all[i],
                status,
            ) && next.all[i].fields.description == board.all[i].fields.description
                && next.all[i].fields.attachments == board.all[i].fields.attachments
                && next.all[i].fields.summary == board.all[i].fields.summary
            &&& 0 <= i < board.all.len() && board.all[i].key != key ==> next.all[i] == board.all[i]
            &&& next.notice == "Status switched to "@ + name@
            &&& next.pending is None
            &&& next.filters == board.filters
            &&& next.selected == board.selected
            &&& next.detail == board.detail
            &&& next.projects == board.projects
            &&& next.statuses == board.statuses
            &&& next.priorities == board.priorities
        }),
{
}

/// A status change shows in the details as the new status and changes neither the description nor
/// the attachments that they show.
pub proof fn law_a_status_change_keeps_the_details(board: BoardView, name: String)
    requires
        board.valid(),
        board.pending is Some,
    ensures
        ({
            let next = board.step(Event::TransitionApplied(Ok(name))).0;
            let before = board.tickets[board.selected];
            &&& next.selected_ticket() matches Some(after) && description_of(after)
                == description_of(before) && attachments_of(after) == attachments_of(before)
                && priority_of(after) == priority_of(before)
        }),
{
}

/// That a ticket was handed over, or why not, is told, and nothing else changes.
pub proof fn law_a_handing_over_is_told(board: BoardView, error: String)
    requires
        board.valid(),
        board.browsing(),
        board.selected < board.tickets.len(),
    ensures
        board.step(Event::HandedOver(Ok(()))) == (
            BoardView {
                notice: "Started worktree agent for "@ + board.tickets[board.selected].key,
                ..board
            },
            ActionView::Wait,
        ),
        board.step(Event::HandedOver(Err(error))) == (
            BoardView { notice: "Work handoff failed: "@ + error@, ..board },
            ActionView::Wait,
        ),
{
}

/// An answer that comes while it is not awaited changes nothing and asks for nothing.
pub proof fn law_other_answers_are_ignored(board: BoardView, event: Event)
    requires
        board.valid(),
        !(event is Key),
    ensures
        event is TransitionApplied && board.pending is None ==> board.step(event) == (
            board,
            ActionView::Wait,
        ),
        !(event is TransitionApplied) && !board.browsing() ==> board.step(event) == (
            board,
            ActionView::Wait,
        ),
{
}

/// The view of a board shows all of it, and the view of an action what is to be done.
pub proof fn law_a_board_is_its_view(
    board: Board,
    ticket: Ticket,
    transition: Transition,
    text: String,
    i: int,
)
    ensures
        board@.all.len() == board.all_tickets@.len(),
        0 <= i < board.all_tickets@.len() ==> board@.all[i] == board.all_tickets@[i]@,
        board@.tickets.len() == board.tickets@.len(),
        0 <= i < board.tickets@.len() ==> board@.tickets[i] == board.tickets@[i]@,
        board@.projects.len() == board.projects@.len(),
        0 <= i < board.projects@.len() ==> board@.projects[i] == board.projects@[i]@,
        board@.statuses.len() == board.statuses@.len(),
        0 <= i < board.statuses@.len() ==> board@.statuses[i] == board.statuses@[i]@,
        board@.priorities.len() == board.priorities@.len(),
        0 <= i < board.priorities@.len() ==> board@.priorities[i] == board.priorities@[i]@,
        board@.filters == board.filters@,
        board@.selected == board.selected,
        board@.detail == board.detail,
        board@.notice == board.notice@,
        board@.transition_index == board.transition_index,
        board.pending_transitions is None <==> board@.pending is None,
        board.pending_transitions matches Some(list) ==> (board@.pending matches Some(offered)
            && offered.len() == list@.len() && (0 <= i < list@.len() ==> offered[i] == list@[i]@)),
        Action::Wait@ == ActionView::Wait,
        Action::Quit@ == ActionView::Quit,
        Action::Fail(text)@ == ActionView::Fail(text@),
        Action::FetchProjectStatuses(text)@ == ActionView::FetchProjectStatuses(text@),
        Action::FetchStatusChoices(text)@ == ActionView::FetchStatusChoices(text@),
        Action::FetchTickets@ == ActionView::FetchTickets,
        Action::FetchTransitions(ticket)@ == ActionView::FetchTransitions(ticket@),
        Action::ApplyTransition(ticket, transition)@ == ActionView::ApplyTransition(
            ticket@,
            transition@,
        ),
        Action::OpenTicket(ticket)@ == ActionView::OpenTicket(ticket@),
        Action::WorkTicket(ticket)@ == ActionView::WorkTicket(ticket@),
{
}

} // verus!
