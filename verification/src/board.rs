//! The board: what it holds, and what it does on a key or an answer.

use vstd::prelude::*;

use crate::filters::{
    cycle_filter, cycled, filter_tickets, filtered, FilterKind, Filters, FiltersView,
};
use crate::options::{clone_strings, status_choices, status_options, tickets_view};
use crate::text::{str_eq, texts};
use crate::ticket::{FieldsView, StatusView, Ticket, TicketView, Transition, TransitionView};

verus! {

/// A key that was pressed.
#[derive(Clone, Copy, Debug, PartialEq, Eq, Structural)]
pub enum Key {
    Enter,
    Esc,
    Backspace,
    Up,
    Down,
    Char(char),
    Other,
}

/// What the board hears: a key, or the answer to what it last asked for.
#[derive(Debug, PartialEq, Eq)]
pub enum Event {
    Key(Key),
    /// The statuses of the project that was just chosen.
    ProjectStatuses(Result<Vec<String>, String>),
    /// The statuses to choose the next one from.
    StatusChoices(Result<Vec<String>, String>),
    /// The tickets, fetched anew.
    Tickets(Result<Vec<Ticket>, String>),
    /// The status changes that the selected ticket can make.
    Transitions(Result<Vec<Transition>, String>),
    /// What a status change came to: the status, or why there was no change.
    TransitionApplied(Result<String, String>),
    /// Whether the page of the selected ticket was opened.
    Opened(Result<(), String>),
    /// Whether the selected ticket was handed over to an agent.
    HandedOver(Result<(), String>),
}

/// What is to be done next.
#[derive(Debug, PartialEq, Eq)]
pub enum Action {
    /// Draw the board and wait for a key.
    Wait,
    /// Leave the board.
    Quit,
    /// Leave the board with an error.
    Fail(String),
    /// Ask for the statuses of a project that was just chosen.
    FetchProjectStatuses(String),
    /// Ask for the statuses of a project, to choose the next one from.
    FetchStatusChoices(String),
    /// Fetch the tickets anew.
    FetchTickets,
    /// Ask for the status changes that a ticket can make.
    FetchTransitions(Ticket),
    /// Make a status change.
    ApplyTransition(Ticket, Transition),
    /// Open the page of a ticket.
    OpenTicket(Ticket),
    /// Hand a ticket over to an agent.
    WorkTicket(Ticket),
}

/// What an [`Action`] holds.
#[verifier::ext_equal]
pub enum ActionView {
    Wait,
    Quit,
    Fail(Seq<char>),
    FetchProjectStatuses(Seq<char>),
    FetchStatusChoices(Seq<char>),
    FetchTickets,
    FetchTransitions(TicketView),
    ApplyTransition(TicketView, TransitionView),
    OpenTicket(TicketView),
    WorkTicket(TicketView),
}

impl View for Action {
    type V = ActionView;

    open spec fn view(&self) -> ActionView {
        match self {
            Action::Wait => ActionView::Wait,
            Action::Quit => ActionView::Quit,
            Action::Fail(message) => ActionView::Fail(message@),
            Action::FetchProjectStatuses(project) => ActionView::FetchProjectStatuses(project@),
            Action::FetchStatusChoices(project) => ActionView::FetchStatusChoices(project@),
            Action::FetchTickets => ActionView::FetchTickets,
            Action::FetchTransitions(ticket) => ActionView::FetchTransitions(ticket@),
            Action::ApplyTransition(ticket, transition) => ActionView::ApplyTransition(
                ticket@,
                transition@,
            ),
            Action::OpenTicket(ticket) => ActionView::OpenTicket(ticket@),
            Action::WorkTicket(ticket) => ActionView::WorkTicket(ticket@),
        }
    }
}

/// The board. `tickets` are those of `all_tickets` that are shown; `pending_transitions` are the
/// status changes to choose from while one is chosen.
#[derive(Debug, PartialEq, Eq)]
pub struct Board {
    pub all_tickets: Vec<Ticket>,
    pub projects: Vec<String>,
    pub statuses: Vec<String>,
    pub priorities: Vec<String>,
    pub filters: Filters,
    pub tickets: Vec<Ticket>,
    pub selected: usize,
    pub detail: bool,
    pub notice: String,
    pub pending_transitions: Option<Vec<Transition>>,
    pub transition_index: usize,
}

/// What a [`Board`] holds.
#[verifier::ext_equal]
pub struct BoardView {
    pub all: Seq<TicketView>,
    pub projects: Seq<Seq<char>>,
    pub statuses: Seq<Seq<char>>,
    pub priorities: Seq<Seq<char>>,
    pub filters: FiltersView,
    pub tickets: Seq<TicketView>,
    pub selected: int,
    pub detail: bool,
    pub notice: Seq<char>,
    pub pending: Option<Seq<TransitionView>>,
    pub transition_index: int,
}

/// What status changes hold.
pub open spec fn transitions_view(list: Seq<Transition>) -> Seq<TransitionView> {
    list.map_values(|transition: Transition| transition@)
}

impl View for Board {
    type V = BoardView;

    open spec fn view(&self) -> BoardView {
        BoardView {
            all: tickets_view(self.all_tickets@),
            projects: texts(self.projects@),
            statuses: texts(self.statuses@),
            priorities: texts(self.priorities@),
            filters: self.filters@,
            tickets: tickets_view(self.tickets@),
            selected: self.selected as int,
            detail: self.detail,
            notice: self.notice@,
            pending: match self.pending_transitions {
                Some(list) => Some(transitions_view(list@)),
                None => None,
            },
            transition_index: self.transition_index as int,
        }
    }
}

impl BoardView {
    /// The board as it opens.
    pub open spec fn opened(
        all: Seq<TicketView>,
        projects: Seq<Seq<char>>,
        statuses: Seq<Seq<char>>,
        priorities: Seq<Seq<char>>,
        project: Seq<char>,
    ) -> BoardView {
        let filters = FiltersView::empty().with_value(FilterKind::Project, project);
        BoardView {
            all,
            projects,
            statuses,
            priorities,
            filters,
            tickets: filtered(all, filters),
            selected: 0,
            detail: true,
            notice: seq![],
            pending: None,
            transition_index: 0,
        }
    }

    /// What holds of every board: while a status change is chosen, one is picked out of those
    /// that there are, a ticket is selected, and no filter is edited.
    pub open spec fn valid(self) -> bool {
        &&& self.selected >= 0
        &&& self.transition_index >= 0
        &&& self.pending matches Some(list) ==> {
            &&& self.transition_index < list.len()
            &&& self.selected < self.tickets.len()
            &&& self.filters.active is None
        }
    }

    /// The ticket that is selected, if there is one.
    pub open spec fn selected_ticket(self) -> Option<TicketView> {
        if 0 <= self.selected < self.tickets.len() {
            Some(self.tickets[self.selected])
        } else {
            None
        }
    }

    /// Whether the keys go to the list of tickets, not to a filter or a choice.
    pub open spec fn browsing(self) -> bool {
        self.filters.active is None && self.pending is None
    }

    /// The board with other filters, the tickets that pass them, and the first one selected.
    pub open spec fn with_filters(self, filters: FiltersView) -> BoardView {
        BoardView { filters, tickets: filtered(self.all, filters), selected: 0, ..self }
    }

    /// The statuses to choose from, given what Jira said of the project that is set.
    pub open spec fn statuses_after(self, reply: Result<Vec<String>, String>) -> Seq<Seq<char>> {
        match reply {
            Ok(list) => texts(list@),
            Err(_) => status_choices(self.all, self.filters.project, self.statuses),
        }
    }

    /// The board once the statuses of the project that is set are known: a status that is none of
    /// them is no longer filtered by.
    pub open spec fn with_project_statuses(self, options: Seq<Seq<char>>) -> BoardView {
        let filters = if self.filters.status.len() > 0 && !options.contains(self.filters.status) {
            FiltersView { status: seq![], ..self.filters }
        } else {
            self.filters
        };
        self.with_filters(filters)
    }

    /// The board with the status filter moved on.
    pub open spec fn with_next_status(self, options: Seq<Seq<char>>) -> BoardView {
        self.with_filters(cycled(self.filters, FilterKind::Status, options))
    }

    /// What a key does while a filter is edited.
    pub open spec fn editing_key(self, key: Key) -> BoardView {
        let filters = self.filters;
        match key {
            Key::Enter => self.with_filters(filters.committed()),
            Key::Esc => BoardView { filters: FiltersView { active: None, ..filters }, ..self },
            Key::Backspace => if filters.input.len() > 0 {
                BoardView {
                    filters: FiltersView { input: filters.input.drop_last(), ..filters },
                    ..self
                }
            } else {
                self
            },
            Key::Char(c) => BoardView {
                filters: FiltersView { input: filters.input.push(c), ..filters },
                ..self
            },
            _ => self,
        }
    }

    /// What a key does while a status change is chosen.
    pub open spec fn choosing_key(self, list: Seq<TransitionView>, key: Key) -> (
        BoardView,
        ActionView,
    ) {
        if key == Key::Esc {
            (BoardView { pending: None, ..self }, ActionView::Wait)
        } else if key == Key::Up || key == Key::Char('k') {
            let index = if self.transition_index > 0 {
                self.transition_index - 1
            } else {
                list.len() - 1
            };
            (BoardView { transition_index: index, ..self }, ActionView::Wait)
        } else if key == Key::Down || key == Key::Char('j') {
            let index = (self.transition_index + 1) % (list.len() as int);
            (BoardView { transition_index: index, ..self }, ActionView::Wait)
        } else if key == Key::Enter {
            (
                self,
                ActionView::ApplyTransition(
                    self.tickets[self.selected],
                    list[self.transition_index],
                ),
            )
        } else {
            (self, ActionView::Wait)
        }
    }

    /// What a key does in the list of tickets.
    pub open spec fn browsing_key(self, key: Key) -> (BoardView, ActionView) {
        let count = self.tickets.len() as int;
        if key == Key::Char('q') || key == Key::Esc && !self.detail {
            (self, ActionView::Quit)
        } else if key == Key::Esc {
            (BoardView { detail: false, ..self }, ActionView::Wait)
        } else if (key == Key::Down || key == Key::Char('j')) && count > 0 {
            let selected = if self.selected + 1 < count {
                self.selected + 1
            } else {
                count - 1
            };
            (BoardView { selected, notice: seq![], ..self }, ActionView::Wait)
        } else if (key == Key::Up || key == Key::Char('k')) && count > 0 {
            let selected = if self.selected > 0 {
                self.selected - 1
            } else {
                0
            };
            (BoardView { selected, notice: seq![], ..self }, ActionView::Wait)
        } else if key == Key::Enter {
            (BoardView { detail: true, ..self }, ActionView::Wait)
        } else if key == Key::Char('/') {
            (
                BoardView { filters: self.filters.begun(FilterKind::Search), ..self },
                ActionView::Wait,
            )
        } else if key == Key::Char('p') {
            let next = BoardView {
                filters: cycled(self.filters, FilterKind::Project, self.projects),
                ..self
            };
            if next.filters.project.len() == 0 {
                (next.with_project_statuses(self.statuses), ActionView::Wait)
            } else {
                (next, ActionView::FetchProjectStatuses(next.filters.project))
            }
        } else if key == Key::Char('s') {
            if self.filters.project.len() == 0 {
                (self.with_next_status(self.statuses), ActionView::Wait)
            } else {
                (self, ActionView::FetchStatusChoices(self.filters.project))
            }
        } else if key == Key::Char('y') {
            (
                self.with_filters(cycled(self.filters, FilterKind::Priority, self.priorities)),
                ActionView::Wait,
            )
        } else if key == Key::Char('x') {
            (self.with_filters(FiltersView::empty()), ActionView::Wait)
        } else if key == Key::Char('r') {
            (self, ActionView::FetchTickets)
        } else {
            match self.selected_ticket() {
                Some(ticket) => if self.detail && key == Key::Char('o') {
                    (self, ActionView::OpenTicket(ticket))
                } else if self.detail && key == Key::Char('t') {
                    (self, ActionView::FetchTransitions(ticket))
                } else if self.detail && key == Key::Char('w') {
                    (self, ActionView::WorkTicket(ticket))
                } else {
                    (self, ActionView::Wait)
                },
                None => (self, ActionView::Wait),
            }
        }
    }

    /// What a key does.
    pub open spec fn key_step(self, key: Key) -> (BoardView, ActionView) {
        if self.filters.active is Some {
            (self.editing_key(key), ActionView::Wait)
        } else {
            match self.pending {
                Some(list) => self.choosing_key(list, key),
                None => self.browsing_key(key),
            }
        }
    }

    /// The board with other words at its foot.
    pub open spec fn with_notice(self, notice: Seq<char>) -> BoardView {
        BoardView { notice, ..self }
    }

    /// The board once the selected ticket and all tickets with its key have the given status,
    /// and the choice is over.
    pub open spec fn switched(self, status: Seq<char>) -> BoardView {
        let ticket = self.tickets[self.selected];
        BoardView {
            tickets: self.tickets.update(self.selected, with_status(ticket, status)),
            all: self.all.map_values(
                |other: TicketView|
                    if other.key == ticket.key {
                        with_status(other, status)
                    } else {
                        other
                    },
            ),
            pending: None,
            ..self
        }
    }

    /// What an event does. An answer is heeded in the mode in which it was asked for.
    pub open spec fn step(self, event: Event) -> (BoardView, ActionView) {
        match event {
            Event::Key(key) => self.key_step(key),
            Event::TransitionApplied(result) => match self.pending {
                Some(list) => match result {
                    Ok(name) => (
                        self.switched(list[self.transition_index].to.name).with_notice(
                            "Status switched to "@ + name@,
                        ),
                        ActionView::Wait,
                    ),
                    Err(error) => (
                        BoardView { pending: None, ..self }.with_notice(
                            "Status switch failed: "@ + error@,
                        ),
                        ActionView::Wait,
                    ),
                },
                None => (self, ActionView::Wait),
            },
            _ => if !self.browsing() {
                (self, ActionView::Wait)
            } else {
                self.browsing_answer(event)
            },
        }
    }

    /// What an answer does that was asked for from the list of tickets.
    pub open spec fn browsing_answer(self, event: Event) -> (BoardView, ActionView) {
        match event {
            Event::ProjectStatuses(reply) => (
                self.with_project_statuses(self.statuses_after(reply)),
                ActionView::Wait,
            ),
            Event::StatusChoices(reply) => (
                self.with_next_status(self.statuses_after(reply)),
                ActionView::Wait,
            ),
            Event::Tickets(Ok(list)) => (
                BoardView {
                    all: tickets_view(list@),
                    tickets: filtered(tickets_view(list@), self.filters),
                    ..self
                },
                ActionView::Wait,
            ),
            Event::Tickets(Err(error)) => (self, ActionView::Fail(error@)),
            Event::Transitions(reply) => if self.selected_ticket() is None {
                (self, ActionView::Wait)
            } else {
                match reply {
                    Ok(list) => if list@.len() == 0 {
                        (
                            self.with_notice("No status transition is available"@),
                            ActionView::Wait,
                        )
                    } else {
                        (
                            BoardView {
                                pending: Some(transitions_view(list@)),
                                transition_index: 0,
                                notice: seq![],
                                ..self
                            },
                            ActionView::Wait,
                        )
                    },
                    Err(error) => (
                        self.with_notice("Status switch failed: "@ + error@),
                        ActionView::Wait,
                    ),
                }
            },
            Event::Opened(Ok(_)) => (self, ActionView::Wait),
            Event::Opened(Err(error)) => (self, ActionView::Fail(error@)),
            Event::HandedOver(reply) => match self.selected_ticket() {
                Some(ticket) => match reply {
                    Ok(_) => (
                        self.with_notice("Started worktree agent for "@ + ticket.key),
                        ActionView::Wait,
                    ),
                    Err(error) => (
                        self.with_notice("Work handoff failed: "@ + error@),
                        ActionView::Wait,
                    ),
                },
                None => (self, ActionView::Wait),
            },
            _ => (self, ActionView::Wait),
        }
    }
}

/// A ticket with another status of the same category.
pub open spec fn with_status(ticket: TicketView, status: Seq<char>) -> TicketView {
    TicketView {
        fields: FieldsView {
            status: StatusView { name: status, ..ticket.fields.status },
            ..ticket.fields
        },
        ..ticket
    }
}

impl Board {
    /// The board as it opens, with the filter for one project set.
    pub fn new(
        all_tickets: Vec<Ticket>,
        projects: Vec<String>,
        statuses: Vec<String>,
        priorities: Vec<String>,
        default_project: String,
    ) -> (r: Self)
        ensures
            r@ == BoardView::opened(
                tickets_view(all_tickets@),
                texts(projects@),
                texts(statuses@),
                texts(priorities@),
                default_project@,
            ),
            r@.valid(),
    {
        let filters = Filters::with_project(default_project);
        let tickets = filter_tickets(all_tickets.as_slice(), &filters);
        Board {
            all_tickets,
            projects,
            statuses,
            priorities,
            filters,
            tickets,
            selected: 0,
            detail: true,
            notice: String::new(),
            pending_transitions: None,
            transition_index: 0,
        }
    }

    /// Shows the tickets that pass the filters, and selects the first one.
    fn show_filtered(&mut self)
        ensures
            final(self)@ == old(self)@.with_filters(old(self)@.filters),
    {
        self.tickets = filter_tickets(self.all_tickets.as_slice(), &self.filters);
        self.selected = 0;
    }

    /// A key while a filter is edited.
    fn editing(&mut self, key: Key)
        ensures
            final(self)@ == old(self)@.editing_key(key),
    {
        match key {
            Key::Enter => {
                self.filters.commit();
                self.show_filtered();
            },
            Key::Esc => {
                self.filters.active = None;
            },
            Key::Backspace => {
                let _ = self.filters.input.pop();
            },
            Key::Char(c) => {
                self.filters.input.push(c);
            },
            _ => {},
        }
    }

    /// A key while a status change is chosen.
    fn choosing(&mut self, key: Key) -> (r: Action)
        requires
            old(self)@.valid(),
            old(self)@.pending is Some,
        ensures
            (final(self)@, r@) == old(self)@.choosing_key(old(self)@.pending->0, key),
    {
        let mut count: usize = 0;
        if let Some(list) = &self.pending_transitions {
            count = list.len();
        }
        match key {
            Key::Esc => {
                self.pending_transitions = None;
            },
            Key::Up | Key::Char('k') => {
                self.transition_index = if self.transition_index > 0 {
                    self.transition_index - 1
                } else {
                    count - 1
                };
            },
            Key::Down | Key::Char('j') => {
                self.transition_index = (self.transition_index + 1) % count;
            },
            Key::Enter => {
                if let Some(list) = &self.pending_transitions {
                    return Action::ApplyTransition(
                        self.tickets[self.selected].clone(),
                        list[self.transition_index].clone(),
                    );
                }
            },
            _ => {},
        }
        Action::Wait
    }

    /// Takes note of the statuses of the project that is set.
    fn settle_project(&mut self, options: &[String])
        ensures
            final(self)@ == old(self)@.with_project_statuses(texts(options@)),
    {
        if !self.filters.status.as_str().is_empty() && !has_text(
            options,
            self.filters.status.as_str(),
        ) {
            self.filters.status = String::new();
        }
        self.show_filtered();
    }

    /// Moves the status filter on.
    fn next_status(&mut self, options: &[String])
        ensures
            final(self)@ == old(self)@.with_next_status(texts(options@)),
    {
        cycle_filter(&mut self.filters, FilterKind::Status, options);
        self.show_filtered();
    }

    /// A copy of the selected ticket, where its details are shown.
    fn detailed_ticket(&self) -> (r: Option<Ticket>)
        ensures
            r is Some <==> self@.detail && self@.selected_ticket() is Some,
            r matches Some(ticket) ==> self@.selected_ticket() == Some(ticket@),
    {
        if self.detail && self.selected < self.tickets.len() {
            Some(self.tickets[self.selected].clone())
        } else {
            None
        }
    }

    /// A key in the list of tickets.
    fn browsing(&mut self, key: Key) -> (r: Action)
        ensures
            (final(self)@, r@) == old(self)@.browsing_key(key),
    {
        let count: usize = self.tickets.len();
        match key {
            Key::Char('q') => {
                return Action::Quit;
            },
            Key::Esc => {
                if !self.detail {
                    return Action::Quit;
                }
                self.detail = false;
            },
            Key::Down | Key::Char('j') => {
                if count > 0 {
                    self.selected = if self.selected < count - 1 {
                        self.selected + 1
                    } else {
                        count - 1
                    };
                    self.notice = String::new();
                }
            },
            Key::Up | Key::Char('k') => {
                if count > 0 {
                    self.selected = if self.selected > 0 {
                        self.selected - 1
                    } else {
                        0
                    };
                    self.notice = String::new();
                }
            },
            Key::Enter => {
                self.detail = true;
            },
            Key::Char('/') => {
                self.filters.begin(FilterKind::Search);
            },
            Key::Char('p') => {
                cycle_filter(&mut self.filters, FilterKind::Project, self.projects.as_slice());
                if !self.filters.project.as_str().is_empty() {
                    return Action::FetchProjectStatuses(self.filters.project.clone());
                }
                let options = clone_strings(self.statuses.as_slice());
                self.settle_project(options.as_slice());
            },
            Key::Char('s') => {
                if !self.filters.project.as_str().is_empty() {
                    return Action::FetchStatusChoices(self.filters.project.clone());
                }
                let options = clone_strings(self.statuses.as_slice());
                self.next_status(options.as_slice());
            },
            Key::Char('y') => {
                cycle_filter(&mut self.filters, FilterKind::Priority, self.priorities.as_slice());
                self.show_filtered();
            },
            Key::Char('x') => {
                self.filters = Filters::new();
                self.show_filtered();
            },
            Key::Char('r') => {
                return Action::FetchTickets;
            },
            Key::Char('o') => {
                if let Some(ticket) = self.detailed_ticket() {
                    return Action::OpenTicket(ticket);
                }
            },
            Key::Char('t') => {
                if let Some(ticket) = self.detailed_ticket() {
                    return Action::FetchTransitions(ticket);
                }
            },
            Key::Char('w') => {
                if let Some(ticket) = self.detailed_ticket() {
                    return Action::WorkTicket(ticket);
                }
            },
            _ => {},
        }
        Action::Wait
    }
}

impl Board {
    /// The statuses to choose from, given what Jira said of the project that is set.
    fn statuses_for_project(&self, reply: Result<Vec<String>, String>) -> (r: Vec<String>)
        ensures
            texts(r@) == self@.statuses_after(reply),
    {
        match reply {
            Ok(list) => list,
            Err(_) => status_options(
                self.all_tickets.as_slice(),
                self.filters.project.as_str(),
                self.statuses.as_slice(),
            ),
        }
    }

    /// Gives the selected ticket and all tickets with its key a status, and ends the choice.
    fn switch(&mut self, status: &str)
        requires
            old(self)@.selected < old(self)@.tickets.len(),
        ensures
            final(self)@ == old(self)@.switched(status@),
    {
        let ghost before = self@;
        let key = self.tickets[self.selected].key.clone();
        self.tickets[self.selected].fields.status.name = status.to_owned();
        assert(tickets_view(self.tickets@) =~= before.switched(status@).tickets);
        let mut i: usize = 0;
        while i < self.all_tickets.len()
            invariant
                i <= self.all_tickets@.len(),
                self@ == (BoardView {
                    all: self@.all,
                    tickets: before.switched(status@).tickets,
                    ..before
                }),
                key@ == before.tickets[before.selected].key,
                self@.all.len() == before.all.len(),
                forall|j: int|
                    i <= j < before.all.len() ==> #[trigger] self@.all[j] == before.all[j],
                forall|j: int|
                    0 <= j < i ==> #[trigger] self@.all[j] == before.switched(status@).all[j],
            decreases self.all_tickets@.len() - i,
        {
            let ghost now = self@.all;
            assert(now[i as int] == self.all_tickets@[i as int]@);
            if str_eq(self.all_tickets[i].key.as_str(), key.as_str()) {
                self.all_tickets[i].fields.status.name = status.to_owned();
            }
            assert(self@.all =~= now.update(i as int, before.switched(status@).all[i as int]));
            i += 1;
        }
        assert(self@.all =~= before.switched(status@).all);
        self.pending_transitions = None;
    }

    /// What a status change came to.
    fn applied(&mut self, result: Result<String, String>)
        requires
            old(self)@.valid(),
        ensures
            final(self)@ == old(self)@.step(Event::TransitionApplied(result)).0,
            old(self)@.step(Event::TransitionApplied(result)).1 == ActionView::Wait,
    {
        let status = match &self.pending_transitions {
            Some(list) => list[self.transition_index].to.name.clone(),
            None => {
                return ;
            },
        };
        match result {
            Ok(name) => {
                self.switch(status.as_str());
                let mut notice = "Status switched to ".to_owned();
                notice.append(name.as_str());
                self.notice = notice;
            },
            Err(error) => {
                self.pending_transitions = None;
                let mut notice = "Status switch failed: ".to_owned();
                notice.append(error.as_str());
                self.notice = notice;
            },
        }
    }

    /// An answer that was asked for from the list of tickets.
    fn answered(&mut self, event: Event) -> (r: Action)
        ensures
            (final(self)@, r@) == old(self)@.browsing_answer(event),
    {
        match event {
            Event::ProjectStatuses(reply) => {
                let options = self.statuses_for_project(reply);
                self.settle_project(options.as_slice());
            },
            Event::StatusChoices(reply) => {
                let options = self.statuses_for_project(reply);
                self.next_status(options.as_slice());
            },
            Event::Tickets(reply) => match reply {
                Ok(list) => {
                    self.tickets = filter_tickets(list.as_slice(), &self.filters);
                    self.all_tickets = list;
                },
                Err(error) => {
                    return Action::Fail(error);
                },
            },
            Event::Transitions(reply) => {
                if self.selected < self.tickets.len() {
                    match reply {
                        Ok(list) => {
                            if list.is_empty() {
                                self.notice = "No status transition is available".to_owned();
                            } else {
                                self.transition_index = 0;
                                self.pending_transitions = Some(list);
                                self.notice = String::new();
                            }
                        },
                        Err(error) => {
                            let mut notice = "Status switch failed: ".to_owned();
                            notice.append(error.as_str());
                            self.notice = notice;
                        },
                    }
                }
            },
            Event::Opened(reply) => match reply {
                Ok(_) => {},
                Err(error) => {
                    return Action::Fail(error);
                },
            },
            Event::HandedOver(reply) => {
                if self.selected < self.tickets.len() {
                    match reply {
                        Ok(_) => {
                            let mut notice = "Started worktree agent for ".to_owned();
                            notice.append(self.tickets[self.selected].key.as_str());
                            self.notice = notice;
                        },
                        Err(error) => {
                            let mut notice = "Work handoff failed: ".to_owned();
                            notice.append(error.as_str());
                            self.notice = notice;
                        },
                    }
                }
            },
            _ => {},
        }
        Action::Wait
    }

    /// Does what an event asks for, and says what is to be done next.
    pub fn handle(&mut self, event: Event) -> (r: Action)
        requires
            old(self)@.valid(),
        ensures
            (final(self)@, r@) == old(self)@.step(event),
            final(self)@.valid(),
    {
        match event {
            Event::Key(key) => {
                if self.filters.active.is_some() {
                    self.editing(key);
                    Action::Wait
                } else if self.pending_transitions.is_some() {
                    self.choosing(key)
                } else {
                    self.browsing(key)
                }
            },
            Event::TransitionApplied(result) => {
                self.applied(result);
                Action::Wait
            },
            other => {
                if self.filters.active.is_some() || self.pending_transitions.is_some() {
                    Action::Wait
                } else {
                    self.answered(other)
                }
            },
        }
    }
}

/// Whether a text is in a list.
fn has_text(list: &[String], value: &str) -> (r: bool)
    ensures
        r == texts(list@).contains(value@),
{
    let ghost all = texts(list@);
    let mut i: usize = 0;
    while i < list.len()
        invariant
            i <= list@.len(),
            all == texts(list@),
            forall|j: int| 0 <= j < i ==> all[j] != value@,
        decreases list@.len() - i,
    {
        if str_eq(list[i].as_str(), value) {
            assert(all[i as int] == value@);
            return true;
        }
        assert(all[i as int] == list@[i as int]@);
        i += 1;
    }
    false
}

} // verus!
