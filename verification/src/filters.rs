//! The filters of the board, and the tickets that they let through.

use vstd::prelude::*;
use vstd::utf8::is_ascii_chars;

use crate::options::{
    priority_of, project_of, ticket_priority, ticket_project, tickets_view,
};
use crate::text::{
    ascii_lowercase, before, contains, has_part, law_before, law_parts, law_parts_of_parts,
    law_same_but_ascii_case, lowercase_of, same_but_ascii_case, stands_at, str_eq, texts,
    to_lowercase,
};
use crate::ticket::{description_of, ticket_description, Ticket, TicketView};

verus! {

/// What a filter looks at.
#[derive(Clone, Copy, Debug, PartialEq, Eq, Structural)]
pub enum FilterKind {
    Search,
    Project,
    Status,
    Priority,
}

/// The four filters, and the one that is being edited with what is typed so far.
#[derive(Debug, PartialEq, Eq)]
pub struct Filters {
    pub search: String,
    pub project: String,
    pub status: String,
    pub priority: String,
    pub active: Option<FilterKind>,
    pub input: String,
}

/// What [`Filters`] hold.
#[verifier::ext_equal]
pub struct FiltersView {
    pub search: Seq<char>,
    pub project: Seq<char>,
    pub status: Seq<char>,
    pub priority: Seq<char>,
    pub active: Option<FilterKind>,
    pub input: Seq<char>,
}

impl View for Filters {
    type V = FiltersView;

    open spec fn view(&self) -> FiltersView {
        FiltersView {
            search: self.search@,
            project: self.project@,
            status: self.status@,
            priority: self.priority@,
            active: self.active,
            input: self.input@,
        }
    }
}

impl FiltersView {
    /// No filter set, and none edited.
    pub open spec fn empty() -> FiltersView {
        FiltersView {
            search: seq![],
            project: seq![],
            status: seq![],
            priority: seq![],
            active: None,
            input: seq![],
        }
    }

    /// What the filter of a kind is set to.
    pub open spec fn set_value(self, kind: FilterKind) -> Seq<char> {
        match kind {
            FilterKind::Search => self.search,
            FilterKind::Project => self.project,
            FilterKind::Status => self.status,
            FilterKind::Priority => self.priority,
        }
    }

    /// What is shown for a kind: what is typed while it is edited, else what it is set to.
    pub open spec fn shown_value(self, kind: FilterKind) -> Seq<char> {
        if self.active == Some(kind) {
            self.input
        } else {
            self.set_value(kind)
        }
    }

    /// The filters with the one of a kind set to a value.
    pub open spec fn with_value(self, kind: FilterKind, value: Seq<char>) -> FiltersView {
        match kind {
            FilterKind::Search => FiltersView { search: value, ..self },
            FilterKind::Project => FiltersView { project: value, ..self },
            FilterKind::Status => FiltersView { status: value, ..self },
            FilterKind::Priority => FiltersView { priority: value, ..self },
        }
    }

    /// The filters while the one of a kind is edited, from what it is set to.
    pub open spec fn begun(self, kind: FilterKind) -> FiltersView {
        FiltersView { active: Some(kind), input: self.set_value(kind), ..self }
    }

    /// The filters once what is typed has been taken over.
    pub open spec fn committed(self) -> FiltersView {
        let taken = match self.active {
            Some(kind) => self.with_value(kind, self.input),
            None => self,
        };
        FiltersView { active: None, input: seq![], ..taken }
    }
}

impl Filters {
    /// Filters that let every ticket through.
    pub fn new() -> (r: Self)
        ensures
            r@ == FiltersView::empty(),
    {
        Filters {
            search: String::new(),
            project: String::new(),
            status: String::new(),
            priority: String::new(),
            active: None,
            input: String::new(),
        }
    }

    /// Filters of which the project's alone is set.
    pub fn with_project(project: String) -> (r: Self)
        ensures
            r@ == FiltersView::empty().with_value(FilterKind::Project, project@),
    {
        let mut filters = Self::new();
        filters.project = project;
        filters
    }

    /// Starts editing a filter from what it is set to.
    pub fn begin(&mut self, kind: FilterKind)
        ensures
            final(self)@ == old(self)@.begun(kind),
    {
        self.active = Some(kind);
        self.input = match kind {
            FilterKind::Search => self.search.clone(),
            FilterKind::Project => self.project.clone(),
            FilterKind::Status => self.status.clone(),
            FilterKind::Priority => self.priority.clone(),
        };
    }

    /// Sets the filter that is being edited to what was typed, and ends the editing.
    pub fn commit(&mut self)
        ensures
            final(self)@ == old(self)@.committed(),
    {
        if let Some(kind) = self.active.take() {
            match kind {
                FilterKind::Search => self.search = self.input.clone(),
                FilterKind::Project => self.project = self.input.clone(),
                FilterKind::Status => self.status = self.input.clone(),
                FilterKind::Priority => self.priority = self.input.clone(),
            }
        }
        self.input = String::new();
    }

    /// What is shown for a filter: what is typed while it is edited, else what it is set to.
    pub fn value(&self, kind: FilterKind) -> (r: &str)
        ensures
            r@ == self@.shown_value(kind),
    {
        let editing = match self.active {
            Some(active) => active == kind,
            None => false,
        };
        if editing {
            self.input.as_str()
        } else {
            match kind {
                FilterKind::Search => self.search.as_str(),
                FilterKind::Project => self.project.as_str(),
                FilterKind::Status => self.status.as_str(),
                FilterKind::Priority => self.priority.as_str(),
            }
        }
    }
}

/// Whether a filter lets a value through: the empty filter any, another one what holds it,
/// capital letters or small.
pub open spec fn lets_through(value: Seq<char>, filter: Seq<char>) -> bool {
    filter.len() == 0 || has_part(lowercase_of(value), lowercase_of(filter))
}

/// What the search looks at: a ticket's key, its summary and its description.
pub open spec fn search_text(ticket: TicketView) -> Seq<char> {
    ticket.key + " "@ + ticket.fields.summary + " "@ + description_of(ticket)
}

/// Whether a ticket gets through all four filters.
pub open spec fn passes(ticket: TicketView, filters: FiltersView) -> bool {
    &&& lets_through(search_text(ticket), filters.search)
    &&& lets_through(project_of(ticket), filters.project)
    &&& lets_through(ticket.fields.status.name, filters.status)
    &&& lets_through(priority_of(ticket), filters.priority)
}

/// The tickets that get through the filters, in their order.
pub open spec fn filtered(all: Seq<TicketView>, filters: FiltersView) -> Seq<TicketView> {
    all.filter(|ticket: TicketView| passes(ticket, filters))
}

/// Whether a filter lets an ASCII value through, given that it is ASCII too.
pub open spec fn lets_ascii_through(value: Seq<char>, filter: Seq<char>) -> bool {
    filter.len() == 0 || has_part(ascii_lowercase(value), ascii_lowercase(filter))
}

/// Whether a ticket gets through all four filters, given that the texts are ASCII.
pub open spec fn passes_in_ascii(ticket: TicketView, filters: FiltersView) -> bool {
    &&& lets_ascii_through(search_text(ticket), filters.search)
    &&& lets_ascii_through(project_of(ticket), filters.project)
    &&& lets_ascii_through(ticket.fields.status.name, filters.status)
    &&& lets_ascii_through(priority_of(ticket), filters.priority)
}

/// Whether all that the filters look at in a ticket is ASCII.
pub open spec fn ascii_ticket(ticket: TicketView) -> bool {
    &&& is_ascii_chars(search_text(ticket))
    &&& is_ascii_chars(project_of(ticket))
    &&& is_ascii_chars(ticket.fields.status.name)
    &&& is_ascii_chars(priority_of(ticket))
}

/// Whether all filters are set to ASCII texts.
pub open spec fn ascii_filters(filters: FiltersView) -> bool {
    &&& is_ascii_chars(filters.search)
    &&& is_ascii_chars(filters.project)
    &&& is_ascii_chars(filters.status)
    &&& is_ascii_chars(filters.priority)
}

fn value_passes(value: &str, filter: &str) -> (r: bool)
    ensures
        r == lets_through(value@, filter@),
        is_ascii_chars(value@) && is_ascii_chars(filter@) ==> r == lets_ascii_through(
            value@,
            filter@,
        ),
{
    filter.is_empty() || contains(to_lowercase(value).as_str(), to_lowercase(filter).as_str())
}

fn ticket_passes(ticket: &Ticket, filters: &Filters) -> (r: bool)
    ensures
        r == passes(ticket@, filters@),
        ascii_ticket(ticket@) && ascii_filters(filters@) ==> r == passes_in_ascii(
            ticket@,
            filters@,
        ),
{
    let project = ticket_project(ticket);
    let priority = ticket_priority(ticket);
    let mut text = ticket.key.clone();
    text.append(" ");
    text.append(ticket.fields.summary.as_str());
    text.append(" ");
    text.append(ticket_description(ticket).as_str());
    value_passes(text.as_str(), filters.search.as_str()) && value_passes(
        project.as_str(),
        filters.project.as_str(),
    ) && value_passes(ticket.fields.status.name.as_str(), filters.status.as_str())
        && value_passes(priority.as_str(), filters.priority.as_str())
}

/// The tickets that get through the filters, in their order.
pub fn filter_tickets(all: &[Ticket], filters: &Filters) -> (r: Vec<Ticket>)
    ensures
        tickets_view(r@) == filtered(tickets_view(all@), filters@),
        ascii_filters(filters@) ==> forall|i: int|
            0 <= i < all@.len() && ascii_ticket(#[trigger] all@[i]@) ==> passes(
                all@[i]@,
                filters@,
            ) == passes_in_ascii(all@[i]@, filters@),
{
    let ghost views = tickets_view(all@);
    let mut out: Vec<Ticket> = Vec::new();
    let mut i: usize = 0;
    proof {
        reveal(Seq::filter);
        assert(tickets_view(out@) =~= filtered(views.take(0), filters@));
    }
    while i < all.len()
        invariant
            i <= all@.len(),
            views == tickets_view(all@),
            tickets_view(out@) == filtered(views.take(i as int), filters@),
            ascii_filters(filters@) ==> forall|j: int|
                0 <= j < i && ascii_ticket(#[trigger] all@[j]@) ==> passes(all@[j]@, filters@)
                    == passes_in_ascii(all@[j]@, filters@),
        decreases all@.len() - i,
    {
        let ghost seen = tickets_view(out@);
        if ticket_passes(&all[i], filters) {
            out.push(all[i].clone());
            assert(tickets_view(out@) =~= seen.push(views[i as int]));
        }
        proof {
            reveal(Seq::filter);
            assert(views.take(i + 1).drop_last() =~= views.take(i as int));
        }
        i += 1;
    }
    assert(views.take(i as int) =~= views);
    out
}

/// Where a text first stands in a list, or the list's length.
pub open spec fn position_of(list: Seq<Seq<char>>, value: Seq<char>) -> int
    decreases list.len(),
{
    if list.len() == 0 || list[0] == value {
        0
    } else {
        1 + position_of(list.drop_first(), value)
    }
}

/// The option that follows the current value: the first one after an empty value, a value that
/// is no option, and the last option.
pub open spec fn next_option(current: Seq<char>, options: Seq<Seq<char>>) -> Seq<char>
    recommends
        options.len() > 0,
{
    let position = position_of(options, current);
    if current.len() == 0 || position == options.len() {
        options[0]
    } else {
        options[(position + 1) % (options.len() as int)]
    }
}

/// The filters with one of them moved on to the next option; the same where there is none.
pub open spec fn cycled(
    filters: FiltersView,
    kind: FilterKind,
    options: Seq<Seq<char>>,
) -> FiltersView {
    if options.len() == 0 {
        filters
    } else {
        filters.with_value(kind, next_option(filters.shown_value(kind), options))
    }
}

/// A position lies in range, and holds the text unless it is the length.
pub proof fn lemma_position_of(list: Seq<Seq<char>>, value: Seq<char>)
    ensures
        0 <= position_of(list, value) <= list.len(),
        position_of(list, value) < list.len() ==> list[position_of(list, value)] == value,
        position_of(list, value) == list.len() ==> !list.contains(value),
        forall|i: int| 0 <= i < position_of(list, value) ==> list[i] != value,
    decreases list.len(),
{
    if list.len() > 0 && list[0] != value {
        let rest = list.drop_first();
        lemma_position_of(rest, value);
        assert forall|i: int| 0 <= i < position_of(list, value) implies list[i] != value by {
            if i > 0 {
                assert(rest[i - 1] != value);
            }
        }
    }
}

/// Where a text first stands in a list of strings, if it does.
fn position(list: &[String], value: &str) -> (r: Option<usize>)
    ensures
        r matches Some(i) ==> i < list@.len() && i == position_of(texts(list@), value@),
        r is None ==> position_of(texts(list@), value@) == list@.len(),
{
    let ghost all = texts(list@);
    let mut i: usize = 0;
    assert(all.skip(0) =~= all);
    while i < list.len()
        invariant
            i <= list@.len(),
            all == texts(list@),
            position_of(all, value@) == i + position_of(all.skip(i as int), value@),
        decreases list@.len() - i,
    {
        if str_eq(list[i].as_str(), value) {
            return Some(i);
        }
        assert(all.skip(i as int).drop_first() =~= all.skip(i + 1));
        i += 1;
    }
    None
}

/// Moves a filter on to the next option.
pub fn cycle_filter(filters: &mut Filters, kind: FilterKind, options: &[String])
    ensures
        final(filters)@ == cycled(old(filters)@, kind, texts(options@)),
{
    if options.is_empty() {
        return ;
    }
    let count: usize = options.len();
    let current = filters.value(kind);
    let next: usize = if current.is_empty() {
        0
    } else {
        match position(options, current) {
            Some(index) => (index + 1) % count,
            None => 0,
        }
    };
    assert(texts(options@)[next as int] == options@[next as int]@);
    let value = options[next].clone();
    match kind {
        FilterKind::Search => filters.search = value,
        FilterKind::Project => filters.project = value,
        FilterKind::Status => filters.status = value,
        FilterKind::Priority => filters.priority = value,
    }
}

/// Starting to edit a filter and taking it over at once changes no filter.
pub proof fn law_begin_and_commit_change_nothing(filters: FiltersView, kind: FilterKind)
    ensures
        filters.begun(kind).committed() == (FiltersView { active: None, input: seq![], ..filters }),
{
}

/// Taking over sets the filter that is edited to what was typed, and no other.
pub proof fn law_commit_sets_the_edited_filter(filters: FiltersView, kind: FilterKind)
    requires
        filters.active == Some(kind),
    ensures
        filters.committed().shown_value(kind) == filters.input,
        forall|other: FilterKind|
            other != kind ==> #[trigger] filters.committed().set_value(other)
                == filters.set_value(other),
{
}

/// Filters that are not set let every ticket through.
pub proof fn law_empty_filters_let_all_through(all: Seq<TicketView>)
    ensures
        filtered(all, FiltersView::empty()) == all,
    decreases all.len(),
{
    reveal(Seq::filter);
    if all.len() > 0 {
        law_empty_filters_let_all_through(all.drop_last());
        assert(all =~= all.drop_last().push(all.last()));
    }
}

/// A ticket is shown exactly if it is at hand and passes the filters.
pub proof fn law_filtered_members(all: Seq<TicketView>, filters: FiltersView, ticket: TicketView)
    ensures
        filtered(all, filters).contains(ticket) <==> all.contains(ticket) && passes(
            ticket,
            filters,
        ),
    decreases all.len(),
{
    reveal(Seq::filter);
    let r = filtered(all, filters);
    if all.len() > 0 {
        let rest = all.drop_last();
        let shorter = filtered(rest, filters);
        law_filtered_members(rest, filters, ticket);
        if all.contains(ticket) && passes(ticket, filters) {
            let i = choose|i: int| 0 <= i < all.len() && all[i] == ticket;
            if i < rest.len() {
                assert(rest[i] == ticket);
                let j = choose|j: int| 0 <= j < shorter.len() && shorter[j] == ticket;
                assert(r[j] == ticket);
            } else {
                assert(r[r.len() - 1] == ticket);
            }
        }
        if r.contains(ticket) {
            let j = choose|j: int| 0 <= j < r.len() && r[j] == ticket;
            if j < shorter.len() {
                assert(shorter[j] == ticket);
                let i = choose|i: int| 0 <= i < rest.len() && rest[i] == ticket;
                assert(all[i] == ticket);
            } else {
                assert(all[all.len() - 1] == ticket);
            }
        }
    }
}

/// Filtering what is shown by the same filters changes nothing.
pub proof fn law_filtering_is_idempotent(all: Seq<TicketView>, filters: FiltersView)
    ensures
        filtered(filtered(all, filters), filters) == filtered(all, filters),
    decreases all.len(),
{
    reveal(Seq::filter);
    if all.len() > 0 {
        let shorter = filtered(all.drop_last(), filters);
        law_filtering_is_idempotent(all.drop_last(), filters);
        if passes(all.last(), filters) {
            assert(shorter.push(all.last()).drop_last() =~= shorter);
        }
    }
}

/// Whether the tickets of one list stand in another at ascending places.
pub open spec fn stand_at(part: Seq<TicketView>, whole: Seq<TicketView>, places: Seq<int>) -> bool {
    &&& places.len() == part.len()
    &&& forall|i: int|
        0 <= i < part.len() ==> 0 <= #[trigger] places[i] < whole.len() && whole[places[i]]
            == part[i]
    &&& forall|i: int, j: int|
        0 <= i < j < part.len() ==> #[trigger] places[i] < #[trigger] places[j]
}

/// Whether one list is another with some of its tickets left out.
pub open spec fn is_subsequence(part: Seq<TicketView>, whole: Seq<TicketView>) -> bool {
    exists|places: Seq<int>| stand_at(part, whole, places)
}

/// The places that the tickets that pass all filters have once one filter is cleared.
proof fn lemma_places_after_clearing(
    all: Seq<TicketView>,
    filters: FiltersView,
    kind: FilterKind,
) -> (places: Seq<int>)
    ensures
        stand_at(
            filtered(all, filters),
            filtered(all, filters.with_value(kind, seq![])),
            places,
        ),
    decreases all.len(),
{
    reveal(Seq::filter);
    let cleared = filters.with_value(kind, seq![]);
    if all.len() == 0 {
        seq![]
    } else {
        let places = lemma_places_after_clearing(all.drop_last(), filters, kind);
        if passes(all.last(), filters) {
            places.push(filtered(all.drop_last(), cleared).len() as int)
        } else {
            places
        }
    }
}

/// Clearing a filter hides no ticket: what was shown is shown still, in the same order.
pub proof fn law_clearing_a_filter_hides_no_ticket(
    all: Seq<TicketView>,
    filters: FiltersView,
    kind: FilterKind,
)
    ensures
        is_subsequence(
            filtered(all, filters),
            filtered(all, filters.with_value(kind, seq![])),
        ),
{
    let places = lemma_places_after_clearing(all, filters, kind);
    assert(stand_at(
        filtered(all, filters),
        filtered(all, filters.with_value(kind, seq![])),
        places,
    ));
}

/// What is typed while a filter is edited hides and shows no ticket until it is taken over.
pub proof fn law_editing_does_not_filter(
    all: Seq<TicketView>,
    filters: FiltersView,
    active: Option<FilterKind>,
    input: Seq<char>,
)
    ensures
        filtered(all, FiltersView { active, input, ..filters }) == filtered(all, filters),
    decreases all.len(),
{
    reveal(Seq::filter);
    if all.len() > 0 {
        law_editing_does_not_filter(all.drop_last(), filters, active, input);
    }
}

/// The filters after a filter has been moved on so many times.
pub open spec fn cycled_times(
    filters: FiltersView,
    kind: FilterKind,
    options: Seq<Seq<char>>,
    times: nat,
) -> FiltersView
    decreases times,
{
    if times == 0 {
        filters
    } else {
        cycled(cycled_times(filters, kind, options, (times - 1) as nat), kind, options)
    }
}

/// Where the option that follows a value stands: the first place after an empty value and after
/// one that is no option, else the place after the value's own, and the first after the last.
pub open spec fn next_place(current: Seq<char>, options: Seq<Seq<char>>) -> int {
    let position = position_of(options, current);
    if current.len() == 0 || position == options.len() {
        0
    } else {
        (position + 1) % (options.len() as int)
    }
}

/// Whether there are options, all different texts, and none of them empty.
pub open spec fn proper_options(options: Seq<Seq<char>>) -> bool {
    &&& options.len() > 0
    &&& options.no_duplicates()
    &&& forall|i: int| 0 <= i < options.len() ==> #[trigger] options[i].len() > 0
}

/// The option at a place is found there, and the one after it follows.
proof fn lemma_next_place(options: Seq<Seq<char>>, at: int)
    requires
        proper_options(options),
        0 <= at < options.len(),
    ensures
        next_place(options[at], options) == (at + 1) % (options.len() as int),
{
    let current = options[at];
    lemma_position_of(options, current);
    if position_of(options, current) == options.len() {
        assert(options.contains(current));
    }
}

/// From whatever it shows, a filter goes through the options in their order, and from the last
/// one on to the first: from an option on with the next, from anything else on with the first.
pub proof fn law_cycling_visits_the_options_in_turn(
    filters: FiltersView,
    kind: FilterKind,
    options: Seq<Seq<char>>,
    times: nat,
)
    requires
        proper_options(options),
        filters.active != Some(kind),
    ensures
        cycled_times(filters, kind, options, times + 1).shown_value(kind) == options[(next_place(
            filters.shown_value(kind),
            options,
        ) + times) % (options.len() as int)],
        cycled_times(filters, kind, options, times + 1).active == filters.active,
    decreases times,
{
    let before = cycled_times(filters, kind, options, times);
    assert(cycled_times(filters, kind, options, times + 1) == cycled(before, kind, options));
    let n = options.len() as int;
    let start = next_place(filters.shown_value(kind), options);
    lemma_position_of(options, filters.shown_value(kind));
    if times == 0 {
        assert(0 <= start < n) by {
            vstd::arithmetic::div_mod::lemma_mod_bound(
                position_of(options, filters.shown_value(kind)) + 1,
                n,
            );
        }
        vstd::arithmetic::div_mod::lemma_small_mod(start as nat, n as nat);
    } else {
        let k = (times - 1) as nat;
        law_cycling_visits_the_options_in_turn(filters, kind, options, k);
        let at = (start + k) % n;
        vstd::arithmetic::div_mod::lemma_mod_bound(start + k, n);
        lemma_next_place(options, at);
        vstd::arithmetic::div_mod::lemma_add_mod_noop(start + k, 1, n);
        vstd::arithmetic::div_mod::lemma_add_mod_noop(at, 1, n);
        vstd::arithmetic::div_mod::lemma_mod_twice(start + k, n);
        assert((at + 1) % n == (start + times) % n);
        assert(options[at].len() > 0);
    }
}

/// From an option, as many steps as there are options come back to it.
pub proof fn law_cycling_comes_back(
    filters: FiltersView,
    kind: FilterKind,
    options: Seq<Seq<char>>,
    i: int,
)
    requires
        proper_options(options),
        filters.active != Some(kind),
        0 <= i < options.len(),
        filters.shown_value(kind) == options[i],
    ensures
        cycled_times(filters, kind, options, options.len()).shown_value(kind) == options[i],
{
    let n = options.len() as int;
    let k = (n - 1) as nat;
    law_cycling_visits_the_options_in_turn(filters, kind, options, k);
    lemma_next_place(options, i);
    vstd::arithmetic::div_mod::lemma_add_mod_noop(i + 1, k as int, n);
    vstd::arithmetic::div_mod::lemma_add_mod_noop((i + 1) % n, k as int, n);
    vstd::arithmetic::div_mod::lemma_mod_twice(i + 1, n);
    vstd::arithmetic::div_mod::lemma_mod_add_multiples_vanish(i, n);
    vstd::arithmetic::div_mod::lemma_small_mod(i as nat, n as nat);
    assert((next_place(options[i], options) + k) % n == i);
}

/// Over as many steps as there are options, each option comes exactly once, from whatever the
/// filter shows.
pub proof fn law_cycling_visits_each_option_once(
    filters: FiltersView,
    kind: FilterKind,
    options: Seq<Seq<char>>,
    i: int,
)
    requires
        proper_options(options),
        filters.active != Some(kind),
        0 <= i < options.len(),
    ensures
        exists|k: nat|
            1 <= k <= options.len() && #[trigger] cycled_times(
                filters,
                kind,
                options,
                k,
            ).shown_value(kind) == options[i],
        forall|k: nat, l: nat|
            1 <= k < l <= options.len() ==> #[trigger] cycled_times(
                filters,
                kind,
                options,
                k,
            ).shown_value(kind) != #[trigger] cycled_times(filters, kind, options, l).shown_value(
                kind,
            ),
{
    let n = options.len() as int;
    let current = filters.shown_value(kind);
    let start = next_place(current, options);
    lemma_position_of(options, current);
    vstd::arithmetic::div_mod::lemma_mod_bound(position_of(options, current) + 1, n);
    let back = if i >= start {
        i - start
    } else {
        i - start + n
    };
    law_cycling_visits_the_options_in_turn(filters, kind, options, back as nat);
    lemma_place_after(start, back, n);
    assert(cycled_times(filters, kind, options, (back + 1) as nat).shown_value(kind) == options[i]);
    assert forall|k: nat, l: nat| 1 <= k < l <= options.len() implies #[trigger] cycled_times(
        filters,
        kind,
        options,
        k,
    ).shown_value(kind) != #[trigger] cycled_times(filters, kind, options, l).shown_value(kind) by {
        law_cycling_visits_the_options_in_turn(filters, kind, options, (k - 1) as nat);
        law_cycling_visits_the_options_in_turn(filters, kind, options, (l - 1) as nat);
        lemma_place_after(start, k - 1, n);
        lemma_place_after(start, l - 1, n);
    }
}

/// A remainder of a sum of two numbers that are smaller than the divisor.
proof fn lemma_place_after(start: int, steps: int, n: int)
    requires
        0 <= start < n,
        0 <= steps < n,
    ensures
        (start + steps) % n == if start + steps < n {
            start + steps
        } else {
            start + steps - n
        },
{
    if start + steps < n {
        vstd::arithmetic::div_mod::lemma_small_mod((start + steps) as nat, n as nat);
    } else {
        vstd::arithmetic::div_mod::lemma_mod_add_multiples_vanish(start + steps - n, n);
        vstd::arithmetic::div_mod::lemma_small_mod((start + steps - n) as nat, n as nat);
    }
}

/// Moving a filter on leaves the other filters and the editing as they are.
pub proof fn law_cycling_changes_one_filter(
    filters: FiltersView,
    kind: FilterKind,
    options: Seq<Seq<char>>,
)
    ensures
        cycled(filters, kind, options) == filters.with_value(
            kind,
            cycled(filters, kind, options).set_value(kind),
        ),
{
}

/// Whether ASCII letters are capital or small makes no difference to what a filter lets through.
pub proof fn law_ascii_case_makes_no_difference(
    value: Seq<char>,
    other_value: Seq<char>,
    filter: Seq<char>,
    other_filter: Seq<char>,
)
    requires
        same_but_ascii_case(value, other_value),
        same_but_ascii_case(filter, other_filter),
    ensures
        lets_ascii_through(value, filter) == lets_ascii_through(other_value, other_filter),
{
    assert(ascii_lowercase(value) =~= ascii_lowercase(other_value));
    assert(ascii_lowercase(filter) =~= ascii_lowercase(other_filter));
}

/// The filters of which one alone is set.
pub open spec fn only(kind: FilterKind, value: Seq<char>) -> FiltersView {
    FiltersView::empty().with_value(kind, value)
}

/// A ticket gets through all filters exactly if it gets through each of them alone.
pub proof fn law_each_filter_counts(ticket: TicketView, filters: FiltersView)
    ensures
        passes(ticket, filters) <==> {
            &&& passes(ticket, only(FilterKind::Search, filters.search))
            &&& passes(ticket, only(FilterKind::Project, filters.project))
            &&& passes(ticket, only(FilterKind::Status, filters.status))
            &&& passes(ticket, only(FilterKind::Priority, filters.priority))
        },
        passes_in_ascii(ticket, filters) <==> {
            &&& passes_in_ascii(ticket, only(FilterKind::Search, filters.search))
            &&& passes_in_ascii(ticket, only(FilterKind::Project, filters.project))
            &&& passes_in_ascii(ticket, only(FilterKind::Status, filters.status))
            &&& passes_in_ascii(ticket, only(FilterKind::Priority, filters.priority))
        },
{
}

/// Each filter looks for its value, in small letters, in what it is about: the project before the
/// dash of the key, the name of the status, the name of the priority, and the key, the summary and
/// the whole description together. An empty filter lets every ticket through.
pub proof fn law_what_each_filter_looks_at(ticket: TicketView, value: Seq<char>)
    ensures
        value.len() == 0 ==> passes(ticket, only(FilterKind::Search, value)) && passes(
            ticket,
            only(FilterKind::Project, value),
        ) && passes(ticket, only(FilterKind::Status, value)) && passes(
            ticket,
            only(FilterKind::Priority, value),
        ),
        value.len() > 0 ==> {
            &&& passes(ticket, only(FilterKind::Project, value)) <==> has_part(
                lowercase_of(before(ticket.key, '-')),
                lowercase_of(value),
            )
            &&& passes(ticket, only(FilterKind::Status, value)) <==> has_part(
                lowercase_of(ticket.fields.status.name),
                lowercase_of(value),
            )
            &&& passes(ticket, only(FilterKind::Priority, value)) <==> has_part(
                lowercase_of(
                    match ticket.fields.priority {
                        Some(name) => name,
                        None => seq!['N', 'o', 'n', 'e'],
                    },
                ),
                lowercase_of(value),
            )
            &&& passes(ticket, only(FilterKind::Search, value)) <==> has_part(
                lowercase_of(
                    ticket.key + seq![' '] + ticket.fields.summary + seq![' '] + description_of(
                        ticket,
                    ),
                ),
                lowercase_of(value),
            )
        },
{
    reveal_strlit("None");
    reveal_strlit(" ");
    assert("None"@ =~= seq!['N', 'o', 'n', 'e']);
    assert(" "@ =~= seq![' ']);
}

/// Every piece of the key, of the summary and of the whole description is a piece of what the
/// search looks at.
pub proof fn law_the_search_looks_at_all_of_a_ticket(ticket: TicketView, piece: Seq<char>)
    ensures
        has_part(search_text(ticket), ticket.key),
        has_part(search_text(ticket), ticket.fields.summary),
        has_part(search_text(ticket), description_of(ticket)),
        has_part(ticket.key, piece) || has_part(ticket.fields.summary, piece) || has_part(
            description_of(ticket),
            piece,
        ) ==> has_part(search_text(ticket), piece),
{
    let text = search_text(ticket);
    let key = ticket.key;
    let summary = ticket.fields.summary;
    let description = description_of(ticket);
    let none = Seq::<char>::empty();
    assert(text =~= none + key + (" "@ + summary + " "@ + description));
    law_parts(none, key, " "@ + summary + " "@ + description, text);
    assert(text =~= (key + " "@) + summary + (" "@ + description));
    law_parts(key + " "@, summary, " "@ + description, text);
    assert(text =~= (key + " "@ + summary + " "@) + description + none);
    law_parts(key + " "@ + summary + " "@, description, none, text);
    if has_part(key, piece) {
        law_parts_of_parts(text, key, piece);
    }
    if has_part(summary, piece) {
        law_parts_of_parts(text, summary, piece);
    }
    if has_part(description, piece) {
        law_parts_of_parts(text, description, piece);
    }
}

/// A piece of a text in small letters is the piece of the text, in small letters.
proof fn lemma_lowercase_part(whole: Seq<char>, part: Seq<char>)
    requires
        has_part(whole, part),
    ensures
        has_part(ascii_lowercase(whole), ascii_lowercase(part)),
{
    let at = choose|at: int| stands_at(whole, part, at);
    assert forall|i: int| 0 <= i < part.len() implies whole[at + i] == part[i] by {
        assert(whole.subrange(at, at + part.len())[i] == part[i]);
    }
    assert(ascii_lowercase(whole).subrange(at, at + part.len()) =~= ascii_lowercase(part));
    assert(stands_at(ascii_lowercase(whole), ascii_lowercase(part), at));
}

/// An ASCII filter lets an ASCII value through exactly if it is empty or the value holds it, but
/// for the case of the letters.
pub proof fn law_what_a_filter_finds(value: Seq<char>, filter: Seq<char>)
    ensures
        lets_ascii_through(value, filter) <==> filter.len() == 0 || exists|piece: Seq<char>|
            #[trigger] has_part(value, piece) && same_but_ascii_case(piece, filter),
{
    if filter.len() > 0 && lets_ascii_through(value, filter) {
        let lower = ascii_lowercase(value);
        let at = choose|at: int| stands_at(lower, ascii_lowercase(filter), at);
        let piece = value.subrange(at, at + filter.len());
        assert(ascii_lowercase(piece) =~= lower.subrange(at, at + filter.len()));
        law_same_but_ascii_case(piece, filter);
        assert(stands_at(value, piece, at));
        assert(has_part(value, piece));
    }
    if exists|piece: Seq<char>| #[trigger]
        has_part(value, piece) && same_but_ascii_case(piece, filter) {
        let piece = choose|piece: Seq<char>| #[trigger]
            has_part(value, piece) && same_but_ascii_case(piece, filter);
        lemma_lowercase_part(value, piece);
        law_same_but_ascii_case(piece, filter);
    }
}

/// A ticket whose key, summary or whole description holds the search, but for the case of ASCII
/// letters, gets through where no other filter is set.
pub proof fn law_what_holds_the_search_is_shown(
    ticket: TicketView,
    piece: Seq<char>,
    search: Seq<char>,
)
    requires
        has_part(ticket.key, piece) || has_part(ticket.fields.summary, piece) || has_part(
            description_of(ticket),
            piece,
        ),
        same_but_ascii_case(piece, search),
    ensures
        passes_in_ascii(ticket, only(FilterKind::Search, search)),
{
    law_the_search_looks_at_all_of_a_ticket(ticket, piece);
    assert(has_part(search_text(ticket), piece) && same_but_ascii_case(piece, search));
    law_what_a_filter_finds(search_text(ticket), search);
}

/// Where all is ASCII, each filter finds what it is about, but for the case of the letters.
pub proof fn law_what_each_filter_finds_in_ascii(ticket: TicketView, value: Seq<char>)
    ensures
        passes_in_ascii(ticket, only(FilterKind::Project, value)) <==> lets_ascii_through(
            before(ticket.key, '-'),
            value,
        ),
        passes_in_ascii(ticket, only(FilterKind::Status, value)) <==> lets_ascii_through(
            ticket.fields.status.name,
            value,
        ),
        passes_in_ascii(ticket, only(FilterKind::Priority, value)) <==> lets_ascii_through(
            match ticket.fields.priority {
                Some(name) => name,
                None => seq!['N', 'o', 'n', 'e'],
            },
            value,
        ),
        passes_in_ascii(ticket, only(FilterKind::Search, value)) <==> lets_ascii_through(
            ticket.key + seq![' '] + ticket.fields.summary + seq![' '] + description_of(ticket),
            value,
        ),
{
    reveal_strlit("None");
    reveal_strlit(" ");
    assert("None"@ =~= seq!['N', 'o', 'n', 'e']);
    assert(" "@ =~= seq![' ']);
}

/// A ticket alone is shown or not as it passes, and of two lists what is shown of the first comes
/// before what is shown of the second.
pub proof fn law_filtering_goes_ticket_by_ticket(
    first: Seq<TicketView>,
    others: Seq<TicketView>,
    ticket: TicketView,
    filters: FiltersView,
)
    ensures
        filtered(seq![], filters) == Seq::<TicketView>::empty(),
        passes(ticket, filters) ==> filtered(seq![ticket], filters) == seq![ticket],
        !passes(ticket, filters) ==> filtered(seq![ticket], filters) == Seq::<TicketView>::empty(),
        filtered(first + others, filters) == filtered(first, filters) + filtered(others, filters),
    decreases others.len(),
{
    reveal(Seq::filter);
    let none = Seq::<TicketView>::empty();
    assert(filtered(none, filters) =~= none);
    assert(seq![ticket].drop_last() =~= none);
    assert(seq![ticket].last() == ticket);
    assert(passes(ticket, filters) ==> filtered(seq![ticket], filters) =~= seq![ticket]);
    let all = first + others;
    if others.len() == 0 {
        assert(all =~= first);
        assert(filtered(all, filters) =~= filtered(first, filters) + filtered(others, filters));
    } else {
        law_filtering_goes_ticket_by_ticket(first, others.drop_last(), ticket, filters);
        assert(all.drop_last() =~= first + others.drop_last());
        assert(all.last() == others.last());
        assert(filtered(all, filters) =~= filtered(first, filters) + filtered(others, filters));
    }
}

/// Each filter has a value of its own, and setting one changes no other and no editing.
pub proof fn law_filters_are_set_one_by_one(filters: FiltersView, value: Seq<char>)
    ensures
        filters.with_value(FilterKind::Search, value) == (FiltersView { search: value, ..filters }),
        filters.with_value(FilterKind::Project, value) == (FiltersView {
            project: value,
            ..filters
        }),
        filters.with_value(FilterKind::Status, value) == (FiltersView { status: value, ..filters }),
        filters.with_value(FilterKind::Priority, value) == (FiltersView {
            priority: value,
            ..filters
        }),
        filters.set_value(FilterKind::Search) == filters.search,
        filters.set_value(FilterKind::Project) == filters.project,
        filters.set_value(FilterKind::Status) == filters.status,
        filters.set_value(FilterKind::Priority) == filters.priority,
        FiltersView::empty().search.len() == 0,
        FiltersView::empty().project.len() == 0,
        FiltersView::empty().status.len() == 0,
        FiltersView::empty().priority.len() == 0,
        FiltersView::empty().input.len() == 0,
        FiltersView::empty().active is None,
{
}

/// While a filter is edited what is typed is shown for it, and for the others what they are set to.
pub proof fn law_what_is_shown_for_a_filter(filters: FiltersView, kind: FilterKind)
    ensures
        filters.active == Some(kind) ==> filters.shown_value(kind) == filters.input,
        filters.active != Some(kind) ==> filters.shown_value(kind) == filters.set_value(kind),
        filters.begun(kind).active == Some(kind),
        filters.begun(kind).input == filters.set_value(kind),
        filters.begun(kind).search == filters.search,
        filters.begun(kind).project == filters.project,
        filters.begun(kind).status == filters.status,
        filters.begun(kind).priority == filters.priority,
        filters.committed().active is None,
        filters.committed().input.len() == 0,
        filters.active is None ==> filters.committed().search == filters.search
            && filters.committed().project == filters.project && filters.committed().status
            == filters.status && filters.committed().priority == filters.priority,
{
}

/// From a value that is an option a filter goes on to the one after the place where the value first
/// stands, and from the last one to the first; from an empty value and from one that is no option
/// to the first; and where there are no options it stays.
pub proof fn law_one_step_of_cycling(
    filters: FiltersView,
    kind: FilterKind,
    options: Seq<Seq<char>>,
    i: int,
)
    ensures
        ({
            let current = filters.shown_value(kind);
            let next = cycled(filters, kind, options);
            &&& options.len() == 0 ==> next == filters
            &&& options.len() > 0 && (current.len() == 0 || !options.contains(current))
                ==> next.set_value(kind) == options[0]
            &&& 0 <= i < options.len() && current.len() > 0 && options[i] == current && (forall|
                j: int,
            |
                0 <= j < i ==> #[trigger] options[j] != current) ==> next.set_value(kind)
                == if i + 1 < options.len() {
                options[i + 1]
            } else {
                options[0]
            }
            &&& next.active == filters.active
            &&& next.input == filters.input
            &&& kind != FilterKind::Search ==> next.search == filters.search
            &&& kind != FilterKind::Project ==> next.project == filters.project
            &&& kind != FilterKind::Status ==> next.status == filters.status
            &&& kind != FilterKind::Priority ==> next.priority == filters.priority
        }),
{
    let current = filters.shown_value(kind);
    let position = position_of(options, current);
    lemma_position_of(options, current);
    let n = options.len() as int;
    if position < n {
        assert(options.contains(options[position]));
        if position + 1 < n {
            vstd::arithmetic::div_mod::lemma_small_mod((position + 1) as nat, n as nat);
        } else {
            vstd::arithmetic::div_mod::lemma_mod_self_0(n);
        }
    }
    if 0 <= i < n && options[i] == current && (forall|j: int| 0 <= j < i ==> #[trigger] options[j]
        != current) {
        assert(options.contains(options[i]));
        if position < i {
            assert(options[position] != current);
        }
        assert(position == i);
    }
}

/// The view of filters shows each of them, and the editing.
pub proof fn law_filters_are_their_view(filters: Filters)
    ensures
        filters@.search == filters.search@,
        filters@.project == filters.project@,
        filters@.status == filters.status@,
        filters@.priority == filters.priority@,
        filters@.active == filters.active,
        filters@.input == filters.input@,
{
}

/// A ticket whose key, summary, description, status and priority are ASCII is ASCII in all that the
/// filters look at.
pub proof fn law_ascii_tickets(ticket: TicketView)
    requires
        is_ascii_chars(ticket.key),
        is_ascii_chars(ticket.fields.summary),
        is_ascii_chars(description_of(ticket)),
        is_ascii_chars(ticket.fields.status.name),
        ticket.fields.priority matches Some(name) ==> is_ascii_chars(name),
    ensures
        ascii_ticket(ticket),
{
    reveal_strlit("None");
    reveal_strlit(" ");
    law_before(ticket.key, '-');
    let project = project_of(ticket);
    assert forall|i: int| 0 <= i < project.len() implies #[trigger] project[i] == ticket.key[i] by {}
    assert(is_ascii_chars(project));
}

} // verus!
