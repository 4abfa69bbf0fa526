//! The values that a filter can be set to.

use vstd::prelude::*;

use crate::text::{
    ascii_lowercase, before, eq_ignore_ascii_case, law_before, law_same_but_ascii_case, lemma_text_less_irreflexive, lemma_text_less_total,
    lemma_text_less_transitive, less, same_but_ascii_case, split_first, str_eq, text_less, texts,
};
use crate::ticket::{Ticket, TicketView};

verus! {

/// Whether each text comes before the next.
pub open spec fn ascending(list: Seq<Seq<char>>) -> bool {
    forall|i: int, j: int|
        0 <= i < j < list.len() ==> text_less(#[trigger] list[i], #[trigger] list[j])
}

/// Whether two lists hold the same texts, however often and in whatever order.
pub open spec fn same_members(a: Seq<Seq<char>>, b: Seq<Seq<char>>) -> bool {
    forall|s: Seq<char>| #[trigger] a.contains(s) <==> b.contains(s)
}

/// The texts of a list, each once, in ascending order.
pub open spec fn unique_list(list: Seq<Seq<char>>) -> Seq<Seq<char>> {
    choose|r: Seq<Seq<char>>| ascending(r) && same_members(r, list)
}

/// Two ascending lists with the same members are the same list.
pub proof fn law_ascending_list_is_determined(a: Seq<Seq<char>>, b: Seq<Seq<char>>)
    requires
        ascending(a),
        ascending(b),
        same_members(a, b),
    ensures
        a == b,
    decreases a.len(),
{
    if a.len() == 0 {
        if b.len() > 0 {
            assert(b.contains(b[0]));
            assert(a.contains(b[0]));
        }
        assert(a =~= b);
    } else {
        assert(a.contains(a[0]));
        assert(b.contains(a[0]));
        let j = choose|j: int| 0 <= j < b.len() && b[j] == a[0];
        assert(b.contains(b[0]));
        assert(a.contains(b[0]));
        let k = choose|k: int| 0 <= k < a.len() && a[k] == b[0];
        if j > 0 {
            assert(text_less(b[0], b[j]));
            if k > 0 {
                assert(text_less(a[0], a[k]));
                lemma_text_less_transitive(a[0], b[0], a[0]);
            }
            lemma_text_less_irreflexive(a[0]);
        }
        assert(a[0] == b[0]);
        let x = a.drop_first();
        let y = b.drop_first();
        assert forall|s: Seq<char>| #[trigger] x.contains(s) <==> y.contains(s) by {
            if x.contains(s) {
                let m = choose|m: int| 0 <= m < x.len() && x[m] == s;
                assert(a[m + 1] == s);
                assert(a.contains(s));
                assert(b.contains(s));
                let n = choose|n: int| 0 <= n < b.len() && b[n] == s;
                if n == 0 {
                    assert(text_less(a[0], a[m + 1]));
                    lemma_text_less_irreflexive(s);
                }
                assert(y[n - 1] == s);
            }
            if y.contains(s) {
                let m = choose|m: int| 0 <= m < y.len() && y[m] == s;
                assert(b[m + 1] == s);
                assert(b.contains(s));
                assert(a.contains(s));
                let n = choose|n: int| 0 <= n < a.len() && a[n] == s;
                if n == 0 {
                    assert(text_less(b[0], b[m + 1]));
                    lemma_text_less_irreflexive(s);
                }
                assert(x[n - 1] == s);
            }
        }
        assert(ascending(x));
        assert(ascending(y));
        law_ascending_list_is_determined(x, y);
        assert(a =~= seq![a[0]] + x);
        assert(b =~= seq![b[0]] + y);
    }
}

/// An ascending list with the members of a list is the list of its unique texts.
pub proof fn lemma_unique_list(list: Seq<Seq<char>>, r: Seq<Seq<char>>)
    requires
        ascending(r),
        same_members(r, list),
    ensures
        r == unique_list(list),
{
    let u = unique_list(list);
    assert(ascending(u) && same_members(u, list));
    assert forall|s: Seq<char>| #[trigger] r.contains(s) <==> u.contains(s) by {
        assert(u.contains(s) <==> list.contains(s));
    }
    law_ascending_list_is_determined(r, u);
}

/// A text put in between the texts before it and the texts after it keeps a list ascending.
proof fn lemma_insert(list: Seq<Seq<char>>, i: int, v: Seq<char>)
    requires
        ascending(list),
        0 <= i <= list.len(),
        forall|j: int| 0 <= j < i ==> text_less(#[trigger] list[j], v),
        i < list.len() ==> list[i] != v && !text_less(list[i], v),
    ensures
        ascending(list.insert(i, v)),
        forall|s: Seq<char>| #[trigger]
            list.insert(i, v).contains(s) <==> list.contains(s) || s == v,
{
    assert forall|j: int| i <= j < list.len() implies text_less(v, #[trigger] list[j]) by {
        lemma_text_less_total(list[i], v);
        if j > i {
            lemma_text_less_transitive(v, list[i], list[j]);
        }
    }
    let longer = list.insert(i, v);
    assert forall|s: Seq<char>| #[trigger] longer.contains(s) <==> list.contains(s) || s == v by {
        if list.contains(s) {
            let j = choose|j: int| 0 <= j < list.len() && list[j] == s;
            if j < i {
                assert(longer[j] == s);
            } else {
                assert(longer[j + 1] == s);
            }
        }
        if s == v {
            assert(longer[i] == s);
        }
        if longer.contains(s) {
            let j = choose|j: int| 0 <= j < longer.len() && longer[j] == s;
            if j < i {
                assert(list[j] == s);
            } else if j > i {
                assert(list[j - 1] == s);
            }
        }
    }
}

/// The place of a text in an ascending list.
proof fn lemma_place(list: Seq<Seq<char>>, v: Seq<char>) -> (i: int)
    requires
        ascending(list),
    ensures
        0 <= i <= list.len(),
        forall|j: int| 0 <= j < i ==> text_less(#[trigger] list[j], v),
        i < list.len() ==> !text_less(list[i], v),
    decreases list.len(),
{
    if list.len() == 0 {
        0
    } else if text_less(list.last(), v) {
        assert forall|j: int| 0 <= j < list.len() implies text_less(#[trigger] list[j], v) by {
            if j < list.len() - 1 {
                lemma_text_less_transitive(list[j], list.last(), v);
            }
        }
        list.len() as int
    } else {
        let rest = list.drop_last();
        assert(ascending(rest));
        let i = lemma_place(rest, v);
        assert forall|j: int| 0 <= j < i implies text_less(#[trigger] list[j], v) by {
            assert(rest[j] == list[j]);
        }
        i
    }
}

/// The list of unique texts is ascending and has the members of the list that it is made from.
pub proof fn law_unique_list(list: Seq<Seq<char>>)
    ensures
        ascending(unique_list(list)),
        same_members(unique_list(list), list),
    decreases list.len(),
{
    if list.len() == 0 {
        assert(ascending(list) && same_members(list, list));
    } else {
        let rest = list.drop_last();
        let v = list.last();
        law_unique_list(rest);
        let shorter = unique_list(rest);
        let i = lemma_place(shorter, v);
        let r = if i < shorter.len() && shorter[i] == v {
            shorter
        } else {
            lemma_insert(shorter, i, v);
            shorter.insert(i, v)
        };
        assert forall|s: Seq<char>| #[trigger] r.contains(s) <==> list.contains(s) by {
            assert(r.contains(s) <==> shorter.contains(s) || s == v);
            assert(shorter.contains(s) <==> rest.contains(s));
            if rest.contains(s) {
                let j = choose|j: int| 0 <= j < rest.len() && rest[j] == s;
                assert(list[j] == s);
            }
            if s == v {
                assert(list[list.len() - 1] == s);
            }
            if list.contains(s) && s != v {
                let j = choose|j: int| 0 <= j < list.len() && list[j] == s;
                assert(rest[j] == s);
            }
        }
        assert(ascending(r) && same_members(r, list));
    }
}

/// Neither the order of a list nor how often a text occurs in it matters to its unique texts.
pub proof fn law_unique_list_depends_on_members(a: Seq<Seq<char>>, b: Seq<Seq<char>>)
    requires
        same_members(a, b),
    ensures
        unique_list(a) == unique_list(b),
{
    law_unique_list(a);
    assert forall|s: Seq<char>| #[trigger] unique_list(a).contains(s) <==> b.contains(s) by {
        assert(a.contains(s) <==> b.contains(s));
    }
    lemma_unique_list(b, unique_list(a));
}

/// The unique texts of unique texts are the same.
pub proof fn law_unique_list_is_idempotent(list: Seq<Seq<char>>)
    ensures
        unique_list(unique_list(list)) == unique_list(list),
{
    law_unique_list(list);
    law_unique_list_depends_on_members(unique_list(list), list);
}

/// Puts a text where it belongs in an ascending list, unless it is there.
fn insert_unique(list: &mut Vec<String>, value: String)
    requires
        ascending(texts(old(list)@)),
    ensures
        ascending(texts(final(list)@)),
        forall|s: Seq<char>| #[trigger]
            texts(final(list)@).contains(s) <==> texts(old(list)@).contains(s) || s == value@,
{
    let ghost old_list = texts(list@);
    let mut i: usize = 0;
    while i < list.len() && less(list[i].as_str(), value.as_str())
        invariant
            i <= list@.len(),
            old_list == texts(list@),
            forall|j: int| 0 <= j < i ==> text_less(#[trigger] old_list[j], value@),
        decreases list@.len() - i,
    {
        assert(old_list[i as int] == list@[i as int]@);
        i += 1;
    }
    if i < list.len() && str_eq(list[i].as_str(), value.as_str()) {
        assert(old_list[i as int] == value@);
        return ;
    }
    proof {
        lemma_insert(old_list, i as int, value@);
    }
    list.insert(i, value);
    assert(texts(list@) =~= old_list.insert(i as int, value@));
}

/// The values, each once, in ascending order.
pub fn unique_values(values: Vec<String>) -> (r: Vec<String>)
    ensures
        ascending(texts(r@)),
        same_members(texts(r@), texts(values@)),
        texts(r@) == unique_list(texts(values@)),
{
    let ghost all = texts(values@);
    let mut out: Vec<String> = Vec::new();
    for value in it: values
        invariant
            it.seq() == values@,
            all == texts(values@),
            ascending(texts(out@)),
            same_members(texts(out@), all.take(it.index())),
    {
        let ghost seen = all.take(it.index());
        let ghost more = all.take(it.index() + 1);
        insert_unique(&mut out, value);
        proof {
            assert(more =~= seen.push(value@));
            assert forall|s: Seq<char>| #[trigger]
                texts(out@).contains(s) <==> more.contains(s) by {
                if seen.contains(s) {
                    let j = choose|j: int| 0 <= j < seen.len() && seen[j] == s;
                    assert(more[j] == s);
                }
                if s == value@ {
                    assert(more[it.index()] == s);
                }
                if more.contains(s) {
                    let j = choose|j: int| 0 <= j < more.len() && more[j] == s;
                    if j < it.index() {
                        assert(seen[j] == s);
                    }
                }
            }
        }
    }
    proof {
        assert(all.take(all.len() as int) =~= all);
        lemma_unique_list(all, texts(out@));
    }
    out
}

/// The project that a ticket belongs to: what stands before the first dash of its key.
pub open spec fn project_of(ticket: TicketView) -> Seq<char> {
    before(ticket.key, '-')
}

/// The project that a ticket belongs to.
pub fn ticket_project(ticket: &Ticket) -> (r: String)
    ensures
        r@ == project_of(ticket@),
{
    split_first(ticket.key.as_str(), '-')
}

/// What a list of tickets holds.
pub open spec fn tickets_view(list: Seq<Ticket>) -> Seq<TicketView> {
    list.map_values(|ticket: Ticket| ticket@)
}

/// Whether a ticket belongs to a project; to the empty project all do.
pub open spec fn belongs_to(ticket: TicketView, project: Seq<char>) -> bool {
    project.len() == 0 || same_but_ascii_case(project_of(ticket), project)
}

/// The statuses of the tickets of a project, a status for each ticket.
pub open spec fn statuses_in(tickets: Seq<TicketView>, project: Seq<char>) -> Seq<Seq<char>> {
    tickets.filter(|ticket: TicketView| belongs_to(ticket, project)).map_values(
        |ticket: TicketView| ticket.fields.status.name,
    )
}

/// The statuses to choose from for a project: those that its tickets have, or the fallback where
/// it has no tickets.
pub open spec fn status_choices(
    tickets: Seq<TicketView>,
    project: Seq<char>,
    fallback: Seq<Seq<char>>,
) -> Seq<Seq<char>> {
    let found = statuses_in(tickets, project);
    if found.len() == 0 {
        fallback
    } else {
        unique_list(found)
    }
}

/// A copy of a list of strings.
pub fn clone_strings(list: &[String]) -> (r: Vec<String>)
    ensures
        texts(r@) == texts(list@),
{
    let mut out: Vec<String> = Vec::new();
    let mut i: usize = 0;
    while i < list.len()
        invariant
            i <= list@.len(),
            out@.len() == i,
            forall|j: int| 0 <= j < i ==> #[trigger] out@[j]@ == list@[j]@,
        decreases list@.len() - i,
    {
        out.push(list[i].clone());
        i += 1;
    }
    assert(texts(out@) =~= texts(list@));
    out
}

/// The statuses to choose from for a project, by the tickets at hand.
pub fn status_options(all: &[Ticket], project: &str, fallback: &[String]) -> (r: Vec<String>)
    ensures
        texts(r@) == status_choices(tickets_view(all@), project@, texts(fallback@)),
{
    let ghost views = tickets_view(all@);
    let ghost wanted = |ticket: TicketView| belongs_to(ticket, project@);
    let mut found: Vec<String> = Vec::new();
    let mut i: usize = 0;
    proof {
        reveal(Seq::filter);
        assert(texts(found@) =~= statuses_in(views.take(0), project@));
    }
    while i < all.len()
        invariant
            i <= all@.len(),
            views == tickets_view(all@),
            wanted == |ticket: TicketView| belongs_to(ticket, project@),
            texts(found@) == statuses_in(views.take(i as int), project@),
        decreases all@.len() - i,
    {
        let project_key = ticket_project(&all[i]);
        let ghost seen = texts(found@);
        if project.is_empty() || eq_ignore_ascii_case(project_key.as_str(), project) {
            found.push(all[i].fields.status.name.clone());
            assert(texts(found@) =~= seen.push(views[i as int].fields.status.name));
        }
        proof {
            reveal(Seq::filter);
            let more = views.take(i + 1);
            assert(more.drop_last() =~= views.take(i as int));
            assert(texts(found@) =~= statuses_in(more, project@));
        }
        i += 1;
    }
    assert(views.take(i as int) =~= views);
    if found.is_empty() {
        clone_strings(fallback)
    } else {
        unique_values(found)
    }
}

/// The name of a ticket's priority, `None` where it has none.
pub open spec fn priority_of(ticket: TicketView) -> Seq<char> {
    match ticket.fields.priority {
        Some(name) => name,
        None => "None"@,
    }
}

/// The name of a ticket's priority, `None` where it has none.
pub fn ticket_priority(ticket: &Ticket) -> (r: String)
    ensures
        r@ == priority_of(ticket@),
{
    match &ticket.fields.priority {
        Some(value) => value.name.clone(),
        None => "None".to_owned(),
    }
}

/// What was fetched, or what the tickets at hand tell where nothing could be.
pub open spec fn fetched_or(
    fetched: Result<Vec<String>, String>,
    from_tickets: Seq<Seq<char>>,
) -> Seq<Seq<char>> {
    match fetched {
        Ok(list) => texts(list@),
        Err(_) => unique_list(from_tickets),
    }
}

/// What the values to choose from are taken from in a ticket.
#[derive(Clone, Copy, PartialEq, Eq, Structural)]
enum Column {
    Project,
    Status,
    Priority,
}

/// What a ticket has in a column.
spec fn column_of(ticket: TicketView, column: Column) -> Seq<char> {
    match column {
        Column::Project => project_of(ticket),
        Column::Status => ticket.fields.status.name,
        Column::Priority => priority_of(ticket),
    }
}

/// What was fetched, or what the tickets at hand have in a column where nothing could be.
fn fetched_or_gathered(
    fetched: Result<Vec<String>, String>,
    all: &[Ticket],
    column: Column,
) -> (r: Vec<String>)
    ensures
        texts(r@) == fetched_or(
            fetched,
            tickets_view(all@).map_values(|ticket: TicketView| column_of(ticket, column)),
        ),
{
    if let Ok(list) = fetched {
        return list;
    }
    let mut found: Vec<String> = Vec::new();
    let mut i: usize = 0;
    while i < all.len()
        invariant
            i <= all@.len(),
            found@.len() == i,
            forall|j: int| 0 <= j < i ==> #[trigger] found@[j]@ == column_of(all@[j]@, column),
        decreases all@.len() - i,
    {
        found.push(
            match column {
                Column::Project => ticket_project(&all[i]),
                Column::Status => all[i].fields.status.name.clone(),
                Column::Priority => ticket_priority(&all[i]),
            },
        );
        i += 1;
    }
    assert(texts(found@) =~= tickets_view(all@).map_values(
        |ticket: TicketView| column_of(ticket, column),
    ));
    unique_values(found)
}

/// The projects to choose from: those that Jira lists, or those of the tickets at hand.
pub fn project_options(fetched: Result<Vec<String>, String>, all: &[Ticket]) -> (r: Vec<String>)
    ensures
        texts(r@) == fetched_or(
            fetched,
            tickets_view(all@).map_values(|ticket: TicketView| project_of(ticket)),
        ),
{
    assert(tickets_view(all@).map_values(|ticket: TicketView| column_of(ticket, Column::Project))
        =~= tickets_view(all@).map_values(|ticket: TicketView| project_of(ticket)));
    fetched_or_gathered(fetched, all, Column::Project)
}

/// The statuses to choose from: those that Jira lists, or those of the tickets at hand.
pub fn status_names(fetched: Result<Vec<String>, String>, all: &[Ticket]) -> (r: Vec<String>)
    ensures
        texts(r@) == fetched_or(
            fetched,
            tickets_view(all@).map_values(|ticket: TicketView| ticket.fields.status.name),
        ),
{
    assert(tickets_view(all@).map_values(|ticket: TicketView| column_of(ticket, Column::Status))
        =~= tickets_view(all@).map_values(|ticket: TicketView| ticket.fields.status.name));
    fetched_or_gathered(fetched, all, Column::Status)
}

/// The priorities to choose from: those that Jira lists, or those of the tickets at hand.
pub fn priority_options(fetched: Result<Vec<String>, String>, all: &[Ticket]) -> (r: Vec<String>)
    ensures
        texts(r@) == fetched_or(
            fetched,
            tickets_view(all@).map_values(|ticket: TicketView| priority_of(ticket)),
        ),
{
    assert(tickets_view(all@).map_values(|ticket: TicketView| column_of(ticket, Column::Priority))
        =~= tickets_view(all@).map_values(|ticket: TicketView| priority_of(ticket)));
    fetched_or_gathered(fetched, all, Column::Priority)
}

/// The statuses to choose from for a project that has tickets are those that they have.
pub proof fn law_status_choices_are_statuses_of_tickets(
    tickets: Seq<TicketView>,
    project: Seq<char>,
    fallback: Seq<Seq<char>>,
    status: Seq<char>,
)
    requires
        exists|i: int| 0 <= i < tickets.len() && belongs_to(#[trigger] tickets[i], project),
    ensures
        status_choices(tickets, project, fallback).contains(status) <==> exists|i: int|
            0 <= i < tickets.len() && belongs_to(#[trigger] tickets[i], project)
                && tickets[i].fields.status.name == status,
        ascending(status_choices(tickets, project, fallback)),
{
    let wanted = |ticket: TicketView| belongs_to(ticket, project);
    let kept = tickets.filter(wanted);
    let found = statuses_in(tickets, project);
    let some = choose|i: int| 0 <= i < tickets.len() && belongs_to(#[trigger] tickets[i], project);
    tickets.lemma_filter_contains(wanted, some);
    assert(found.len() == kept.len());
    law_unique_list(found);
    if found.contains(status) {
        let k = choose|k: int| 0 <= k < found.len() && found[k] == status;
        tickets.lemma_filter_pred(wanted, k);
        assert(kept.contains(kept[k]));
        tickets.lemma_filter_contains_rev(wanted, kept[k]);
        let i = choose|i: int| 0 <= i < tickets.len() && tickets[i] == kept[k];
        assert(belongs_to(tickets[i], project));
    }
    if exists|i: int|
        0 <= i < tickets.len() && belongs_to(#[trigger] tickets[i], project)
            && tickets[i].fields.status.name == status {
        let i = choose|i: int|
            0 <= i < tickets.len() && belongs_to(#[trigger] tickets[i], project)
                && tickets[i].fields.status.name == status;
        tickets.lemma_filter_contains(wanted, i);
        let k = choose|k: int| 0 <= k < kept.len() && kept[k] == tickets[i];
        assert(found[k] == status);
    }
}

/// Of the unique texts each comes before those that stand after it, and they are the texts of the
/// list.
pub proof fn law_unique_texts_ascend(list: Seq<Seq<char>>, i: int, j: int, text: Seq<char>)
    ensures
        0 <= i < j < unique_list(list).len() ==> text_less(
            unique_list(list)[i],
            unique_list(list)[j],
        ),
        (exists|k: int| 0 <= k < unique_list(list).len() && #[trigger] unique_list(list)[k] == text)
            <==> (exists|k: int| 0 <= k < list.len() && #[trigger] list[k] == text),
{
    law_unique_list(list);
    assert(unique_list(list).contains(text) <==> list.contains(text));
}

/// The project of a ticket holds no dash, and its key goes on with one, or ends with the project.
pub proof fn law_project_of(ticket: TicketView)
    ensures
        !project_of(ticket).contains('-'),
        ticket.key == project_of(ticket) || exists|rest: Seq<char>|
            ticket.key == #[trigger] (project_of(ticket) + seq!['-'] + rest),
{
    let key = ticket.key;
    let project = project_of(ticket);
    law_before(key, '-');
    let n = project.len() as int;
    if n < key.len() {
        assert(key =~= project + seq!['-'] + key.skip(n + 1));
    } else {
        assert(key =~= project);
    }
}

/// A ticket belongs to the empty project, and to the one before the dash of its key, capital
/// letters or small in ASCII.
pub proof fn law_belongs_to(ticket: TicketView, project: Seq<char>)
    ensures
        project.len() == 0 ==> belongs_to(ticket, project),
        project.len() > 0 ==> (belongs_to(ticket, project) <==> ascii_lowercase(project_of(ticket))
            == ascii_lowercase(project)),
        belongs_to(ticket, project_of(ticket)),
{
    law_same_but_ascii_case(project_of(ticket), project);
    law_same_but_ascii_case(project_of(ticket), project_of(ticket));
}

/// A project without tickets has the statuses of the fallback, as they are.
pub proof fn law_a_project_without_tickets_has_the_fallback(
    tickets: Seq<TicketView>,
    project: Seq<char>,
    fallback: Seq<Seq<char>>,
)
    requires
        forall|i: int| 0 <= i < tickets.len() ==> !belongs_to(#[trigger] tickets[i], project),
    ensures
        status_choices(tickets, project, fallback) == fallback,
{
    let wanted = |ticket: TicketView| belongs_to(ticket, project);
    let kept = tickets.filter(wanted);
    if kept.len() > 0 {
        tickets.lemma_filter_pred(wanted, 0);
        assert(kept.contains(kept[0]));
        tickets.lemma_filter_contains_rev(wanted, kept[0]);
        let i = choose|i: int| 0 <= i < tickets.len() && tickets[i] == kept[0];
        assert(!belongs_to(tickets[i], project));
    }
    assert(statuses_in(tickets, project).len() == kept.len());
}

/// The priority of a ticket is its name, and the word `None` where there is none.
pub proof fn law_priority_of(ticket: TicketView)
    ensures
        ticket.fields.priority matches Some(name) ==> priority_of(ticket) == name,
        ticket.fields.priority is None ==> priority_of(ticket) == seq!['N', 'o', 'n', 'e'],
{
    reveal_strlit("None");
    assert("None"@ =~= seq!['N', 'o', 'n', 'e']);
}

/// What Jira lists is taken as it is, each item at its place; else the texts of the tickets are
/// taken, each once and in ascending order.
pub proof fn law_fetched_or(
    fetched: Result<Vec<String>, String>,
    values: Seq<Seq<char>>,
    i: int,
    j: int,
    text: Seq<char>,
)
    ensures
        fetched matches Ok(list) ==> fetched_or(fetched, values).len() == list@.len() && (0 <= i
            < list@.len() ==> fetched_or(fetched, values)[i] == list@[i]@),
        fetched is Err ==> {
            let found = fetched_or(fetched, values);
            &&& 0 <= i < j < found.len() ==> text_less(found[i], found[j])
            &&& found.contains(text) <==> values.contains(text)
        },
{
    law_unique_list(values);
}

/// The views of a list of tickets are those of its tickets, each at its place.
pub proof fn law_tickets_are_their_views(list: Seq<Ticket>, i: int)
    ensures
        tickets_view(list).len() == list.len(),
        0 <= i < list.len() ==> tickets_view(list)[i] == list[i]@,
{
}

} // verus!
