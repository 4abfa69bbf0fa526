//! The dock: two rows about the first ticket.

use vstd::prelude::*;
use vstd::utf8::{decode_utf8, encode_utf8, is_ascii_chars_encode_utf8, valid_utf8};

use crate::environment::{Environment, BIN_PATH};
use crate::host::{command, plain_command, CommandOutput, CommandView, HostCommand};
use crate::jira::{pairs_view, Pair, PairView};
use crate::json::{parsed_json, EntryView, JsonView};
use crate::text::{bytes_less, from_utf8_lossy, lossy_text, text_less, trim, trimmed};
use crate::ticket::{Ticket, TicketView};

verus! {

/// The name that the dock is known by.
pub const DOCK_ID: &'static str = "jira-ticket";

/// What rows hold.
pub open spec fn rows_view(rows: Seq<Vec<Pair>>) -> Seq<Seq<PairView>> {
    rows.map_values(|row: Vec<Pair>| pairs_view(row@))
}

/// The compact JSON text of an array of objects, each with the pairs of a row.
pub uninterp spec fn rows_json(rows: Seq<Seq<PairView>>) -> Seq<char>;

/// The document that rows are.
pub open spec fn rows_document(rows: Seq<Seq<PairView>>) -> JsonView {
    JsonView::Array(
        rows.map_values(
            |row: Seq<PairView>|
                JsonView::Object(
                    row.map_values(
                        |pair: PairView|
                            EntryView { key: pair.name, value: JsonView::Text(pair.value) },
                    ),
                ),
        ),
    )
}

/// Whether the names in each row come in ascending order.
pub open spec fn names_ascend(rows: Seq<Seq<PairView>>) -> bool {
    forall|r: int, i: int, j: int|
        0 <= r < rows.len() && 0 <= i < j < rows[r].len() ==> text_less(
            (#[trigger] rows[r][i]).name,
            (#[trigger] rows[r][j]).name,
        )
}

/// Whether a text is read as the document that rows are.
pub open spec fn reads_as(text: Seq<char>, rows: Seq<Seq<PairView>>) -> bool {
    parsed_json(encode_utf8(text)) == Ok::<JsonView, Seq<char>>(rows_document(rows))
}

/// `serde_json::Value`'s `to_string` of an array of objects that hold strings, collected with
/// its `FromIterator`. It is claimed that the text depends on the rows alone, and that
/// `serde_json::from_slice` reads it as those rows where the names in each row ascend, which is
/// the order of the crate's map.
#[verifier::external_body]
fn rows_text(rows: Vec<Vec<Pair>>) -> (r: String)
    ensures
        r@ == rows_json(rows_view(rows@)),
        names_ascend(rows_view(rows@)) ==> reads_as(r@, rows_view(rows@)),
{
    let list: serde_json::Value = rows
        .into_iter()
        .map(|row| row.into_iter().map(|pair| (pair.name, pair.value)).collect::<serde_json::Value>())
        .collect();
    list.to_string()
}

/// What the dock shows of a ticket.
pub open spec fn rows_for(ticket: TicketView) -> Seq<Seq<PairView>> {
    seq![
        seq![
            PairView { name: "action"@, value: "open"@ },
            PairView { name: "text"@, value: ticket.key + ": "@ + ticket.fields.summary },
            PairView { name: "tone"@, value: "accent"@ },
        ],
        seq![
            PairView {
                name: "text"@,
                value: ticket.fields.status.name + " · "@ + ticket.fields.issuetype,
            },
            PairView { name: "tone"@, value: "normal"@ },
        ],
    ]
}

fn named(name: &str, value: String) -> (r: Pair)
    ensures
        r@ == (PairView { name: name@, value: value@ }),
{
    Pair { name: name.to_owned(), value }
}

/// What the dock shows: the first of the tickets, or that there is none.
pub fn dock_rows(tickets: &[Ticket]) -> (r: Result<Vec<Vec<Pair>>, String>)
    ensures
        tickets@.len() > 0 ==> (r matches Ok(rows) && rows_view(rows@) == rows_for(tickets@[0]@)),
        tickets@.len() == 0 ==> (r matches Err(message) && message@
            == "No Jira tickets matched the JQL"@),
{
    if tickets.is_empty() {
        return Err("No Jira tickets matched the JQL".to_owned());
    }
    let ticket = &tickets[0];
    let mut title = ticket.key.clone();
    title.append(": ");
    title.append(ticket.fields.summary.as_str());
    let mut state = ticket.fields.status.name.clone();
    state.append(" · ");
    state.append(ticket.fields.issuetype.name.as_str());
    let mut first: Vec<Pair> = Vec::new();
    first.push(named("action", "open".to_owned()));
    first.push(named("text", title));
    first.push(named("tone", "accent".to_owned()));
    let mut second: Vec<Pair> = Vec::new();
    second.push(named("text", state));
    second.push(named("tone", "normal".to_owned()));
    let mut rows: Vec<Vec<Pair>> = Vec::new();
    assert(pairs_view(first@) =~= rows_for(ticket@)[0]);
    assert(pairs_view(second@) =~= rows_for(ticket@)[1]);
    rows.push(first);
    rows.push(second);
    assert(rows_view(rows@) =~= rows_for(ticket@));
    Ok(rows)
}

/// The command that puts rows into the dock.
pub open spec fn publish_command(bin: Seq<char>, text: Seq<char>) -> CommandView {
    plain_command(
        bin,
        seq!["ui"@, "dock"@, "push"@, "--id"@, DOCK_ID@, "--rows"@, text],
    )
}

/// The command that puts rows into the dock, given their JSON text.
pub fn push_command(bin: &str, text: &str) -> (r: HostCommand)
    ensures
        r@ == publish_command(bin@, text@),
{
    let r = command(bin, &["ui", "dock", "push", "--id", DOCK_ID, "--rows", text]);
    assert(r@.args =~= publish_command(bin@, text@).args);
    r
}

/// The command that puts rows into the dock, or that the host's program is not known.
pub fn publish(environment: &Environment, rows: Vec<Vec<Pair>>) -> (r: Result<HostCommand, String>)
    ensures
        match environment.value_of(BIN_PATH@) {
            Some(bin) => r matches Ok(next) && next@ == publish_command(
                bin,
                rows_json(rows_view(rows@)),
            ),
            None => r matches Err(message) && message@ == "Missing LUVUS_BIN_PATH"@,
        },
        r is Ok && names_ascend(rows_view(rows@)) ==> reads_as(
            rows_json(rows_view(rows@)),
            rows_view(rows@),
        ),
{
    let bin = match environment.var(BIN_PATH) {
        Some(bin) => bin,
        None => {
            return Err("Missing LUVUS_BIN_PATH".to_owned());
        },
    };
    Ok(push_command(bin.as_str(), rows_text(rows).as_str()))
}

/// Whether the rows came into the dock, or why not: the command could not be run, or what it
/// wrote to its error output.
pub fn published(outcome: Result<CommandOutput, String>) -> (r: Result<(), String>)
    ensures
        match outcome {
            Ok(output) => if output.success {
                r is Ok
            } else {
                &&& r matches Err(message) && message@ == trimmed(lossy_text(output.stderr@))
                &&& valid_utf8(output.stderr@) ==> lossy_text(output.stderr@) == decode_utf8(
                    output.stderr@,
                )
            },
            Err(cause) => r matches Err(message) && message@ == cause@,
        },
{
    match outcome {
        Ok(output) => if output.success {
            Ok(())
        } else {
            Err(trim(from_utf8_lossy(output.stderr.as_slice()).as_str()))
        },
        Err(cause) => Err(cause),
    }
}

/// The names in the rows about a ticket come in ascending order.
pub proof fn lemma_ticket_rows_ascend(ticket: TicketView)
    ensures
        names_ascend(rows_for(ticket)),
{
    reveal_strlit("action");
    reveal_strlit("text");
    reveal_strlit("tone");
    is_ascii_chars_encode_utf8("action"@);
    is_ascii_chars_encode_utf8("text"@);
    is_ascii_chars_encode_utf8("tone"@);
    let action = encode_utf8("action"@);
    let text = encode_utf8("text"@);
    let tone = encode_utf8("tone"@);
    assert("action"@[0] as u8 == action[0]);
    assert("text"@[0] as u8 == text[0]);
    assert("text"@[1] as u8 == text[1]);
    assert("tone"@[0] as u8 == tone[0]);
    assert("tone"@[1] as u8 == tone[1]);
    assert(text_less("action"@, "text"@));
    assert(text_less("action"@, "tone"@));
    assert(bytes_less(text.drop_first(), tone.drop_first()));
    assert(text_less("text"@, "tone"@));
}

/// What is done to show the first of the tickets in the dock, or why nothing can be: the tickets
/// could not be had, there are none, or the host's program is not known.
pub fn run_dock(environment: &Environment, fetched: Result<Vec<Ticket>, String>) -> (r: Result<
    HostCommand,
    String,
>)
    ensures
        match fetched {
            Err(cause) => r matches Err(message) && message@ == cause@,
            Ok(tickets) => if tickets@.len() == 0 {
                r matches Err(message) && message@ == "No Jira tickets matched the JQL"@
            } else {
                match environment.value_of(BIN_PATH@) {
                    None => r matches Err(message) && message@ == "Missing LUVUS_BIN_PATH"@,
                    Some(bin) => {
                        let rows = rows_for(tickets@[0]@);
                        &&& r matches Ok(next) && next@ == publish_command(bin, rows_json(rows))
                        &&& reads_as(rows_json(rows), rows)
                    },
                }
            },
        },
{
    let tickets = match fetched {
        Ok(tickets) => tickets,
        Err(cause) => {
            return Err(cause);
        },
    };
    match dock_rows(tickets.as_slice()) {
        Ok(rows) => {
            proof {
                lemma_ticket_rows_ascend(tickets@[0]@);
            }
            publish(environment, rows)
        },
        Err(message) => Err(message),
    }
}

/// The dock shows a ticket by its key and summary, and by its status and type; the first row opens
/// the board.
pub proof fn law_what_the_dock_shows(ticket: TicketView)
    ensures
        rows_for(ticket).len() == 2,
        rows_for(ticket)[0].len() == 3,
        rows_for(ticket)[0][0].name == "action"@,
        rows_for(ticket)[0][0].value == "open"@,
        rows_for(ticket)[0][1].name == "text"@,
        rows_for(ticket)[0][1].value == ticket.key + ": "@ + ticket.fields.summary,
        rows_for(ticket)[0][2].name == "tone"@,
        rows_for(ticket)[0][2].value == "accent"@,
        rows_for(ticket)[1].len() == 2,
        rows_for(ticket)[1][0].name == "text"@,
        rows_for(ticket)[1][0].value == ticket.fields.status.name + " · "@
            + ticket.fields.issuetype,
        rows_for(ticket)[1][1].name == "tone"@,
        rows_for(ticket)[1][1].value == "normal"@,
{
}

/// The rows are pushed into the dock of this module, as the last argument.
pub proof fn law_how_rows_are_pushed(bin: Seq<char>, text: Seq<char>)
    ensures
        publish_command(bin, text).program == bin,
        publish_command(bin, text).args =~= seq![
            "ui"@,
            "dock"@,
            "push"@,
            "--id"@,
            "jira-ticket"@,
            "--rows"@,
            text,
        ],
        publish_command(bin, text).env_remove.len() == 0,
{
}

/// The view of rows shows each pair at its place, and so does the document that they are.
pub proof fn law_rows_are_their_view(
    rows: Seq<Vec<Pair>>,
    views: Seq<Seq<PairView>>,
    r: int,
    i: int,
)
    ensures
        rows_view(rows).len() == rows.len(),
        0 <= r < rows.len() ==> rows_view(rows)[r].len() == rows[r]@.len(),
        0 <= r < rows.len() && 0 <= i < rows[r]@.len() ==> rows_view(rows)[r][i].name
            == rows[r]@[i].name@ && rows_view(rows)[r][i].value == rows[r]@[i].value@,
        rows_document(views) matches JsonView::Array(list) && list.len() == views.len() && (0 <= r
            < views.len() ==> (list[r] matches JsonView::Object(entries) && entries.len()
            == views[r].len() && (0 <= i < views[r].len() ==> entries[i].key == views[r][i].name
            && entries[i].value == JsonView::Text(views[r][i].value)))),
{
}

} // verus!
