//! What the board shows.

use vstd::prelude::*;

use crate::board::{ActionView, Board, BoardView, Event, Key};
use crate::filters::{FilterKind, FiltersView};
use crate::options::{priority_of, ticket_priority};
use crate::text::{begins_with, law_beginnings, lines, lines_of, starts_with, texts};
use crate::ticket::{
    attachments_of, color_of, description_of, status_color, ticket_attachments,
    ticket_description, Color, StatusValue, StatusView, Ticket, TicketView,
};

verus! {

/// A piece of a line in one style.
#[derive(Debug, PartialEq, Eq)]
pub struct Span {
    pub text: String,
    pub bold: bool,
    pub color: Option<Color>,
}

/// What a [`Span`] holds.
#[verifier::ext_equal]
pub struct SpanView {
    pub text: Seq<char>,
    pub bold: bool,
    pub color: Option<Color>,
}

impl View for Span {
    type V = SpanView;

    open spec fn view(&self) -> SpanView {
        SpanView { text: self.text@, bold: self.bold, color: self.color }
    }
}

/// What a line holds.
pub open spec fn line_view(line: Seq<Span>) -> Seq<SpanView> {
    line.map_values(|span: Span| span@)
}

/// What lines hold.
pub open spec fn lines_view(lines: Seq<Vec<Span>>) -> Seq<Seq<SpanView>> {
    lines.map_values(|line: Vec<Span>| line_view(line@))
}

/// A piece in the style of the text around it.
pub open spec fn raw(text: Seq<char>) -> SpanView {
    SpanView { text, bold: false, color: None }
}

/// A piece in bold.
pub open spec fn label(text: Seq<char>) -> SpanView {
    SpanView { text, bold: true, color: None }
}

/// A piece in a colour.
pub open spec fn colored(text: Seq<char>, color: Color) -> SpanView {
    SpanView { text, bold: false, color: Some(color) }
}

/// A piece in bold and in a colour.
pub open spec fn bright(text: Seq<char>, color: Color) -> SpanView {
    SpanView { text, bold: true, color: Some(color) }
}

fn span(text: &str, bold: bool, color: Option<Color>) -> (r: Span)
    ensures
        r@ == (SpanView { text: text@, bold, color }),
{
    Span { text: text.to_owned(), bold, color }
}

/// A line for each text.
pub open spec fn raw_lines(list: Seq<Seq<char>>) -> Seq<Seq<SpanView>> {
    list.map_values(|text: Seq<char>| seq![raw(text)])
}

/// The colour of the words at the foot: green where they begin with one of two phrases, else red.
/// Of what the board says, a status change that was made begins so, and nothing else does: that a
/// ticket was handed over is told in red too.
pub open spec fn notice_color_of(notice: Seq<char>) -> Color {
    if begins_with(notice, "Status switched"@) || begins_with(notice, "Started agent"@) {
        Color::Green
    } else {
        Color::Red
    }
}

/// The colour of the words at the foot.
pub fn notice_color(notice: &str) -> (r: Color)
    ensures
        r == notice_color_of(notice@),
{
    if starts_with(notice, "Status switched") || starts_with(notice, "Started agent") {
        Color::Green
    } else {
        Color::Red
    }
}

/// The lines about a ticket up to its description.
pub open spec fn head_lines(ticket: TicketView) -> Seq<Seq<SpanView>> {
    seq![
        seq![label(ticket.key + ": "@ + ticket.fields.summary)],
        seq![],
        seq![
            label("Status: "@),
            colored(ticket.fields.status.name, color_of(ticket.fields.status)),
        ],
        seq![label("Type: "@), raw(ticket.fields.issuetype)],
        seq![label("Priority: "@), raw(priority_of(ticket))],
        seq![],
        seq![label("Description"@)],
    ]
}

/// What can be done with a ticket.
pub open spec fn action_line() -> Seq<SpanView> {
    seq![
        bright("[t] Switch status"@, Color::Yellow),
        raw("  "@),
        bright("[w] Work this ticket"@, Color::Yellow),
        raw("  "@),
        bright("[o] Open in browser"@, Color::Yellow),
        raw("  [Esc] Back"@),
    ]
}

/// The question whether to make a status change.
pub open spec fn confirm_line(status: StatusView) -> Seq<SpanView> {
    seq![
        colored("Confirm status change to "@, Color::Yellow),
        bright(status.name, color_of(status)),
        colored("? [Enter] confirm  [Esc] cancel  [↑/↓] choose"@, Color::Yellow),
    ]
}

/// The question about the status change that is picked out, while one is chosen.
pub open spec fn confirm_lines(board: BoardView) -> Seq<Seq<SpanView>> {
    match board.pending {
        Some(list) => if 0 <= board.transition_index < list.len() {
            seq![confirm_line(list[board.transition_index].to)]
        } else {
            seq![]
        },
        None => seq![],
    }
}

/// The words at the foot, where there are some.
pub open spec fn notice_lines(notice: Seq<char>) -> Seq<Seq<SpanView>> {
    if notice.len() > 0 {
        seq![seq![colored(notice, notice_color_of(notice))]]
    } else {
        seq![]
    }
}

/// All that is shown about a ticket.
pub open spec fn ticket_lines(board: BoardView, ticket: TicketView) -> Seq<Seq<SpanView>> {
    head_lines(ticket) + raw_lines(lines_of(description_of(ticket))) + seq![
        seq![],
        seq![label("Attachments"@)],
    ] + raw_lines(lines_of(attachments_of(ticket))) + seq![seq![], action_line()] + confirm_lines(
        board,
    ) + notice_lines(board.notice)
}

/// What the place for details shows: nothing where no ticket is selected.
pub open spec fn details_of(board: BoardView) -> Option<Seq<Seq<SpanView>>> {
    match board.selected_ticket() {
        Some(ticket) => if board.detail {
            Some(ticket_lines(board, ticket))
        } else {
            Some(seq![seq![raw("Select a ticket and press Enter for details."@)]])
        },
        None => None,
    }
}

/// The line that shows the filters.
pub open spec fn filters_line(filters: FiltersView) -> Seq<char> {
    " Project [ "@ + filters.shown_value(FilterKind::Project) + " ]   Status [ "@
        + filters.shown_value(FilterKind::Status) + " ]   Priority [ "@ + filters.shown_value(
        FilterKind::Priority,
    ) + " ]   (p/s/y: select, x: clear, r: refresh)"@
}

/// What the list shows of a ticket.
pub open spec fn item_of(ticket: TicketView) -> Seq<char> {
    ticket.key + "  "@ + ticket.fields.summary
}

fn push_line(lines: &mut Vec<Vec<Span>>, line: Vec<Span>)
    ensures
        lines_view(final(lines)@) == lines_view(old(lines)@).push(line_view(line@)),
{
    lines.push(line);
    assert(lines_view(lines@) =~= lines_view(old(lines)@).push(line_view(line@)));
}

fn line1(a: Span) -> (r: Vec<Span>)
    ensures
        line_view(r@) == seq![a@],
{
    let mut line: Vec<Span> = Vec::new();
    line.push(a);
    assert(line_view(line@) =~= seq![a@]);
    line
}

fn line2(a: Span, b: Span) -> (r: Vec<Span>)
    ensures
        line_view(r@) == seq![a@, b@],
{
    let mut line: Vec<Span> = Vec::new();
    line.push(a);
    line.push(b);
    assert(line_view(line@) =~= seq![a@, b@]);
    line
}

fn blank() -> (r: Vec<Span>)
    ensures
        line_view(r@) == Seq::<SpanView>::empty(),
{
    let line: Vec<Span> = Vec::new();
    assert(line_view(line@) =~= Seq::<SpanView>::empty());
    line
}

fn head(ticket: &Ticket) -> (r: Vec<Vec<Span>>)
    ensures
        lines_view(r@) == head_lines(ticket@),
{
    let mut title = ticket.key.clone();
    title.append(": ");
    title.append(ticket.fields.summary.as_str());
    let status = &ticket.fields.status;
    let priority = ticket_priority(ticket);
    let mut out: Vec<Vec<Span>> = Vec::new();
    assert(lines_view(out@) =~= seq![]);
    push_line(&mut out, line1(span(title.as_str(), true, None)));
    push_line(&mut out, blank());
    push_line(
        &mut out,
        line2(
            span("Status: ", true, None),
            span(status.name.as_str(), false, Some(status_color(status))),
        ),
    );
    push_line(
        &mut out,
        line2(
            span("Type: ", true, None),
            span(ticket.fields.issuetype.name.as_str(), false, None),
        ),
    );
    push_line(
        &mut out,
        line2(span("Priority: ", true, None), span(priority.as_str(), false, None)),
    );
    push_line(&mut out, blank());
    push_line(&mut out, line1(span("Description", true, None)));
    assert(lines_view(out@) =~= head_lines(ticket@));
    out
}

fn push_text(out: &mut Vec<Vec<Span>>, text: &str)
    ensures
        lines_view(final(out)@) == lines_view(old(out)@) + raw_lines(lines_of(text@)),
{
    let list = lines(text);
    let ghost all = texts(list@);
    let ghost before = lines_view(out@);
    let mut i: usize = 0;
    assert(lines_view(out@) =~= before + raw_lines(all.take(0)));
    while i < list.len()
        invariant
            i <= list@.len(),
            all == texts(list@),
            lines_view(out@) == before + raw_lines(all.take(i as int)),
        decreases list@.len() - i,
    {
        push_line(out, line1(span(list[i].as_str(), false, None)));
        assert(raw_lines(all.take(i + 1)) =~= raw_lines(all.take(i as int)).push(
            seq![raw(all[i as int])],
        ));
        assert(lines_view(out@) =~= before + raw_lines(all.take(i + 1)));
        i += 1;
    }
    assert(all.take(i as int) =~= all);
}

fn actions() -> (r: Vec<Span>)
    ensures
        line_view(r@) == action_line(),
{
    let mut line: Vec<Span> = Vec::new();
    line.push(span("[t] Switch status", true, Some(Color::Yellow)));
    line.push(span("  ", false, None));
    line.push(span("[w] Work this ticket", true, Some(Color::Yellow)));
    line.push(span("  ", false, None));
    line.push(span("[o] Open in browser", true, Some(Color::Yellow)));
    line.push(span("  [Esc] Back", false, None));
    assert(line_view(line@) =~= action_line());
    line
}

fn confirmation(status: &StatusValue) -> (r: Vec<Span>)
    ensures
        line_view(r@) == confirm_line(status@),
{
    let mut line: Vec<Span> = Vec::new();
    line.push(span("Confirm status change to ", false, Some(Color::Yellow)));
    line.push(span(status.name.as_str(), true, Some(status_color(status))));
    line.push(
        span("? [Enter] confirm  [Esc] cancel  [↑/↓] choose", false, Some(Color::Yellow)),
    );
    assert(line_view(line@) =~= confirm_line(status@));
    line
}

impl Board {
    /// The line that shows the filters.
    pub fn filters_text(&self) -> (r: String)
        ensures
            r@ == filters_line(self@.filters),
    {
        let mut text = " Project [ ".to_owned();
        text.append(self.filters.value(FilterKind::Project));
        text.append(" ]   Status [ ");
        text.append(self.filters.value(FilterKind::Status));
        text.append(" ]   Priority [ ");
        text.append(self.filters.value(FilterKind::Priority));
        text.append(" ]   (p/s/y: select, x: clear, r: refresh)");
        text
    }

    /// What the list shows: an item for each ticket.
    pub fn items(&self) -> (r: Vec<String>)
        ensures
            texts(r@) == self@.tickets.map_values(|ticket: TicketView| item_of(ticket)),
    {
        let mut out: Vec<String> = Vec::new();
        let mut i: usize = 0;
        while i < self.tickets.len()
            invariant
                i <= self.tickets@.len(),
                out@.len() == i,
                forall|j: int| 0 <= j < i ==> #[trigger] out@[j]@ == item_of(self.tickets@[j]@),
            decreases self.tickets@.len() - i,
        {
            let mut item = self.tickets[i].key.clone();
            item.append("  ");
            item.append(self.tickets[i].fields.summary.as_str());
            out.push(item);
            i += 1;
        }
        assert(texts(out@) =~= self@.tickets.map_values(|ticket: TicketView| item_of(ticket)));
        out
    }

    /// The item that is marked, if there is one.
    pub fn selection(&self) -> (r: Option<usize>)
        ensures
            r is Some <==> self@.selected_ticket() is Some,
            r matches Some(i) ==> i == self@.selected,
    {
        if self.selected < self.tickets.len() {
            Some(self.selected)
        } else {
            None
        }
    }

    /// All that is shown about a ticket.
    fn lines_about(&self, ticket: &Ticket) -> (r: Vec<Vec<Span>>)
        ensures
            lines_view(r@) == ticket_lines(self@, ticket@),
    {
        let mut out = head(ticket);
        push_text(&mut out, ticket_description(ticket).as_str());
        let ghost described = lines_view(out@);
        push_line(&mut out, blank());
        push_line(&mut out, line1(span("Attachments", true, None)));
        assert(lines_view(out@) =~= described + seq![seq![], seq![label("Attachments"@)]]);
        push_text(&mut out, ticket_attachments(ticket).as_str());
        let ghost attached = lines_view(out@);
        push_line(&mut out, blank());
        push_line(&mut out, actions());
        assert(lines_view(out@) =~= attached + seq![seq![], action_line()]);
        let ghost acted = lines_view(out@);
        if let Some(list) = &self.pending_transitions {
            if self.transition_index < list.len() {
                push_line(&mut out, confirmation(&list[self.transition_index].to));
            }
        }
        assert(lines_view(out@) =~= acted + confirm_lines(self@));
        let ghost asked = lines_view(out@);
        if !self.notice.as_str().is_empty() {
            let color = notice_color(self.notice.as_str());
            push_line(&mut out, line1(span(self.notice.as_str(), false, Some(color))));
        }
        assert(lines_view(out@) =~= asked + notice_lines(self@.notice));
        out
    }

    /// What the place for details shows: nothing where no ticket is selected.
    pub fn details(&self) -> (r: Option<Vec<Vec<Span>>>)
        ensures
            r is Some <==> details_of(self@) is Some,
            r matches Some(list) ==> details_of(self@) == Some(lines_view(list@)),
    {
        if self.selected >= self.tickets.len() {
            return None;
        }
        if self.detail {
            return Some(self.lines_about(&self.tickets[self.selected]));
        }
        let mut out: Vec<Vec<Span>> = Vec::new();
        assert(lines_view(out@) =~= seq![]);
        push_line(
            &mut out,
            line1(span("Select a ticket and press Enter for details.", false, None)),
        );
        assert(lines_view(out@) =~= seq![
            seq![raw("Select a ticket and press Enter for details."@)],
        ]);
        Some(out)
    }
}

/// The status change that the details ask about is the one that `Enter` makes.
pub proof fn law_what_is_asked_is_what_enter_does(board: BoardView)
    requires
        board.valid(),
        board.pending is Some,
        board.detail,
    ensures
        board.step(Event::Key(Key::Enter)).1 matches ActionView::ApplyTransition(ticket, transition)
            && details_of(board) == Some(ticket_lines(board, ticket)) && confirm_lines(board)
            == seq![confirm_line(transition.to)] && ticket_lines(board, ticket).contains(
            confirm_line(transition.to),
        ),
{
    let ticket = board.tickets[board.selected];
    let transition = board.pending->0[board.transition_index];
    let before = ticket_lines(BoardView { pending: None, notice: seq![], ..board }, ticket);
    let all = ticket_lines(board, ticket);
    assert(all =~= before + seq![confirm_line(transition.to)] + notice_lines(board.notice));
    assert(all[before.len() as int] == confirm_line(transition.to));
}

/// A status change or a handing over that failed is told in red.
pub proof fn law_failures_are_told_in_red(error: Seq<char>)
    ensures
        notice_color_of("Status switch failed: "@ + error) == Color::Red,
        notice_color_of("Work handoff failed: "@ + error) == Color::Red,
{
    reveal_strlit("Status switch failed: ");
    reveal_strlit("Work handoff failed: ");
    reveal_strlit("Status switched");
    reveal_strlit("Started agent");
    let a = "Status switch failed: "@ + error;
    let b = "Work handoff failed: "@ + error;
    assert(a[13] == ' ');
    assert("Status switched"@[13] == 'e');
    assert(a[5] == 's');
    assert("Started agent"@[5] == 'e');
    assert(b[0] == 'W');
    assert("Status switched"@[0] == 'S');
    assert("Started agent"@[0] == 'S');
}

/// That a ticket was handed over is told in red, and so is that it has no status change to make.
pub proof fn law_a_handing_over_is_told_in_red(key: Seq<char>)
    ensures
        notice_color_of("Started worktree agent for "@ + key) == Color::Red,
        notice_color_of("No status transition is available"@) == Color::Red,
{
    reveal_strlit("Started worktree agent for ");
    reveal_strlit("No status transition is available");
    reveal_strlit("Status switched");
    reveal_strlit("Started agent");
    let notice = "Started worktree agent for "@ + key;
    assert(notice[8] == 'w');
    assert("Started agent"@[8] == 'a');
    assert(notice[3] == 'r');
    assert("Status switched"@[3] == 't');
    assert("No status transition is available"@[0] == 'N');
    assert("Status switched"@[0] == 'S');
    assert("Started agent"@[0] == 'S');
}

/// A status change that is made is told in green.
pub proof fn law_a_status_change_is_told_in_green(name: Seq<char>)
    ensures
        notice_color_of("Status switched to "@ + name) == Color::Green,
{
    reveal_strlit("Status switched to ");
    reveal_strlit("Status switched");
    let notice = "Status switched to "@ + name;
    assert("Status switched"@ =~= notice.take("Status switched"@.len() as int));
}

/// The details tell all about a ticket, line by line: its key and summary, its status in the
/// status's colour, its type and its priority, every line of its description, every line of its
/// attachments, what can be done, the status change that is picked while one is chosen, and what
/// was said last.
pub proof fn law_what_the_details_tell(board: BoardView, ticket: TicketView, i: int)
    requires
        board.selected_ticket() == Some(ticket),
        board.detail,
    ensures
        ({
            let described = lines_of(description_of(ticket));
            let attached = lines_of(attachments_of(ticket));
            let d = described.len() as int;
            let a = attached.len() as int;
            let asked = board.pending matches Some(list) && 0 <= board.transition_index
                < list.len();
            let said = board.notice.len() > 0;
            &&& details_of(board) matches Some(lines)
            &&& lines.len() == 11 + d + a + (if asked {
                1int
            } else {
                0
            }) + (if said {
                1int
            } else {
                0
            })
            &&& lines[0] == seq![
                SpanView {
                    text: ticket.key + ": "@ + ticket.fields.summary,
                    bold: true,
                    color: None,
                },
            ]
            &&& lines[1].len() == 0
            &&& lines[2] == seq![
                SpanView { text: "Status: "@, bold: true, color: None },
                SpanView {
                    text: ticket.fields.status.name,
                    bold: false,
                    color: Some(color_of(ticket.fields.status)),
                },
            ]
            &&& lines[3] == seq![
                SpanView { text: "Type: "@, bold: true, color: None },
                SpanView { text: ticket.fields.issuetype, bold: false, color: None },
            ]
            &&& lines[4] == seq![
                SpanView { text: "Priority: "@, bold: true, color: None },
                SpanView { text: priority_of(ticket), bold: false, color: None },
            ]
            &&& lines[5].len() == 0
            &&& lines[6] == seq![SpanView { text: "Description"@, bold: true, color: None }]
            &&& 0 <= i < d ==> lines[7 + i] == seq![
                SpanView { text: described[i], bold: false, color: None },
            ]
            &&& lines[7 + d].len() == 0
            &&& lines[8 + d] == seq![SpanView { text: "Attachments"@, bold: true, color: None }]
            &&& 0 <= i < a ==> lines[9 + d + i] == seq![
                SpanView { text: attached[i], bold: false, color: None },
            ]
            &&& lines[9 + d + a].len() == 0
            &&& lines[10 + d + a] == seq![
                SpanView {
                    text: "[t] Switch status"@,
                    bold: true,
                    color: Some(Color::Yellow),
                },
                SpanView { text: "  "@, bold: false, color: None },
                SpanView {
                    text: "[w] Work this ticket"@,
                    bold: true,
                    color: Some(Color::Yellow),
                },
                SpanView { text: "  "@, bold: false, color: None },
                SpanView {
                    text: "[o] Open in browser"@,
                    bold: true,
                    color: Some(Color::Yellow),
                },
                SpanView { text: "  [Esc] Back"@, bold: false, color: None },
            ]
            &&& asked ==> lines[11 + d + a] == seq![
                SpanView {
                    text: "Confirm status change to "@,
                    bold: false,
                    color: Some(Color::Yellow),
                },
                SpanView {
                    text: board.pending->0[board.transition_index].to.name,
                    bold: true,
                    color: Some(color_of(board.pending->0[board.transition_index].to)),
                },
                SpanView {
                    text: "? [Enter] confirm  [Esc] cancel  [↑/↓] choose"@,
                    bold: false,
                    color: Some(Color::Yellow),
                },
            ]
            &&& said ==> lines.last() == seq![
                SpanView {
                    text: board.notice,
                    bold: false,
                    color: Some(notice_color_of(board.notice)),
                },
            ]
        }),
{
    let described = raw_lines(lines_of(description_of(ticket)));
    let attached = raw_lines(lines_of(attachments_of(ticket)));
    let first = head_lines(ticket);
    let middle = seq![Seq::<SpanView>::empty(), seq![label("Attachments"@)]];
    let foot = seq![Seq::<SpanView>::empty(), action_line()];
    assert(ticket_lines(board, ticket) == first + described + middle + attached + foot
        + confirm_lines(board) + notice_lines(board.notice));
}

/// With the details hidden there is a hint in their place, and without a ticket there is nothing.
pub proof fn law_what_stands_for_the_details(board: BoardView)
    ensures
        board.selected_ticket() is None ==> details_of(board) is None,
        board.selected_ticket() is Some && !board.detail ==> details_of(board) == Some(
            seq![
                seq![
                    SpanView {
                        text: "Select a ticket and press Enter for details."@,
                        bold: false,
                        color: None,
                    },
                ],
            ],
        ),
{
}

/// The line of the filters shows what each of them shows, behind its name.
pub proof fn law_what_the_filters_line_shows(filters: FiltersView)
    ensures
        filters_line(filters) == " Project [ "@ + filters.shown_value(FilterKind::Project)
            + " ]   Status [ "@ + filters.shown_value(FilterKind::Status) + " ]   Priority [ "@
            + filters.shown_value(FilterKind::Priority)
            + " ]   (p/s/y: select, x: clear, r: refresh)"@,
{
}

/// The list shows a ticket by its key and its summary, with two spaces between them.
pub proof fn law_what_the_list_shows(ticket: TicketView)
    ensures
        begins_with(item_of(ticket), ticket.key),
        item_of(ticket) == ticket.key + seq![' ', ' '] + ticket.fields.summary,
{
    reveal_strlit("  ");
    assert("  "@ =~= seq![' ', ' ']);
    assert(item_of(ticket) =~= ticket.key + (seq![' ', ' '] + ticket.fields.summary));
    law_beginnings(item_of(ticket), ticket.key, seq![' ', ' '] + ticket.fields.summary);
}

/// What is said is green exactly if it begins with one of two phrases.
pub proof fn law_the_colour_of_what_is_said(rest: Seq<char>, notice: Seq<char>)
    ensures
        notice_color_of("Status switched"@ + rest) == Color::Green,
        notice_color_of("Started agent"@ + rest) == Color::Green,
        notice_color_of(notice) == Color::Green || notice_color_of(notice) == Color::Red,
        notice_color_of(notice) == Color::Green ==> "Status switched"@.is_prefix_of(notice)
            || "Started agent"@.is_prefix_of(notice),
{
    law_beginnings(notice, "Status switched"@, rest);
    law_beginnings(notice, "Started agent"@, rest);
}

/// The view of lines shows each piece at its place.
pub proof fn law_lines_are_their_view(lines: Seq<Vec<Span>>, l: int, i: int)
    ensures
        lines_view(lines).len() == lines.len(),
        0 <= l < lines.len() ==> lines_view(lines)[l].len() == lines[l]@.len(),
        0 <= l < lines.len() && 0 <= i < lines[l]@.len() ==> lines_view(lines)[l][i].text
            == lines[l]@[i].text@ && lines_view(lines)[l][i].bold == lines[l]@[i].bold
            && lines_view(lines)[l][i].color == lines[l]@[i].color,
{
}

} // verus!
