//! Jira tickets, as the board holds them, and what is shown of one.

use vstd::prelude::*;
use vstd::utf8::is_ascii_chars;

use crate::json::{
    entry_of, items_of, lemma_array_view, lemma_entry_of_is_an_entry, member, text_of, EntryView,
    Json, JsonView,
};
use crate::text::{
    ascii_lowercase, begins_with, contains, has_part, is_space, join, joined, law_beginnings,
    law_joined, law_joined_lines_read_back, law_parts, law_parts_of_parts, law_trimmed, lines_of,
    lowercase_of, stands_at, str_eq, texts, to_lowercase, trim, trimmed,
};

verus! {

/// A Jira issue.
#[derive(Debug, PartialEq, Eq)]
pub struct Ticket {
    pub key: String,
    pub fields: Fields,
}

/// The fields of an issue.
#[derive(Debug, PartialEq, Eq)]
pub struct Fields {
    pub summary: String,
    pub status: StatusValue,
    pub issuetype: NamedValue,
    pub priority: Option<NamedValue>,
    pub description: Option<Json>,
    pub attachments: Option<Vec<Attachment>>,
}

/// A file that hangs on an issue.
#[derive(Debug, PartialEq, Eq)]
pub struct Attachment {
    pub filename: String,
    pub content: String,
}

/// Something that Jira names.
#[derive(Debug, PartialEq, Eq)]
pub struct NamedValue {
    pub name: String,
}

/// The status of an issue.
#[derive(Debug, PartialEq, Eq)]
pub struct StatusValue {
    pub name: String,
    pub category: Option<StatusCategory>,
}

/// The category of a status.
#[derive(Debug, PartialEq, Eq)]
pub struct StatusCategory {
    pub key: String,
}

/// A status change that Jira offers.
#[derive(Debug, PartialEq, Eq)]
pub struct Transition {
    pub id: String,
    pub to: StatusValue,
}

/// What a [`Ticket`] holds.
#[verifier::ext_equal]
pub struct TicketView {
    pub key: Seq<char>,
    pub fields: FieldsView,
}

/// What [`Fields`] hold. A name stands for the value that has it.
#[verifier::ext_equal]
pub struct FieldsView {
    pub summary: Seq<char>,
    pub status: StatusView,
    pub issuetype: Seq<char>,
    pub priority: Option<Seq<char>>,
    pub description: Option<JsonView>,
    pub attachments: Option<Seq<AttachmentView>>,
}

/// What an [`Attachment`] holds.
#[verifier::ext_equal]
pub struct AttachmentView {
    pub filename: Seq<char>,
    pub content: Seq<char>,
}

/// What a [`StatusValue`] holds: its name, and its category's key.
#[verifier::ext_equal]
pub struct StatusView {
    pub name: Seq<char>,
    pub category: Option<Seq<char>>,
}

/// What a [`Transition`] holds.
#[verifier::ext_equal]
pub struct TransitionView {
    pub id: Seq<char>,
    pub to: StatusView,
}

impl View for Ticket {
    type V = TicketView;

    open spec fn view(&self) -> TicketView {
        TicketView { key: self.key@, fields: self.fields@ }
    }
}

impl View for Fields {
    type V = FieldsView;

    open spec fn view(&self) -> FieldsView {
        FieldsView {
            summary: self.summary@,
            status: self.status@,
            issuetype: self.issuetype@,
            priority: match self.priority {
                Some(value) => Some(value@),
                None => None,
            },
            description: match self.description {
                Some(value) => Some(value@),
                None => None,
            },
            attachments: match self.attachments {
                Some(list) => Some(list@.map_values(|item: Attachment| item@)),
                None => None,
            },
        }
    }
}

impl View for Attachment {
    type V = AttachmentView;

    open spec fn view(&self) -> AttachmentView {
        AttachmentView { filename: self.filename@, content: self.content@ }
    }
}

impl View for NamedValue {
    type V = Seq<char>;

    open spec fn view(&self) -> Seq<char> {
        self.name@
    }
}

impl View for StatusValue {
    type V = StatusView;

    open spec fn view(&self) -> StatusView {
        StatusView {
            name: self.name@,
            category: match self.category {
                Some(category) => Some(category.key@),
                None => None,
            },
        }
    }
}

impl View for Transition {
    type V = TransitionView;

    open spec fn view(&self) -> TransitionView {
        TransitionView { id: self.id@, to: self.to@ }
    }
}

impl Clone for Ticket {
    fn clone(&self) -> (r: Self)
        ensures
            r@ == self@,
    {
        Ticket { key: self.key.clone(), fields: self.fields.clone() }
    }
}

impl Clone for Fields {
    fn clone(&self) -> (r: Self)
        ensures
            r@ == self@,
    {
        let description = match &self.description {
            Some(value) => Some(value.clone()),
            None => None,
        };
        let priority = match &self.priority {
            Some(value) => Some(value.clone()),
            None => None,
        };
        let attachments = match &self.attachments {
            Some(list) => Some(clone_attachments(list)),
            None => None,
        };
        Fields {
            summary: self.summary.clone(),
            status: self.status.clone(),
            issuetype: self.issuetype.clone(),
            priority,
            description,
            attachments,
        }
    }
}

fn clone_attachments(list: &Vec<Attachment>) -> (r: Vec<Attachment>)
    ensures
        r@.map_values(|item: Attachment| item@) == list@.map_values(|item: Attachment| item@),
{
    let mut out: Vec<Attachment> = Vec::new();
    let mut i: usize = 0;
    while i < list.len()
        invariant
            i <= list@.len(),
            out@.len() == i,
            forall|j: int| 0 <= j < i ==> #[trigger] out@[j]@ == list@[j]@,
        decreases list@.len() - i,
    {
        out.push(list[i].clone());
        i += 1;
    }
    out
}

impl Clone for Attachment {
    fn clone(&self) -> (r: Self)
        ensures
            r@ == self@,
    {
        Attachment { filename: self.filename.clone(), content: self.content.clone() }
    }
}

impl Clone for NamedValue {
    fn clone(&self) -> (r: Self)
        ensures
            r@ == self@,
    {
        NamedValue { name: self.name.clone() }
    }
}

impl Clone for StatusValue {
    fn clone(&self) -> (r: Self)
        ensures
            r@ == self@,
    {
        let category = match &self.category {
            Some(value) => Some(value.clone()),
            None => None,
        };
        StatusValue { name: self.name.clone(), category }
    }
}

impl Clone for StatusCategory {
    fn clone(&self) -> (r: Self)
        ensures
            r.key@ == self.key@,
    {
        StatusCategory { key: self.key.clone() }
    }
}

impl Clone for Transition {
    fn clone(&self) -> (r: Self)
        ensures
            r@ == self@,
    {
        Transition { id: self.id.clone(), to: self.to.clone() }
    }
}

/// Whether a line ends after a node of this type.
pub open spec fn ends_line(kind: Seq<char>) -> bool {
    ||| kind == "paragraph"@
    ||| kind == "heading"@
    ||| kind == "listItem"@
    ||| kind == "codeBlock"@
    ||| kind == "blockquote"@
    ||| kind == "bulletList"@
    ||| kind == "orderedList"@
}

/// The plain text of a node of Atlassian's document format. A hard break is a newline; any
/// other object is its text followed by its content, a list item led in by a dash, and a block
/// followed by a newline; a list of nodes is their texts one after the other.
pub open spec fn plain_text(node: JsonView) -> Seq<char>
    decreases node,
{
    match node {
        JsonView::Object(entries) => {
            let kind = text_of(entry_of(entries, "type"@));
            if kind == Some("hardBreak"@) {
                seq!['\n']
            } else {
                let lead = if kind == Some("listItem"@) {
                    "- "@
                } else {
                    seq![]
                };
                let own = match entry_of(entries, "text"@) {
                    Some(JsonView::Text(text)) => text,
                    _ => seq![],
                };
                let content = match entry_of(entries, "content"@) {
                    Some(JsonView::Array(items)) => {
                        proof {
                            lemma_content_is_smaller(entries);
                        }
                        plain_texts(items)
                    },
                    _ => seq![],
                };
                let end = if kind is Some && ends_line(kind->0) {
                    seq!['\n']
                } else {
                    seq![]
                };
                lead + own + content + end
            }
        },
        JsonView::Array(items) => plain_texts(items),
        _ => seq![],
    }
}

/// The plain texts of nodes, one after the other.
pub open spec fn plain_texts(nodes: Seq<JsonView>) -> Seq<char>
    decreases nodes,
{
    if nodes.len() == 0 {
        seq![]
    } else {
        plain_texts(nodes.drop_last()) + plain_text(nodes.last())
    }
}

/// The content of an object is smaller than the object.
pub proof fn lemma_content_is_smaller(entries: Seq<EntryView>)
    ensures
        entry_of(entries, "content"@) matches Some(JsonView::Array(items)) ==> decreases_to!(
            entries => items
        ),
{
    let key = "content"@;
    lemma_entry_of_is_an_entry(entries, key);
    if entry_of(entries, key) is Some {
        let value = entry_of(entries, key)->0;
        let i = choose|i: int|
            0 <= i < entries.len() && #[trigger] entries[i] == (EntryView { key, value });
        assert(decreases_to!(entries => entries[i]));
        assert(decreases_to!(entries[i] => entries[i].value));
        if value is Array {
            assert(decreases_to!(value => value->Array_0));
        }
    }
}

/// The text of an object's entry, if it is one.
fn text_entry<'a>(value: &'a Json, key: &str) -> (r: Option<&'a String>)
    ensures
        r is Some <==> text_of(member(value@, key@)) is Some,
        r matches Some(s) ==> text_of(member(value@, key@)) == Some(s@),
{
    match value.get(key) {
        Some(entry) => entry.as_str(),
        None => None,
    }
}

fn is_line_kind(kind: &str) -> (r: bool)
    ensures
        r == ends_line(kind@),
{
    str_eq(kind, "paragraph") || str_eq(kind, "heading") || str_eq(kind, "listItem") || str_eq(
        kind,
        "codeBlock",
    ) || str_eq(kind, "blockquote") || str_eq(kind, "bulletList") || str_eq(kind, "orderedList")
}

/// Appends the plain text of a node of Atlassian's document format.
pub fn description_text(value: &Json, output: &mut String)
    ensures
        final(output)@ == old(output)@ + plain_text(value@),
    decreases value@, 1int,
{
    let ghost node = value@;
    match value {
        Json::Object(_) => {
            let kind = text_entry(value, "type");
            if let Some(name) = kind {
                if str_eq(name.as_str(), "hardBreak") {
                    output.push('\n');
                    assert(output@ == old(output)@ + plain_text(node));
                    return ;
                }
                if str_eq(name.as_str(), "listItem") {
                    output.append("- ");
                }
            }
            let ghost entries = node->Object_0;
            let ghost lead = if text_of(entry_of(entries, "type"@)) == Some("listItem"@) {
                "- "@
            } else {
                seq![]
            };
            assert(output@ == old(output)@ + lead);
            let ghost own = match entry_of(entries, "text"@) {
                Some(JsonView::Text(text)) => text,
                _ => seq![],
            };
            if let Some(text) = text_entry(value, "text") {
                output.append(text.as_str());
            }
            assert(output@ == old(output)@ + lead + own);
            let ghost content = match entry_of(entries, "content"@) {
                Some(JsonView::Array(items)) => plain_texts(items),
                _ => seq![],
            };
            if let Some(inner) = value.get("content") {
                if let Json::Array(items) = inner {
                    proof {
                        lemma_array_view(*inner, *items);
                        lemma_content_is_smaller(entries);
                        assert(decreases_to!(node => node->Object_0));
                    }
                    description_texts(items, output);
                }
            }
            assert(output@ == old(output)@ + lead + own + content);
            if let Some(name) = kind {
                if is_line_kind(name.as_str()) {
                    output.push('\n');
                }
            }
            assert(output@ == old(output)@ + plain_text(node));
        },
        Json::Array(items) => {
            proof {
                lemma_array_view(*value, *items);
                assert(decreases_to!(node => node->Array_0));
            }
            description_texts(items, output);
        },
        _ => {
            assert(output@ == old(output)@ + plain_text(node));
        },
    }
}

/// Appends the plain texts of nodes, one after the other.
fn description_texts(nodes: &Vec<Json>, output: &mut String)
    ensures
        final(output)@ == old(output)@ + plain_texts(nodes@.map_values(|node: Json| node@)),
    decreases nodes@.map_values(|node: Json| node@), 0int,
{
    let ghost all = nodes@.map_values(|node: Json| node@);
    let ghost start = output@;
    let mut i: usize = 0;
    assert(output@ == start + plain_texts(all.take(0)));
    while i < nodes.len()
        invariant
            i <= nodes@.len(),
            all == nodes@.map_values(|node: Json| node@),
            output@ == start + plain_texts(all.take(i as int)),
        decreases nodes@.len() - i,
    {
        assert(decreases_to!(all => all[i as int]));
        description_text(&nodes[i], output);
        assert(all.take(i + 1).drop_last() == all.take(i as int));
        assert(all.take(i + 1).last() == nodes@[i as int]@);
        i += 1;
    }
    assert(all.take(i as int) == all);
}

/// The plain text of a ticket's description, without white space at either end.
pub open spec fn description_of(ticket: TicketView) -> Seq<char> {
    match ticket.fields.description {
        Some(description) => trimmed(plain_text(description)),
        None => seq![],
    }
}

/// The plain text of a ticket's description, without white space at either end.
pub fn ticket_description(ticket: &Ticket) -> (r: String)
    ensures
        r@ == description_of(ticket@),
{
    let mut text = String::new();
    if let Some(description) = &ticket.fields.description {
        description_text(description, &mut text);
        assert(text@ == plain_text(description@));
    }
    trim(text.as_str())
}

/// What is shown of an attachment.
pub open spec fn attachment_line(attachment: AttachmentView) -> Seq<char> {
    "- "@ + attachment.filename + ": "@ + attachment.content
}

/// What is shown of a ticket's attachments: a line for each.
pub open spec fn attachments_of(ticket: TicketView) -> Seq<char> {
    match ticket.fields.attachments {
        Some(list) => joined(list.map_values(|item: AttachmentView| attachment_line(item)), "\n"@),
        None => seq![],
    }
}

/// What is shown of a ticket's attachments: a line for each.
pub fn ticket_attachments(ticket: &Ticket) -> (r: String)
    ensures
        r@ == attachments_of(ticket@),
{
    let mut lines: Vec<String> = Vec::new();
    match &ticket.fields.attachments {
        Some(list) => {
            let mut i: usize = 0;
            while i < list.len()
                invariant
                    i <= list@.len(),
                    lines@.len() == i,
                    forall|j: int| 0 <= j < i ==> #[trigger] lines@[j]@ == attachment_line(list@[j]@),
                decreases list@.len() - i,
            {
                let mut line = "- ".to_owned();
                line.append(list[i].filename.as_str());
                line.append(": ");
                line.append(list[i].content.as_str());
                lines.push(line);
                i += 1;
            }
            assert(texts(lines@) =~= ticket@.fields.attachments->0.map_values(
                |item: AttachmentView| attachment_line(item),
            ));
        },
        None => {},
    }
    join(&lines, "\n")
}

/// A colour of the screen.
#[derive(Clone, Copy, Debug, PartialEq, Eq, Structural)]
pub enum Color {
    White,
    Cyan,
    Green,
    Yellow,
    Red,
}

/// The colour of a status category.
pub open spec fn category_color(key: Seq<char>) -> Color {
    if key == "done"@ {
        Color::Green
    } else if key == "indeterminate"@ {
        Color::Yellow
    } else if key == "new"@ {
        Color::Cyan
    } else {
        Color::White
    }
}

/// The colour of a status by the words in its name, which is given in small letters.
pub open spec fn name_color(name: Seq<char>) -> Color {
    if has_part(name, "done"@) || has_part(name, "closed"@) || has_part(name, "resolved"@) {
        Color::Green
    } else if has_part(name, "progress"@) || has_part(name, "review"@) || has_part(
        name,
        "validation"@,
    ) {
        Color::Yellow
    } else if has_part(name, "blocked"@) || has_part(name, "rejected"@) || has_part(
        name,
        "cancelled"@,
    ) {
        Color::Red
    } else if has_part(name, "to do"@) || has_part(name, "open"@) || has_part(name, "backlog"@) {
        Color::Cyan
    } else {
        Color::White
    }
}

/// The colour of a status: by its category where it has one, else by its name.
pub open spec fn color_of(status: StatusView) -> Color {
    match status.category {
        Some(key) => category_color(key),
        None => name_color(lowercase_of(status.name)),
    }
}

/// The colour in which a status is shown.
pub fn status_color(status: &StatusValue) -> (r: Color)
    ensures
        r == color_of(status@),
        status.category is None && is_ascii_chars(status.name@) ==> r == name_color(
            ascii_lowercase(status.name@),
        ),
{
    if let Some(category) = &status.category {
        let key = category.key.as_str();
        return if str_eq(key, "done") {
            Color::Green
        } else if str_eq(key, "indeterminate") {
            Color::Yellow
        } else if str_eq(key, "new") {
            Color::Cyan
        } else {
            Color::White
        };
    }
    color_by_name(to_lowercase(status.name.as_str()).as_str())
}

/// The colour of a status by the words in its name, which is given in small letters.
pub fn color_by_name(name: &str) -> (r: Color)
    ensures
        r == name_color(name@),
{
    if contains(name, "done") || contains(name, "closed") || contains(name, "resolved") {
        Color::Green
    } else if contains(name, "progress") || contains(name, "review") || contains(
        name,
        "validation",
    ) {
        Color::Yellow
    } else if contains(name, "blocked") || contains(name, "rejected") || contains(
        name,
        "cancelled",
    ) {
        Color::Red
    } else if contains(name, "to do") || contains(name, "open") || contains(name, "backlog") {
        Color::Cyan
    } else {
        Color::White
    }
}

/// The text of nodes is the text of the first ones followed by that of the others.
pub proof fn law_plain_texts_follow_each_other(first: Seq<JsonView>, others: Seq<JsonView>)
    ensures
        plain_texts(first + others) == plain_texts(first) + plain_texts(others),
    decreases others.len(),
{
    let all = first + others;
    if others.len() == 0 {
        assert(all =~= first);
        assert(plain_texts(all) =~= plain_texts(first) + plain_texts(others));
    } else {
        law_plain_texts_follow_each_other(first, others.drop_last());
        assert(all.drop_last() =~= first + others.drop_last());
        assert(all.last() == others.last());
        assert(plain_texts(all) =~= plain_texts(first) + plain_texts(others));
    }
}

/// A ticket's description begins and ends with no white space.
pub proof fn law_description_is_trimmed(ticket: TicketView)
    ensures
        trimmed(description_of(ticket)) == description_of(ticket),
{
    match ticket.fields.description {
        Some(description) => law_trimmed(plain_text(description)),
        None => {},
    }
}

/// Each attachment has a line of its own, in their order, where no name and no content holds a
/// newline and no content ends in a carriage return.
pub proof fn law_attachments_have_a_line_each(ticket: TicketView, list: Seq<AttachmentView>)
    requires
        ticket.fields.attachments == Some(list),
        forall|i: int|
            0 <= i < list.len() ==> !(#[trigger] list[i]).filename.contains('\n')
                && !list[i].content.contains('\n') && !(list[i].content.len() > 0
                && list[i].content.last() == '\r'),
    ensures
        lines_of(attachments_of(ticket)) == list.map_values(
            |item: AttachmentView| attachment_line(item),
        ),
{
    let shown = list.map_values(|item: AttachmentView| attachment_line(item));
    reveal_strlit("- ");
    reveal_strlit(": ");
    reveal_strlit("\n");
    assert("\n"@ =~= seq!['\n']);
    assert forall|i: int| 0 <= i < shown.len() implies !(#[trigger] shown[i]).contains('\n')
        && shown[i].len() > 0 && shown[i].last() != '\r' by {
        let item = list[i];
        let line = shown[i];
        assert(line == "- "@ + item.filename + ": "@ + item.content);
        if line.contains('\n') {
            let j = choose|j: int| 0 <= j < line.len() && line[j] == '\n';
            let n = item.filename.len() as int;
            if j < 2 {
                assert(line[j] == "- "@[j]);
            } else if j < 2 + n {
                assert(item.filename[j - 2] == '\n');
            } else if j < 4 + n {
                assert(line[j] == ": "@[j - 2 - n]);
            } else {
                assert(item.content[j - 4 - n] == '\n');
            }
        }
        if item.content.len() > 0 {
            assert(line.last() == item.content.last());
        } else {
            assert(line.last() == ": "@[1]);
        }
    }
    assert forall|i: int, j: int|
        0 <= i < shown.len() && 0 <= j < shown[i].len() implies #[trigger] shown[i][j] != '\n' by {
        assert(!shown[i].contains('\n'));
    }
    law_joined_lines_read_back(shown);
}

/// Where a status has a category, its name does not matter to its colour.
pub proof fn law_the_category_decides_the_colour(a: StatusView, b: StatusView)
    requires
        a.category is Some,
        a.category == b.category,
    ensures
        color_of(a) == color_of(b),
{
}

/// The type of a node, where it has one.
pub open spec fn type_of(entries: Seq<EntryView>) -> Option<Seq<char>> {
    text_of(member(JsonView::Object(entries), "type"@))
}

/// The node that a way leads to: through a list, and through the content of a node that is no
/// hard break, each time to the item at the next place.
pub open spec fn node_at(document: JsonView, way: Seq<int>) -> Option<JsonView>
    decreases way.len(),
{
    let inner = match document {
        JsonView::Array(items) => Some(items),
        JsonView::Object(entries) => if type_of(entries) == Some("hardBreak"@) {
            None
        } else {
            match member(document, "content"@) {
                Some(JsonView::Array(items)) => Some(items),
                _ => None,
            }
        },
        _ => None,
    };
    if way.len() == 0 {
        Some(document)
    } else {
        match inner {
            Some(items) => if 0 <= way[0] < items.len() {
                node_at(items[way[0]], way.drop_first())
            } else {
                None
            },
            None => None,
        }
    }
}

/// The text of one node is its own, and no nodes have none.
proof fn lemma_single_text(node: JsonView)
    ensures
        plain_texts(seq![node]) == plain_text(node),
        plain_texts(seq![]) == Seq::<char>::empty(),
{
    let none = Seq::<JsonView>::empty();
    assert(seq![node].drop_last() =~= none);
    assert(plain_texts(none) =~= Seq::<char>::empty());
    assert(seq![node].last() == node);
    assert(plain_texts(seq![node]) == plain_texts(none) + plain_text(node));
    assert(plain_texts(seq![node]) =~= plain_text(node));
}

/// The text of each node of a list stands in the text of the list.
proof fn lemma_item_text_is_shown(items: Seq<JsonView>, i: int)
    requires
        0 <= i < items.len(),
    ensures
        has_part(plain_texts(items), plain_text(items[i])),
{
    let head = items.take(i);
    let tail = items.skip(i + 1);
    assert(items =~= head + seq![items[i]] + tail);
    law_plain_texts_follow_each_other(head + seq![items[i]], tail);
    law_plain_texts_follow_each_other(head, seq![items[i]]);
    lemma_single_text(items[i]);
    law_parts(
        plain_texts(head),
        plain_text(items[i]),
        plain_texts(tail),
        plain_texts(items),
    );
}

/// A hard break is a newline, a list of nodes is their texts one after the other, and what is no
/// node has no text.
pub proof fn law_text_of_simple_nodes(
    entries: Seq<EntryView>,
    first: Seq<JsonView>,
    node: JsonView,
    others: Seq<JsonView>,
    text: Seq<char>,
)
    ensures
        type_of(entries) == Some("hardBreak"@) ==> plain_text(JsonView::Object(entries))
            == seq!['\n'],
        plain_text(JsonView::Array(seq![])) == Seq::<char>::empty(),
        plain_text(JsonView::Array(seq![node])) == plain_text(node),
        plain_text(JsonView::Array(first + others)) == plain_text(JsonView::Array(first))
            + plain_text(JsonView::Array(others)),
        plain_text(JsonView::Scalar) == Seq::<char>::empty(),
        plain_text(JsonView::Text(text)) == Seq::<char>::empty(),
{
    lemma_single_text(node);
    law_plain_texts_follow_each_other(first, others);
}

/// The text of a node that is no hard break is its own text and then that of its content, whatever
/// its type. A list item has a dash and a space before that; a paragraph, a heading, a list item, a
/// code block, a quotation and a list have a newline after it; and there is nothing else.
pub proof fn law_text_of_a_node(entries: Seq<EntryView>)
    requires
        type_of(entries) != Some("hardBreak"@),
    ensures
        ({
            let node = JsonView::Object(entries);
            let shown = plain_text(node);
            let own = match text_of(member(node, "text"@)) {
                Some(text) => text,
                None => seq![],
            };
            let content = match items_of(member(node, "content"@)) {
                Some(items) => plain_text(JsonView::Array(items)),
                None => seq![],
            };
            let item = type_of(entries) == Some("listItem"@);
            let block = type_of(entries) == Some("paragraph"@) || type_of(entries) == Some(
                "heading"@,
            ) || type_of(entries) == Some("listItem"@) || type_of(entries) == Some("codeBlock"@)
                || type_of(entries) == Some("blockquote"@) || type_of(entries) == Some(
                "bulletList"@,
            ) || type_of(entries) == Some("orderedList"@);
            &&& has_part(shown, content)
            &&& has_part(shown, own)
            &&& stands_at(
                shown,
                own + content,
                if item {
                    2
                } else {
                    0
                },
            )
            &&& item ==> begins_with(shown, seq!['-', ' '])
            &&& block ==> shown.len() > 0 && shown.last() == '\n'
            &&& shown.len() == own.len() + content.len() + (if item {
                2int
            } else {
                0
            }) + (if block {
                1int
            } else {
                0
            })
        }),
{
    reveal_strlit("- ");
    let node = JsonView::Object(entries);
    let shown = plain_text(node);
    let own = match text_of(member(node, "text"@)) {
        Some(text) => text,
        None => seq![],
    };
    let content = match items_of(member(node, "content"@)) {
        Some(items) => plain_text(JsonView::Array(items)),
        None => seq![],
    };
    let lead = if type_of(entries) == Some("listItem"@) {
        "- "@
    } else {
        seq![]
    };
    let end = if type_of(entries) is Some && ends_line(type_of(entries)->0) {
        seq!['\n']
    } else {
        seq![]
    };
    assert(shown == lead + own + content + end);
    assert(shown =~= lead + (own + content) + end);
    assert(shown.subrange(lead.len() as int, (lead.len() + own.len() + content.len()) as int)
        =~= own + content);
    assert(shown =~= (lead + own) + content + end);
    law_parts(lead + own, content, end, shown);
    assert(shown =~= lead + own + (content + end));
    law_parts(lead, own, content + end, shown);
    if type_of(entries) == Some("listItem"@) {
        assert("- "@ =~= seq!['-', ' ']);
        assert(shown =~= seq!['-', ' '] + (own + content + end));
        law_beginnings(shown, seq!['-', ' '], own + content + end);
    }
}

/// What a document's nodes say is shown: the text of every node that a way leads to stands in the
/// text of the document, and so does the node's own text, unless it is a hard break.
pub proof fn law_every_node_is_shown(document: JsonView, way: Seq<int>)
    ensures
        node_at(document, way) matches Some(node) ==> has_part(
            plain_text(document),
            plain_text(node),
        ),
        node_at(document, way) matches Some(JsonView::Object(entries)) ==> (type_of(entries)
            != Some("hardBreak"@) ==> (member(JsonView::Object(entries), "text"@) matches Some(
            JsonView::Text(text),
        ) ==> has_part(plain_text(document), text))),
    decreases way.len(),
{
    let shown = plain_text(document);
    if way.len() == 0 {
        assert(shown =~= Seq::<char>::empty() + shown + Seq::<char>::empty());
        law_parts(seq![], shown, seq![], shown);
    } else if node_at(document, way) is Some {
        let items = match document {
            JsonView::Array(items) => items,
            JsonView::Object(entries) => {
                law_text_of_a_node(entries);
                items_of(member(document, "content"@))->0
            },
            _ => seq![],
        };
        if document is Array {
            assert(shown =~= Seq::<char>::empty() + shown + Seq::<char>::empty());
            law_parts(seq![], shown, seq![], shown);
        }
        assert(has_part(shown, plain_texts(items)));
        let inner = items[way[0]];
        lemma_item_text_is_shown(items, way[0]);
        law_parts_of_parts(shown, plain_texts(items), plain_text(inner));
        law_every_node_is_shown(inner, way.drop_first());
        law_parts_of_parts(shown, plain_text(inner), plain_text(node_at(document, way)->0));
    }
    if let Some(JsonView::Object(entries)) = node_at(document, way) {
        if type_of(entries) != Some("hardBreak"@) {
            law_text_of_a_node(entries);
            if let Some(JsonView::Text(text)) = member(JsonView::Object(entries), "text"@) {
                law_parts_of_parts(shown, plain_text(JsonView::Object(entries)), text);
            }
        }
    }
}

/// A ticket's description is the whole text of its document but for white space at either end.
pub proof fn law_the_whole_description_is_shown(ticket: TicketView)
    ensures
        ticket.fields.description is None ==> description_of(ticket).len() == 0,
        ticket.fields.description matches Some(document) ==> exists|from: int, to: int|
            0 <= from <= to <= plain_text(document).len() && description_of(ticket)
                == #[trigger] plain_text(document).subrange(from, to) && (forall|i: int|
                0 <= i < from || to <= i < plain_text(document).len() ==> is_space(
                    #[trigger] plain_text(document)[i],
                )),
{
    if let Some(document) = ticket.fields.description {
        law_trimmed(plain_text(document));
    }
}

/// A ticket with the given attachments.
pub open spec fn attached(ticket: TicketView, list: Seq<AttachmentView>) -> TicketView {
    TicketView { fields: FieldsView { attachments: Some(list), ..ticket.fields }, ..ticket }
}

/// An attachment is shown by its name and its content, and the attachments of two lists are shown
/// one list after the other, with a newline between them.
pub proof fn law_attachments_are_shown(
    ticket: TicketView,
    attachment: AttachmentView,
    first: Seq<AttachmentView>,
    others: Seq<AttachmentView>,
)
    ensures
        ticket.fields.attachments is None ==> attachments_of(ticket).len() == 0,
        attachments_of(attached(ticket, seq![])).len() == 0,
        attachments_of(attached(ticket, seq![attachment])) == seq!['-', ' '] + attachment.filename
            + seq![':', ' '] + attachment.content,
        first.len() > 0 && others.len() > 0 ==> attachments_of(attached(ticket, first + others))
            == attachments_of(attached(ticket, first)) + seq!['\n'] + attachments_of(
            attached(ticket, others),
        ),
{
    reveal_strlit("- ");
    reveal_strlit(": ");
    reveal_strlit("\n");
    assert("- "@ =~= seq!['-', ' ']);
    assert(": "@ =~= seq![':', ' ']);
    assert("\n"@ =~= seq!['\n']);
    let line = |item: AttachmentView| attachment_line(item);
    assert(seq![attachment].map_values(line) =~= seq![attachment_line(attachment)]);
    assert((first + others).map_values(line) =~= first.map_values(line) + others.map_values(line));
    law_joined(
        first.map_values(line),
        others.map_values(line),
        "\n"@,
        attachment_line(attachment),
    );
    assert(Seq::<AttachmentView>::empty().map_values(line) =~= Seq::<Seq<char>>::empty());
}

/// The colour of a status that has a category: green, yellow and cyan stand for one category each,
/// and every other category is white.
pub proof fn law_colour_by_category(status: StatusView, key: Seq<char>)
    requires
        status.category == Some(key),
    ensures
        color_of(status) == Color::Green <==> key == "done"@,
        color_of(status) == Color::Yellow <==> key == "indeterminate"@,
        color_of(status) == Color::Cyan <==> key == "new"@,
        color_of(status) != Color::Red,
{
    reveal_strlit("done");
    reveal_strlit("indeterminate");
    reveal_strlit("new");
    assert("done"@.len() != "new"@.len());
    assert("done"@.len() != "indeterminate"@.len());
    assert("new"@.len() != "indeterminate"@.len());
}

/// The words in a name decide its colour: those for green before those for yellow, these before
/// those for red, and these before those for cyan; a name with none of them is white.
pub proof fn law_colour_by_name(a: Seq<char>, b: Seq<char>, name: Seq<char>)
    ensures
        name_color(a + "done"@ + b) == Color::Green,
        name_color(a + "closed"@ + b) == Color::Green,
        name_color(a + "resolved"@ + b) == Color::Green,
        ({
            let green = has_part(name, "done"@) || has_part(name, "closed"@) || has_part(
                name,
                "resolved"@,
            );
            let yellow = has_part(name, "progress"@) || has_part(name, "review"@) || has_part(
                name,
                "validation"@,
            );
            let red = has_part(name, "blocked"@) || has_part(name, "rejected"@) || has_part(
                name,
                "cancelled"@,
            );
            let cyan = has_part(name, "to do"@) || has_part(name, "open"@) || has_part(
                name,
                "backlog"@,
            );
            &&& name_color(name) == Color::Green <==> green
            &&& name_color(name) == Color::Yellow <==> yellow && !green
            &&& name_color(name) == Color::Red <==> red && !yellow && !green
            &&& name_color(name) == Color::Cyan <==> cyan && !red && !yellow && !green
            &&& name_color(name) == Color::White <==> !cyan && !red && !yellow && !green
        }),
{
    law_parts(a, "done"@, b, name);
    law_parts(a, "closed"@, b, name);
    law_parts(a, "resolved"@, b, name);
}

/// The view of a ticket shows each of its fields.
pub proof fn law_a_ticket_is_its_view(ticket: Ticket, transition: Transition, i: int)
    ensures
        ticket@.key == ticket.key@,
        ticket@.fields.summary == ticket.fields.summary@,
        ticket@.fields.status.name == ticket.fields.status.name@,
        ticket@.fields.issuetype == ticket.fields.issuetype.name@,
        ticket.fields.status.category is None <==> ticket@.fields.status.category is None,
        ticket.fields.status.category matches Some(category) ==> ticket@.fields.status.category
            == Some(category.key@),
        ticket.fields.priority is None <==> ticket@.fields.priority is None,
        ticket.fields.priority matches Some(priority) ==> ticket@.fields.priority == Some(
            priority.name@,
        ),
        ticket.fields.description is None <==> ticket@.fields.description is None,
        ticket.fields.description matches Some(document) ==> ticket@.fields.description == Some(
            document@,
        ),
        ticket.fields.attachments is None <==> ticket@.fields.attachments is None,
        ticket.fields.attachments matches Some(list) ==> ticket@.fields.attachments matches Some(
            shown,
        ) && shown.len() == list@.len() && (0 <= i < list@.len() ==> shown[i].filename
            == list@[i].filename@ && shown[i].content == list@[i].content@),
        transition@.id == transition.id@,
        transition@.to.name == transition.to.name@,
        transition.to.category is None <==> transition@.to.category is None,
        transition.to.category matches Some(category) ==> transition@.to.category == Some(
            category.key@,
        ),
{
}

} // verus!
