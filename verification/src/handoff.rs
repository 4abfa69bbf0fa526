//! The handing over of a ticket to an agent in a worktree of its own.

use vstd::prelude::*;
use vstd::utf8::is_ascii_chars;

use crate::environment::{
    ticket_url, url_of, Environment, AGENT_KIND, BIN_PATH, PANE_ID, WORKSPACE_CWD, WORKSPACE_ID,
};
use crate::host::{
    command, command_error, failure_text, plain_command, CommandOutput, CommandView, HostCommand,
};
use crate::json::{
    items_of, member, parse, parse_view, parsed_json, text_of, Json, JsonView,
};
use crate::options::{priority_of, ticket_priority};
use crate::text::{
    ascii_lowercase, begins_with, has_part, law_beginnings, law_parts, lowercase_of, str_eq, texts,
    to_lowercase, trim, trimmed,
};
use crate::ticket::{
    attachments_of, description_of, ticket_attachments, ticket_description, Ticket, TicketView,
};

verus! {

/// What an agent is told about a ticket.
pub open spec fn prompt_for(ticket: TicketView, url: Seq<char>) -> Seq<char> {
    "Work on Jira ticket "@ + ticket.key + ".\n\nJira reference: "@ + url + "\nSummary: "@
        + ticket.fields.summary + "\nStatus: "@ + ticket.fields.status.name + "\nType: "@
        + ticket.fields.issuetype + "\nPriority: "@ + priority_of(ticket)
        + "\n\nDescription:\n"@ + description_of(ticket) + "\n\nAttachments:\n"@
        + attachments_of(ticket)
        + "\n\nUse the Jira ticket as the source of truth and implement the requested change in this workspace."@
}

/// What an agent is told about a ticket.
pub fn prompt(ticket: &Ticket, url: &str) -> (r: String)
    ensures
        r@ == prompt_for(ticket@, url@),
{
    let mut text = "Work on Jira ticket ".to_owned();
    text.append(ticket.key.as_str());
    text.append(".\n\nJira reference: ");
    text.append(url);
    text.append("\nSummary: ");
    text.append(ticket.fields.summary.as_str());
    text.append("\nStatus: ");
    text.append(ticket.fields.status.name.as_str());
    text.append("\nType: ");
    text.append(ticket.fields.issuetype.name.as_str());
    text.append("\nPriority: ");
    text.append(ticket_priority(ticket).as_str());
    text.append("\n\nDescription:\n");
    text.append(ticket_description(ticket).as_str());
    text.append("\n\nAttachments:\n");
    text.append(ticket_attachments(ticket).as_str());
    text.append(
        "\n\nUse the Jira ticket as the source of truth and implement the requested change in this workspace.",
    );
    text
}

/// The command whose end is awaited.
#[derive(Clone, Copy, Debug, PartialEq, Eq, Structural)]
pub enum Step {
    ListWorkspaces,
    ReopenWorkspace,
    FocusWorkspace,
    CreateWorktree,
    StartAgent,
    PromptAgent,
}

/// A handing over under way. `workspace` is the one that the board was opened from.
#[derive(Debug, PartialEq, Eq)]
pub struct Handoff {
    pub bin: String,
    pub prompt: String,
    pub branch: String,
    pub agent_name: String,
    pub agent_kind: String,
    pub workspace: Option<String>,
    pub cwd: Option<String>,
    pub step: Step,
}

/// What a [`Handoff`] holds.
#[verifier::ext_equal]
pub struct HandoffView {
    pub bin: Seq<char>,
    pub prompt: Seq<char>,
    pub branch: Seq<char>,
    pub agent_name: Seq<char>,
    pub agent_kind: Seq<char>,
    pub workspace: Option<Seq<char>>,
    pub cwd: Option<Seq<char>>,
    pub step: Step,
}

/// What an optional string holds.
pub open spec fn optional_text(value: Option<String>) -> Option<Seq<char>> {
    match value {
        Some(text) => Some(text@),
        None => None,
    }
}

impl View for Handoff {
    type V = HandoffView;

    open spec fn view(&self) -> HandoffView {
        HandoffView {
            bin: self.bin@,
            prompt: self.prompt@,
            branch: self.branch@,
            agent_name: self.agent_name@,
            agent_kind: self.agent_kind@,
            workspace: optional_text(self.workspace),
            cwd: optional_text(self.cwd),
            step: self.step,
        }
    }
}

/// How a handing over goes on.
#[derive(Debug, PartialEq, Eq)]
pub enum Progress {
    /// Run a command and say how it ended.
    Run(HostCommand),
    /// The ticket is handed over; run a last command, however it ends.
    Finish(HostCommand),
    /// The ticket is not handed over.
    Fail(String),
}

/// What a [`Progress`] holds.
#[verifier::ext_equal]
pub enum ProgressView {
    Run(CommandView),
    Finish(CommandView),
    Fail(Seq<char>),
}

impl View for Progress {
    type V = ProgressView;

    open spec fn view(&self) -> ProgressView {
        match self {
            Progress::Run(next) => ProgressView::Run(next@),
            Progress::Finish(last) => ProgressView::Finish(last@),
            Progress::Fail(message) => ProgressView::Fail(message@),
        }
    }
}

/// The workspace to focus: of those in a list, the first one with the given id that has a text
/// to focus it by.
pub open spec fn workspace_in(list: Seq<JsonView>, id: Seq<char>) -> Option<Seq<char>>
    decreases list.len(),
{
    if list.len() == 0 {
        None
    } else {
        let name = text_of(member(list[0], "workspace"@));
        if text_of(member(list[0], "workspace_id"@)) == Some(id) && name is Some {
            name
        } else {
            workspace_in(list.drop_first(), id)
        }
    }
}

/// The workspaces in the host's answer.
pub open spec fn workspaces_of(response: JsonView) -> Option<Seq<JsonView>> {
    match member(response, "result"@) {
        Some(result) => items_of(member(result, "workspaces"@)),
        None => None,
    }
}

/// The workspace to focus, in the host's answer.
pub open spec fn workspace_to_focus(response: JsonView, id: Seq<char>) -> Option<Seq<char>> {
    match workspaces_of(response) {
        Some(list) => workspace_in(list, id),
        None => None,
    }
}

/// The workspace to focus, in the host's answer.
pub fn find_workspace(response: &Json, id: &str) -> (r: Option<String>)
    ensures
        optional_text(r) == workspace_to_focus(response@, id@),
{
    let result = match response.get("result") {
        Some(result) => result,
        None => {
            return None;
        },
    };
    let found = match result.get("workspaces") {
        Some(found) => found,
        None => {
            return None;
        },
    };
    let list = match found.as_array() {
        Some(list) => list,
        None => {
            return None;
        },
    };
    let ghost all = workspaces_of(response@)->0;
    let mut i: usize = 0;
    assert(all.skip(0) =~= all);
    while i < list.len()
        invariant
            i <= list@.len(),
            all.len() == list@.len(),
            forall|j: int| 0 <= j < all.len() ==> #[trigger] all[j] == list@[j]@,
            workspaces_of(response@) == Some(all),
            workspace_in(all, id@) == workspace_in(all.skip(i as int), id@),
        decreases list@.len() - i,
    {
        assert(all[i as int] == list@[i as int]@);
        if has_text(&list[i], "workspace_id", id) {
            if let Some(name) = list[i].get("workspace") {
                if let Some(text) = name.as_str() {
                    return Some(text.clone());
                }
            }
        }
        assert(all.skip(i as int).drop_first() =~= all.skip(i + 1));
        i += 1;
    }
    None
}

/// Whether an object's entry is the given text.
fn has_text(value: &Json, key: &str, text: &str) -> (r: bool)
    ensures
        r == (text_of(member(value@, key@)) == Some(text@)),
{
    match value.get(key) {
        Some(entry) => match entry.as_str() {
            Some(found) => str_eq(found.as_str(), text),
            None => false,
        },
        None => false,
    }
}

/// The text in an answer that names an error, where there is one.
pub open spec fn agent_error(response: Option<JsonView>) -> Option<Seq<char>> {
    match response {
        Some(value) => match member(value, "error"@) {
            Some(error) => match text_of(member(error, "message"@)) {
                Some(message) => Some(message),
                None => Some("unknown error"@),
            },
            None => None,
        },
        None => None,
    }
}

/// The text in an answer that names an error, where there is one.
pub fn find_agent_error(response: &Option<Json>) -> (r: Option<String>)
    ensures
        optional_text(r) == agent_error(
            match response {
                Some(value) => Some(value@),
                None => None,
            },
        ),
{
    let error = match response {
        Some(value) => match value.get("error") {
            Some(error) => error,
            None => {
                return None;
            },
        },
        None => {
            return None;
        },
    };
    if let Some(message) = error.get("message") {
        if let Some(text) = message.as_str() {
            return Some(text.clone());
        }
    }
    Some("unknown error".to_owned())
}

impl HandoffView {
    /// What holds of every handing over: the workspaces are listed only to find one.
    pub open spec fn valid(self) -> bool {
        self.step == Step::ListWorkspaces ==> self.workspace is Some
    }

    /// The handing over while another command is awaited.
    pub open spec fn at(self, step: Step) -> HandoffView {
        HandoffView { step, ..self }
    }

    /// The command that lists the workspaces.
    pub open spec fn list_command(self) -> CommandView {
        plain_command(self.bin, seq!["workspace"@, "list"@])
    }

    /// The command that creates the worktree.
    pub open spec fn create_command(self) -> CommandView {
        plain_command(self.bin, seq!["worktree"@, "create"@, self.branch])
    }

    /// The command that starts the agent.
    pub open spec fn start_command(self) -> CommandView {
        CommandView {
            program: self.bin,
            args: seq![
                "agent"@,
                "start"@,
                self.agent_name,
                "--kind"@,
                self.agent_kind,
                "--timeout"@,
                "10"@,
            ],
            env_remove: seq![PANE_ID@],
        }
    }

    /// The command that tells the agent about the ticket.
    pub open spec fn prompt_command(self) -> CommandView {
        plain_command(self.bin, seq!["agent"@, "prompt"@, self.agent_name, self.prompt])
    }

    /// The command that tells the user.
    pub open spec fn toast_command(self) -> CommandView {
        plain_command(
            self.bin,
            seq!["ui"@, "toast"@, "Started Jira agent in "@ + self.branch],
        )
    }

    /// What follows the list of workspaces.
    pub open spec fn after_list(self, response: Result<JsonView, Seq<char>>) -> (
        HandoffView,
        ProgressView,
    ) {
        let id = self.workspace->0;
        match response {
            Err(message) => (
                self,
                ProgressView::Fail("Luvus returned invalid workspace response: "@ + message),
            ),
            Ok(value) => match workspace_to_focus(value, id) {
                Some(index) => (
                    self.at(Step::FocusWorkspace),
                    ProgressView::Run(
                        plain_command(self.bin, seq!["workspace"@, "focus"@, index]),
                    ),
                ),
                None => match self.cwd {
                    Some(cwd) => (
                        self.at(Step::ReopenWorkspace),
                        ProgressView::Run(
                            plain_command(self.bin, seq!["workspace"@, "open"@, cwd]),
                        ),
                    ),
                    None => (
                        self,
                        ProgressView::Fail("Workspace "@ + id + " is no longer open"@),
                    ),
                },
            },
        }
    }

    /// What follows the start of the agent.
    pub open spec fn after_start(self, response: Option<JsonView>, output: CommandOutput) -> (
        HandoffView,
        ProgressView,
    ) {
        match agent_error(response) {
            Some(message) => (self, ProgressView::Fail("Agent start failed: "@ + message)),
            None => if output.code != Some(2i32) && !output.success {
                (self, ProgressView::Fail("Agent start failed: "@ + failure_text(output)))
            } else {
                (self.at(Step::PromptAgent), ProgressView::Run(self.prompt_command()))
            },
        }
    }

    /// What is said where the awaited command could not be run.
    pub open spec fn cannot_run(self) -> Seq<char> {
        match self.step {
            Step::ListWorkspaces => "Unable to list Luvus workspaces: "@,
            Step::ReopenWorkspace => "Unable to reopen Jira workspace: "@,
            Step::FocusWorkspace => "Unable to focus Jira workspace: "@,
            Step::CreateWorktree => "Unable to create Jira worktree: "@,
            Step::StartAgent => "Unable to start Jira agent: "@,
            Step::PromptAgent => "Unable to send Jira prompt: "@,
        }
    }

    /// What is said where the awaited command ended badly.
    pub open spec fn ended_badly(self) -> Seq<char> {
        match self.step {
            Step::ListWorkspaces => "Unable to list Luvus workspaces: "@,
            Step::ReopenWorkspace => "Unable to reopen Jira workspace: "@,
            Step::FocusWorkspace => "Unable to focus Jira workspace: "@,
            Step::CreateWorktree => "Worktree creation failed: "@,
            Step::StartAgent => "Agent start failed: "@,
            Step::PromptAgent => "Jira agent started, but prompt failed: "@,
        }
    }

    /// What follows the awaited command.
    pub open spec fn next(self, outcome: Result<CommandOutput, String>) -> (
        HandoffView,
        ProgressView,
    ) {
        match outcome {
            Err(cause) => (self, ProgressView::Fail(self.cannot_run() + cause@)),
            Ok(output) => if self.step == Step::StartAgent {
                self.after_start(
                    match parsed_json(output.stdout@) {
                        Ok(value) => Some(value),
                        Err(_) => None,
                    },
                    output,
                )
            } else if !output.success {
                (self, ProgressView::Fail(self.ended_badly() + failure_text(output)))
            } else {
                match self.step {
                    Step::ListWorkspaces => self.after_list(parsed_json(output.stdout@)),
                    Step::ReopenWorkspace | Step::FocusWorkspace => (
                        self.at(Step::CreateWorktree),
                        ProgressView::Run(self.create_command()),
                    ),
                    Step::CreateWorktree => (
                        self.at(Step::StartAgent),
                        ProgressView::Run(self.start_command()),
                    ),
                    _ => (self, ProgressView::Finish(self.toast_command())),
                }
            },
        }
    }
}

/// The kind of agent that works on tickets: the one that is set, else `codex`.
pub open spec fn agent_kind_of(environment: Environment) -> Seq<char> {
    match environment.value_of(AGENT_KIND@) {
        Some(kind) => if trimmed(kind).len() > 0 {
            kind
        } else {
            "codex"@
        },
        None => "codex"@,
    }
}

/// The kind of agent that works on tickets.
pub fn agent_kind(environment: &Environment) -> (r: String)
    ensures
        r@ == agent_kind_of(*environment),
{
    if let Some(kind) = environment.var(AGENT_KIND) {
        let rest = trim(kind.as_str());
        if !rest.as_str().is_empty() {
            return kind;
        }
    }
    "codex".to_owned()
}

/// The beginning of a handing over, or why it cannot begin.
pub open spec fn handoff_of(environment: Environment, ticket: TicketView) -> Result<
    (HandoffView, CommandView),
    Seq<char>,
> {
    handoff_named(environment, ticket, lowercase_of(ticket.key))
}

/// The beginning of a handing over, or why it cannot begin, where `key` is the ticket's key in
/// small letters.
pub open spec fn handoff_named(
    environment: Environment,
    ticket: TicketView,
    key: Seq<char>,
) -> Result<(HandoffView, CommandView), Seq<char>> {
    match environment.value_of(BIN_PATH@) {
        None => Err("Missing LUVUS_BIN_PATH"@),
        Some(bin) => match url_of(environment, ticket) {
            Err(message) => Err(message),
            Ok(url) => {
                let workspace = environment.value_of(WORKSPACE_ID@);
                let handoff = HandoffView {
                    bin,
                    prompt: prompt_for(ticket, url),
                    branch: "jira/"@ + ticket.key,
                    agent_name: "jira-"@ + key,
                    agent_kind: agent_kind_of(environment),
                    workspace,
                    cwd: environment.value_of(WORKSPACE_CWD@),
                    step: if workspace is Some {
                        Step::ListWorkspaces
                    } else {
                        Step::CreateWorktree
                    },
                };
                Ok(
                    (
                        handoff,
                        if workspace is Some {
                            handoff.list_command()
                        } else {
                            handoff.create_command()
                        },
                    ),
                )
            },
        },
    }
}

/// What a beginning holds.
pub open spec fn beginning(result: Result<(Handoff, HostCommand), String>) -> Result<
    (HandoffView, CommandView),
    Seq<char>,
> {
    match result {
        Ok((handoff, first)) => Ok((handoff@, first@)),
        Err(message) => Err(message@),
    }
}

/// Begins to hand a ticket over: the state to go on from, and the first command.
pub fn work_ticket(environment: &Environment, ticket: &Ticket) -> (r: Result<
    (Handoff, HostCommand),
    String,
>)
    ensures
        beginning(r) == handoff_of(*environment, ticket@),
        is_ascii_chars(ticket@.key) ==> beginning(r) == handoff_named(
            *environment,
            ticket@,
            ascii_lowercase(ticket@.key),
        ),
        r matches Ok((handoff, _)) ==> handoff@.valid(),
{
    work_ticket_as(environment, ticket, to_lowercase(ticket.key.as_str()).as_str())
}

/// Begins to hand a ticket over, where `key` is its key in small letters.
pub fn work_ticket_as(environment: &Environment, ticket: &Ticket, key: &str) -> (r: Result<
    (Handoff, HostCommand),
    String,
>)
    ensures
        beginning(r) == handoff_named(*environment, ticket@, key@),
        r matches Ok((handoff, _)) ==> handoff@.valid(),
{
    let bin = match environment.var(BIN_PATH) {
        Some(bin) => bin,
        None => {
            return Err("Missing LUVUS_BIN_PATH".to_owned());
        },
    };
    let url = match ticket_url(environment, ticket) {
        Ok(url) => url,
        Err(message) => {
            return Err(message);
        },
    };
    let mut branch = "jira/".to_owned();
    branch.append(ticket.key.as_str());
    let mut agent_name = "jira-".to_owned();
    agent_name.append(key);
    let workspace = environment.var(WORKSPACE_ID);
    let mut handoff = Handoff {
        bin,
        prompt: prompt(ticket, url.as_str()),
        branch,
        agent_name,
        agent_kind: agent_kind(environment),
        workspace,
        cwd: environment.var(WORKSPACE_CWD),
        step: Step::CreateWorktree,
    };
    if handoff.workspace.is_some() {
        handoff.step = Step::ListWorkspaces;
        let first = command(handoff.bin.as_str(), &["workspace", "list"]);
        assert(first@.args =~= seq!["workspace"@, "list"@]);
        Ok((handoff, first))
    } else {
        let first = handoff.create();
        Ok((handoff, first))
    }
}

/// A message made of two pieces.
fn message(lead: &str, rest: &str) -> (r: String)
    ensures
        r@ == lead@ + rest@,
{
    let mut text = lead.to_owned();
    text.append(rest);
    text
}

impl Handoff {
    fn create(&self) -> (r: HostCommand)
        ensures
            r@ == self@.create_command(),
    {
        let r = command(self.bin.as_str(), &["worktree", "create", self.branch.as_str()]);
        assert(r@.args =~= seq!["worktree"@, "create"@, self.branch@]);
        r
    }

    fn start(&self) -> (r: HostCommand)
        ensures
            r@ == self@.start_command(),
    {
        let mut r = command(
            self.bin.as_str(),
            &[
                "agent",
                "start",
                self.agent_name.as_str(),
                "--kind",
                self.agent_kind.as_str(),
                "--timeout",
                "10",
            ],
        );
        assert(r@.args =~= self@.start_command().args);
        r.env_remove.push(PANE_ID.to_owned());
        assert(texts(r.env_remove@) =~= seq![PANE_ID@]);
        r
    }

    fn send_prompt(&self) -> (r: HostCommand)
        ensures
            r@ == self@.prompt_command(),
    {
        let r = command(
            self.bin.as_str(),
            &["agent", "prompt", self.agent_name.as_str(), self.prompt.as_str()],
        );
        assert(r@.args =~= self@.prompt_command().args);
        r
    }

    fn toast(&self) -> (r: HostCommand)
        ensures
            r@ == self@.toast_command(),
    {
        let words = message("Started Jira agent in ", self.branch.as_str());
        let r = command(self.bin.as_str(), &["ui", "toast", words.as_str()]);
        assert(r@.args =~= self@.toast_command().args);
        r
    }

    /// Goes on from the list of workspaces, as far as it could be read.
    pub fn workspaces_listed(&mut self, response: Result<Json, String>) -> (r: Progress)
        requires
            old(self).workspace is Some,
        ensures
            (final(self)@, r@) == old(self)@.after_list(parse_view(response)),
    {
        let id = match &self.workspace {
            Some(id) => id.clone(),
            None => String::new(),
        };
        let value = match response {
            Ok(value) => value,
            Err(cause) => {
                return Progress::Fail(
                    message("Luvus returned invalid workspace response: ", cause.as_str()),
                );
            },
        };
        if let Some(index) = find_workspace(&value, id.as_str()) {
            self.step = Step::FocusWorkspace;
            let next = command(self.bin.as_str(), &["workspace", "focus", index.as_str()]);
            assert(next@.args =~= seq!["workspace"@, "focus"@, index@]);
            return Progress::Run(next);
        }
        match &self.cwd {
            Some(cwd) => {
                let next = command(self.bin.as_str(), &["workspace", "open", cwd.as_str()]);
                assert(next@.args =~= seq!["workspace"@, "open"@, cwd@]);
                self.step = Step::ReopenWorkspace;
                Progress::Run(next)
            },
            None => {
                let mut text = message("Workspace ", id.as_str());
                text.append(" is no longer open");
                Progress::Fail(text)
            },
        }
    }

    /// Goes on from the start of the agent, given what its output reads as.
    pub fn agent_started(&mut self, response: Option<Json>, output: &CommandOutput) -> (r: Progress)
        ensures
            (final(self)@, r@) == old(self)@.after_start(
                match response {
                    Some(value) => Some(value@),
                    None => None,
                },
                *output,
            ),
    {
        if let Some(cause) = find_agent_error(&response) {
            return Progress::Fail(message("Agent start failed: ", cause.as_str()));
        }
        let odd = match output.code {
            Some(code) => code != 2,
            None => true,
        };
        if odd && !output.success {
            return Progress::Fail(message("Agent start failed: ", command_error(output).as_str()));
        }
        let next = self.send_prompt();
        self.step = Step::PromptAgent;
        Progress::Run(next)
    }

    fn cannot_run_message(&self, cause: &str) -> (r: String)
        ensures
            r@ == self@.cannot_run() + cause@,
    {
        match self.step {
            Step::ListWorkspaces => message("Unable to list Luvus workspaces: ", cause),
            Step::ReopenWorkspace => message("Unable to reopen Jira workspace: ", cause),
            Step::FocusWorkspace => message("Unable to focus Jira workspace: ", cause),
            Step::CreateWorktree => message("Unable to create Jira worktree: ", cause),
            Step::StartAgent => message("Unable to start Jira agent: ", cause),
            Step::PromptAgent => message("Unable to send Jira prompt: ", cause),
        }
    }

    fn ended_badly_message(&self, cause: &str) -> (r: String)
        ensures
            r@ == self@.ended_badly() + cause@,
    {
        match self.step {
            Step::ListWorkspaces => message("Unable to list Luvus workspaces: ", cause),
            Step::ReopenWorkspace => message("Unable to reopen Jira workspace: ", cause),
            Step::FocusWorkspace => message("Unable to focus Jira workspace: ", cause),
            Step::CreateWorktree => message("Worktree creation failed: ", cause),
            Step::StartAgent => message("Agent start failed: ", cause),
            Step::PromptAgent => message("Jira agent started, but prompt failed: ", cause),
        }
    }

    /// Goes on from the end of the awaited command, or from why it could not be run.
    pub fn advance(&mut self, outcome: Result<CommandOutput, String>) -> (r: Progress)
        requires
            old(self)@.valid(),
        ensures
            (final(self)@, r@) == old(self)@.next(outcome),
            final(self)@.valid(),
    {
        let output = match outcome {
            Ok(output) => output,
            Err(cause) => {
                return Progress::Fail(self.cannot_run_message(cause.as_str()));
            },
        };
        if let Step::StartAgent = self.step {
            let response = match parse(output.stdout.as_slice()) {
                Ok(value) => Some(value),
                Err(_) => None,
            };
            return self.agent_started(response, &output);
        }
        if !output.success {
            return Progress::Fail(self.ended_badly_message(command_error(&output).as_str()));
        }
        match self.step {
            Step::ListWorkspaces => self.workspaces_listed(parse(output.stdout.as_slice())),
            Step::ReopenWorkspace | Step::FocusWorkspace => {
                self.step = Step::CreateWorktree;
                Progress::Run(self.create())
            },
            Step::CreateWorktree => {
                self.step = Step::StartAgent;
                Progress::Run(self.start())
            },
            _ => Progress::Finish(self.toast()),
        }
    }
}

/// How many more commands a handing over can ask for before the last one.
pub open spec fn commands_left(step: Step) -> nat {
    match step {
        Step::ListWorkspaces => 5,
        Step::ReopenWorkspace => 4,
        Step::FocusWorkspace => 4,
        Step::CreateWorktree => 3,
        Step::StartAgent => 2,
        Step::PromptAgent => 1,
    }
}

/// A handing over comes to an end: each command that it asks for leaves fewer to ask for.
pub proof fn law_a_handoff_ends(handoff: HandoffView, outcome: Result<CommandOutput, String>)
    requires
        handoff.valid(),
    ensures
        handoff.next(outcome).0.valid(),
        handoff.next(outcome).1 is Run ==> commands_left(handoff.next(outcome).0.step)
            < commands_left(handoff.step),
{
}

/// What a handing over is about does not change on its way.
pub proof fn law_a_handoff_keeps_its_ticket(
    handoff: HandoffView,
    outcome: Result<CommandOutput, String>,
)
    ensures
        handoff.next(outcome).0 == handoff.at(handoff.next(outcome).0.step),
{
}

/// A command that cannot be run ends a handing over, whichever it is.
pub proof fn law_a_command_that_cannot_run_fails_the_handoff(handoff: HandoffView, cause: String)
    ensures
        handoff.next(Err(cause)).1 == ProgressView::Fail(handoff.cannot_run() + cause@),
{
}

/// A command that ends badly ends a handing over, but for a start of the agent that ends with
/// code 2 and names no error.
pub proof fn law_a_command_that_ends_badly_fails_the_handoff(
    handoff: HandoffView,
    output: CommandOutput,
)
    requires
        !output.success,
        !(handoff.step == Step::StartAgent && output.code == Some(2i32)),
    ensures
        handoff.next(Ok(output)).1 is Fail,
{
}

/// The agent is told about the ticket only once it is started: after a start that named no error
/// and ended well or with code 2.
pub proof fn law_only_a_started_agent_is_prompted(
    handoff: HandoffView,
    outcome: Result<CommandOutput, String>,
)
    requires
        handoff.valid(),
        handoff.next(outcome).0.step == Step::PromptAgent,
        handoff.step != Step::PromptAgent,
    ensures
        handoff.step == Step::StartAgent,
        handoff.next(outcome).1 == ProgressView::Run(handoff.prompt_command()),
        outcome matches Ok(output) && (output.success || output.code == Some(2i32)),
        outcome matches Ok(output) && (parsed_json(output.stdout@) matches Ok(value) ==> member(
            value,
            "error"@,
        ) is None),
{
}

/// A handing over succeeds only once the prompt was taken.
pub proof fn law_success_comes_after_the_prompt(
    handoff: HandoffView,
    outcome: Result<CommandOutput, String>,
)
    requires
        handoff.valid(),
        handoff.next(outcome).1 is Finish,
    ensures
        handoff.step == Step::PromptAgent,
        outcome matches Ok(output) && output.success,
        handoff.next(outcome).1 == ProgressView::Finish(handoff.toast_command()),
{
}

/// Where all goes well, a ticket is handed over by creating a worktree for its branch, starting
/// the agent that is set, telling it about the ticket, and telling the user, in this order.
pub proof fn law_the_way_of_a_handoff(
    environment: Environment,
    ticket: TicketView,
    created: CommandOutput,
    started: CommandOutput,
    prompted: CommandOutput,
)
    requires
        handoff_of(environment, ticket) is Ok,
        environment.value_of(WORKSPACE_ID@) is None,
        created.success,
        started.success,
        parsed_json(started.stdout@) matches Ok(value) ==> member(value, "error"@) is None,
        prompted.success,
    ensures
        ({
            let (begun, first) = handoff_of(environment, ticket)->Ok_0;
            let (after_create, second) = begun.next(Ok(created));
            let (after_start, third) = after_create.next(Ok(started));
            let (_, last) = after_start.next(Ok(prompted));
            &&& first == begun.create_command()
            &&& begun.branch == "jira/"@ + ticket.key
            &&& begun.agent_name == "jira-"@ + lowercase_of(ticket.key)
            &&& second == ProgressView::Run(begun.start_command())
            &&& begun.agent_kind == agent_kind_of(environment)
            &&& third == ProgressView::Run(begun.prompt_command())
            &&& url_of(environment, ticket) matches Ok(url) && begun.prompt == prompt_for(
                ticket,
                url,
            )
            &&& last == ProgressView::Finish(begun.toast_command())
        }),
{
}

/// Where the board was opened from a workspace, that workspace is focused, or opened anew, before
/// the worktree is created.
pub proof fn law_the_workspace_is_focused_first(
    environment: Environment,
    ticket: TicketView,
    listed: CommandOutput,
    focused: CommandOutput,
)
    requires
        handoff_of(environment, ticket) is Ok,
        environment.value_of(WORKSPACE_ID@) is Some,
        listed.success,
        parsed_json(listed.stdout@) is Ok,
        workspace_to_focus(
            parsed_json(listed.stdout@)->Ok_0,
            environment.value_of(WORKSPACE_ID@)->0,
        ) is Some || environment.value_of(WORKSPACE_CWD@) is Some,
        focused.success,
    ensures
        ({
            let (begun, first) = handoff_of(environment, ticket)->Ok_0;
            let (after_list, second) = begun.next(Ok(listed));
            let (after_focus, third) = after_list.next(Ok(focused));
            &&& first == begun.list_command()
            &&& second is Run
            &&& after_list.step == Step::FocusWorkspace || after_list.step
                == Step::ReopenWorkspace
            &&& third == ProgressView::Run(begun.create_command())
            &&& after_focus == begun.at(Step::CreateWorktree)
        }),
{
}

/// The agent is told all about the ticket, each thing behind its label and in this order: its key,
/// its address, its summary, status, type and priority, the whole of its description, and all of
/// its attachments; and then what to do, with nothing in between.
pub proof fn law_the_prompt_tells_all(ticket: TicketView, url: Seq<char>)
    ensures
        has_part(
            prompt_for(ticket, url),
            "\n\nDescription:\n"@ + description_of(ticket) + "\n\nAttachments:\n"@ + attachments_of(
                ticket,
            ),
        ),
        has_part(
            prompt_for(ticket, url),
            "\nSummary: "@ + ticket.fields.summary + "\nStatus: "@ + ticket.fields.status.name
                + "\nType: "@ + ticket.fields.issuetype + "\nPriority: "@ + priority_of(ticket)
                + "\n\nDescription:\n"@,
        ),
        begins_with(
            prompt_for(ticket, url),
            "Work on Jira ticket "@ + ticket.key + ".\n\nJira reference: "@ + url + "\nSummary: "@
                + ticket.fields.summary + "\nStatus: "@ + ticket.fields.status.name + "\nType: "@
                + ticket.fields.issuetype + "\nPriority: "@ + priority_of(ticket)
                + "\n\nDescription:\n"@ + description_of(ticket) + "\n\nAttachments:\n"@
                + attachments_of(ticket),
        ),
        prompt_for(ticket, url).len() == 204 + ticket.key.len() + url.len()
            + ticket.fields.summary.len() + ticket.fields.status.name.len()
            + ticket.fields.issuetype.len() + priority_of(ticket).len() + description_of(
            ticket,
        ).len() + attachments_of(ticket).len(),
        prompt_for(ticket, url).skip(prompt_for(ticket, url).len() - 98)
            == "\n\nUse the Jira ticket as the source of truth and implement the requested change in this workspace."@,
{
    let whole = prompt_for(ticket, url);
    let key = ticket.key;
    let fields = ticket.fields;
    let opening = "Work on Jira ticket "@;
    let reference = ".\n\nJira reference: "@;
    let summary = "\nSummary: "@;
    let status = "\nStatus: "@;
    let kind = "\nType: "@;
    let priority = "\nPriority: "@;
    let description = "\n\nDescription:\n"@;
    let attachments = "\n\nAttachments:\n"@;
    let closing =
        "\n\nUse the Jira ticket as the source of truth and implement the requested change in this workspace."@;
    reveal_strlit("Work on Jira ticket ");
    reveal_strlit(".\n\nJira reference: ");
    reveal_strlit("\nSummary: ");
    reveal_strlit("\nStatus: ");
    reveal_strlit("\nType: ");
    reveal_strlit("\nPriority: ");
    reveal_strlit("\n\nDescription:\n");
    reveal_strlit("\n\nAttachments:\n");
    reveal_strlit(
        "\n\nUse the Jira ticket as the source of truth and implement the requested change in this workspace.",
    );
    let about = summary + fields.summary + status + fields.status.name + kind + fields.issuetype
        + priority + priority_of(ticket);
    let details = description + description_of(ticket) + attachments + attachments_of(ticket);
    let start = opening + key + reference + url;
    assert(whole =~= start + about + details + closing);
    law_parts(start + about, details, closing, whole);
    let after = description_of(ticket) + attachments + attachments_of(ticket) + closing;
    assert(whole =~= start + (about + description) + after);
    law_parts(start, about + description, after, whole);
    let told = opening + key + reference + url + summary + fields.summary + status
        + fields.status.name + kind + fields.issuetype + priority + priority_of(ticket)
        + description + description_of(ticket) + attachments + attachments_of(ticket);
    assert(whole =~= told + closing);
    law_beginnings(whole, told, closing);
    assert(whole.skip(whole.len() - 98) =~= closing);
}

/// The commands of a handing over: what each is run with, and that the agent alone does not see the
/// pane that the board runs in.
pub proof fn law_the_commands_of_a_handoff(handoff: HandoffView)
    ensures
        handoff.list_command().program == handoff.bin,
        handoff.list_command().args =~= seq!["workspace"@, "list"@],
        handoff.list_command().env_remove.len() == 0,
        handoff.create_command().program == handoff.bin,
        handoff.create_command().args =~= seq!["worktree"@, "create"@, handoff.branch],
        handoff.create_command().env_remove.len() == 0,
        handoff.start_command().program == handoff.bin,
        handoff.start_command().args =~= seq![
            "agent"@,
            "start"@,
            handoff.agent_name,
            "--kind"@,
            handoff.agent_kind,
            "--timeout"@,
            "10"@,
        ],
        handoff.start_command().env_remove =~= seq!["LUVUS_PANE_ID"@],
        handoff.prompt_command().program == handoff.bin,
        handoff.prompt_command().args =~= seq![
            "agent"@,
            "prompt"@,
            handoff.agent_name,
            handoff.prompt,
        ],
        handoff.prompt_command().env_remove.len() == 0,
        handoff.toast_command().program == handoff.bin,
        handoff.toast_command().args =~= seq![
            "ui"@,
            "toast"@,
            "Started Jira agent in "@ + handoff.branch,
        ],
        handoff.toast_command().env_remove.len() == 0,
{
}

/// A handing over begins with what is set and with the ticket's own key, address and details; it
/// cannot begin without the host's program, nor without the site.
pub proof fn law_the_beginning_of_a_handoff(environment: Environment, ticket: TicketView)
    ensures
        environment.value_of(BIN_PATH@) is None ==> handoff_of(environment, ticket) == Err::<
            (HandoffView, CommandView),
            Seq<char>,
        >("Missing LUVUS_BIN_PATH"@),
        environment.value_of(BIN_PATH@) is Some ==> (url_of(environment, ticket) matches Err(message)
            ==> handoff_of(environment, ticket) == Err::<(HandoffView, CommandView), Seq<char>>(
            message,
        )),
        environment.value_of(BIN_PATH@) matches Some(bin) ==> (url_of(environment, ticket) matches Ok(
            url,
        ) ==> (handoff_of(environment, ticket) matches Ok((begun, first)) && {
            &&& begun.bin == bin
            &&& begun.prompt == prompt_for(ticket, url)
            &&& begun.branch == "jira/"@ + ticket.key
            &&& begun.agent_name == "jira-"@ + lowercase_of(ticket.key)
            &&& begun.agent_kind == agent_kind_of(environment)
            &&& begun.workspace == environment.value_of(WORKSPACE_ID@)
            &&& begun.cwd == environment.value_of(WORKSPACE_CWD@)
            &&& begun.workspace is Some ==> begun.step == Step::ListWorkspaces && first
                == begun.list_command()
            &&& begun.workspace is None ==> begun.step == Step::CreateWorktree && first
                == begun.create_command()
        })),
{
}

/// The agent is of the kind that is set, as it is, and `codex` where none is set or it is blank.
pub proof fn law_the_kind_of_agent(environment: Environment)
    ensures
        environment.value_of(AGENT_KIND@) matches Some(kind) ==> (trimmed(kind).len() > 0
            ==> agent_kind_of(environment) == kind),
        environment.value_of(AGENT_KIND@) matches Some(kind) ==> (trimmed(kind).len() == 0
            ==> agent_kind_of(environment) == "codex"@),
        environment.value_of(AGENT_KIND@) is None ==> agent_kind_of(environment) == "codex"@,
{
}

/// The workspace to focus is the first one in the host's list that has the id and a text to focus
/// it by, and there is none where no workspace has both, or there is no list.
pub proof fn law_the_workspace_to_focus(
    response: JsonView,
    list: Seq<JsonView>,
    id: Seq<char>,
    i: int,
    name: Seq<char>,
)
    ensures
        member(response, "result"@) is None ==> workspace_to_focus(response, id) is None,
        member(response, "result"@) matches Some(result) ==> (items_of(
            member(result, "workspaces"@),
        ) is None ==> workspace_to_focus(response, id) is None),
        member(response, "result"@) matches Some(result) ==> (items_of(
            member(result, "workspaces"@),
        ) == Some(list) ==> {
            &&& 0 <= i < list.len() && text_of(member(list[i], "workspace_id"@)) == Some(id)
                && text_of(member(list[i], "workspace"@)) == Some(name) && (forall|j: int|
                0 <= j < i ==> text_of(member(#[trigger] list[j], "workspace_id"@)) != Some(id)
                    || text_of(member(list[j], "workspace"@)) is None) ==> workspace_to_focus(
                response,
                id,
            ) == Some(name)
            &&& (forall|j: int|
                0 <= j < list.len() ==> text_of(member(#[trigger] list[j], "workspace_id"@))
                    != Some(id) || text_of(member(list[j], "workspace"@)) is None)
                ==> workspace_to_focus(response, id) is None
        }),
{
    lemma_workspace_in(list, id, i, name);
}

proof fn lemma_workspace_in(list: Seq<JsonView>, id: Seq<char>, i: int, name: Seq<char>)
    ensures
        0 <= i < list.len() && text_of(member(list[i], "workspace_id"@)) == Some(id) && text_of(
            member(list[i], "workspace"@),
        ) == Some(name) && (forall|j: int|
            0 <= j < i ==> text_of(member(#[trigger] list[j], "workspace_id"@)) != Some(id)
                || text_of(member(list[j], "workspace"@)) is None) ==> workspace_in(list, id)
            == Some(name),
        (forall|j: int|
            0 <= j < list.len() ==> text_of(member(#[trigger] list[j], "workspace_id"@)) != Some(id)
                || text_of(member(list[j], "workspace"@)) is None) ==> workspace_in(list, id) is None,
    decreases list.len(),
{
    if list.len() > 0 {
        let rest = list.drop_first();
        lemma_workspace_in(rest, id, i - 1, name);
        if forall|j: int|
            0 <= j < list.len() ==> text_of(member(#[trigger] list[j], "workspace_id"@)) != Some(id)
                || text_of(member(list[j], "workspace"@)) is None {
            assert forall|j: int| 0 <= j < rest.len() implies text_of(
                member(#[trigger] rest[j], "workspace_id"@),
            ) != Some(id) || text_of(member(rest[j], "workspace"@)) is None by {
                assert(rest[j] == list[j + 1]);
            }
            assert(list[0] == list[0]);
        }
        if 0 < i < list.len() && (forall|j: int|
            0 <= j < i ==> text_of(member(#[trigger] list[j], "workspace_id"@)) != Some(id)
                || text_of(member(list[j], "workspace"@)) is None) {
            assert forall|j: int| 0 <= j < i - 1 implies text_of(
                member(#[trigger] rest[j], "workspace_id"@),
            ) != Some(id) || text_of(member(rest[j], "workspace"@)) is None by {
                assert(rest[j] == list[j + 1]);
            }
            assert(rest[i - 1] == list[i]);
            assert(list[0] == list[0]);
        }
    }
}

/// An answer names an error exactly if it has an entry for one, and the error's message is told
/// where it is a text.
pub proof fn law_the_error_of_an_answer(value: JsonView)
    ensures
        agent_error(None) is None,
        agent_error(Some(value)) is Some <==> member(value, "error"@) is Some,
        member(value, "error"@) matches Some(error) ==> (text_of(
            member(error, "message"@),
        ) matches Some(message) ==> agent_error(Some(value)) == Some(message)),
        member(value, "error"@) matches Some(error) ==> (text_of(member(error, "message"@)) is None
            ==> agent_error(Some(value)) == Some("unknown error"@)),
{
}

/// What follows the list of workspaces: the workspace that is found is focused, else the directory
/// is opened, and where there is none either, or the list cannot be read, that is told.
pub proof fn law_after_the_list(handoff: HandoffView, output: CommandOutput, id: Seq<char>)
    requires
        handoff.step == Step::ListWorkspaces,
        handoff.workspace == Some(id),
        output.success,
    ensures
        ({
            let (after, progress) = handoff.next(Ok(output));
            &&& parsed_json(output.stdout@) matches Err(cause) ==> after == handoff && progress
                == ProgressView::Fail("Luvus returned invalid workspace response: "@ + cause)
            &&& parsed_json(output.stdout@) matches Ok(value) ==> (workspace_to_focus(
                value,
                id,
            ) matches Some(index) ==> after.step == Step::FocusWorkspace && (progress matches ProgressView::Run(
                focus,
            ) && focus.program == handoff.bin && focus.args =~= seq![
                "workspace"@,
                "focus"@,
                index,
            ] && focus.env_remove.len() == 0))
            &&& parsed_json(output.stdout@) matches Ok(value) ==> (workspace_to_focus(value, id)
                is None ==> (handoff.cwd matches Some(cwd) ==> after.step == Step::ReopenWorkspace
                && (progress matches ProgressView::Run(open) && open.program == handoff.bin
                && open.args =~= seq!["workspace"@, "open"@, cwd] && open.env_remove.len() == 0)))
            &&& parsed_json(output.stdout@) matches Ok(value) ==> (workspace_to_focus(value, id)
                is None && handoff.cwd is None ==> after == handoff && progress
                == ProgressView::Fail("Workspace "@ + id + " is no longer open"@))
        }),
{
}

/// What follows each other command that ends well, and the words for each that does not or that
/// cannot be run.
pub proof fn law_after_each_command(handoff: HandoffView, output: CommandOutput, cause: String)
    ensures
        ({
            let (after, progress) = handoff.next(Ok(output));
            let step = handoff.step;
            let (_, unrun) = handoff.next(Err(cause));
            &&& output.success && (step == Step::FocusWorkspace || step == Step::ReopenWorkspace)
                ==> after.step == Step::CreateWorktree && progress == ProgressView::Run(
                handoff.create_command(),
            )
            &&& output.success && step == Step::CreateWorktree ==> after.step == Step::StartAgent
                && progress == ProgressView::Run(handoff.start_command())
            &&& output.success && step == Step::PromptAgent ==> progress == ProgressView::Finish(
                handoff.toast_command(),
            )
            &&& !output.success && step == Step::ListWorkspaces ==> progress == ProgressView::Fail(
                "Unable to list Luvus workspaces: "@ + failure_text(output),
            )
            &&& !output.success && step == Step::ReopenWorkspace ==> progress == ProgressView::Fail(
                "Unable to reopen Jira workspace: "@ + failure_text(output),
            )
            &&& !output.success && step == Step::FocusWorkspace ==> progress == ProgressView::Fail(
                "Unable to focus Jira workspace: "@ + failure_text(output),
            )
            &&& !output.success && step == Step::CreateWorktree ==> progress == ProgressView::Fail(
                "Worktree creation failed: "@ + failure_text(output),
            )
            &&& !output.success && step == Step::PromptAgent ==> progress == ProgressView::Fail(
                "Jira agent started, but prompt failed: "@ + failure_text(output),
            )
            &&& step == Step::ListWorkspaces ==> unrun == ProgressView::Fail(
                "Unable to list Luvus workspaces: "@ + cause@,
            )
            &&& step == Step::ReopenWorkspace ==> unrun == ProgressView::Fail(
                "Unable to reopen Jira workspace: "@ + cause@,
            )
            &&& step == Step::FocusWorkspace ==> unrun == ProgressView::Fail(
                "Unable to focus Jira workspace: "@ + cause@,
            )
            &&& step == Step::CreateWorktree ==> unrun == ProgressView::Fail(
                "Unable to create Jira worktree: "@ + cause@,
            )
            &&& step == Step::StartAgent ==> unrun == ProgressView::Fail(
                "Unable to start Jira agent: "@ + cause@,
            )
            &&& step == Step::PromptAgent ==> unrun == ProgressView::Fail(
                "Unable to send Jira prompt: "@ + cause@,
            )
        }),
{
}

/// What follows the start of the agent: an error that the answer names is told; else an end that is
/// neither good nor code 2 is told; else the agent is told about the ticket.
pub proof fn law_after_the_start(handoff: HandoffView, output: CommandOutput)
    requires
        handoff.step == Step::StartAgent,
    ensures
        ({
            let (after, progress) = handoff.next(Ok(output));
            let error = match parsed_json(output.stdout@) {
                Ok(value) => agent_error(Some(value)),
                Err(_) => None,
            };
            let started = output.success || output.code == Some(2i32);
            &&& error matches Some(message) ==> after == handoff && progress == ProgressView::Fail(
                "Agent start failed: "@ + message,
            )
            &&& error is None && !started ==> after == handoff && progress == ProgressView::Fail(
                "Agent start failed: "@ + failure_text(output),
            )
            &&& error is None && started ==> after.step == Step::PromptAgent && progress
                == ProgressView::Run(handoff.prompt_command())
        }),
{
}

/// The view of a handing over shows all of it, and so do the views of how it goes on.
pub proof fn law_a_handoff_is_its_view(
    handoff: Handoff,
    command: HostCommand,
    message: String,
    value: Option<String>,
)
    ensures
        handoff@.bin == handoff.bin@,
        handoff@.prompt == handoff.prompt@,
        handoff@.branch == handoff.branch@,
        handoff@.agent_name == handoff.agent_name@,
        handoff@.agent_kind == handoff.agent_kind@,
        handoff@.workspace == optional_text(handoff.workspace),
        handoff@.cwd == optional_text(handoff.cwd),
        handoff@.step == handoff.step,
        value is None <==> optional_text(value) is None,
        value matches Some(text) ==> optional_text(value) == Some(text@),
        Progress::Run(command)@ == ProgressView::Run(command@),
        Progress::Finish(command)@ == ProgressView::Finish(command@),
        Progress::Fail(message)@ == ProgressView::Fail(message@),
        beginning(Ok((handoff, command))) == Ok::<(HandoffView, CommandView), Seq<char>>(
            (handoff@, command@),
        ),
        beginning(Err(message)) == Err::<(HandoffView, CommandView), Seq<char>>(message@),
{
}

} // verus!
