use luvus_jira::environment::{Environment, Variable};
use luvus_jira::handoff::{
    agent_kind, find_agent_error, find_workspace, prompt, work_ticket, work_ticket_as, Handoff,
    Progress, Step,
};
use luvus_jira::host::{CommandOutput, HostCommand};
use luvus_jira::json::parse;
use luvus_jira::ticket::{Attachment, Fields, NamedValue, StatusValue, Ticket};

fn environment(list: &[(&str, &str)]) -> Environment {
    Environment {
        variables: list
            .iter()
            .map(|(name, value)| Variable { name: name.to_string(), value: value.to_string() })
            .collect(),
    }
}

const SITE: (&str, &str) = ("LUVUS_SETTING_JIRA_BASE_URL", "https://a.example/");
const BIN: (&str, &str) = ("LUVUS_BIN_PATH", "luvus");

fn ticket() -> Ticket {
    Ticket {
        key: "ABC-1".to_owned(),
        fields: Fields {
            summary: "Fix it".to_owned(),
            status: StatusValue { name: "Open".to_owned(), category: None },
            issuetype: NamedValue { name: "Bug".to_owned() },
            priority: None,
            description: Some(parse(br#"{"type": "paragraph", "text": "Please."}"#).unwrap()),
            attachments: Some(vec![Attachment {
                filename: "log".to_owned(),
                content: "https://a/1".to_owned(),
            }]),
        },
    }
}

fn begun(list: &[(&str, &str)]) -> (Handoff, HostCommand) {
    work_ticket(&environment(list), &ticket()).unwrap()
}

fn words(command: &HostCommand) -> Vec<&str> {
    command.args.iter().map(|word| word.as_str()).collect()
}

fn ended(code: i32, stdout: &str, stderr: &str) -> Result<CommandOutput, String> {
    Ok(CommandOutput {
        success: code == 0,
        code: Some(code),
        status: format!("exit status: {}", code),
        stdout: stdout.as_bytes().to_vec(),
        stderr: stderr.as_bytes().to_vec(),
    })
}

fn run(progress: Progress) -> HostCommand {
    match progress {
        Progress::Run(command) => command,
        other => panic!("{:?}", other),
    }
}

fn failure(progress: Progress) -> String {
    match progress {
        Progress::Fail(message) => message,
        other => panic!("{:?}", other),
    }
}

fn at(step: Step) -> Handoff {
    let (mut handoff, _) = begun(&[
        SITE,
        BIN,
        ("LUVUS_WORKSPACE_ID", "w1"),
        ("LUVUS_WORKSPACE_CWD", "/home/me"),
    ]);
    handoff.step = step;
    handoff
}

const PROMPT: &str = "Work on Jira ticket ABC-1.\n\nJira reference: https://a.example/browse/ABC-1\nSummary: Fix it\nStatus: Open\nType: Bug\nPriority: None\n\nDescription:\nPlease.\n\nAttachments:\n- log: https://a/1\n\nUse the Jira ticket as the source of truth and implement the requested change in this workspace.";

#[test]
fn the_prompt_tells_all_about_the_ticket() {
    assert_eq!(prompt(&ticket(), "https://a.example/browse/ABC-1"), PROMPT);
}

#[test]
fn a_ticket_is_handed_over() {
    let (mut handoff, first) = begun(&[SITE, BIN]);
    assert_eq!(first.program, "luvus");
    assert_eq!(words(&first), vec!["worktree", "create", "jira/ABC-1"]);
    assert_eq!(handoff.step, Step::CreateWorktree);

    let start = run(handoff.advance(ended(0, "created", "")));
    assert_eq!(
        words(&start),
        vec!["agent", "start", "jira-abc-1", "--kind", "codex", "--timeout", "10"]
    );
    assert_eq!(start.env_remove, vec!["LUVUS_PANE_ID"]);

    let told = run(handoff.advance(ended(0, "{}", "")));
    assert_eq!(words(&told), vec!["agent", "prompt", "jira-abc-1", PROMPT]);
    assert_eq!(told.env_remove, Vec::<String>::new());

    match handoff.advance(ended(0, "", "")) {
        Progress::Finish(toast) => {
            assert_eq!(words(&toast), vec!["ui", "toast", "Started Jira agent in jira/ABC-1"]);
        }
        other => panic!("{:?}", other),
    }
}

#[test]
fn the_branch_has_the_key_and_the_agent_has_it_in_small_letters() {
    let mut upper = ticket();
    upper.key = "ÄBC-1".to_owned();
    let (handoff, _) = work_ticket(&environment(&[SITE, BIN]), &upper).unwrap();
    assert_eq!(handoff.branch, "jira/ÄBC-1");
    assert_eq!(handoff.agent_name, "jira-äbc-1");
}

#[test]
fn the_workspace_is_focused_first() {
    let (mut handoff, first) = begun(&[SITE, BIN, ("LUVUS_WORKSPACE_ID", "w1")]);
    assert_eq!(words(&first), vec!["workspace", "list"]);
    let list = r#"{"result": {"workspaces": [
        {"workspace_id": "w0", "workspace": "0"},
        {"workspace_id": "w1"},
        {"workspace_id": "w1", "workspace": 7},
        {"workspace_id": "w1", "workspace": "2"},
        {"workspace_id": "w1", "workspace": "3"}
    ]}}"#;
    let focus = run(handoff.advance(ended(0, list, "")));
    assert_eq!(words(&focus), vec!["workspace", "focus", "2"]);
    let create = run(handoff.advance(ended(0, "", "")));
    assert_eq!(words(&create), vec!["worktree", "create", "jira/ABC-1"]);
}

#[test]
fn a_closed_workspace_is_opened_anew() {
    let mut handoff = at(Step::ListWorkspaces);
    let open = run(handoff.advance(ended(0, r#"{"result": {"workspaces": []}}"#, "")));
    assert_eq!(words(&open), vec!["workspace", "open", "/home/me"]);
    assert_eq!(handoff.step, Step::ReopenWorkspace);
    let create = run(handoff.advance(ended(0, "", "")));
    assert_eq!(words(&create), vec!["worktree", "create", "jira/ABC-1"]);
}

#[test]
fn a_closed_workspace_without_a_directory_is_lost() {
    let (mut handoff, _) = begun(&[SITE, BIN, ("LUVUS_WORKSPACE_ID", "w1")]);
    assert_eq!(failure(handoff.advance(ended(0, "[]", ""))), "Workspace w1 is no longer open");
}

#[test]
fn an_unreadable_list_of_workspaces_is_told() {
    let mut handoff = at(Step::ListWorkspaces);
    assert_eq!(
        failure(handoff.advance(ended(0, "", ""))),
        "Luvus returned invalid workspace response: EOF while parsing a value at line 1 column 0"
    );
    let mut other = at(Step::ListWorkspaces);
    assert_eq!(
        failure(other.workspaces_listed(Err("why".to_owned()))),
        "Luvus returned invalid workspace response: why"
    );
}

#[test]
fn a_command_that_cannot_run_is_told() {
    let cases = [
        (Step::ListWorkspaces, "Unable to list Luvus workspaces: gone"),
        (Step::ReopenWorkspace, "Unable to reopen Jira workspace: gone"),
        (Step::FocusWorkspace, "Unable to focus Jira workspace: gone"),
        (Step::CreateWorktree, "Unable to create Jira worktree: gone"),
        (Step::StartAgent, "Unable to start Jira agent: gone"),
        (Step::PromptAgent, "Unable to send Jira prompt: gone"),
    ];
    for (step, message) in cases {
        assert_eq!(failure(at(step).advance(Err("gone".to_owned()))), message);
    }
}

#[test]
fn a_command_that_ends_badly_is_told() {
    let cases = [
        (Step::ListWorkspaces, "Unable to list Luvus workspaces: bad"),
        (Step::ReopenWorkspace, "Unable to reopen Jira workspace: bad"),
        (Step::FocusWorkspace, "Unable to focus Jira workspace: bad"),
        (Step::CreateWorktree, "Worktree creation failed: bad"),
        (Step::StartAgent, "Agent start failed: bad"),
        (Step::PromptAgent, "Jira agent started, but prompt failed: bad"),
    ];
    for (step, message) in cases {
        assert_eq!(failure(at(step).advance(ended(1, "", "bad\n"))), message);
    }
    assert_eq!(
        failure(at(Step::CreateWorktree).advance(ended(1, "", ""))),
        "Worktree creation failed: exit status exit status: 1"
    );
}

#[test]
fn a_start_that_ends_with_two_is_a_start() {
    let mut handoff = at(Step::StartAgent);
    let told = run(handoff.advance(ended(2, "not json", "still starting")));
    assert_eq!(words(&told)[..2], ["agent", "prompt"]);
    assert_eq!(handoff.step, Step::PromptAgent);
}

#[test]
fn an_error_in_the_answer_fails_the_start() {
    let cases = [
        (0, r#"{"error": {"message": "no such kind"}}"#, "Agent start failed: no such kind"),
        (2, r#"{"error": {"message": 3}}"#, "Agent start failed: unknown error"),
        (0, r#"{"error": null}"#, "Agent start failed: unknown error"),
        (1, r#"{"error": "x"}"#, "Agent start failed: unknown error"),
    ];
    for (code, answer, message) in cases {
        assert_eq!(failure(at(Step::StartAgent).advance(ended(code, answer, "bad"))), message);
    }
}

#[test]
fn errors_are_found_in_answers() {
    assert_eq!(find_agent_error(&None), None);
    assert_eq!(find_agent_error(&Some(parse(b"[]").unwrap())), None);
    assert_eq!(
        find_agent_error(&Some(parse(br#"{"error": {"message": "m"}}"#).unwrap())),
        Some("m".to_owned())
    );
}

#[test]
fn workspaces_are_found_in_answers() {
    for answer in ["1", "{}", r#"{"result": []}"#, r#"{"result": {"workspaces": "w1"}}"#] {
        assert_eq!(find_workspace(&parse(answer.as_bytes()).unwrap(), "w1"), None);
    }
    let answer = br#"{"result": {"workspaces": [{"workspace_id": "w1", "workspace": "5"}]}}"#;
    assert_eq!(find_workspace(&parse(answer).unwrap(), "w1"), Some("5".to_owned()));
    assert_eq!(find_workspace(&parse(answer).unwrap(), "w"), None);
}

#[test]
fn the_agent_is_the_one_that_is_set() {
    let kind = "LUVUS_SETTING_JIRA_AGENT_KIND";
    assert_eq!(agent_kind(&environment(&[(kind, "gemini")])), "gemini");
    assert_eq!(agent_kind(&environment(&[(kind, "  ")])), "codex");
    assert_eq!(agent_kind(&environment(&[])), "codex");
    let (handoff, _) = begun(&[SITE, BIN, (kind, "gemini")]);
    assert_eq!(handoff.agent_kind, "gemini");
}

#[test]
fn nothing_is_handed_over_without_host_and_site() {
    assert_eq!(
        work_ticket(&environment(&[]), &ticket()),
        Err("Missing LUVUS_BIN_PATH".to_owned())
    );
    assert_eq!(
        work_ticket(&environment(&[BIN]), &ticket()),
        Err("Missing setting: LUVUS_SETTING_JIRA_BASE_URL".to_owned())
    );
}

#[test]
fn the_given_key_names_the_agent() {
    let (handoff, first) =
        work_ticket_as(&environment(&[SITE, BIN]), &ticket(), "x-1").unwrap();
    assert_eq!(handoff.branch, "jira/ABC-1");
    assert_eq!(handoff.agent_name, "jira-x-1");
    assert_eq!(handoff.prompt, PROMPT);
    assert_eq!(words(&first), vec!["worktree", "create", "jira/ABC-1"]);
}
