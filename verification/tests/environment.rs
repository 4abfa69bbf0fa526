use luvus_jira::environment::{
    query_or_default, setting, site_url, ticket_url, Environment, Variable, BASE_URL,
    DEFAULT_JQL, EMAIL, JQL,
};
use luvus_jira::ticket::{Fields, NamedValue, StatusValue, Ticket};

fn environment(list: &[(&str, &str)]) -> Environment {
    Environment {
        variables: list
            .iter()
            .map(|(name, value)| Variable { name: name.to_string(), value: value.to_string() })
            .collect(),
    }
}

fn ticket(key: &str) -> Ticket {
    Ticket {
        key: key.to_owned(),
        fields: Fields {
            summary: "s".to_owned(),
            status: StatusValue { name: "Open".to_owned(), category: None },
            issuetype: NamedValue { name: "Bug".to_owned() },
            priority: None,
            description: None,
            attachments: None,
        },
    }
}

#[test]
fn the_variables_have_the_names_that_the_host_gives_them() {
    assert_eq!(BASE_URL, "LUVUS_SETTING_JIRA_BASE_URL");
    assert_eq!(EMAIL, "LUVUS_SETTING_JIRA_EMAIL");
    assert_eq!(luvus_jira::environment::API_TOKEN, "LUVUS_SETTING_JIRA_API_TOKEN");
    assert_eq!(JQL, "LUVUS_SETTING_JIRA_JQL");
    assert_eq!(luvus_jira::environment::PROJECT_KEY, "LUVUS_SETTING_JIRA_PROJECT_KEY");
    assert_eq!(luvus_jira::environment::AGENT_KIND, "LUVUS_SETTING_JIRA_AGENT_KIND");
    assert_eq!(luvus_jira::environment::BIN_PATH, "LUVUS_BIN_PATH");
    assert_eq!(luvus_jira::environment::WORKSPACE_ID, "LUVUS_WORKSPACE_ID");
    assert_eq!(luvus_jira::environment::WORKSPACE_CWD, "LUVUS_WORKSPACE_CWD");
    assert_eq!(luvus_jira::environment::PANE_ID, "LUVUS_PANE_ID");
}

#[test]
fn a_variable_is_found_by_name() {
    let env = environment(&[("A", "1"), ("B", ""), ("A", "2")]);
    assert_eq!(env.var("A"), Some("1".to_owned()));
    assert_eq!(env.var("B"), Some("".to_owned()));
    assert_eq!(env.var("C"), None);
}

#[test]
fn a_setting_is_kept_with_its_spaces() {
    let env = environment(&[(EMAIL, " me@example.org ")]);
    assert_eq!(setting(&env, EMAIL), Ok(" me@example.org ".to_owned()));
}

#[test]
fn a_blank_setting_is_a_missing_one() {
    let missing = Err("Missing setting: LUVUS_SETTING_JIRA_EMAIL".to_owned());
    assert_eq!(setting(&environment(&[]), EMAIL), missing);
    assert_eq!(setting(&environment(&[(EMAIL, "")]), EMAIL), missing);
    assert_eq!(setting(&environment(&[(EMAIL, " \t\u{a0}")]), EMAIL), missing);
}

#[test]
fn trailing_slashes_make_no_difference() {
    for base in ["https://a.example", "https://a.example/", "https://a.example///"] {
        let env = environment(&[(BASE_URL, base)]);
        assert_eq!(site_url(&env), Ok("https://a.example".to_owned()));
        assert_eq!(
            ticket_url(&env, &ticket("ABC-1")),
            Ok("https://a.example/browse/ABC-1".to_owned())
        );
    }
}

#[test]
fn without_a_site_a_ticket_has_no_address() {
    assert_eq!(
        ticket_url(&environment(&[]), &ticket("ABC-1")),
        Err("Missing setting: LUVUS_SETTING_JIRA_BASE_URL".to_owned())
    );
}

#[test]
fn the_query_has_a_default() {
    assert_eq!(DEFAULT_JQL, "assignee = currentUser() ORDER BY updated DESC");
    assert_eq!(query_or_default(&environment(&[])), DEFAULT_JQL);
    assert_eq!(query_or_default(&environment(&[(JQL, " ")])), DEFAULT_JQL);
    assert_eq!(query_or_default(&environment(&[(JQL, "project = A")])), "project = A");
}
