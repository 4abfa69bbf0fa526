use luvus_jira::environment::{Environment, Variable};
use luvus_jira::launch::{
    default_project, ended, mode, open_tui_pane, open_url, pane_opened, url_opened, Mode,
};

fn environment(list: &[(&str, &str)]) -> Environment {
    Environment {
        variables: list
            .iter()
            .map(|(name, value)| Variable { name: name.to_string(), value: value.to_string() })
            .collect(),
    }
}

#[test]
fn the_first_argument_says_what_to_do() {
    assert_eq!(mode(&Some("tui".to_owned())), Mode::Board);
    assert_eq!(mode(&Some("open".to_owned())), Mode::OpenPane);
    assert_eq!(mode(&Some("dock".to_owned())), Mode::Dock);
    assert_eq!(mode(&Some("TUI".to_owned())), Mode::Dock);
    assert_eq!(mode(&None), Mode::Dock);
}

#[test]
fn the_board_starts_with_the_project_that_is_set() {
    let env = environment(&[("LUVUS_SETTING_JIRA_PROJECT_KEY", "ABC")]);
    assert_eq!(default_project(&env), "ABC");
    assert_eq!(default_project(&environment(&[])), "");
}

#[test]
fn the_host_is_told_to_open_the_pane() {
    let next = open_tui_pane(&environment(&[("LUVUS_BIN_PATH", "/bin/luvus")])).unwrap();
    assert_eq!(next.program, "/bin/luvus");
    assert_eq!(
        next.args,
        vec!["module", "pane", "open", "adexaja.luvus-jira", "jira-board", "--placement", "tab"]
    );
    assert_eq!(next.env_remove, Vec::<String>::new());
    assert_eq!(open_tui_pane(&environment(&[])), Err("Missing LUVUS_BIN_PATH".to_owned()));
}

#[test]
fn an_address_is_opened_by_the_systems_own_program() {
    let mac = open_url("https://a/browse/A-1", true);
    assert_eq!(mac.program, "open");
    assert_eq!(mac.args, vec!["https://a/browse/A-1"]);
    let other = open_url("https://a/browse/A-1", false);
    assert_eq!(other.program, "xdg-open");
    assert_eq!(other.args, vec!["https://a/browse/A-1"]);
}

#[test]
fn the_end_of_a_program_is_told() {
    assert_eq!(ended(Ok(true), "failed"), Ok(()));
    assert_eq!(ended(Ok(false), "failed"), Err("failed".to_owned()));
    assert_eq!(ended(Err("no such file".to_owned()), "failed"), Err("no such file".to_owned()));
    assert_eq!(pane_opened(Ok(true)), Ok(()));
    assert_eq!(pane_opened(Ok(false)), Err("Luvus could not open the Jira pane".to_owned()));
    assert_eq!(pane_opened(Err("x".to_owned())), Err("x".to_owned()));
    assert_eq!(url_opened(Ok(true)), Ok(()));
    assert_eq!(url_opened(Ok(false)), Err("URL opener failed".to_owned()));
    assert_eq!(url_opened(Err("x".to_owned())), Err("x".to_owned()));
}
