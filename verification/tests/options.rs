use luvus_jira::options::{
    priority_options, project_options, status_names, status_options, ticket_priority,
    ticket_project, unique_values,
};
use luvus_jira::ticket::{Fields, NamedValue, StatusValue, Ticket};

fn ticket(key: &str, status: &str, priority: Option<&str>) -> Ticket {
    Ticket {
        key: key.to_owned(),
        fields: Fields {
            summary: "s".to_owned(),
            status: StatusValue { name: status.to_owned(), category: None },
            issuetype: NamedValue { name: "Bug".to_owned() },
            priority: priority.map(|name| NamedValue { name: name.to_owned() }),
            description: None,
            attachments: None,
        },
    }
}

fn strings(list: &[&str]) -> Vec<String> {
    list.iter().map(|s| s.to_string()).collect()
}

fn tickets() -> Vec<Ticket> {
    vec![
        ticket("ABC-1", "Open", Some("High")),
        ticket("ABC-2", "Done", None),
        ticket("XY-7", "Open", Some("Low")),
        ticket("abc-3", "Blocked", Some("High")),
    ]
}

#[test]
fn unique_values_are_sorted_and_occur_once() {
    let lists: [&[&str]; 5] = [
        &[],
        &["b", "a", "b"],
        &["Zeta", "alpha", "Zeta", "", "ä", "a", "aa", "a"],
        &["same", "same", "same"],
        &["\u{ffff}", "\u{10000}", "z"],
    ];
    for list in lists {
        let mut expected = strings(list);
        expected.sort_unstable();
        expected.dedup();
        assert_eq!(unique_values(strings(list)), expected);
        assert_eq!(unique_values(unique_values(strings(list))), expected);
    }
    assert_eq!(unique_values(strings(&["b", "A", "a", "b"])), strings(&["A", "a", "b"]));
}

#[test]
fn neither_order_nor_repetition_matters() {
    assert_eq!(
        unique_values(strings(&["a", "c", "b"])),
        unique_values(strings(&["c", "b", "c", "a", "a"]))
    );
}

#[test]
fn a_project_stands_before_the_dash() {
    assert_eq!(ticket_project(&ticket("ABC-12", "", None)), "ABC");
    assert_eq!(ticket_project(&ticket("LONE", "", None)), "LONE");
    assert_eq!(ticket_project(&ticket("A-B-1", "", None)), "A");
}

#[test]
fn a_missing_priority_is_called_none() {
    assert_eq!(ticket_priority(&ticket("A-1", "", Some("High"))), "High");
    assert_eq!(ticket_priority(&ticket("A-1", "", None)), "None");
}

#[test]
fn the_statuses_of_a_project_are_those_of_its_tickets() {
    let all = tickets();
    let fallback = strings(&["z", "y", "z"]);
    assert_eq!(status_options(&all, "abc", &fallback), strings(&["Blocked", "Done", "Open"]));
    assert_eq!(status_options(&all, "XY", &fallback), strings(&["Open"]));
    assert_eq!(status_options(&all, "", &fallback), strings(&["Blocked", "Done", "Open"]));
}

#[test]
fn a_project_without_tickets_has_the_fallback() {
    let all = tickets();
    let fallback = strings(&["z", "y", "z"]);
    assert_eq!(status_options(&all, "AB", &fallback), fallback);
    assert_eq!(status_options(&[], "", &fallback), fallback);
}

#[test]
fn what_jira_lists_is_kept_as_it_is() {
    let all = tickets();
    let list = strings(&["b", "a", "b"]);
    assert_eq!(project_options(Ok(list.clone()), &all), list);
    assert_eq!(status_names(Ok(list.clone()), &all), list);
    assert_eq!(priority_options(Ok(list.clone()), &all), list);
}

#[test]
fn the_tickets_stand_in_for_jira() {
    let all = tickets();
    let failed = || Err::<Vec<String>, String>("no".to_owned());
    assert_eq!(project_options(failed(), &all), strings(&["ABC", "XY", "abc"]));
    assert_eq!(status_names(failed(), &all), strings(&["Blocked", "Done", "Open"]));
    assert_eq!(priority_options(failed(), &all), strings(&["High", "Low", "None"]));
    assert_eq!(project_options(failed(), &[]), strings(&[]));
}
