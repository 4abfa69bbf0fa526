use luvus_jira::filters::{cycle_filter, filter_tickets, FilterKind, Filters};
use luvus_jira::json::parse;
use luvus_jira::ticket::{Fields, NamedValue, StatusValue, Ticket};

fn ticket(key: &str, summary: &str, status: &str, priority: Option<&str>) -> Ticket {
    Ticket {
        key: key.to_owned(),
        fields: Fields {
            summary: summary.to_owned(),
            status: StatusValue { name: status.to_owned(), category: None },
            issuetype: NamedValue { name: "Bug".to_owned() },
            priority: priority.map(|name| NamedValue { name: name.to_owned() }),
            description: None,
            attachments: None,
        },
    }
}

fn tickets() -> Vec<Ticket> {
    let mut list = vec![
        ticket("ABC-1", "Login fails", "Open", Some("High")),
        ticket("ABC-2", "Größe ändern", "In Progress", None),
        ticket("XY-3", "Crash on start", "Done", Some("Low")),
    ];
    list[2].fields.description =
        Some(parse(br#"{"type": "paragraph", "text": "since the LOGIN rework"}"#).unwrap());
    list
}

fn keys(list: &[Ticket]) -> Vec<&str> {
    list.iter().map(|ticket| ticket.key.as_str()).collect()
}

fn strings(list: &[&str]) -> Vec<String> {
    list.iter().map(|s| s.to_string()).collect()
}

#[test]
fn a_committed_search_is_kept() {
    let mut filters = Filters::new();
    filters.begin(FilterKind::Search);
    filters.input.push('a');
    assert_eq!(filters.value(FilterKind::Search), "a");
    filters.commit();
    assert_eq!(filters.value(FilterKind::Search), "a");
    assert_eq!(filters.input, "");
    assert_eq!(filters.active, None);
}

#[test]
fn committing_sets_the_edited_filter_alone() {
    for kind in
        [FilterKind::Search, FilterKind::Project, FilterKind::Status, FilterKind::Priority]
    {
        let mut filters = Filters::with_project("P".to_owned());
        filters.begin(kind);
        filters.input.push_str("new");
        let expected = if kind == FilterKind::Project { "Pnew" } else { "new" };
        filters.commit();
        for other in
            [FilterKind::Search, FilterKind::Project, FilterKind::Status, FilterKind::Priority]
        {
            let value = if other == kind {
                expected
            } else if other == FilterKind::Project {
                "P"
            } else {
                ""
            };
            assert_eq!(filters.value(other), value);
        }
    }
}

#[test]
fn beginning_and_committing_changes_nothing() {
    let mut filters = Filters::with_project("P".to_owned());
    filters.begin(FilterKind::Project);
    assert_eq!(filters.input, "P");
    filters.commit();
    assert_eq!(filters, Filters::with_project("P".to_owned()));
    filters.commit();
    assert_eq!(filters, Filters::with_project("P".to_owned()));
}

#[test]
fn empty_filters_let_every_ticket_through() {
    let all = tickets();
    assert_eq!(filter_tickets(&all, &Filters::new()), all);
}

#[test]
fn the_search_looks_at_key_summary_and_description() {
    let all = tickets();
    let mut filters = Filters::new();
    filters.search = "LOGIN".to_owned();
    assert_eq!(keys(&filter_tickets(&all, &filters)), vec!["ABC-1", "XY-3"]);
    filters.search = "abc-2 GRÖSSE".to_owned();
    assert_eq!(keys(&filter_tickets(&all, &filters)), Vec::<&str>::new());
    filters.search = "ABC-2 GRÖß".to_owned();
    assert_eq!(keys(&filter_tickets(&all, &filters)), vec!["ABC-2"]);
    filters.search = "start since".to_owned();
    assert_eq!(keys(&filter_tickets(&all, &filters)), vec!["XY-3"]);
}

#[test]
fn each_filter_looks_at_its_own_field() {
    let all = tickets();
    let mut filters = Filters::with_project("b".to_owned());
    assert_eq!(keys(&filter_tickets(&all, &filters)), vec!["ABC-1", "ABC-2"]);
    filters.status = "PROG".to_owned();
    assert_eq!(keys(&filter_tickets(&all, &filters)), vec!["ABC-2"]);
    filters.priority = "none".to_owned();
    assert_eq!(keys(&filter_tickets(&all, &filters)), vec!["ABC-2"]);
    filters.priority = "high".to_owned();
    assert_eq!(keys(&filter_tickets(&all, &filters)), Vec::<&str>::new());
}

#[test]
fn filtering_again_changes_nothing() {
    let all = tickets();
    let filters = Filters::with_project("abc".to_owned());
    let once = filter_tickets(&all, &filters);
    assert_eq!(filter_tickets(&once, &filters), once);
}

#[test]
fn what_is_typed_does_not_filter() {
    let all = tickets();
    let mut filters = Filters::new();
    filters.begin(FilterKind::Search);
    filters.input.push_str("nothing has this");
    assert_eq!(filter_tickets(&all, &filters), all);
}

#[test]
fn cycling_visits_the_options_in_turn() {
    let options = strings(&["A", "B", "C"]);
    let mut filters = Filters::new();
    let mut seen: Vec<String> = Vec::new();
    for _ in 0..5 {
        cycle_filter(&mut filters, FilterKind::Status, &options);
        seen.push(filters.status.clone());
    }
    assert_eq!(seen, strings(&["A", "B", "C", "A", "B"]));
    assert_eq!(filters.project, "");
    assert_eq!(filters.search, "");
    assert_eq!(filters.priority, "");
}

#[test]
fn cycling_starts_over_from_an_unknown_value() {
    let mut filters = Filters::with_project("gone".to_owned());
    cycle_filter(&mut filters, FilterKind::Project, &strings(&["A", "B"]));
    assert_eq!(filters.project, "A");
}

#[test]
fn cycling_through_nothing_changes_nothing() {
    let mut filters = Filters::with_project("P".to_owned());
    cycle_filter(&mut filters, FilterKind::Project, &[]);
    assert_eq!(filters, Filters::with_project("P".to_owned()));
}

#[test]
fn cycling_goes_on_from_what_is_shown() {
    let options = strings(&["A", "B", "C"]);
    let mut filters = Filters::new();
    filters.search = "A".to_owned();
    filters.begin(FilterKind::Search);
    filters.input = "B".to_owned();
    cycle_filter(&mut filters, FilterKind::Search, &options);
    assert_eq!(filters.search, "C");
    assert_eq!(filters.input, "B");
}

#[test]
fn ascii_case_makes_no_difference() {
    let all = tickets();
    let mut filters = Filters::new();
    filters.search = "CRASH".to_owned();
    let upper = filter_tickets(&all, &filters);
    filters.search = "crash".to_owned();
    assert_eq!(filter_tickets(&all, &filters), upper);
    assert_eq!(keys(&upper), vec!["XY-3"]);
}

#[test]
fn cycling_comes_back_after_each_option_once() {
    let options = strings(&["A", "B", "C"]);
    for start in ["", "A", "B", "C", "gone"] {
        let mut filters = Filters::with_project(start.to_owned());
        let mut seen: Vec<String> = Vec::new();
        for _ in 0..3 {
            cycle_filter(&mut filters, FilterKind::Project, &options);
            seen.push(filters.project.clone());
        }
        if options.iter().any(|option| option == start) {
            assert_eq!(filters.project, start);
        } else {
            assert_eq!(seen, options);
        }
        seen.sort_unstable();
        assert_eq!(seen, options);
    }
}

#[test]
fn clearing_a_filter_hides_no_ticket() {
    let all = tickets();
    let mut filters = Filters::with_project("abc".to_owned());
    filters.status = "open".to_owned();
    assert_eq!(keys(&filter_tickets(&all, &filters)), vec!["ABC-1"]);
    filters.status = String::new();
    assert_eq!(keys(&filter_tickets(&all, &filters)), vec!["ABC-1", "ABC-2"]);
    filters.project = String::new();
    assert_eq!(keys(&filter_tickets(&all, &filters)), vec!["ABC-1", "ABC-2", "XY-3"]);
}
