//! The environment variables that the host sets for the board, and the settings among them.

use vstd::prelude::*;

use crate::text::{
    law_without_trailing, str_eq, trim, trim_end_matches, trimmed, without_trailing,
};
use crate::ticket::{Ticket, TicketView};

verus! {

/// The variable with the address of the Jira site.
pub const BASE_URL: &'static str = "LUVUS_SETTING_JIRA_BASE_URL";

/// The variable with the mail address of the Jira account.
pub const EMAIL: &'static str = "LUVUS_SETTING_JIRA_EMAIL";

/// The variable with the token of the Jira account.
pub const API_TOKEN: &'static str = "LUVUS_SETTING_JIRA_API_TOKEN";

/// The variable with the query that picks the tickets.
pub const JQL: &'static str = "LUVUS_SETTING_JIRA_JQL";

/// The variable with the project that the board starts with.
pub const PROJECT_KEY: &'static str = "LUVUS_SETTING_JIRA_PROJECT_KEY";

/// The variable with the kind of agent that works on tickets.
pub const AGENT_KIND: &'static str = "LUVUS_SETTING_JIRA_AGENT_KIND";

/// The variable with the path of the host's program.
pub const BIN_PATH: &'static str = "LUVUS_BIN_PATH";

/// The variable with the workspace that the board was opened from.
pub const WORKSPACE_ID: &'static str = "LUVUS_WORKSPACE_ID";

/// The variable with the directory of that workspace.
pub const WORKSPACE_CWD: &'static str = "LUVUS_WORKSPACE_CWD";

/// The variable with the pane that the board runs in.
pub const PANE_ID: &'static str = "LUVUS_PANE_ID";

/// The query that picks the tickets where none is set: those of the account, latest change first.
pub const DEFAULT_JQL: &'static str = "assignee = currentUser() ORDER BY updated DESC";

/// An environment variable.
#[derive(Debug, PartialEq, Eq)]
pub struct Variable {
    pub name: String,
    pub value: String,
}

/// The environment variables that are set, to text.
#[derive(Debug, PartialEq, Eq)]
pub struct Environment {
    pub variables: Vec<Variable>,
}

/// The value of the first variable with the given name.
pub open spec fn value_in(variables: Seq<Variable>, name: Seq<char>) -> Option<Seq<char>>
    decreases variables.len(),
{
    if variables.len() == 0 {
        None
    } else if variables[0].name@ == name {
        Some(variables[0].value@)
    } else {
        value_in(variables.drop_first(), name)
    }
}

/// What a result that holds strings says.
pub open spec fn outcome(result: Result<String, String>) -> Result<Seq<char>, Seq<char>> {
    match result {
        Ok(value) => Ok(value@),
        Err(message) => Err(message@),
    }
}

impl Environment {
    /// The value of a variable, if it is set.
    pub open spec fn value_of(self, name: Seq<char>) -> Option<Seq<char>> {
        value_in(self.variables@, name)
    }

    /// The value of a setting: of a variable that is set and not blank.
    pub open spec fn setting_of(self, name: Seq<char>) -> Result<Seq<char>, Seq<char>> {
        match self.value_of(name) {
            Some(value) => if trimmed(value).len() > 0 {
                Ok(value)
            } else {
                Err("Missing setting: "@ + name)
            },
            None => Err("Missing setting: "@ + name),
        }
    }

    /// The query that picks the tickets: the one that is set, else the default.
    pub open spec fn query(self) -> Seq<char> {
        match self.setting_of(JQL@) {
            Ok(jql) => jql,
            Err(_) => DEFAULT_JQL@,
        }
    }

    /// The address of the Jira site, without slashes at its end.
    pub open spec fn site(self) -> Result<Seq<char>, Seq<char>> {
        match self.setting_of(BASE_URL@) {
            Ok(base) => Ok(without_trailing(base, '/')),
            Err(message) => Err(message),
        }
    }

    /// The value of a variable, if it is set.
    pub fn var(&self, name: &str) -> (r: Option<String>)
        ensures
            r is Some <==> self.value_of(name@) is Some,
            r matches Some(value) ==> self.value_of(name@) == Some(value@),
    {
        let ghost all = self.variables@;
        let mut i: usize = 0;
        assert(all.skip(0) =~= all);
        while i < self.variables.len()
            invariant
                i <= self.variables@.len(),
                all == self.variables@,
                self.value_of(name@) == value_in(all.skip(i as int), name@),
            decreases self.variables@.len() - i,
        {
            if str_eq(self.variables[i].name.as_str(), name) {
                return Some(self.variables[i].value.clone());
            }
            assert(all.skip(i as int).drop_first() =~= all.skip(i + 1));
            i += 1;
        }
        None
    }
}

/// The value of a setting, or that it is missing.
pub fn setting(environment: &Environment, name: &str) -> (r: Result<String, String>)
    ensures
        outcome(r) == environment.setting_of(name@),
{
    if let Some(value) = environment.var(name) {
        let rest = trim(value.as_str());
        if !rest.as_str().is_empty() {
            return Ok(value);
        }
    }
    let mut message = "Missing setting: ".to_owned();
    message.append(name);
    Err(message)
}

/// The query that picks the tickets: the one that is set, else the default.
pub fn query_or_default(environment: &Environment) -> (r: String)
    ensures
        r@ == environment.query(),
{
    match setting(environment, JQL) {
        Ok(jql) => jql,
        Err(_) => DEFAULT_JQL.to_owned(),
    }
}

/// The address of the Jira site, without slashes at its end.
pub fn site_url(environment: &Environment) -> (r: Result<String, String>)
    ensures
        outcome(r) == environment.site(),
{
    match setting(environment, BASE_URL) {
        Ok(base) => Ok(trim_end_matches(base.as_str(), '/')),
        Err(message) => Err(message),
    }
}

/// The address of a ticket's page.
pub open spec fn url_of(environment: Environment, ticket: TicketView) -> Result<
    Seq<char>,
    Seq<char>,
> {
    match environment.site() {
        Ok(site) => Ok(site + "/browse/"@ + ticket.key),
        Err(message) => Err(message),
    }
}

/// The address of a ticket's page.
pub fn ticket_url(environment: &Environment, ticket: &Ticket) -> (r: Result<String, String>)
    ensures
        outcome(r) == url_of(*environment, ticket@),
{
    match site_url(environment) {
        Ok(site) => {
            let mut url = site;
            url.append("/browse/");
            url.append(ticket.key.as_str());
            Ok(url)
        },
        Err(message) => Err(message),
    }
}

/// Slashes at the end of the site's address make no difference.
pub proof fn law_trailing_slashes_make_no_difference(base: Seq<char>)
    ensures
        without_trailing(base.push('/'), '/') == without_trailing(base, '/'),
        without_trailing(base, '/').len() > 0 ==> without_trailing(base, '/').last() != '/',
    decreases base.len(),
{
    assert(base.push('/').drop_last() =~= base);
    if base.len() > 0 && base.last() == '/' {
        law_trailing_slashes_make_no_difference(base.drop_last());
    }
}

/// A blank setting is a missing one.
pub proof fn law_a_blank_setting_is_missing(environment: Environment, name: Seq<char>)
    ensures
        environment.setting_of(name) is Ok <==> (environment.value_of(name) matches Some(value)
            && trimmed(value).len() > 0),
        environment.setting_of(name) matches Ok(value) ==> environment.value_of(name) == Some(
            value,
        ),
        environment.setting_of(name) matches Err(message) ==> message == "Missing setting: "@
            + name,
{
}

/// The query that picks the tickets is never blank, whatever is set.
pub proof fn law_the_query_is_never_blank(environment: Environment)
    ensures
        trimmed(environment.query()).len() > 0,
{
    reveal_strlit("assignee = currentUser() ORDER BY updated DESC");
}

/// A variable has the value of the first one of its name, and none where there is no such variable.
pub proof fn law_the_first_variable_counts(environment: Environment, name: Seq<char>, i: int)
    ensures
        0 <= i < environment.variables@.len() && environment.variables@[i].name@ == name && (forall|
            j: int,
        |
            0 <= j < i ==> #[trigger] environment.variables@[j].name@ != name)
            ==> environment.value_of(name) == Some(environment.variables@[i].value@),
        (forall|j: int|
            0 <= j < environment.variables@.len() ==> #[trigger] environment.variables@[j].name@
                != name) ==> environment.value_of(name) is None,
{
    lemma_value_in(environment.variables@, name, i);
}

proof fn lemma_value_in(variables: Seq<Variable>, name: Seq<char>, i: int)
    ensures
        0 <= i < variables.len() && variables[i].name@ == name && (forall|j: int|
            0 <= j < i ==> #[trigger] variables[j].name@ != name) ==> value_in(variables, name)
            == Some(variables[i].value@),
        (forall|j: int| 0 <= j < variables.len() ==> #[trigger] variables[j].name@ != name)
            ==> value_in(variables, name) is None,
    decreases variables.len(),
{
    if variables.len() > 0 {
        let rest = variables.drop_first();
        lemma_value_in(rest, name, i - 1);
        if forall|j: int| 0 <= j < variables.len() ==> #[trigger] variables[j].name@ != name {
            assert forall|j: int| 0 <= j < rest.len() implies #[trigger] rest[j].name@ != name by {
                assert(variables[j + 1].name@ != name);
            }
            assert(variables[0].name@ != name);
        }
        if 0 < i < variables.len() && variables[i].name@ == name && (forall|j: int|
            0 <= j < i ==> #[trigger] variables[j].name@ != name) {
            assert forall|j: int| 0 <= j < i - 1 implies #[trigger] rest[j].name@ != name by {
                assert(variables[j + 1].name@ != name);
            }
            assert(variables[0].name@ != name);
        }
    }
}

/// The site and the address of a ticket are made from the setting as it is, but for the slashes at
/// its end; and without the setting there is neither.
pub proof fn law_addresses(environment: Environment, ticket: TicketView)
    ensures
        environment.setting_of(BASE_URL@) matches Ok(base) ==> {
            &&& environment.site() matches Ok(site)
            &&& site.len() <= base.len()
            &&& site == base.take(site.len() as int)
            &&& forall|i: int| site.len() <= i < base.len() ==> #[trigger] base[i] == '/'
            &&& site.len() > 0 ==> site.last() != '/'
            &&& url_of(environment, ticket) == Ok::<Seq<char>, Seq<char>>(
                site + "/browse/"@ + ticket.key,
            )
        },
        environment.setting_of(BASE_URL@) matches Err(message) ==> environment.site() == Err::<
            Seq<char>,
            Seq<char>,
        >(message) && url_of(environment, ticket) == Err::<Seq<char>, Seq<char>>(message),
{
    if let Ok(base) = environment.setting_of(BASE_URL@) {
        law_without_trailing(base, '/');
    }
}

/// The query is the one that is set, as it is, and the default where none is set or it is blank.
pub proof fn law_the_query(environment: Environment)
    ensures
        environment.value_of(JQL@) matches Some(jql) ==> (trimmed(jql).len() > 0
            ==> environment.query() == jql),
        environment.value_of(JQL@) matches Some(jql) ==> (trimmed(jql).len() == 0
            ==> environment.query() == "assignee = currentUser() ORDER BY updated DESC"@),
        environment.value_of(JQL@) is None ==> environment.query()
            == "assignee = currentUser() ORDER BY updated DESC"@,
{
}

/// What a result says is what it holds.
pub proof fn law_outcomes(value: String, message: String)
    ensures
        outcome(Ok(value)) == Ok::<Seq<char>, Seq<char>>(value@),
        outcome(Err(message)) == Err::<Seq<char>, Seq<char>>(message@),
{
}

} // verus!
