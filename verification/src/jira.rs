//! The requests that are made of Jira, and what is made of its answers.

use vstd::prelude::*;
use vstd::utf8::encode_utf8;

use crate::environment::{
    query_or_default, setting, site_url, Environment, API_TOKEN, BASE_URL, EMAIL,
};
use crate::json::{lemma_object_view, Entry, EntryView, Json, JsonView};
use crate::options::{law_unique_list, unique_list, unique_values};
use crate::text::texts;
use crate::ticket::{NamedValue, Ticket, TicketView, Transition, TransitionView};

verus! {

/// Jira's answer to a search for tickets.
#[derive(Debug, PartialEq, Eq)]
pub struct SearchResponse {
    pub issues: Vec<Ticket>,
}

/// Jira's answer to a search for projects.
#[derive(Debug, PartialEq, Eq)]
pub struct ProjectSearchResponse {
    pub values: Vec<Project>,
}

/// A project of Jira's.
#[derive(Debug, PartialEq, Eq)]
pub struct Project {
    pub key: String,
}

/// The statuses that the issues of one type can have in a project.
#[derive(Debug, PartialEq, Eq)]
pub struct ProjectIssueTypeStatuses {
    pub statuses: Vec<NamedValue>,
}

/// Jira's answer to what status changes there are.
#[derive(Debug, PartialEq, Eq)]
pub struct TransitionResponse {
    pub transitions: Vec<Transition>,
}

/// How a request is made.
#[derive(Clone, Copy, Debug, PartialEq, Eq, Structural)]
pub enum Method {
    Get,
    Post,
}

/// A parameter or a header of a request.
#[derive(Debug, PartialEq, Eq)]
pub struct Pair {
    pub name: String,
    pub value: String,
}

/// What a [`Pair`] holds.
#[verifier::ext_equal]
pub struct PairView {
    pub name: Seq<char>,
    pub value: Seq<char>,
}

/// A request to Jira. A body is sent as JSON.
#[derive(Debug, PartialEq, Eq)]
pub struct HttpRequest {
    pub method: Method,
    pub url: String,
    pub query: Vec<Pair>,
    pub headers: Vec<Pair>,
    pub body: Option<Json>,
}

/// What an [`HttpRequest`] holds.
#[verifier::ext_equal]
pub struct RequestView {
    pub method: Method,
    pub url: Seq<char>,
    pub query: Seq<PairView>,
    pub headers: Seq<PairView>,
    pub body: Option<JsonView>,
}

impl View for Pair {
    type V = PairView;

    open spec fn view(&self) -> PairView {
        PairView { name: self.name@, value: self.value@ }
    }
}

/// What pairs hold.
pub open spec fn pairs_view(list: Seq<Pair>) -> Seq<PairView> {
    list.map_values(|pair: Pair| pair@)
}

impl View for HttpRequest {
    type V = RequestView;

    open spec fn view(&self) -> RequestView {
        RequestView {
            method: self.method,
            url: self.url@,
            query: pairs_view(self.query@),
            headers: pairs_view(self.headers@),
            body: match self.body {
                Some(value) => Some(value@),
                None => None,
            },
        }
    }
}

/// What an attempt at a request says.
pub open spec fn attempt(result: Result<HttpRequest, String>) -> Result<RequestView, Seq<char>> {
    match result {
        Ok(request) => Ok(request@),
        Err(message) => Err(message@),
    }
}

/// The digits of base64's standard alphabet, in order.
pub open spec fn base64_digit(n: int) -> char {
    "ABCDEFGHIJKLMNOPQRSTUVWXYZabcdefghijklmnopqrstuvwxyz0123456789+/"@[n]
}

/// Bytes in base64, with the standard alphabet and with padding: three bytes are four digits of
/// six bits each, and what is missing at the end is made up with `=`.
pub open spec fn base64_text(bytes: Seq<u8>) -> Seq<char>
    decreases bytes.len(),
{
    if bytes.len() == 0 {
        seq![]
    } else if bytes.len() == 1 {
        let n = bytes[0] * 16;
        seq![base64_digit(n / 64), base64_digit(n % 64), '=', '=']
    } else if bytes.len() == 2 {
        let n = (bytes[0] * 256 + bytes[1]) * 4;
        seq![base64_digit(n / 4096), base64_digit(n / 64 % 64), base64_digit(n % 64), '=']
    } else {
        let n = bytes[0] * 65536 + bytes[1] * 256 + bytes[2];
        seq![
            base64_digit(n / 262144),
            base64_digit(n / 4096 % 64),
            base64_digit(n / 64 % 64),
            base64_digit(n % 64),
        ] + base64_text(bytes.skip(3))
    }
}

/// `base64::Engine::encode` with the engine `general_purpose::STANDARD`: the standard alphabet
/// of RFC 4648 with padding. Its one documented panic is the overflow of the size of the result,
/// for which no slice is long enough.
#[verifier::external_body]
fn base64_encode(bytes: &[u8]) -> (r: String)
    ensures
        r@ == base64_text(bytes@),
{
    base64::Engine::encode(&base64::engine::general_purpose::STANDARD, bytes)
}

/// The value of the header that tells Jira whose request it is.
pub open spec fn authorization(email: Seq<char>, token: Seq<char>) -> Seq<char> {
    "Basic "@ + base64_text(encode_utf8(email + ":"@ + token))
}

/// The headers of every request.
pub open spec fn headers_for(email: Seq<char>, token: Seq<char>) -> Seq<PairView> {
    seq![
        PairView { name: "Authorization"@, value: authorization(email, token) },
        PairView { name: "Accept"@, value: "application/json"@ },
    ]
}

/// A request of the Jira site that is set, by the account that is set.
pub open spec fn request_to(
    environment: Environment,
    method: Method,
    path: Seq<char>,
    query: Seq<PairView>,
    body: Option<JsonView>,
) -> Result<RequestView, Seq<char>> {
    match environment.site() {
        Err(message) => Err(message),
        Ok(site) => match environment.setting_of(EMAIL@) {
            Err(message) => Err(message),
            Ok(email) => match environment.setting_of(API_TOKEN@) {
                Err(message) => Err(message),
                Ok(token) => Ok(
                    RequestView {
                        method,
                        url: site + path,
                        query,
                        headers: headers_for(email, token),
                        body,
                    },
                ),
            },
        },
    }
}

fn authorization_value(email: &str, token: &str) -> (r: String)
    ensures
        r@ == authorization(email@, token@),
{
    let mut account = email.to_owned();
    account.append(":");
    account.append(token);
    let mut value = "Basic ".to_owned();
    value.append(base64_encode(account.as_str().as_bytes()).as_str());
    value
}

fn pair(name: &str, value: &str) -> (r: Pair)
    ensures
        r@ == (PairView { name: name@, value: value@ }),
{
    Pair { name: name.to_owned(), value: value.to_owned() }
}

fn make_request(
    environment: &Environment,
    method: Method,
    path: &str,
    query: Vec<Pair>,
    body: Option<Json>,
) -> (r: Result<HttpRequest, String>)
    ensures
        attempt(r) == request_to(
            *environment,
            method,
            path@,
            pairs_view(query@),
            match body {
                Some(value) => Some(value@),
                None => None,
            },
        ),
{
    let site = match site_url(environment) {
        Ok(site) => site,
        Err(message) => {
            return Err(message);
        },
    };
    let email = match setting(environment, EMAIL) {
        Ok(email) => email,
        Err(message) => {
            return Err(message);
        },
    };
    let token = match setting(environment, API_TOKEN) {
        Ok(token) => token,
        Err(message) => {
            return Err(message);
        },
    };
    let mut url = site;
    url.append(path);
    let mut headers: Vec<Pair> = Vec::new();
    headers.push(
        pair("Authorization", authorization_value(email.as_str(), token.as_str()).as_str()),
    );
    headers.push(pair("Accept", "application/json"));
    assert(pairs_view(headers@) =~= headers_for(email@, token@));
    Ok(HttpRequest { method, url, query, headers, body })
}

/// A question to Jira: its site is asked for `path`, with `query`.
pub fn jira_request(environment: &Environment, path: &str, query: Vec<Pair>) -> (r: Result<
    HttpRequest,
    String,
>)
    ensures
        attempt(r) == request_to(*environment, Method::Get, path@, pairs_view(query@), None),
{
    make_request(environment, Method::Get, path, query, None)
}

/// The request for the tickets that the query picks: the one that is set, else the default.
pub open spec fn tickets_request_of(environment: Environment) -> Result<RequestView, Seq<char>> {
    request_to(
        environment,
        Method::Get,
        "/rest/api/3/search/jql"@,
        seq![
            PairView { name: "jql"@, value: environment.query() },
            PairView { name: "maxResults"@, value: "50"@ },
            PairView {
                name: "fields"@,
                value: "summary,status,issuetype,priority,description,attachment"@,
            },
        ],
        None,
    )
}

/// The request for the tickets that the query picks: the one that is set, else the default.
pub fn tickets_request(environment: &Environment) -> (r: Result<HttpRequest, String>)
    ensures
        attempt(r) == tickets_request_of(*environment),
{
    let jql = query_or_default(environment);
    let mut query: Vec<Pair> = Vec::new();
    query.push(pair("jql", jql.as_str()));
    query.push(pair("maxResults", "50"));
    query.push(pair("fields", "summary,status,issuetype,priority,description,attachment"));
    assert(pairs_view(query@) =~= seq![
        PairView { name: "jql"@, value: jql@ },
        PairView { name: "maxResults"@, value: "50"@ },
        PairView {
            name: "fields"@,
            value: "summary,status,issuetype,priority,description,attachment"@,
        },
    ]);
    jira_request(environment, "/rest/api/3/search/jql", query)
}

/// The request for the projects.
pub fn projects_request(environment: &Environment) -> (r: Result<HttpRequest, String>)
    ensures
        attempt(r) == request_to(
            *environment,
            Method::Get,
            "/rest/api/3/project/search"@,
            seq![PairView { name: "maxResults"@, value: "1000"@ }],
            None,
        ),
{
    let mut query: Vec<Pair> = Vec::new();
    query.push(pair("maxResults", "1000"));
    assert(pairs_view(query@) =~= seq![PairView { name: "maxResults"@, value: "1000"@ }]);
    jira_request(environment, "/rest/api/3/project/search", query)
}

/// The request for a list of names.
pub fn names_request(environment: &Environment, path: &str) -> (r: Result<HttpRequest, String>)
    ensures
        attempt(r) == request_to(*environment, Method::Get, path@, seq![], None),
{
    let query: Vec<Pair> = Vec::new();
    assert(pairs_view(query@) =~= seq![]);
    jira_request(environment, path, query)
}

/// The request for the names of the statuses.
pub fn statuses_request(environment: &Environment) -> (r: Result<HttpRequest, String>)
    ensures
        attempt(r) == request_to(
            *environment,
            Method::Get,
            "/rest/api/3/status"@,
            seq![],
            None,
        ),
{
    names_request(environment, "/rest/api/3/status")
}

/// The request for the names of the priorities.
pub fn priorities_request(environment: &Environment) -> (r: Result<HttpRequest, String>)
    ensures
        attempt(r) == request_to(
            *environment,
            Method::Get,
            "/rest/api/3/priority"@,
            seq![],
            None,
        ),
{
    names_request(environment, "/rest/api/3/priority")
}

/// The request for the statuses of a project.
pub fn project_statuses_request(environment: &Environment, project: &str) -> (r: Result<
    HttpRequest,
    String,
>)
    ensures
        attempt(r) == request_to(
            *environment,
            Method::Get,
            "/rest/api/3/project/"@ + project@ + "/statuses"@,
            seq![],
            None,
        ),
{
    let mut path = "/rest/api/3/project/".to_owned();
    path.append(project);
    path.append("/statuses");
    names_request(environment, path.as_str())
}

/// Where the status changes of a ticket are asked for and made.
pub open spec fn transitions_path(ticket: TicketView) -> Seq<char> {
    "/rest/api/3/issue/"@ + ticket.key + "/transitions"@
}

fn transitions_path_of(ticket: &Ticket) -> (r: String)
    ensures
        r@ == transitions_path(ticket@),
{
    let mut path = "/rest/api/3/issue/".to_owned();
    path.append(ticket.key.as_str());
    path.append("/transitions");
    path
}

/// The request for the status changes that a ticket can make.
pub fn transitions_request(environment: &Environment, ticket: &Ticket) -> (r: Result<
    HttpRequest,
    String,
>)
    ensures
        attempt(r) == request_to(
            *environment,
            Method::Get,
            transitions_path(ticket@),
            seq![],
            None,
        ),
{
    names_request(environment, transitions_path_of(ticket).as_str())
}

/// The order to make a status change.
pub open spec fn transition_body(transition: TransitionView) -> JsonView {
    JsonView::Object(
        seq![
            EntryView {
                key: "transition"@,
                value: JsonView::Object(
                    seq![EntryView { key: "id"@, value: JsonView::Text(transition.id) }],
                ),
            },
        ],
    )
}

fn object_of(key: &str, value: Json) -> (r: Json)
    ensures
        r@ == JsonView::Object(seq![EntryView { key: key@, value: value@ }]),
{
    let mut entries: Vec<Entry> = Vec::new();
    entries.push(Entry { key: key.to_owned(), value });
    let r = Json::Object(entries);
    proof {
        lemma_object_view(r, entries);
        assert(r@->Object_0 =~= seq![EntryView { key: key@, value: value@ }]);
    }
    r
}

/// The request that makes a status change.
pub fn apply_transition_request(
    environment: &Environment,
    ticket: &Ticket,
    transition: &Transition,
) -> (r: Result<HttpRequest, String>)
    ensures
        attempt(r) == request_to(
            *environment,
            Method::Post,
            transitions_path(ticket@),
            seq![],
            Some(transition_body(transition@)),
        ),
{
    let query: Vec<Pair> = Vec::new();
    assert(pairs_view(query@) =~= seq![]);
    let body = object_of("transition", object_of("id", Json::Text(transition.id.clone())));
    make_request(
        environment,
        Method::Post,
        transitions_path_of(ticket).as_str(),
        query,
        Some(body),
    )
}

/// Why Jira did not do what it was asked: the request could not be made for want of a setting,
/// it could not be sent, or Jira answered it with an error.
#[derive(Debug, PartialEq, Eq)]
pub enum JiraError {
    Setting(String),
    Send(String),
    Status(String),
}

/// Why Jira's answer is not at hand: there is none, or it cannot be read.
#[derive(Debug, PartialEq, Eq)]
pub enum ReadError {
    Jira(JiraError),
    Decode(String),
}

/// What is said of a question that failed, where `unreadable` leads in what is wrong with an
/// answer.
pub open spec fn read_failure(error: ReadError, unreadable: Seq<char>) -> Seq<char> {
    match error {
        ReadError::Jira(JiraError::Setting(message)) => message@,
        ReadError::Jira(JiraError::Send(cause)) => "Jira request failed: "@ + cause@,
        ReadError::Jira(JiraError::Status(cause)) => "Jira returned an error: "@ + cause@,
        ReadError::Decode(cause) => unreadable + cause@,
    }
}

fn read_failure_message(error: ReadError, unreadable: &str) -> (r: String)
    ensures
        r@ == read_failure(error, unreadable@),
{
    match error {
        ReadError::Jira(JiraError::Setting(message)) => message,
        ReadError::Jira(JiraError::Send(cause)) => {
            let mut message = "Jira request failed: ".to_owned();
            message.append(cause.as_str());
            message
        },
        ReadError::Jira(JiraError::Status(cause)) => {
            let mut message = "Jira returned an error: ".to_owned();
            message.append(cause.as_str());
            message
        },
        ReadError::Decode(cause) => {
            let mut message = unreadable.to_owned();
            message.append(cause.as_str());
            message
        },
    }
}

/// The tickets in Jira's answer, or why there are none.
pub fn fetch_tickets(reply: Result<SearchResponse, ReadError>) -> (r: Result<Vec<Ticket>, String>)
    ensures
        match reply {
            Ok(response) => r == Ok::<Vec<Ticket>, String>(response.issues),
            Err(error) => r matches Err(message) && message@ == read_failure(
                error,
                "Invalid Jira response: "@,
            ),
        },
{
    match reply {
        Ok(response) => Ok(response.issues),
        Err(error) => Err(read_failure_message(error, "Invalid Jira response: ")),
    }
}

/// The keys of the projects in Jira's answer, or why there are none.
pub fn fetch_projects(reply: Result<ProjectSearchResponse, ReadError>) -> (r: Result<
    Vec<String>,
    String,
>)
    ensures
        match reply {
            Ok(response) => r matches Ok(keys) && texts(keys@) == response.values@.map_values(
                |project: Project| project.key@,
            ),
            Err(error) => r matches Err(message) && message@ == read_failure(
                error,
                "Invalid Jira project response: "@,
            ),
        },
{
    match reply {
        Ok(response) => {
            let ghost all = response.values@;
            let mut keys: Vec<String> = Vec::new();
            for project in it: response.values
                invariant
                    it.seq() == all,
                    keys@.len() == it.index(),
                    forall|j: int| 0 <= j < it.index() ==> #[trigger] keys@[j]@ == all[j].key@,
            {
                keys.push(project.key);
            }
            assert(texts(keys@) =~= all.map_values(|project: Project| project.key@));
            Ok(keys)
        },
        Err(error) => Err(read_failure_message(error, "Invalid Jira project response: ")),
    }
}

/// The names of named values.
pub open spec fn names_of(values: Seq<NamedValue>) -> Seq<Seq<char>> {
    values.map_values(|value: NamedValue| value.name@)
}

fn take_names(values: Vec<NamedValue>) -> (r: Vec<String>)
    ensures
        texts(r@) == names_of(values@),
{
    let ghost all = values@;
    let mut names: Vec<String> = Vec::new();
    for value in it: values
        invariant
            it.seq() == all,
            names@.len() == it.index(),
            forall|j: int| 0 <= j < it.index() ==> #[trigger] names@[j]@ == all[j].name@,
    {
        names.push(value.name);
    }
    assert(texts(names@) =~= names_of(all));
    names
}

/// The names in Jira's answer, or why there are none.
pub fn fetch_names(reply: Result<Vec<NamedValue>, ReadError>) -> (r: Result<Vec<String>, String>)
    ensures
        match reply {
            Ok(values) => r matches Ok(names) && texts(names@) == names_of(values@),
            Err(error) => r matches Err(message) && message@ == read_failure(
                error,
                "Invalid Jira option response: "@,
            ),
        },
{
    match reply {
        Ok(values) => Ok(take_names(values)),
        Err(error) => Err(read_failure_message(error, "Invalid Jira option response: ")),
    }
}

/// The names of the statuses of all issue types, one type after the other.
pub open spec fn group_names(groups: Seq<ProjectIssueTypeStatuses>) -> Seq<Seq<char>>
    decreases groups.len(),
{
    if groups.len() == 0 {
        seq![]
    } else {
        group_names(groups.drop_last()) + names_of(groups.last().statuses@)
    }
}

/// The statuses of a project in Jira's answer, each once and in ascending order, or why there
/// are none.
pub fn fetch_project_statuses(reply: Result<Vec<ProjectIssueTypeStatuses>, ReadError>) -> (r:
    Result<Vec<String>, String>)
    ensures
        match reply {
            Ok(groups) => r matches Ok(names) && texts(names@) == unique_list(
                group_names(groups@),
            ),
            Err(error) => r matches Err(message) && message@ == read_failure(
                error,
                "Invalid Jira project status response: "@,
            ),
        },
{
    match reply {
        Ok(groups) => {
            let ghost all = groups@;
            let mut names: Vec<String> = Vec::new();
            assert(texts(names@) =~= group_names(all.take(0)));
            for group in it: groups
                invariant
                    it.seq() == all,
                    texts(names@) == group_names(all.take(it.index())),
            {
                let ghost seen = texts(names@);
                let mut more = take_names(group.statuses);
                let ghost added = texts(more@);
                names.append(&mut more);
                proof {
                    assert(texts(names@) =~= seen + added);
                    assert(all.take(it.index() + 1).drop_last() =~= all.take(it.index()));
                }
            }
            assert(all.take(all.len() as int) =~= all);
            Ok(unique_values(names))
        },
        Err(error) => Err(read_failure_message(error, "Invalid Jira project status response: ")),
    }
}

/// The status changes in Jira's answer, or why there are none.
pub fn available_transitions(reply: Result<TransitionResponse, ReadError>) -> (r: Result<
    Vec<Transition>,
    String,
>)
    ensures
        match reply {
            Ok(response) => r == Ok::<Vec<Transition>, String>(response.transitions),
            Err(error) => r matches Err(message) && message@ == read_failure(
                error,
                "Invalid Jira transition response: "@,
            ),
        },
{
    match reply {
        Ok(response) => Ok(response.transitions),
        Err(error) => Err(read_failure_message(error, "Invalid Jira transition response: ")),
    }
}

/// What is said of a status change that failed.
pub open spec fn transition_failure(error: JiraError) -> Seq<char> {
    match error {
        JiraError::Setting(message) => message@,
        JiraError::Send(cause) => "Jira transition failed: "@ + cause@,
        JiraError::Status(cause) => "Jira rejected the status transition: "@ + cause@,
    }
}

/// The name of the status that a ticket has come to, or why it has not.
pub fn apply_transition(reply: Result<(), JiraError>, transition: &Transition) -> (r: Result<
    String,
    String,
>)
    ensures
        match reply {
            Ok(_) => r matches Ok(name) && name@ == transition@.to.name,
            Err(error) => r matches Err(message) && message@ == transition_failure(error),
        },
{
    match reply {
        Ok(_) => Ok(transition.to.name.clone()),
        Err(JiraError::Setting(message)) => Err(message),
        Err(JiraError::Send(cause)) => {
            let mut message = "Jira transition failed: ".to_owned();
            message.append(cause.as_str());
            Err(message)
        },
        Err(JiraError::Status(cause)) => {
            let mut message = "Jira rejected the status transition: ".to_owned();
            message.append(cause.as_str());
            Err(message)
        },
    }
}

/// No request is made unless the site and the account are set, and the first setting that is
/// missing is named.
pub proof fn law_no_request_without_settings(
    environment: Environment,
    method: Method,
    path: Seq<char>,
    query: Seq<PairView>,
    body: Option<JsonView>,
)
    ensures
        ({
            let request = request_to(environment, method, path, query, body);
            let site = environment.setting_of(BASE_URL@);
            let email = environment.setting_of(EMAIL@);
            let token = environment.setting_of(API_TOKEN@);
            &&& request is Ok <==> site is Ok && email is Ok && token is Ok
            &&& site is Err ==> request == Err::<RequestView, Seq<char>>(site->Err_0)
            &&& site is Ok && email is Err ==> request == Err::<RequestView, Seq<char>>(
                email->Err_0,
            )
            &&& site is Ok && email is Ok && token is Err ==> request == Err::<
                RequestView,
                Seq<char>,
            >(token->Err_0)
        }),
{
}

/// The status changes of a ticket are made where they are asked for.
pub proof fn law_transitions_are_made_where_they_are_asked_for(
    environment: Environment,
    ticket: TicketView,
    transition: TransitionView,
)
    ensures
        request_to(environment, Method::Get, transitions_path(ticket), seq![], None) matches Ok(
            asked,
        ) ==> request_to(
            environment,
            Method::Post,
            transitions_path(ticket),
            seq![],
            Some(transition_body(transition)),
        ) == Ok::<RequestView, Seq<char>>(
            RequestView {
                method: Method::Post,
                body: Some(transition_body(transition)),
                ..asked
            },
        ),
{
}

/// A request goes to the site that is set, by the given path, and says whose it is by the account
/// that is set; its query and its body are the given ones.
pub proof fn law_what_a_request_holds(
    environment: Environment,
    method: Method,
    path: Seq<char>,
    query: Seq<PairView>,
    body: Option<JsonView>,
)
    ensures
        request_to(environment, method, path, query, body) matches Ok(request) ==> {
            &&& request.method == method
            &&& environment.site() matches Ok(site) && request.url == site + path
            &&& request.query == query
            &&& request.body == body
            &&& request.headers.len() == 2
            &&& request.headers[0].name == "Authorization"@
            &&& environment.setting_of(EMAIL@) matches Ok(email)
            &&& environment.setting_of(API_TOKEN@) matches Ok(token)
            &&& request.headers[0].value == "Basic "@ + base64_text(
                encode_utf8(email + seq![':'] + token),
            )
            &&& request.headers[1].name == "Accept"@
            &&& request.headers[1].value == "application/json"@
        },
{
    reveal_strlit(":");
    assert(":"@ =~= seq![':']);
}

/// The tickets are asked for by the query, fifty at most, with the fields that the board shows.
pub proof fn law_how_the_tickets_are_asked_for(environment: Environment)
    ensures
        tickets_request_of(environment) matches Ok(request) ==> {
            &&& request.method == Method::Get
            &&& environment.site() matches Ok(site) && request.url == site
                + "/rest/api/3/search/jql"@
            &&& request.query.len() == 3
            &&& request.query[0].name == "jql"@
            &&& request.query[0].value == environment.query()
            &&& request.query[1].name == "maxResults"@
            &&& request.query[1].value == "50"@
            &&& request.query[2].name == "fields"@
            &&& request.query[2].value
                == "summary,status,issuetype,priority,description,attachment"@
            &&& request.body is None
        },
        tickets_request_of(environment) is Ok <==> environment.setting_of(BASE_URL@) is Ok
            && environment.setting_of(EMAIL@) is Ok && environment.setting_of(API_TOKEN@) is Ok,
{
}

/// A status change is asked for and made under the ticket's key, and the order names its id and
/// nothing else.
pub proof fn law_how_a_status_change_is_made(ticket: TicketView, transition: TransitionView)
    ensures
        transitions_path(ticket) == "/rest/api/3/issue/"@ + ticket.key + "/transitions"@,
        transition_body(transition) matches JsonView::Object(outer) && outer.len() == 1
            && outer[0].key == "transition"@ && (outer[0].value matches JsonView::Object(inner)
            && inner.len() == 1 && inner[0].key == "id"@ && inner[0].value == JsonView::Text(
            transition.id,
        )),
{
}

/// Why there is no answer is told by what went wrong: a setting that is missing, a request that was
/// not sent, an answer that is an error, or one that cannot be read.
pub proof fn law_failures_are_told(message: String, unreadable: Seq<char>)
    ensures
        read_failure(ReadError::Jira(JiraError::Setting(message)), unreadable) == message@,
        read_failure(ReadError::Jira(JiraError::Send(message)), unreadable)
            == "Jira request failed: "@ + message@,
        read_failure(ReadError::Jira(JiraError::Status(message)), unreadable)
            == "Jira returned an error: "@ + message@,
        read_failure(ReadError::Decode(message), unreadable) == unreadable + message@,
        transition_failure(JiraError::Setting(message)) == message@,
        transition_failure(JiraError::Send(message)) == "Jira transition failed: "@ + message@,
        transition_failure(JiraError::Status(message)) == "Jira rejected the status transition: "@
            + message@,
{
}

/// The statuses of a project are those of all its issue types, and no others.
pub proof fn law_the_statuses_of_all_issue_types(
    groups: Seq<ProjectIssueTypeStatuses>,
    name: Seq<char>,
)
    ensures
        unique_list(group_names(groups)).contains(name) <==> exists|g: int, s: int|
            0 <= g < groups.len() && 0 <= s < groups[g].statuses@.len()
                && #[trigger] groups[g].statuses@[s].name@ == name,
{
    law_unique_list(group_names(groups));
    lemma_group_names(groups, name);
}

proof fn lemma_group_names(groups: Seq<ProjectIssueTypeStatuses>, name: Seq<char>)
    ensures
        group_names(groups).contains(name) <==> exists|g: int, s: int|
            0 <= g < groups.len() && 0 <= s < groups[g].statuses@.len()
                && #[trigger] groups[g].statuses@[s].name@ == name,
    decreases groups.len(),
{
    let all = group_names(groups);
    if groups.len() > 0 {
        let rest = groups.drop_last();
        let seen = group_names(rest);
        let last = groups.len() - 1;
        let more = names_of(groups[last].statuses@);
        lemma_group_names(rest, name);
        assert(all == seen + more);
        if all.contains(name) {
            let k = choose|k: int| 0 <= k < all.len() && all[k] == name;
            if k < seen.len() {
                assert(seen[k] == name);
                let (g, s) = choose|g: int, s: int|
                    0 <= g < rest.len() && 0 <= s < rest[g].statuses@.len()
                        && #[trigger] rest[g].statuses@[s].name@ == name;
                assert(groups[g].statuses@[s].name@ == name);
            } else {
                let s = k - seen.len();
                assert(groups[last].statuses@[s].name@ == name);
            }
        }
        if exists|g: int, s: int|
            0 <= g < groups.len() && 0 <= s < groups[g].statuses@.len()
                && #[trigger] groups[g].statuses@[s].name@ == name {
            let (g, s) = choose|g: int, s: int|
                0 <= g < groups.len() && 0 <= s < groups[g].statuses@.len()
                    && #[trigger] groups[g].statuses@[s].name@ == name;
            if g < last {
                assert(rest[g].statuses@[s].name@ == name);
                let k = choose|k: int| 0 <= k < seen.len() && seen[k] == name;
                assert(all[k] == name);
            } else {
                assert(all[seen.len() + s] == name);
            }
        }
    }
}

/// The names of named values are theirs, each at its place.
pub proof fn law_names_of(values: Seq<NamedValue>, i: int)
    ensures
        names_of(values).len() == values.len(),
        0 <= i < values.len() ==> names_of(values)[i] == values[i].name@,
{
}

/// The view of a request shows all of it.
pub proof fn law_a_request_is_its_view(request: HttpRequest, message: String, i: int)
    ensures
        request@.method == request.method,
        request@.url == request.url@,
        request@.query.len() == request.query@.len(),
        0 <= i < request.query@.len() ==> request@.query[i].name == request.query@[i].name@
            && request@.query[i].value == request.query@[i].value@,
        request@.headers.len() == request.headers@.len(),
        0 <= i < request.headers@.len() ==> request@.headers[i].name == request.headers@[i].name@
            && request@.headers[i].value == request.headers@[i].value@,
        request.body is None <==> request@.body is None,
        request.body matches Some(body) ==> request@.body == Some(body@),
        attempt(Ok(request)) == Ok::<RequestView, Seq<char>>(request@),
        attempt(Err(message)) == Err::<RequestView, Seq<char>>(message@),
{
}

} // verus!
