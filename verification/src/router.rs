//! The pipeline: every request is routed, gets the configuration context on
//! its way in, and its response gets the cross-origin headers on its way out.
//! What has to be done outside (listing the interfaces, reading and writing the
//! file, activating the firewall) is handed out as an action, and the exchange
//! goes on with the event that says how it ended.

use crate::config::{Config, ConfigMiddleware};
use crate::config_routes::{
    canonical, error_response, get_config, get_config_filename, ok_response, outcome_response,
    outcome_view, put_config, put_config_stored, Replace, Stored,
};
use crate::cors_middleware::{
    carries, cors_headers, default_methods, lemma_headers_present, CORSMiddleware, CorsView,
    ACCESS_CONTROL_ALLOW_ORIGIN,
};
use crate::http::{lookup, Method, Response, ResponseView, State, StateView, STATUS_OK};
use crate::interfaces_routes::get_interfaces;
use crate::json::{find, json_read, JsonView};
use crate::models::InterfaceVec;
use crate::wire::{views, Key, SchemaError, Wire};
use vstd::prelude::*;

verus! {

/// The routes. There are no others.
#[derive(Clone, Copy, Debug, PartialEq, Eq, Structural)]
pub enum Route {
    /// `GET /interfaces`
    Interfaces,
    /// `GET /config`
    ReadConfig,
    /// `PUT /config`
    ReplaceConfig,
}

/// The route of a request, where there is one for its method and path.
pub open spec fn route_of(method: Method, path: Seq<char>) -> Option<Route> {
    if method == Method::Get && path == "/interfaces"@ {
        Some(Route::Interfaces)
    } else if method == Method::Get && path == "/config"@ {
        Some(Route::ReadConfig)
    } else if method == Method::Put && path == "/config"@ {
        Some(Route::ReplaceConfig)
    } else {
        None
    }
}

/// The state of a request after the configuration context is attached.
pub open spec fn attached(state: StateView, config_file: Seq<char>) -> StateView {
    StateView { origin: state.origin, config_file: Some(config_file) }
}

/// The response after the cross-origin policy is applied.
pub open spec fn answered(policy: CorsView, state: StateView, response: ResponseView) -> ResponseView {
    ResponseView { headers: cors_headers(policy, state.origin, response.headers), ..response }
}

/// What an exchange waits for.
#[derive(Debug, PartialEq, Eq)]
pub enum Pending {
    /// The names of the host's interfaces.
    Interfaces,
    /// The content of the configuration file.
    Content,
    /// The body of the request; the document will go to the file at `path`.
    Body { path: String },
    /// The outcome of writing `text` to the configuration file.
    Stored { text: String },
    /// The end of the activation; `response` is then the answer.
    Activated { response: Response },
}

/// A request on its way through the pipeline.
#[derive(Debug, PartialEq, Eq)]
pub struct Exchange {
    pub state: State,
    pub pending: Pending,
}

/// What is to be done outside before the exchange can go on.
#[derive(Debug, PartialEq, Eq)]
pub enum Action {
    /// List the interfaces of the host.
    ListInterfaces,
    /// Read the file at `path` as text.
    ReadFile { path: String },
    /// Collect the whole body of the request.
    CollectBody,
    /// Write `text` to the file at `path`, in place of what is there.
    WriteFile { path: String, text: String },
    /// Activate the firewall.
    Activate,
}

/// How what was done outside ended.
#[derive(Debug, PartialEq, Eq)]
pub enum Event {
    /// The names of the interfaces, in the host's order.
    Interfaces(Vec<String>),
    /// The content of the file, or why it could not be read.
    Content(Result<String, String>),
    /// The body, or why it could not be collected.
    Body(Result<Vec<u8>, String>),
    /// The file is written, or why it could not be.
    Stored(Result<(), String>),
    /// The activation has ended; how is not asked.
    Activated,
}

/// How an exchange goes on.
#[derive(Debug, PartialEq, Eq)]
pub enum Step {
    /// The action is to be done, and the exchange resumed with its event.
    Perform(Exchange, Action),
    /// The exchange ends with this response.
    Respond(Response),
}

/// The pipeline and the routes behind it.
#[derive(Debug)]
pub struct Router {
    pub config: ConfigMiddleware,
    pub cors: CORSMiddleware,
}

/// The pipeline of the service: the configuration context first, then the
/// cross-origin policy that holds where none is configured.
pub fn router(config: Config) -> (res: Router)
    ensures
        res.config@ == config@,
        res.cors@ == (CorsView { methods: default_methods(), origin: None, max_age: 86400 }),
{
    let config_middleware = ConfigMiddleware::new(config);
    let cors_middleware = CORSMiddleware::default();
    Router { config: config_middleware, cors: cors_middleware }
}

fn same(a: &str, b: &str) -> (res: bool)
    ensures
        res == (a@ == b@),
{
    String::from_str(a) == String::from_str(b)
}

impl Router {
    /// The route of a request, where there is one.
    pub fn route(method: Method, path: &str) -> (res: Option<Route>)
        ensures
            res == route_of(method, path@),
    {
        if method == Method::Get && same(path, "/interfaces") {
            Some(Route::Interfaces)
        } else if method == Method::Get && same(path, "/config") {
            Some(Route::ReadConfig)
        } else if method == Method::Put && same(path, "/config") {
            Some(Route::ReplaceConfig)
        } else {
            None
        }
    }

    /// Takes a request in. Where it has no route, nothing begins. Else the
    /// configuration context is attached, and the route's handler says what it
    /// needs first.
    pub fn begin(&self, method: Method, path: &str, state: State) -> (res: Option<
        (Exchange, Action),
    >)
        ensures
            match route_of(method, path@) {
                None => res is None,
                Some(Route::Interfaces) => {
                    &&& res matches Some((x, Action::ListInterfaces))
                    &&& x.state@ == attached(state@, self.config@)
                    &&& x.pending is Interfaces
                },
                Some(Route::ReadConfig) => {
                    &&& res matches Some((x, Action::ReadFile { path: file }))
                    &&& x.state@ == attached(state@, self.config@)
                    &&& x.pending is Content
                    &&& file@ == self.config@
                },
                Some(Route::ReplaceConfig) => {
                    &&& res matches Some((x, Action::CollectBody))
                    &&& x.state@ == attached(state@, self.config@)
                    &&& x.pending matches Pending::Body { path: file }
                    &&& file@ == self.config@
                },
            },
    {
        match Router::route(method, path) {
            None => None,
            Some(route) => {
                let state = self.config.call(state);
                match route {
                    Route::Interfaces => Some(
                        (Exchange { state, pending: Pending::Interfaces }, Action::ListInterfaces),
                    ),
                    Route::ReadConfig => {
                        let file = String::from_str(get_config_filename(&state));
                        Some(
                            (
                                Exchange { state, pending: Pending::Content },
                                Action::ReadFile { path: file },
                            ),
                        )
                    },
                    Route::ReplaceConfig => {
                        let file = String::from_str(get_config_filename(&state));
                        Some(
                            (
                                Exchange { state, pending: Pending::Body { path: file } },
                                Action::CollectBody,
                            ),
                        )
                    },
                }
            },
        }
    }

    /// Goes on with an exchange, given the event that it waited for. An event
    /// that it did not wait for gives nothing. Every response that ends an
    /// exchange has passed the cross-origin policy.
    pub fn resume(&self, exchange: Exchange, event: Event) -> (res: Option<Step>)
        ensures
            res matches Some(Step::Respond(r)) ==> carries(
                self.cors@,
                exchange.state@.origin,
                r@.headers,
            ),
            match (exchange.pending, event) {
                (Pending::Interfaces, Event::Interfaces(names)) => {
                    &&& res matches Some(Step::Respond(r))
                    &&& r@ == answered(
                        self.cors@,
                        exchange.state@,
                        ok_response(InterfaceVec::to_tree(views(names@)).text()),
                    )
                },
                (Pending::Content, Event::Content(content)) => {
                    &&& res matches Some(Step::Respond(r))
                    &&& r@ == answered(
                        self.cors@,
                        exchange.state@,
                        outcome_response(outcome_view(content)),
                    )
                },
                (Pending::Body { path }, Event::Body(Err(message))) => {
                    &&& res matches Some(Step::Respond(r))
                    &&& r@ == answered(self.cors@, exchange.state@, error_response(message@))
                },
                (Pending::Body { path }, Event::Body(Ok(bytes))) => match canonical(
                    json_read(bytes@),
                ) {
                    Ok(t) => {
                        &&& res matches Some(
                            Step::Perform(x, Action::WriteFile { path: file, text }),
                        )
                        &&& x.state == exchange.state
                        &&& x.pending == (Pending::Stored { text: text })
                        &&& file == path
                        &&& text@ == t
                    },
                    Err(message) => {
                        &&& res matches Some(Step::Respond(r))
                        &&& r@ == answered(self.cors@, exchange.state@, error_response(message))
                        &&& message.len() > 0
                    },
                },
                (Pending::Stored { text }, Event::Stored(Ok(_))) => {
                    &&& res matches Some(Step::Perform(x, Action::Activate))
                    &&& x.state == exchange.state
                    &&& x.pending matches Pending::Activated { response }
                    &&& response@ == ok_response(text@)
                },
                (Pending::Stored { text }, Event::Stored(Err(message))) => {
                    &&& res matches Some(Step::Respond(r))
                    &&& r@ == answered(self.cors@, exchange.state@, error_response(message@))
                },
                (Pending::Activated { response }, Event::Activated) => {
                    &&& res matches Some(Step::Respond(r))
                    &&& r@ == answered(self.cors@, exchange.state@, response@)
                },
                _ => res is None,
            },
    {
        let Exchange { state, pending } = exchange;
        match (pending, event) {
            (Pending::Interfaces, Event::Interfaces(names)) => {
                let (state, interfaces) = get_interfaces(state, names);
                let response = interfaces.into_response();
                Some(Step::Respond(self.cors.call(&state, response)))
            },
            (Pending::Content, Event::Content(content)) => {
                let (state, response) = get_config(state, content);
                Some(Step::Respond(self.cors.call(&state, response)))
            },
            (Pending::Body { path }, Event::Body(body)) => {
                let (state, decision) = put_config(state, body);
                match decision {
                    Replace::Store { text } => {
                        let copy = text.clone();
                        Some(
                            Step::Perform(
                                Exchange { state, pending: Pending::Stored { text: copy } },
                                Action::WriteFile { path, text },
                            ),
                        )
                    },
                    Replace::Reject(response) => Some(
                        Step::Respond(self.cors.call(&state, response)),
                    ),
                }
            },
            (Pending::Stored { text }, Event::Stored(written)) => {
                let (state, decision) = put_config_stored(state, text, written);
                match decision {
                    Stored::Activate(response) => Some(
                        Step::Perform(
                            Exchange { state, pending: Pending::Activated { response } },
                            Action::Activate,
                        ),
                    ),
                    Stored::Fail(response) => Some(
                        Step::Respond(self.cors.call(&state, response)),
                    ),
                }
            },
            (Pending::Activated { response }, Event::Activated) => {
                Some(Step::Respond(self.cors.call(&state, response)))
            },
            _ => None,
        }
    }
}

/// Every response that has passed the pipeline carries the five cross-origin
/// headers, each once, whatever its status and its route, and is else as the
/// handler made it; where neither the policy nor the request names an origin,
/// the allowed origin is `*`.
pub proof fn lemma_answer_has_headers(policy: CorsView, state: StateView, response: ResponseView)
    ensures
        ({
            let out = answered(policy, state, response);
            &&& out.status == response.status
            &&& out.mime == response.mime
            &&& out.body == response.body
            &&& carries(policy, state.origin, out.headers)
            &&& policy.origin is None && state.origin is None ==> lookup(
                out.headers,
                ACCESS_CONTROL_ALLOW_ORIGIN@,
            ) == Some("*"@)
        }),
{
    lemma_headers_present(policy, state.origin, response.headers);
}

/// A read that follows a replacement answers with the text that the
/// replacement stored and answered with: the canonical text of the document,
/// with nothing changed on the way.
pub proof fn lemma_read_after_replace(
    policy: CorsView,
    writer: StateView,
    reader: StateView,
    read: Result<JsonView, Seq<char>>,
)
    requires
        canonical(read) is Ok,
    ensures
        ({
            let stored = canonical(read)->Ok_0;
            let replaced = answered(policy, writer, ok_response(stored));
            let fetched = answered(policy, reader, outcome_response(Ok(stored)));
            &&& fetched.status == STATUS_OK
            &&& fetched.body == stored
            &&& fetched.body == replaced.body
        }),
{
}

/// A body that is no JSON has no canonical text: its message is the JSON
/// reader's. So the exchange ends with the error, and neither is anything
/// written nor the firewall activated.
pub proof fn lemma_invalid_json_rejected(read: Result<JsonView, Seq<char>>)
    requires
        read is Err,
    ensures
        canonical(read) == Err::<Seq<char>, Seq<char>>(read->Err_0),
{
}

/// A body whose document lacks a member that must be there has no canonical
/// text.
pub proof fn lemma_incomplete_document_rejected(members: Seq<(Seq<char>, JsonView)>)
    requires
        find(members, Key::Description.name()) is None || find(members, Key::Zone.name()) is None
            || find(members, Key::Policy.name()) is None,
    ensures
        canonical(Ok(JsonView::Object(members))) is Err,
        find(members, Key::Description.name()) is None ==> canonical(
            Ok(JsonView::Object(members)),
        ) == Err::<Seq<char>, Seq<char>>(SchemaError::Missing(Key::Description).text()),
{
}

} // verus!
