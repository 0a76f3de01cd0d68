//! The decisions of the gateway client.
//!
//! The client itself performs no I/O. An operation starts with a request for
//! the caller to send and a `Session` that remembers what the operation still
//! needs. The caller sends the request and hands the reply, or the failure of
//! the transport, to `advance`, which answers with the next request or with
//! the operation's end. A login or logout thus always fetches a fresh
//! challenge before its parameters are built, and the token lives only
//! inside the one call of `advance` that reads it.

use crate::error::{ErrorView, GatewayError};
use crate::params::{
    build_for_account, params_spec, representable, Operation, RequestParams, RequestParamsView,
};
use crate::response::{
    challenge_spec, outcome_spec, parse_challenge, parse_result, OperationResult,
    OperationResultView,
};
use crate::user::BitUser;
use vstd::prelude::*;
use vstd::string::StringExecFns;

verus! {

/// The gateway that is asked where the caller names no other.
pub const DEFAULT_PORTAL: &'static str = "http://10.0.0.55";

/// The name of the callback shell that the gateway is asked to use.
pub const CALLBACK: &'static str = "jsonp";

/// The protocol's fixed `n` marker.
pub const PROTOCOL_N: &'static str = "200";

/// The protocol's fixed `type` marker.
pub const PROTOCOL_TYPE: &'static str = "1";

/// Seconds after which a request is given up, where the caller names no
/// other limit.
pub const DEFAULT_TIMEOUT_SECS: u64 = 10;

/// The three endpoints of the gateway.
#[derive(Clone, Copy, Debug, PartialEq, Eq, Structural)]
pub enum Endpoint {
    /// Who is online from this address.
    Status,
    /// Issues the token for one login or logout.
    Challenge,
    /// Performs a login or logout.
    Portal,
}

/// The path of an endpoint below the gateway's base address.
pub open spec fn path_text(endpoint: Endpoint) -> Seq<char> {
    match endpoint {
        Endpoint::Status => "/cgi-bin/rad_user_info"@,
        Endpoint::Challenge => "/cgi-bin/get_challenge"@,
        Endpoint::Portal => "/cgi-bin/srun_portal"@,
    }
}

impl Endpoint {
    /// The path of the endpoint below the gateway's base address.
    pub fn path(&self) -> (path: &'static str)
        ensures
            path@ == path_text(*self),
    {
        match self {
            Endpoint::Status => "/cgi-bin/rad_user_info",
            Endpoint::Challenge => "/cgi-bin/get_challenge",
            Endpoint::Portal => "/cgi-bin/srun_portal",
        }
    }
}

/// A GET request for the caller to send: an endpoint and the query
/// parameters, in order.
#[derive(Debug)]
pub struct Request {
    pub endpoint: Endpoint,
    pub query: Vec<(String, String)>,
}

/// The mathematical form of a `Request`.
pub struct RequestView {
    pub endpoint: Endpoint,
    pub query: Seq<(Seq<char>, Seq<char>)>,
}

/// The texts of a sequence of query parameters.
pub open spec fn pairs_view(query: Seq<(String, String)>) -> Seq<(Seq<char>, Seq<char>)> {
    Seq::new(query.len(), |i: int| (query[i].0@, query[i].1@))
}

impl View for Request {
    type V = RequestView;

    open spec fn view(&self) -> RequestView {
        RequestView { endpoint: self.endpoint, query: pairs_view(self.query@) }
    }
}

/// What an operation that has begun is waiting for.
#[derive(Debug)]
pub enum Session {
    /// The reply to a status request.
    AwaitingStatus,
    /// The reply to the status request that tells the client address, for a
    /// login or logout that was started without one.
    AwaitingAddress { credentials: BitUser, operation: Operation, account: u32 },
    /// The reply to the challenge request of a login or logout.
    AwaitingChallenge { credentials: BitUser, operation: Operation, client_ip: String, account: u32 },
    /// The reply to the login or logout request itself.
    AwaitingOutcome,
}

/// The mathematical form of a `Session`.
pub enum SessionView {
    AwaitingStatus,
    AwaitingAddress { username: Seq<char>, password: Seq<char>, operation: Operation, account: u32 },
    AwaitingChallenge {
        username: Seq<char>,
        password: Seq<char>,
        operation: Operation,
        client_ip: Seq<char>,
        account: u32,
    },
    AwaitingOutcome,
}

impl View for Session {
    type V = SessionView;

    open spec fn view(&self) -> SessionView {
        match *self {
            Session::AwaitingStatus => SessionView::AwaitingStatus,
            Session::AwaitingAddress { credentials, operation, account } => {
                SessionView::AwaitingAddress {
                    username: credentials.username@,
                    password: credentials.password@,
                    operation,
                    account,
                }
            },
            Session::AwaitingChallenge { credentials, operation, client_ip, account } => {
                SessionView::AwaitingChallenge {
                    username: credentials.username@,
                    password: credentials.password@,
                    operation,
                    client_ip: client_ip@,
                    account,
                }
            },
            Session::AwaitingOutcome => SessionView::AwaitingOutcome,
        }
    }
}

/// What the caller reports after it has sent a request.
#[derive(Debug)]
pub enum Event {
    /// The body of the gateway's reply.
    Reply(String),
    /// The transport failed; the text describes how.
    Failure(String),
}

/// The mathematical form of an `Event`.
pub enum EventView {
    Reply(Seq<char>),
    Failure(Seq<char>),
}

impl View for Event {
    type V = EventView;

    open spec fn view(&self) -> EventView {
        match *self {
            Event::Reply(body) => EventView::Reply(body@),
            Event::Failure(detail) => EventView::Failure(detail@),
        }
    }
}

/// What the caller is to do next.
#[derive(Debug)]
pub enum Step {
    /// Send the request and report what came of it, with the session given.
    Send(Session, Request),
    /// The operation has ended, with the gateway's result or a failure.
    Done(Result<OperationResult, GatewayError>),
}

/// The mathematical form of a `Step`.
pub enum StepView {
    Send(SessionView, RequestView),
    Done(Result<OperationResultView, ErrorView>),
}

impl View for Step {
    type V = StepView;

    open spec fn view(&self) -> StepView {
        match *self {
            Step::Send(session, request) => StepView::Send(session@, request@),
            Step::Done(outcome) => StepView::Done(
                match outcome {
                    Ok(result) => Ok(result@),
                    Err(error) => Err(error@),
                },
            ),
        }
    }
}

/// The status request.
pub open spec fn status_request() -> RequestView {
    RequestView { endpoint: Endpoint::Status, query: seq![("callback"@, CALLBACK@)] }
}

/// The challenge request of a user at a client address.
pub open spec fn challenge_request(username: Seq<char>, client_ip: Seq<char>) -> RequestView {
    RequestView {
        endpoint: Endpoint::Challenge,
        query: seq![("callback"@, CALLBACK@), ("username"@, username), ("ip"@, client_ip)],
    }
}

/// The login or logout request that carries the given parameters.
pub open spec fn portal_request(params: RequestParamsView) -> RequestView {
    RequestView {
        endpoint: Endpoint::Portal,
        query: seq![
            ("callback"@, CALLBACK@),
            ("action"@, params.action),
            ("username"@, params.username),
            ("password"@, params.password),
            ("ac_id"@, params.account),
            ("ip"@, params.client_ip),
            ("info"@, params.info),
            ("chksum"@, params.checksum),
            ("n"@, PROTOCOL_N@),
            ("type"@, PROTOCOL_TYPE@),
        ],
    }
}

/// How a login or logout begins: with the challenge request where the client
/// address is known, with a status request that tells it where it is not.
/// Credentials outside ASCII end it before anything is sent.
pub open spec fn begin_spec(
    username: Seq<char>,
    password: Seq<char>,
    operation: Operation,
    client_ip: Option<Seq<char>>,
    account: u32,
) -> StepView {
    if !representable(username, password) {
        StepView::Done(Err(ErrorView::Encoding))
    } else {
        match client_ip {
            Some(address) => StepView::Send(
                SessionView::AwaitingChallenge {
                    username,
                    password,
                    operation,
                    client_ip: address,
                    account,
                },
                challenge_request(username, address),
            ),
            None => StepView::Send(
                SessionView::AwaitingAddress { username, password, operation, account },
                status_request(),
            ),
        }
    }
}

/// What follows from an event in a session.
///
/// A failure of the transport ends the operation with that failure. A reply
/// to a status request, or to the login or logout request itself, ends the
/// operation with what the reply stands for. A reply that tells the client
/// address is followed by the challenge request. A reply to the challenge
/// request is followed by the login or logout request, built with the token
/// of that reply; without a usable token the operation ends and nothing more
/// is sent.
pub open spec fn advance_spec(session: SessionView, event: EventView) -> StepView {
    match event {
        EventView::Failure(detail) => StepView::Done(Err(ErrorView::Transport(detail))),
        EventView::Reply(body) => match session {
            SessionView::AwaitingStatus => StepView::Done(outcome_spec(body)),
            SessionView::AwaitingOutcome => StepView::Done(outcome_spec(body)),
            SessionView::AwaitingAddress { username, password, operation, account } => {
                match outcome_spec(body) {
                    Err(error) => StepView::Done(Err(error)),
                    Ok(status) => StepView::Send(
                        SessionView::AwaitingChallenge {
                            username,
                            password,
                            operation,
                            client_ip: status.online_ip,
                            account,
                        },
                        challenge_request(username, status.online_ip),
                    ),
                }
            },
            SessionView::AwaitingChallenge { username, password, operation, client_ip, account } => {
                match challenge_spec(body) {
                    Err(error) => StepView::Done(Err(error)),
                    Ok(token) => if representable(username, password) {
                        StepView::Send(
                            SessionView::AwaitingOutcome,
                            portal_request(
                                params_spec(username, password, token, operation, client_ip, account),
                            ),
                        )
                    } else {
                        StepView::Done(Err(ErrorView::Encoding))
                    },
                }
            },
        },
    }
}

/// A login or logout request is sent only in answer to a challenge reply
/// that holds a usable token: the challenge always comes first, and without
/// a token nothing more is sent.
pub proof fn lemma_portal_request_follows_challenge(session: SessionView, event: EventView)
    requires
        advance_spec(session, event) is Send,
        advance_spec(session, event)->Send_1.endpoint == Endpoint::Portal,
    ensures
        session is AwaitingChallenge,
        event is Reply,
        challenge_spec(event->Reply_0) is Ok,
{
}

/// An operation never begins with the login or logout request itself.
pub proof fn lemma_begin_sends_no_portal_request(
    username: Seq<char>,
    password: Seq<char>,
    operation: Operation,
    client_ip: Option<Seq<char>>,
    account: u32,
)
    ensures
        begin_spec(username, password, operation, client_ip, account) matches StepView::Send(
            _,
            request,
        ) ==> request.endpoint != Endpoint::Portal,
{
}

/// A failure of the transport ends the operation in every session, with
/// that failure.
pub proof fn lemma_transport_failure_ends(session: SessionView, detail: Seq<char>)
    ensures
        advance_spec(session, EventView::Failure(detail)) == StepView::Done(
            Err(ErrorView::Transport(detail)),
        ),
{
}

/// A query parameter.
fn pair(key: &str, value: &str) -> (p: (String, String))
    ensures
        p.0@ == key@,
        p.1@ == value@,
{
    (String::from_str(key), String::from_str(value))
}

/// Makes the status request.
pub fn make_status_request() -> (request: Request)
    ensures
        request@ == status_request(),
{
    let mut query: Vec<(String, String)> = Vec::new();
    query.push(pair("callback", CALLBACK));
    let request = Request { endpoint: Endpoint::Status, query };
    assert(request@.query =~= status_request().query);
    request
}

/// Makes the challenge request of a user at a client address.
pub fn make_challenge_request(username: &str, client_ip: &str) -> (request: Request)
    ensures
        request@ == challenge_request(username@, client_ip@),
{
    let mut query: Vec<(String, String)> = Vec::new();
    query.push(pair("callback", CALLBACK));
    query.push(pair("username", username));
    query.push(pair("ip", client_ip));
    let request = Request { endpoint: Endpoint::Challenge, query };
    assert(request@.query =~= challenge_request(username@, client_ip@).query);
    request
}

/// Makes the login or logout request that carries the given parameters.
pub fn make_portal_request(params: &RequestParams) -> (request: Request)
    ensures
        request@ == portal_request(params@),
{
    let mut query: Vec<(String, String)> = Vec::new();
    query.push(pair("callback", CALLBACK));
    query.push(pair("action", params.action.as_str()));
    query.push(pair("username", params.username.as_str()));
    query.push(pair("password", params.password.as_str()));
    query.push(pair("ac_id", params.account.as_str()));
    query.push(pair("ip", params.client_ip.as_str()));
    query.push(pair("info", params.info.as_str()));
    query.push(pair("chksum", params.checksum.as_str()));
    query.push(pair("n", PROTOCOL_N));
    query.push(pair("type", PROTOCOL_TYPE));
    let request = Request { endpoint: Endpoint::Portal, query };
    assert(request@.query =~= portal_request(params@).query);
    request
}

/// Begins a login or logout.
pub fn begin(
    credentials: BitUser,
    operation: Operation,
    client_ip: Option<String>,
    account: u32,
) -> (step: Step)
    ensures
        step@ == begin_spec(
            credentials.username@,
            credentials.password@,
            operation,
            match client_ip {
                Some(address) => Some(address@),
                None => None,
            },
            account,
        ),
{
    if !credentials.username.as_str().is_ascii() || !credentials.password.as_str().is_ascii() {
        return Step::Done(Err(GatewayError::Encoding));
    }
    match client_ip {
        Some(address) => {
            let request = make_challenge_request(credentials.username.as_str(), address.as_str());
            Step::Send(
                Session::AwaitingChallenge { credentials, operation, client_ip: address, account },
                request,
            )
        },
        None => Step::Send(
            Session::AwaitingAddress { credentials, operation, account },
            make_status_request(),
        ),
    }
}

/// Decides what follows from an event in a session.
pub fn advance(session: Session, event: Event) -> (step: Step)
    ensures
        step@ == advance_spec(session@, event@),
{
    let body = match event {
        Event::Failure(detail) => { return Step::Done(Err(GatewayError::Transport(detail))); },
        Event::Reply(body) => body,
    };
    match session {
        Session::AwaitingStatus => Step::Done(parse_result(body.as_str())),
        Session::AwaitingOutcome => Step::Done(parse_result(body.as_str())),
        Session::AwaitingAddress { credentials, operation, account } => {
            match parse_result(body.as_str()) {
                Err(error) => Step::Done(Err(error)),
                Ok(status) => {
                    let request = make_challenge_request(
                        credentials.username.as_str(),
                        status.online_ip.as_str(),
                    );
                    Step::Send(
                        Session::AwaitingChallenge {
                            credentials,
                            operation,
                            client_ip: status.online_ip,
                            account,
                        },
                        request,
                    )
                },
            }
        },
        Session::AwaitingChallenge { credentials, operation, client_ip, account } => {
            match parse_challenge(body.as_str()) {
                Err(error) => Step::Done(Err(error)),
                Ok(token) => {
                    match build_for_account(
                        &credentials,
                        token.as_str(),
                        operation,
                        client_ip.as_str(),
                        account,
                    ) {
                        Err(error) => Step::Done(Err(error)),
                        Ok(params) => Step::Send(
                            Session::AwaitingOutcome,
                            make_portal_request(&params),
                        ),
                    }
                },
            }
        },
    }
}

/// The client's configuration: read-only once it is made.
#[derive(Debug)]
pub struct GatewayClient {
    /// The gateway's base address, without a path.
    pub base_url: String,
    /// Seconds after which a request is given up.
    pub timeout_secs: u64,
    /// The client address to log in or out, where the caller knows it.
    pub client_ip: Option<String>,
    /// The account id; zero where the caller knows of none.
    pub account: u32,
}

/// The text that an optional string stands for, if any.
pub open spec fn option_text(value: Option<String>) -> Option<Seq<char>> {
    match value {
        Some(s) => Some(s@),
        None => None,
    }
}

impl GatewayClient {
    /// Makes a client for the gateway at `base_url`, or for the default
    /// gateway, with the default time limit and the account id zero.
    pub fn new(base_url: Option<String>, client_ip: Option<String>) -> (client: Self)
        ensures
            client.base_url@ == (match base_url {
                Some(url) => url@,
                None => DEFAULT_PORTAL@,
            }),
            client.timeout_secs == DEFAULT_TIMEOUT_SECS,
            client.client_ip == client_ip,
            client.account == 0,
    {
        let base_url = match base_url {
            Some(url) => url,
            None => String::from_str(DEFAULT_PORTAL),
        };
        GatewayClient { base_url, timeout_secs: DEFAULT_TIMEOUT_SECS, client_ip, account: 0 }
    }

    /// The address of an endpoint at this client's gateway.
    pub fn url(&self, endpoint: Endpoint) -> (url: String)
        ensures
            url@ == self.base_url@ + path_text(endpoint),
    {
        let mut url = self.base_url.clone();
        url.append(endpoint.path());
        url
    }

    /// Begins a status query: the request to send and the session to go on
    /// with.
    pub fn status(&self) -> (step: Step)
        ensures
            step@ == StepView::Send(SessionView::AwaitingStatus, status_request()),
    {
        Step::Send(Session::AwaitingStatus, make_status_request())
    }

    /// Begins a login with the given credentials.
    pub fn login(&self, credentials: BitUser) -> (step: Step)
        ensures
            step@ == begin_spec(
                credentials.username@,
                credentials.password@,
                Operation::Login,
                option_text(self.client_ip),
                self.account,
            ),
    {
        self.start(credentials, Operation::Login)
    }

    /// Begins a logout with the given credentials. Like a login, a logout
    /// always fetches a fresh challenge.
    pub fn logout(&self, credentials: BitUser) -> (step: Step)
        ensures
            step@ == begin_spec(
                credentials.username@,
                credentials.password@,
                Operation::Logout,
                option_text(self.client_ip),
                self.account,
            ),
    {
        self.start(credentials, Operation::Logout)
    }

    fn start(&self, credentials: BitUser, operation: Operation) -> (step: Step)
        ensures
            step@ == begin_spec(
                credentials.username@,
                credentials.password@,
                operation,
                option_text(self.client_ip),
                self.account,
            ),
    {
        let client_ip = match &self.client_ip {
            Some(address) => Some(address.clone()),
            None => None,
        };
        begin(credentials, operation, client_ip, self.account)
    }
}

} // verus!
