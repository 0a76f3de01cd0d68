use bitsrun::client::{
    advance, begin, make_challenge_request, make_portal_request, make_status_request, Endpoint,
    Event, GatewayClient, Request, Session, Step,
};
use bitsrun::error::GatewayError;
use bitsrun::params::{build, Operation};
use bitsrun::user::BitUser;

fn user(username: &str, password: &str) -> BitUser {
    BitUser { username: username.to_string(), password: password.to_string() }
}

fn query_of(request: &Request) -> Vec<(&str, &str)> {
    request.query.iter().map(|(k, v)| (k.as_str(), v.as_str())).collect()
}

fn client_at(ip: &str) -> GatewayClient {
    GatewayClient::new(None, Some(ip.to_string()))
}

#[test]
fn login_without_token_fails_before_the_operation_request() {
    let step = client_at("10.0.0.2").login(user("u1", "p1"));
    let (session, request) = match step {
        Step::Send(session, request) => (session, request),
        Step::Done(_) => panic!("a login begins with a request"),
    };
    assert_eq!(request.endpoint, Endpoint::Challenge);
    assert_eq!(
        query_of(&request),
        vec![("callback", "jsonp"), ("username", "u1"), ("ip", "10.0.0.2")]
    );
    let step = advance(session, Event::Reply("{\"error\":\"ok\"}".to_string()));
    assert!(matches!(step, Step::Done(Err(GatewayError::Challenge))));
}

#[test]
fn login_runs_challenge_then_operation() {
    let step = client_at("10.0.0.2").login(user("u1", "p1"));
    let session = match step {
        Step::Send(session, _) => session,
        Step::Done(_) => panic!("a login begins with a request"),
    };
    assert!(matches!(session, Session::AwaitingChallenge { .. }));
    let reply = "jsonp({\"challenge\":\"abcd1234\",\"error\":\"ok\"})".to_string();
    let (session, request) = match advance(session, Event::Reply(reply)) {
        Step::Send(session, request) => (session, request),
        Step::Done(_) => panic!("the token is followed by the login request"),
    };
    assert!(matches!(session, Session::AwaitingOutcome));
    assert_eq!(request.endpoint, Endpoint::Portal);
    assert_eq!(
        query_of(&request),
        vec![
            ("callback", "jsonp"),
            ("action", "login"),
            ("username", "u1"),
            ("password", "0UqHkzSDUmY="),
            ("ac_id", "0"),
            ("ip", "10.0.0.2"),
            (
                "info",
                "{SRBX1}/WHW+EGarWDaOm/Yq3S9kQg4nq8/WP/0TxsigNEzmtSLgYJy57kiR3aCvXjlm2B++IRJFMchql8XKh4JQUeB7fjL/x+q/f9cPYyq3rT/Ghc1T6Bw9CQ5alEaoW75MDg8++oiuv=="
            ),
            ("chksum", "aeaa6c33cd33ed99093970560573babdbab2a811"),
            ("n", "200"),
            ("type", "1"),
        ]
    );
    let reply =
        "{\"error\":\"E2911\",\"error_msg\":\"IP not online\",\"online_ip\":\"10.0.0.2\"}".to_string();
    match advance(session, Event::Reply(reply)) {
        Step::Done(Ok(result)) => {
            assert!(!result.succeeded());
            assert_eq!(result.error, "E2911");
            assert_eq!(result.error_msg, "IP not online");
        }
        _ => panic!("a refusal ends the login with a result"),
    }
}

#[test]
fn logout_fetches_a_challenge_and_sends_logout() {
    let mut client = client_at("10.0.0.2");
    client.account = 7;
    let session = match client.logout(user("u1", "p1")) {
        Step::Send(session, request) => {
            assert_eq!(request.endpoint, Endpoint::Challenge);
            session
        }
        Step::Done(_) => panic!("a logout begins with a request"),
    };
    let reply = "{\"challenge\":\"abcd1234\"}".to_string();
    match advance(session, Event::Reply(reply)) {
        Step::Send(Session::AwaitingOutcome, request) => {
            let query = query_of(&request);
            assert_eq!(query[1], ("action", "logout"));
            assert_eq!(query[4], ("ac_id", "7"));
            assert_eq!(query[7], ("chksum", "8aceb55422cefa3797a4fed02a7d5ed9b3b40dbe"));
        }
        _ => panic!("the token is followed by the logout request"),
    }
}

#[test]
fn login_without_address_asks_for_the_status_first() {
    let client = GatewayClient::new(None, None);
    let (session, request) = match client.login(user("u1", "p1")) {
        Step::Send(session, request) => (session, request),
        Step::Done(_) => panic!("a login begins with a request"),
    };
    assert!(matches!(session, Session::AwaitingAddress { .. }));
    assert_eq!(request.endpoint, Endpoint::Status);
    assert_eq!(query_of(&request), vec![("callback", "jsonp")]);
    let reply = "jsonp({\"error\":\"not_online_error\",\"online_ip\":\"10.1.2.3\"})".to_string();
    let (session, request) = match advance(session, Event::Reply(reply)) {
        Step::Send(session, request) => (session, request),
        Step::Done(_) => panic!("the address is followed by the challenge request"),
    };
    assert_eq!(request.endpoint, Endpoint::Challenge);
    assert_eq!(
        query_of(&request),
        vec![("callback", "jsonp"), ("username", "u1"), ("ip", "10.1.2.3")]
    );
    match session {
        Session::AwaitingChallenge { credentials, operation, client_ip, account } => {
            assert_eq!(credentials.username, "u1");
            assert_eq!(credentials.password, "p1");
            assert_eq!(operation, Operation::Login);
            assert_eq!(client_ip, "10.1.2.3");
            assert_eq!(account, 0);
        }
        _ => panic!("the challenge is awaited next"),
    }
}

#[test]
fn malformed_status_ends_a_login_without_address() {
    let session = match GatewayClient::new(None, None).login(user("u1", "p1")) {
        Step::Send(session, _) => session,
        Step::Done(_) => panic!("a login begins with a request"),
    };
    let step = advance(session, Event::Reply("<html>".to_string()));
    assert!(matches!(step, Step::Done(Err(GatewayError::Protocol))));
}

#[test]
fn status_query() {
    let client = GatewayClient::new(None, None);
    let (session, request) = match client.status() {
        Step::Send(session, request) => (session, request),
        Step::Done(_) => panic!("a status query begins with a request"),
    };
    assert!(matches!(session, Session::AwaitingStatus));
    assert_eq!(request.endpoint, Endpoint::Status);
    let reply = "{\"error\":\"ok\",\"online_ip\":\"10.0.0.2\",\"user_name\":\"u1\"}".to_string();
    match advance(session, Event::Reply(reply)) {
        Step::Done(Ok(result)) => {
            assert!(result.succeeded());
            assert_eq!(result.online_ip, "10.0.0.2");
            assert_eq!(result.username.as_deref(), Some("u1"));
        }
        _ => panic!("the reply ends the query"),
    }
}

#[test]
fn transport_failure_ends_every_session() {
    let sessions = vec![
        Session::AwaitingStatus,
        Session::AwaitingAddress {
            credentials: user("u1", "p1"),
            operation: Operation::Login,
            account: 0,
        },
        Session::AwaitingChallenge {
            credentials: user("u1", "p1"),
            operation: Operation::Logout,
            client_ip: "10.0.0.2".to_string(),
            account: 0,
        },
        Session::AwaitingOutcome,
    ];
    for session in sessions {
        match advance(session, Event::Failure("connection refused".to_string())) {
            Step::Done(Err(GatewayError::Transport(detail))) => {
                assert_eq!(detail, "connection refused")
            }
            _ => panic!("a transport failure ends the operation"),
        }
    }
}

#[test]
fn malformed_replies_are_protocol_errors() {
    let step = advance(Session::AwaitingOutcome, Event::Reply("<html>".to_string()));
    assert!(matches!(step, Step::Done(Err(GatewayError::Protocol))));
    let step = advance(Session::AwaitingStatus, Event::Reply("{\"online_ip\":\"x\"}".to_string()));
    assert!(matches!(step, Step::Done(Err(GatewayError::Protocol))));
    let session = Session::AwaitingChallenge {
        credentials: user("u1", "p1"),
        operation: Operation::Login,
        client_ip: "10.0.0.2".to_string(),
        account: 0,
    };
    let step = advance(session, Event::Reply("<html>".to_string()));
    assert!(matches!(step, Step::Done(Err(GatewayError::Protocol))));
}

#[test]
fn credentials_outside_ascii_end_before_any_request() {
    let step = client_at("10.0.0.2").login(user("m\u{fc}ller", "p1"));
    assert!(matches!(step, Step::Done(Err(GatewayError::Encoding))));
    let step = GatewayClient::new(None, None).logout(user("u1", "\u{1f511}"));
    assert!(matches!(step, Step::Done(Err(GatewayError::Encoding))));
    let step = begin(user("\u{e9}", ""), Operation::Login, None, 0);
    assert!(matches!(step, Step::Done(Err(GatewayError::Encoding))));
    let session = Session::AwaitingChallenge {
        credentials: user("m\u{fc}ller", "p1"),
        operation: Operation::Login,
        client_ip: "10.0.0.2".to_string(),
        account: 0,
    };
    let step = advance(session, Event::Reply("{\"challenge\":\"abcd1234\"}".to_string()));
    assert!(matches!(step, Step::Done(Err(GatewayError::Encoding))));
}

#[test]
fn client_configuration() {
    let client = GatewayClient::new(None, None);
    assert_eq!(client.base_url, "http://10.0.0.55");
    assert_eq!(client.timeout_secs, 10);
    assert_eq!(client.client_ip, None);
    assert_eq!(client.account, 0);
    assert_eq!(client.url(Endpoint::Status), "http://10.0.0.55/cgi-bin/rad_user_info");
    let client =
        GatewayClient::new(Some("http://gw.example".to_string()), Some("10.9.8.7".to_string()));
    assert_eq!(client.client_ip.as_deref(), Some("10.9.8.7"));
    assert_eq!(client.url(Endpoint::Challenge), "http://gw.example/cgi-bin/get_challenge");
    assert_eq!(client.url(Endpoint::Portal), "http://gw.example/cgi-bin/srun_portal");
    assert_eq!(Endpoint::Portal.path(), "/cgi-bin/srun_portal");
}

#[test]
fn requests_are_made_of_their_parts() {
    assert_eq!(query_of(&make_status_request()), vec![("callback", "jsonp")]);
    let request = make_challenge_request("u 1", "");
    assert_eq!(query_of(&request), vec![("callback", "jsonp"), ("username", "u 1"), ("ip", "")]);
    let params = build(&user("u1", "p1"), "abcd1234", Operation::Login, "10.0.0.2").unwrap();
    let request = make_portal_request(&params);
    assert_eq!(request.endpoint, Endpoint::Portal);
    assert_eq!(request.query.len(), 10);
    assert_eq!(query_of(&request)[6].1, params.info);
}
