use bitsrun::error::GatewayError;
use bitsrun::json::Member;
use bitsrun::response::{classify, parse_challenge, parse_result, token_of, unwrap_callback};

#[test]
fn status_response_reports_online() {
    let result =
        parse_result("{\"error\":\"ok\",\"online_ip\":\"10.0.0.2\",\"user_name\":\"u1\"}").unwrap();
    assert!(result.succeeded());
    assert_eq!(result.error, "ok");
    assert_eq!(result.error_msg, "");
    assert_eq!(result.online_ip, "10.0.0.2");
    assert_eq!(result.username.as_deref(), Some("u1"));
}

#[test]
fn login_response_reports_refusal() {
    let parsed = parse_result(
        "{\"error\":\"E2911\",\"error_msg\":\"IP not online\",\"online_ip\":\"10.0.0.2\"}",
    );
    let result = parsed.expect("a refusal is a result, not a failure");
    assert!(!result.succeeded());
    assert_eq!(result.error, "E2911");
    assert_eq!(result.error_msg, "IP not online");
    assert_eq!(result.online_ip, "10.0.0.2");
    assert_eq!(result.username, None);
}

#[test]
fn result_inside_a_callback_shell() {
    let result = parse_result("jsonp({\"error\":\"ok\",\"username\":\"u1\"})").unwrap();
    assert!(result.succeeded());
    assert_eq!(result.username.as_deref(), Some("u1"));
    assert_eq!(result.online_ip, "");
    let result =
        parse_result("  jQuery1124_1690({\"error\":\"login_error\",\"error_msg\":\"x\"})\r\n")
            .unwrap();
    assert_eq!(result.error, "login_error");
    assert_eq!(result.error_msg, "x");
}

#[test]
fn username_is_read_before_user_name() {
    let result =
        parse_result("{\"error\":\"ok\",\"username\":\"first\",\"user_name\":\"second\"}").unwrap();
    assert_eq!(result.username.as_deref(), Some("first"));
    let result =
        parse_result("{\"error\":\"ok\",\"username\":null,\"user_name\":\"second\"}").unwrap();
    assert_eq!(result.username.as_deref(), Some("second"));
    let result = parse_result("{\"error\":\"ok\",\"user_name\":null}").unwrap();
    assert_eq!(result.username, None);
}

#[test]
fn null_members_count_as_missing() {
    let result =
        parse_result("{\"error\":\"ok\",\"error_msg\":null,\"online_ip\":null}").unwrap();
    assert_eq!(result.error_msg, "");
    assert_eq!(result.online_ip, "");
}

#[test]
fn json_escapes_are_resolved() {
    let result = parse_result("{\"error\":\"o\\u006b\",\"error_msg\":\"a\\\"b\\n\"}").unwrap();
    assert!(result.succeeded());
    assert_eq!(result.error_msg, "a\"b\n");
}

#[test]
fn malformed_results_are_protocol_errors() {
    let bodies = [
        "",
        "not json",
        "{",
        "{}",
        "[1,2]",
        "\"ok\"",
        "null",
        "{\"error\":5}",
        "{\"error\":null}",
        "{\"error_msg\":\"no code\"}",
        "{\"error\":\"ok\",\"online_ip\":7}",
        "{\"error\":\"ok\",\"error_msg\":[]}",
        "{\"error\":\"ok\",\"username\":{}}",
        "{\"error\":\"ok\",\"username\":\"u\",\"user_name\":1}",
        "jsonp({\"error\":\"ok\"}",
        "jsonp(oops)",
        "{\"error\":\"ok\"} trailing",
    ];
    for body in bodies {
        assert!(matches!(parse_result(body), Err(GatewayError::Protocol)), "{}", body);
    }
}

#[test]
fn callback_shell_is_taken_off() {
    assert_eq!(unwrap_callback("jsonp({\"a\":1})"), "{\"a\":1}");
    assert_eq!(unwrap_callback(" \t f(x) \r\n"), "x");
    assert_eq!(unwrap_callback("a.b$c_1(x)"), "x");
    assert_eq!(unwrap_callback("f()"), "");
    assert_eq!(unwrap_callback("f(a)(b)"), "a)(b");
    assert_eq!(unwrap_callback("f( {\"a\":\"(\"} )"), " {\"a\":\"(\"} ");
}

#[test]
fn body_without_a_shell_is_left_alone() {
    let bodies = [
        "",
        "   ",
        "abc",
        "{\"a\":1}",
        " {\"a\":1} ",
        "(x)",
        "f(x",
        "f x)",
        "f g(x)",
        "f(x);",
        "f)",
        "f(",
        "\u{e9}(x)",
    ];
    for body in bodies {
        assert_eq!(unwrap_callback(body), body);
    }
}

#[test]
fn classify_members() {
    let text = |s: &str| Member::Text(s.to_string());
    let result =
        classify(text("ok"), Member::Absent, text("10.0.0.2"), Member::Null, text("u1")).unwrap();
    assert_eq!(result.error, "ok");
    assert_eq!(result.error_msg, "");
    assert_eq!(result.online_ip, "10.0.0.2");
    assert_eq!(result.username.as_deref(), Some("u1"));
    assert!(matches!(
        classify(Member::Absent, Member::Absent, Member::Absent, Member::Absent, Member::Absent),
        Err(GatewayError::Protocol)
    ));
    assert!(matches!(
        classify(Member::Other, Member::Absent, Member::Absent, Member::Absent, Member::Absent),
        Err(GatewayError::Protocol)
    ));
    assert!(matches!(
        classify(text("ok"), Member::Absent, Member::Absent, Member::Absent, Member::Other),
        Err(GatewayError::Protocol)
    ));
}

#[test]
fn challenge_token_is_read() {
    let body = "jsonp({\"challenge\":\"abcd1234\",\"client_ip\":\"10.0.0.2\",\"error\":\"ok\"})";
    assert_eq!(parse_challenge(body).unwrap(), "abcd1234");
    assert_eq!(parse_challenge("{\"challenge\":\"t\"}").unwrap(), "t");
}

#[test]
fn challenge_without_usable_token() {
    let bodies = [
        "{\"error\":\"ok\"}",
        "{}",
        "[]",
        "{\"challenge\":\"\"}",
        "{\"challenge\":null}",
        "{\"challenge\":5}",
        "{\"challenge\":\"t\u{f6}ken\"}",
        "jsonp({\"token\":\"abcd1234\"})",
    ];
    for body in bodies {
        assert!(matches!(parse_challenge(body), Err(GatewayError::Challenge)), "{}", body);
    }
    assert!(matches!(parse_challenge("garbage"), Err(GatewayError::Protocol)));
    assert!(matches!(parse_challenge(""), Err(GatewayError::Protocol)));
}

#[test]
fn token_of_members() {
    assert_eq!(token_of(Member::Text("abc".to_string())).unwrap(), "abc");
    assert!(matches!(token_of(Member::Text(String::new())), Err(GatewayError::Challenge)));
    assert!(matches!(token_of(Member::Absent), Err(GatewayError::Challenge)));
    assert!(matches!(token_of(Member::Null), Err(GatewayError::Challenge)));
    assert!(matches!(token_of(Member::Other), Err(GatewayError::Challenge)));
}

#[test]
fn error_messages() {
    assert_eq!(
        GatewayError::Transport("connection refused".to_string()).message(),
        "transport error: connection refused"
    );
    assert_eq!(GatewayError::Protocol.message(), "protocol error: malformed gateway response");
    assert_eq!(
        GatewayError::Challenge.message(),
        "challenge error: no usable token in the response"
    );
    assert_eq!(GatewayError::Encoding.message(), "encoding error: credentials must be ASCII");
}
