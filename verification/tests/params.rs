use bitsrun::error::GatewayError;
use bitsrun::params::{assemble_info, build, build_for_account, seal, wire, Operation};
use bitsrun::user::BitUser;

fn user(username: &str, password: &str) -> BitUser {
    BitUser { username: username.to_string(), password: password.to_string() }
}

const ALPHABET: &str = "LVoJPiCN2R8G90yg+hmFHuacZ1OWMnrsSTXkYpUq/3dlbfKwv6xztjI7DeBE45QA=";

#[test]
fn build_login_scenario() {
    let params = build(&user("u1", "p1"), "abcd1234", Operation::Login, "10.0.0.2").unwrap();
    assert_eq!(params.checksum.len(), 40);
    assert!(params.checksum.chars().all(|c| c.is_ascii_hexdigit() && !c.is_ascii_uppercase()));
    assert!(!params.password.is_empty());
    assert!(params.password.chars().all(|c| ALPHABET.contains(c)));
    assert_eq!(params.action, "login");
    assert_eq!(params.username, "u1");
    assert_eq!(params.password, "0UqHkzSDUmY=");
    assert_eq!(params.account, "0");
    assert_eq!(params.client_ip, "10.0.0.2");
    assert_eq!(
        params.info,
        "{SRBX1}/WHW+EGarWDaOm/Yq3S9kQg4nq8/WP/0TxsigNEzmtSLgYJy57kiR3aCvXjlm2B++IRJFMchql8XKh4JQUeB7fjL/x+q/f9cPYyq3rT/Ghc1T6Bw9CQ5alEaoW75MDg8++oiuv=="
    );
    assert_eq!(params.checksum, "aeaa6c33cd33ed99093970560573babdbab2a811");
}

#[test]
fn build_logout_for_an_account() {
    let params =
        build_for_account(&user("u1", "p1"), "abcd1234", Operation::Logout, "10.0.0.2", 7).unwrap();
    assert_eq!(params.action, "logout");
    assert_eq!(params.account, "7");
    assert_eq!(
        params.info,
        "{SRBX1}PK3gYQN3u6WJUdHVyo+DVa84ZDep8Ly+OwgfGLUKyGXXfRDH+ooExnUdSezdFuPIh9EJiyRjddc8yRzAYc2yXJADEaftOBGR1Psk/EbwVj0Z9wqUdO332NjO4RKaiD+qQJDNj5yOmX9="
    );
    assert_eq!(params.checksum, "8aceb55422cefa3797a4fed02a7d5ed9b3b40dbe");
}

#[test]
fn build_twice_gives_identical_parameters() {
    let first = build(&user("u1", "p1"), "abcd1234", Operation::Login, "10.0.0.2").unwrap();
    let second = build(&user("u1", "p1"), "abcd1234", Operation::Login, "10.0.0.2").unwrap();
    assert_eq!(first.action, second.action);
    assert_eq!(first.username, second.username);
    assert_eq!(first.password, second.password);
    assert_eq!(first.account, second.account);
    assert_eq!(first.client_ip, second.client_ip);
    assert_eq!(first.info, second.info);
    assert_eq!(first.checksum, second.checksum);
}

#[test]
fn build_depends_on_the_token() {
    let first = build(&user("u1", "p1"), "abcd1234", Operation::Login, "10.0.0.2").unwrap();
    let second = build(&user("u1", "p1"), "abcd1235", Operation::Login, "10.0.0.2").unwrap();
    assert_ne!(first.password, second.password);
    assert_ne!(first.info, second.info);
    assert_ne!(first.checksum, second.checksum);
}

#[test]
fn build_refuses_credentials_outside_ascii() {
    let refused = build(&user("m\u{fc}ller", "p1"), "abcd1234", Operation::Login, "10.0.0.2");
    assert!(matches!(refused, Err(GatewayError::Encoding)));
    let refused = build(&user("u1", "pa\u{df}"), "abcd1234", Operation::Login, "10.0.0.2");
    assert!(matches!(refused, Err(GatewayError::Encoding)));
    assert!(build(&user("", ""), "abcd1234", Operation::Login, "").is_ok());
    assert!(build(&user("u1", "p1"), "t\u{f6}ken", Operation::Login, "\u{2603}").is_ok());
}

#[test]
fn build_writes_the_username_as_a_json_string() {
    let plain = build(&user("a\"b", "p1"), "abcd1234", Operation::Login, "10.0.0.2").unwrap();
    let by_hand = seal(
        &user("a\"b", "p1"),
        "abcd1234",
        Operation::Login,
        "10.0.0.2",
        0,
        "{\"username\":\"a\\\"b\",\"password\":\"\",\"ip\":\"10.0.0.2\",\"action\":\"login\",\"acid\":\"0\",\"enc_ver\":\"srun_bx1\"}",
    );
    assert_eq!(plain.info, by_hand.info);
    assert_eq!(plain.checksum, by_hand.checksum);
    let unquoted = seal(
        &user("a\"b", "p1"),
        "abcd1234",
        Operation::Login,
        "10.0.0.2",
        0,
        "{\"username\":a\"b,\"password\":\"\",\"ip\":10.0.0.2,\"action\":\"login\",\"acid\":\"0\",\"enc_ver\":\"srun_bx1\"}",
    );
    assert_ne!(plain.info, unquoted.info);
}

#[test]
fn info_record_has_the_canonical_layout() {
    assert_eq!(
        assemble_info("\"u1\"", "\"10.0.0.2\"", Operation::Login, 0),
        "{\"username\":\"u1\",\"password\":\"\",\"ip\":\"10.0.0.2\",\"action\":\"login\",\"acid\":\"0\",\"enc_ver\":\"srun_bx1\"}"
    );
    assert_eq!(
        assemble_info("\"x\"", "\"\"", Operation::Logout, 4294967295),
        "{\"username\":\"x\",\"password\":\"\",\"ip\":\"\",\"action\":\"logout\",\"acid\":\"4294967295\",\"enc_ver\":\"srun_bx1\"}"
    );
    assert_eq!(
        assemble_info("\"x\"", "\"\"", Operation::Logout, 1050),
        "{\"username\":\"x\",\"password\":\"\",\"ip\":\"\",\"action\":\"logout\",\"acid\":\"1050\",\"enc_ver\":\"srun_bx1\"}"
    );
}

#[test]
fn wire_text_of_a_password() {
    assert_eq!(wire(b"p1", "abcd1234"), "0UqHkzSDUmY=");
    assert_eq!(wire(b"hello", ""), "/DVBU0HANemzF9WB");
    assert_eq!(wire(b"", "abcd1234"), "");
}

#[test]
fn operation_names() {
    assert_eq!(Operation::Login.action(), "login");
    assert_eq!(Operation::Logout.action(), "logout");
}
