//! The builder of the token-dependent request parameters.
//!
//! Credentials must be ASCII: a username or password with any other
//! character is refused with `GatewayError::Encoding`, since the gateway's
//! wire format predates UTF-8. The token and the client address are passed
//! through as they are.

use crate::checksum::{checksum, checksum_spec, lemma_checksum_len, texts};
use crate::codec::{encode, encode_spec};
use crate::error::GatewayError;
use crate::json::{quote, quoted};
use crate::radix64::{is_symbol, lemma_text_symbols, to_text, to_text_spec};
use crate::text::{decimal_spec, push_decimal};
use crate::user::BitUser;
use vstd::prelude::*;
use vstd::string::StringExecFns;
use vstd::utf8::{encode_utf8, is_ascii_chars};

verus! {

/// The marker that the gateway expects in front of the encoded info.
pub const INFO_MARKER: &'static str = "{SRBX1}";

/// The operation that a request asks for.
#[derive(Clone, Copy, Debug, PartialEq, Eq, Structural)]
pub enum Operation {
    Login,
    Logout,
}

/// The name of an operation on the wire.
pub open spec fn action_text(operation: Operation) -> Seq<char> {
    match operation {
        Operation::Login => "login"@,
        Operation::Logout => "logout"@,
    }
}

impl Operation {
    /// The name of the operation on the wire.
    pub fn action(&self) -> (name: &'static str)
        ensures
            name@ == action_text(*self),
    {
        match self {
            Operation::Login => "login",
            Operation::Logout => "logout",
        }
    }
}

/// The parameters of a login or logout request that depend on the token.
#[derive(Debug)]
pub struct RequestParams {
    /// The operation's name.
    pub action: String,
    /// The username, as given.
    pub username: String,
    /// The encoded password.
    pub password: String,
    /// The account id, in decimal.
    pub account: String,
    /// The client address, as given.
    pub client_ip: String,
    /// The encoded info, behind its marker.
    pub info: String,
    /// The checksum over the other fields and the token.
    pub checksum: String,
}

/// The mathematical form of `RequestParams`.
pub struct RequestParamsView {
    pub action: Seq<char>,
    pub username: Seq<char>,
    pub password: Seq<char>,
    pub account: Seq<char>,
    pub client_ip: Seq<char>,
    pub info: Seq<char>,
    pub checksum: Seq<char>,
}

impl View for RequestParams {
    type V = RequestParamsView;

    open spec fn view(&self) -> RequestParamsView {
        RequestParamsView {
            action: self.action@,
            username: self.username@,
            password: self.password@,
            account: self.account@,
            client_ip: self.client_ip@,
            info: self.info@,
            checksum: self.checksum@,
        }
    }
}

/// Whether credentials can be written in the gateway's character set.
pub open spec fn representable(username: Seq<char>, password: Seq<char>) -> bool {
    is_ascii_chars(username) && is_ascii_chars(password)
}

/// The canonical text of the info record. The order of the fields and their
/// names are the gateway's. The username and the client address stand as the
/// JSON string literals given; the password field is left empty, since the
/// password travels in a parameter of its own.
pub open spec fn info_layout(
    quoted_username: Seq<char>,
    quoted_ip: Seq<char>,
    operation: Operation,
    account: u32,
) -> Seq<char> {
    "{\"username\":"@ + quoted_username + ",\"password\":\"\",\"ip\":"@ + quoted_ip
        + ",\"action\":\""@ + action_text(operation) + "\",\"acid\":\""@ + decimal_spec(
        account as nat,
    ) + "\",\"enc_ver\":\"srun_bx1\"}"@
}

/// The text of a byte sequence on the wire: encoded under the token, then
/// written in radix 64.
pub open spec fn wire_text(bytes: Seq<u8>, token: Seq<char>) -> Seq<char> {
    to_text_spec(encode_spec(bytes, encode_utf8(token)))
}

/// The request parameters for a given text of the info record.
pub open spec fn sealed_spec(
    username: Seq<char>,
    password: Seq<char>,
    token: Seq<char>,
    operation: Operation,
    client_ip: Seq<char>,
    account: u32,
    info_text: Seq<char>,
) -> RequestParamsView {
    let password_param = wire_text(encode_utf8(password), token);
    let info_param = INFO_MARKER@ + wire_text(encode_utf8(info_text), token);
    let account_text = decimal_spec(account as nat);
    RequestParamsView {
        action: action_text(operation),
        username: username,
        password: password_param,
        account: account_text,
        client_ip: client_ip,
        info: info_param,
        checksum: checksum_spec(
            seq![username, token, password_param, account_text, token, info_param, token],
        ),
    }
}

/// The request parameters that `build_for_account` produces.
pub open spec fn params_spec(
    username: Seq<char>,
    password: Seq<char>,
    token: Seq<char>,
    operation: Operation,
    client_ip: Seq<char>,
    account: u32,
) -> RequestParamsView {
    sealed_spec(
        username,
        password,
        token,
        operation,
        client_ip,
        account,
        info_layout(quoted(username), quoted(client_ip), operation, account),
    )
}

/// Whatever the arguments, the checksum has forty digits and the password
/// parameter is written in the output alphabet of the radix-64 form.
pub proof fn lemma_params_shape(
    username: Seq<char>,
    password: Seq<char>,
    token: Seq<char>,
    operation: Operation,
    client_ip: Seq<char>,
    account: u32,
)
    ensures
        params_spec(username, password, token, operation, client_ip, account).checksum.len() == 40,
        forall|i: int|
            0 <= i < params_spec(
                username,
                password,
                token,
                operation,
                client_ip,
                account,
            ).password.len() ==> is_symbol(
                #[trigger] params_spec(
                    username,
                    password,
                    token,
                    operation,
                    client_ip,
                    account,
                ).password[i],
            ),
{
    let params = params_spec(username, password, token, operation, client_ip, account);
    lemma_checksum_len(
        seq![username, token, params.password, params.account, token, params.info, token],
    );
    lemma_text_symbols(encode_spec(encode_utf8(password), encode_utf8(token)));
}

/// Lays out the canonical text of the info record around the two JSON string
/// literals given.
pub fn assemble_info(
    quoted_username: &str,
    quoted_ip: &str,
    operation: Operation,
    account: u32,
) -> (text: String)
    ensures
        text@ == info_layout(quoted_username@, quoted_ip@, operation, account),
{
    let mut text = String::from_str("{\"username\":");
    text.append(quoted_username);
    text.append(",\"password\":\"\",\"ip\":");
    text.append(quoted_ip);
    text.append(",\"action\":\"");
    text.append(operation.action());
    text.append("\",\"acid\":\"");
    push_decimal(&mut text, account);
    text.append("\",\"enc_ver\":\"srun_bx1\"}");
    text
}

/// Encodes bytes under the token and writes them in radix 64.
pub fn wire(bytes: &[u8], token: &str) -> (text: String)
    ensures
        text@ == wire_text(bytes@, token@),
{
    let encoded = encode(bytes, token);
    to_text(encoded.as_slice())
}

/// Computes the request parameters around a given text of the info record:
/// the encoded password, the encoded and marked info, and the checksum over
/// username, token, password parameter, account id, token, info parameter and
/// token, in that order.
pub fn seal(
    credentials: &BitUser,
    token: &str,
    operation: Operation,
    client_ip: &str,
    account: u32,
    info_text: &str,
) -> (params: RequestParams)
    ensures
        params@ == sealed_spec(
            credentials.username@,
            credentials.password@,
            token@,
            operation,
            client_ip@,
            account,
            info_text@,
        ),
{
    let password = wire(credentials.password.as_str().as_bytes(), token);
    let mut info = String::from_str(INFO_MARKER);
    let encoded_info = wire(info_text.as_bytes(), token);
    info.append(encoded_info.as_str());
    let mut account_text = String::new();
    push_decimal(&mut account_text, account);
    let parts: [&str; 7] = [
        credentials.username.as_str(),
        token,
        password.as_str(),
        account_text.as_str(),
        token,
        info.as_str(),
        token,
    ];
    let sum = checksum(parts.as_slice());
    proof {
        assert(texts(parts@) =~= seq![
            credentials.username@,
            token@,
            password@,
            account_text@,
            token@,
            info@,
            token@,
        ]);
    }
    RequestParams {
        action: String::from_str(operation.action()),
        username: credentials.username.clone(),
        password,
        account: account_text,
        client_ip: String::from_str(client_ip),
        info,
        checksum: sum,
    }
}

/// Builds the request parameters for an account id.
///
/// Fails with `GatewayError::Encoding` exactly when the username or the
/// password holds a character outside ASCII. Otherwise the result is a
/// function of the arguments alone.
pub fn build_for_account(
    credentials: &BitUser,
    token: &str,
    operation: Operation,
    client_ip: &str,
    account: u32,
) -> (built: Result<RequestParams, GatewayError>)
    ensures
        built is Ok <==> representable(credentials.username@, credentials.password@),
        built matches Err(e) ==> e is Encoding,
        built matches Ok(params) ==> params@ == params_spec(
            credentials.username@,
            credentials.password@,
            token@,
            operation,
            client_ip@,
            account,
        ),
{
    if !credentials.username.as_str().is_ascii() || !credentials.password.as_str().is_ascii() {
        return Err(GatewayError::Encoding);
    }
    let quoted_username = quote(credentials.username.as_str());
    let quoted_ip = quote(client_ip);
    let info_text = assemble_info(quoted_username.as_str(), quoted_ip.as_str(), operation, account);
    Ok(seal(credentials, token, operation, client_ip, account, info_text.as_str()))
}

/// Builds the request parameters for the account id zero, which is what the
/// gateway expects where the client knows of no other.
pub fn build(credentials: &BitUser, token: &str, operation: Operation, client_ip: &str) -> (built:
    Result<RequestParams, GatewayError>)
    ensures
        built is Ok <==> representable(credentials.username@, credentials.password@),
        built matches Err(e) ==> e is Encoding,
        built matches Ok(params) ==> params@ == params_spec(
            credentials.username@,
            credentials.password@,
            token@,
            operation,
            client_ip@,
            0,
        ),
{
    build_for_account(credentials, token, operation, client_ip, 0)
}

} // verus!
