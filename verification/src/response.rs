//! Reading the gateway's responses.
//!
//! A response body is JSON, bare or wrapped in a callback shell such as
//! `jsonp({...})`. The shell is taken off first. The JSON must then be an
//! object whose `error` member is a string; `error_msg` and `online_ip` may
//! be strings, `null` or absent, and so may the user's name, which the
//! gateway sends as `username` or as `user_name`. A member of another kind
//! makes the response malformed. A response whose `error` is not `"ok"` is
//! well-formed: it is a refusal by the gateway, not a failure to read it.

use crate::error::{ErrorView, GatewayError};
use crate::json::{document, lookup, member, parse, Member, MemberView};
use crate::text::{chars_of, same_text, string_of};
use vstd::prelude::*;
use vstd::utf8::is_ascii_chars;

verus! {

/// The outcome of a status, login or logout request, as the gateway
/// reported it.
#[derive(Debug)]
pub struct OperationResult {
    /// The gateway's code: `"ok"` on success.
    pub error: String,
    /// The gateway's message: empty on success.
    pub error_msg: String,
    /// The client address that the gateway sees, where it says so.
    pub online_ip: String,
    /// The user that is online, where the gateway says so.
    pub username: Option<String>,
}

/// The mathematical form of an `OperationResult`.
pub struct OperationResultView {
    pub error: Seq<char>,
    pub error_msg: Seq<char>,
    pub online_ip: Seq<char>,
    pub username: Option<Seq<char>>,
}

impl View for OperationResult {
    type V = OperationResultView;

    open spec fn view(&self) -> OperationResultView {
        OperationResultView {
            error: self.error@,
            error_msg: self.error_msg@,
            online_ip: self.online_ip@,
            username: match self.username {
                Some(name) => Some(name@),
                None => None,
            },
        }
    }
}

impl OperationResult {
    /// Whether the gateway reported success: its code is `"ok"`.
    pub fn succeeded(&self) -> (ok: bool)
        ensures
            ok == (self.error@ == "ok"@),
    {
        same_text(self.error.as_str(), "ok")
    }
}

/// The mathematical form of what reading a response gives.
pub open spec fn outcome_view(outcome: Result<OperationResult, GatewayError>) -> Result<
    OperationResultView,
    ErrorView,
> {
    match outcome {
        Ok(result) => Ok(result@),
        Err(error) => Err(error@),
    }
}

/// The mathematical form of what reading a challenge gives.
pub open spec fn token_view(outcome: Result<String, GatewayError>) -> Result<Seq<char>, ErrorView> {
    match outcome {
        Ok(token) => Ok(token@),
        Err(error) => Err(error@),
    }
}

/// White space around a response body.
pub open spec fn is_space(c: char) -> bool {
    c == ' ' || c == '\t' || c == '\n' || c == '\r'
}

/// A character of a callback's name.
pub open spec fn is_name_char(c: char) -> bool {
    ('a' <= c <= 'z') || ('A' <= c <= 'Z') || ('0' <= c <= '9') || c == '_' || c == '$' || c == '.'
}

/// The first position from `i` on that holds no white space.
pub open spec fn skip_spaces(s: Seq<char>, i: int) -> int
    decreases s.len() - i,
{
    if 0 <= i < s.len() && is_space(s[i]) {
        skip_spaces(s, i + 1)
    } else {
        i
    }
}

/// The end of the text before `e` without the white space at its end.
pub open spec fn drop_spaces(s: Seq<char>, e: int) -> int
    decreases e,
{
    if 0 < e <= s.len() && is_space(s[e - 1]) {
        drop_spaces(s, e - 1)
    } else {
        e
    }
}

/// The first position from `i` on that holds no character of a name.
pub open spec fn skip_name(s: Seq<char>, i: int) -> int
    decreases s.len() - i,
{
    if 0 <= i < s.len() && is_name_char(s[i]) {
        skip_name(s, i + 1)
    } else {
        i
    }
}

/// The body without its callback shell. A shell is a name, an opening
/// bracket, the payload and a closing bracket, with white space allowed
/// before the name and after the closing bracket. A body without a shell is
/// left as it is.
pub open spec fn unwrapped(body: Seq<char>) -> Seq<char> {
    let start = skip_spaces(body, 0);
    let end = drop_spaces(body, body.len() as int);
    let open = skip_name(body, start);
    if start < open && open < end - 1 && body[open] == '(' && body[end - 1] == ')' {
        body.subrange(open + 1, end - 1)
    } else {
        body
    }
}

/// The text of a member that may be missing: `None` where the member is of
/// another kind than string or `null`, else the string, if there is one.
pub open spec fn optional_text(found: MemberView) -> Option<Option<Seq<char>>> {
    match found {
        MemberView::Text(text) => Some(Some(text)),
        MemberView::Absent => Some(None),
        MemberView::Null => Some(None),
        MemberView::Other => None,
    }
}

/// A text that may be missing, the empty text standing for a missing one.
pub open spec fn or_empty(text: Option<Seq<char>>) -> Seq<char> {
    match text {
        Some(t) => t,
        None => Seq::empty(),
    }
}

/// The result that five members of a response stand for, or a protocol
/// error where they have not the expected shape.
pub open spec fn classify_spec(
    error: MemberView,
    error_msg: MemberView,
    online_ip: MemberView,
    username: MemberView,
    user_name: MemberView,
) -> Result<OperationResultView, ErrorView> {
    if error is Text && optional_text(error_msg) is Some && optional_text(online_ip) is Some
        && optional_text(username) is Some && optional_text(user_name) is Some {
        Ok(
            OperationResultView {
                error: error->Text_0,
                error_msg: or_empty(optional_text(error_msg)->0),
                online_ip: or_empty(optional_text(online_ip)->0),
                username: if username is Text {
                    Some(username->Text_0)
                } else {
                    optional_text(user_name)->0
                },
            },
        )
    } else {
        Err(ErrorView::Protocol)
    }
}

/// What a response body stands for.
pub open spec fn outcome_spec(body: Seq<char>) -> Result<OperationResultView, ErrorView> {
    match document(unwrapped(body)) {
        None => Err(ErrorView::Protocol),
        Some(all) => classify_spec(
            lookup(all, "error"@),
            lookup(all, "error_msg"@),
            lookup(all, "online_ip"@),
            lookup(all, "username"@),
            lookup(all, "user_name"@),
        ),
    }
}

/// The token that a member of a challenge response stands for: the member
/// must be a string that is not empty and all ASCII.
pub open spec fn token_spec(found: MemberView) -> Result<Seq<char>, ErrorView> {
    match found {
        MemberView::Text(text) => if text.len() > 0 && is_ascii_chars(text) {
            Ok(text)
        } else {
            Err(ErrorView::Challenge)
        },
        _ => Err(ErrorView::Challenge),
    }
}

/// The token that a challenge response body holds.
pub open spec fn challenge_spec(body: Seq<char>) -> Result<Seq<char>, ErrorView> {
    match document(unwrapped(body)) {
        None => Err(ErrorView::Protocol),
        Some(all) => token_spec(lookup(all, "challenge"@)),
    }
}

fn space(c: char) -> (b: bool)
    ensures
        b == is_space(c),
{
    c == ' ' || c == '\t' || c == '\n' || c == '\r'
}

fn name_char(c: char) -> (b: bool)
    ensures
        b == is_name_char(c),
{
    ('a' <= c && c <= 'z') || ('A' <= c && c <= 'Z') || ('0' <= c && c <= '9') || c == '_' || c
        == '$' || c == '.'
}

/// Takes the callback shell off a response body, if it has one.
pub fn unwrap_callback(body: &str) -> (inner: String)
    ensures
        inner@ == unwrapped(body@),
{
    let chars = chars_of(body);
    let len = chars.len();
    let mut start: usize = 0;
    while start < len && space(chars[start])
        invariant
            start <= len,
            len == chars@.len(),
            skip_spaces(chars@, start as int) == skip_spaces(chars@, 0),
        decreases len - start,
    {
        start += 1;
    }
    let mut end: usize = len;
    while end > 0 && space(chars[end - 1])
        invariant
            end <= len,
            len == chars@.len(),
            drop_spaces(chars@, end as int) == drop_spaces(chars@, len as int),
        decreases end,
    {
        end -= 1;
    }
    let mut open: usize = start;
    while open < len && name_char(chars[open])
        invariant
            start <= open <= len,
            len == chars@.len(),
            skip_name(chars@, open as int) == skip_name(chars@, start as int),
        decreases len - open,
    {
        open += 1;
    }
    if start < open && end >= 2 && open < end - 1 && chars[open] == '(' && chars[end - 1] == ')' {
        string_of(chars.as_slice(), open + 1, end - 1)
    } else {
        let whole = string_of(chars.as_slice(), 0, len);
        assert(whole@ =~= body@);
        whole
    }
}

/// Reads a member that may be missing.
fn read_optional(found: Member) -> (text: Option<Option<String>>)
    ensures
        match optional_text(found@) {
            None => text is None,
            Some(None) => text == Some(None::<String>),
            Some(Some(t)) => text matches Some(Some(s)) && s@ == t,
        },
{
    match found {
        Member::Text(text) => Some(Some(text)),
        Member::Absent => Some(None),
        Member::Null => Some(None),
        Member::Other => None,
    }
}

/// Classifies five members of a response: the result they stand for, or
/// `GatewayError::Protocol` where they have not the expected shape.
pub fn classify(
    error: Member,
    error_msg: Member,
    online_ip: Member,
    username: Member,
    user_name: Member,
) -> (outcome: Result<OperationResult, GatewayError>)
    ensures
        outcome_view(outcome) == classify_spec(
            error@,
            error_msg@,
            online_ip@,
            username@,
            user_name@,
        ),
{
    let code = match error {
        Member::Text(code) => code,
        _ => { return Err(GatewayError::Protocol); },
    };
    let message = match read_optional(error_msg) {
        Some(Some(text)) => text,
        Some(None) => String::new(),
        None => { return Err(GatewayError::Protocol); },
    };
    let address = match read_optional(online_ip) {
        Some(Some(text)) => text,
        Some(None) => String::new(),
        None => { return Err(GatewayError::Protocol); },
    };
    let first = match read_optional(username) {
        Some(name) => name,
        None => { return Err(GatewayError::Protocol); },
    };
    let second = match read_optional(user_name) {
        Some(name) => name,
        None => { return Err(GatewayError::Protocol); },
    };
    let name = match first {
        Some(name) => Some(name),
        None => second,
    };
    Ok(OperationResult { error: code, error_msg: message, online_ip: address, username: name })
}

/// Reads the response to a status, login or logout request.
///
/// Fails with `GatewayError::Protocol` where the body, without its callback
/// shell, is not JSON or has not the expected members. A refusal by the
/// gateway is returned as a result.
pub fn parse_result(body: &str) -> (outcome: Result<OperationResult, GatewayError>)
    ensures
        outcome_view(outcome) == outcome_spec(body@),
{
    let inner = unwrap_callback(body);
    match parse(inner.as_str()) {
        Err(_) => Err(GatewayError::Protocol),
        Ok(value) => classify(
            member(&value, "error"),
            member(&value, "error_msg"),
            member(&value, "online_ip"),
            member(&value, "username"),
            member(&value, "user_name"),
        ),
    }
}

/// Takes the token out of a member of a challenge response:
/// `GatewayError::Challenge` unless the member is a string that is not empty
/// and all ASCII.
pub fn token_of(found: Member) -> (outcome: Result<String, GatewayError>)
    ensures
        token_view(outcome) == token_spec(found@),
{
    match found {
        Member::Text(text) => {
            if text.as_str().is_ascii() && !text.as_str().is_empty() {
                Ok(text)
            } else {
                Err(GatewayError::Challenge)
            }
        },
        _ => Err(GatewayError::Challenge),
    }
}

/// Reads the response to a challenge request.
///
/// Fails with `GatewayError::Protocol` where the body, without its callback
/// shell, is not JSON, and with `GatewayError::Challenge` where its
/// `challenge` member is no usable token.
pub fn parse_challenge(body: &str) -> (outcome: Result<String, GatewayError>)
    ensures
        token_view(outcome) == challenge_spec(body@),
{
    let inner = unwrap_callback(body);
    match parse(inner.as_str()) {
        Err(_) => Err(GatewayError::Protocol),
        Ok(value) => token_of(member(&value, "challenge")),
    }
}

} // verus!
