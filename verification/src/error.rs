//! The ways in which an operation against the gateway can fail.

use vstd::prelude::*;
use vstd::string::StringExecFns;

verus! {

/// A failure of an operation. A refusal that the gateway itself reports is
/// not among them: it arrives as an ordinary result.
#[derive(Debug)]
pub enum GatewayError {
    /// The network failed; the text is the transport's own description.
    Transport(String),
    /// A response was not JSON of the expected shape.
    Protocol,
    /// The challenge response held no usable token.
    Challenge,
    /// The credentials cannot be written in the gateway's character set.
    Encoding,
}

/// The mathematical form of a `GatewayError`.
pub enum ErrorView {
    Transport(Seq<char>),
    Protocol,
    Challenge,
    Encoding,
}

impl View for GatewayError {
    type V = ErrorView;

    open spec fn view(&self) -> ErrorView {
        match *self {
            GatewayError::Transport(detail) => ErrorView::Transport(detail@),
            GatewayError::Protocol => ErrorView::Protocol,
            GatewayError::Challenge => ErrorView::Challenge,
            GatewayError::Encoding => ErrorView::Encoding,
        }
    }
}

impl GatewayError {
    /// A description of the failure for display.
    pub fn message(&self) -> (text: String)
        ensures
            text@ == match *self {
                GatewayError::Transport(detail) => "transport error: "@ + detail@,
                GatewayError::Protocol => "protocol error: malformed gateway response"@,
                GatewayError::Challenge => "challenge error: no usable token in the response"@,
                GatewayError::Encoding => "encoding error: credentials must be ASCII"@,
            },
    {
        match self {
            GatewayError::Transport(detail) => {
                let mut text = String::from_str("transport error: ");
                text.append(detail.as_str());
                text
            },
            GatewayError::Protocol => String::from_str(
                "protocol error: malformed gateway response",
            ),
            GatewayError::Challenge => String::from_str(
                "challenge error: no usable token in the response",
            ),
            GatewayError::Encoding => String::from_str("encoding error: credentials must be ASCII"),
        }
    }
}

} // verus!
