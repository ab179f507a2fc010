//! Errors of the network layer.

use vstd::prelude::*;

verus! {

/// The HTTP status of an answer that refuses a request for coming too soon.
pub const TOO_MANY_REQUESTS: u16 = 429;

/// An error of a call to the HTTP API.
#[derive(Debug, PartialEq, Eq)]
pub enum ApiError {
    /// The token or the login details were not accepted.
    Unauthorized,
    /// The server answered with an HTTP status that means failure.
    StatusCode(u16),
    /// Any other error, described in words.
    Other(String),
}

/// What an [`ApiError`] says.
pub enum ApiErrorView {
    Unauthorized,
    StatusCode(u16),
    Other(Seq<char>),
}

impl View for ApiError {
    type V = ApiErrorView;

    open spec fn view(&self) -> ApiErrorView {
        match self {
            ApiError::Unauthorized => ApiErrorView::Unauthorized,
            ApiError::StatusCode(status) => ApiErrorView::StatusCode(*status),
            ApiError::Other(text) => ApiErrorView::Other(text@),
        }
    }
}

/// An error of the websocket connection, described in words.
#[derive(Debug, PartialEq, Eq)]
pub struct WebSocketError {
    pub description: String,
}

impl View for WebSocketError {
    type V = Seq<char>;

    open spec fn view(&self) -> Seq<char> {
        self.description@
    }
}

/// A websocket message that could not be understood.
#[derive(Debug, PartialEq, Eq)]
pub enum ParseError {
    /// A message of another kind was expected.
    Other(String),
    /// The text of the message does not have the expected form.
    Malformed(String),
}

/// What a [`ParseError`] says.
pub enum ParseErrorView {
    Other(Seq<char>),
    Malformed(Seq<char>),
}

impl View for ParseError {
    type V = ParseErrorView;

    open spec fn view(&self) -> ParseErrorView {
        match self {
            ParseError::Other(text) => ParseErrorView::Other(text@),
            ParseError::Malformed(text) => ParseErrorView::Malformed(text@),
        }
    }
}

/// There is no token to authenticate a call with.
#[derive(Clone, Copy, Debug, PartialEq, Eq, Structural)]
pub struct NoToken;

/// Nobody has logged in yet, so there are no details to start a handler with.
#[derive(Clone, Copy, Debug, PartialEq, Eq, Structural)]
pub struct NotLoggedIn;

} // verus!
