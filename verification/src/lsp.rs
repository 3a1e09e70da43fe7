//! What the language server does with the messages of a session, as far as
//! it is decided by values.
use crate::grammar;
use crate::grammar::Input;
use crate::lexer::{Lexer, SourcePosition, TokenPosition};
use crate::parser::{errors_model, ParseError, Parser};
use crate::scanner::lex;
use crate::text::same_text;
use vstd::prelude::*;
use vstd::string::*;

verus! {

/// What is done with a request.
#[derive(PartialEq, Eq, Debug, Clone, Copy, Structural)]
pub enum RequestRoute {
    Initialize,
    Rename,
    DocumentHighlight,
    /// A request that is not recognised: it is reported and not answered.
    Unrecognized,
}

/// What is done with a notification.
#[derive(PartialEq, Eq, Debug, Clone, Copy, Structural)]
pub enum NotificationRoute {
    Initialized,
    DidOpen,
    DidChange,
    /// A notification that is not recognised: it is reported.
    Unrecognized,
}

pub open spec fn request_route(method: Seq<char>) -> RequestRoute {
    if method == "initialize"@ {
        RequestRoute::Initialize
    } else if method == "textDocument/rename"@ {
        RequestRoute::Rename
    } else if method == "textDocument/documentHighlight"@ {
        RequestRoute::DocumentHighlight
    } else {
        RequestRoute::Unrecognized
    }
}

pub open spec fn notification_route(method: Seq<char>) -> NotificationRoute {
    if method == "initialized"@ {
        NotificationRoute::Initialized
    } else if method == "textDocument/didOpen"@ {
        NotificationRoute::DidOpen
    } else if method == "textDocument/didChange"@ {
        NotificationRoute::DidChange
    } else {
        NotificationRoute::Unrecognized
    }
}

/// Tells what is done with the request of the method `method`.
pub fn route_request(method: &str) -> (r: RequestRoute)
    ensures
        r == request_route(method@),
{
    if same_text(method, "initialize") {
        RequestRoute::Initialize
    } else if same_text(method, "textDocument/rename") {
        RequestRoute::Rename
    } else if same_text(method, "textDocument/documentHighlight") {
        RequestRoute::DocumentHighlight
    } else {
        RequestRoute::Unrecognized
    }
}

/// Tells what is done with the notification of the method `method`.
pub fn route_notification(method: &str) -> (r: NotificationRoute)
    ensures
        r == notification_route(method@),
{
    if same_text(method, "initialized") {
        NotificationRoute::Initialized
    } else if same_text(method, "textDocument/didOpen") {
        NotificationRoute::DidOpen
    } else if same_text(method, "textDocument/didChange") {
        NotificationRoute::DidChange
    } else {
        NotificationRoute::Unrecognized
    }
}

/// The errors of a text: those that parsing it records, in their order.
pub fn diagnostics(text: &str) -> (r: Vec<ParseError>)
    ensures
        errors_model(r@) == grammar::program(
            Input { src: text.spec_bytes(), tokens: lex(text.spec_bytes()) },
            grammar::initial(),
        ).errors,
{
    let mut parser = Parser::new(Lexer::new(text));
    parser.parse();
    parser.errors
}

/// The range that is highlighted for a cursor at `position`: two
/// characters from the cursor on.
pub fn highlight(position: SourcePosition) -> (r: TokenPosition)
    requires
        position.character <= usize::MAX - 2,
    ensures
        r.start == position,
        r.end.line == position.line,
        r.end.character == position.character + 2,
{
    let start = position;
    let mut end = position;
    end.character += 2;
    TokenPosition { start: start, end: end }
}

} // verus!
