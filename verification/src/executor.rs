//! Requests to run a method of an API.

use crate::error::GwsError;
use crate::text::texts;
use vstd::prelude::*;

verus! {

/// How a request is authenticated.
#[derive(Debug, Clone, Copy, PartialEq, Eq, Structural)]
pub enum AuthMethod {
    OAuth,
    Anonymous,
}

/// What happens to content that does not pass sanitizing.
#[derive(Debug, Clone, Copy, PartialEq, Eq, Structural)]
pub enum SanitizeMode {
    /// It is reported, and handed on all the same.
    Warn,
    /// It is withheld.
    Block,
}

/// A format in which output is written.
#[derive(Debug, Clone, Copy, PartialEq, Eq, Structural)]
pub enum OutputFormat {
    Json,
    Table,
    Yaml,
    Csv,
}

/// A request to run a method.
pub struct ExecuteRequest {
    /// The resources on the way to the method, outermost first.
    pub path: Vec<String>,
    /// The name of the method in the last of them.
    pub method: String,
    /// Query and path parameters, as JSON text.
    pub params: Option<String>,
    /// The request body, as JSON text.
    pub body: Option<String>,
    pub token: Option<String>,
    pub auth: AuthMethod,
    /// A local file to write the output to.
    pub output: Option<String>,
    /// A local file to upload.
    pub upload: Option<String>,
    /// Print the request in place of sending it.
    pub dry_run: bool,
    pub page_all: bool,
    pub page_limit: u32,
    pub page_delay_ms: u64,
    /// The template by which content is sanitized.
    pub sanitize_template: Option<String>,
    pub sanitize_mode: SanitizeMode,
    /// The format of the output: the program's default where there is none.
    pub format: Option<OutputFormat>,
    /// Hand the output back in place of printing it.
    pub capture_output: bool,
}

/// The mathematical content of an [`ExecuteRequest`].
#[verifier::ext_equal]
pub struct RequestView {
    pub path: Seq<Seq<char>>,
    pub method: Seq<char>,
    pub params: Option<Seq<char>>,
    pub body: Option<Seq<char>>,
    pub token: Option<Seq<char>>,
    pub auth: AuthMethod,
    pub output: Option<Seq<char>>,
    pub upload: Option<Seq<char>>,
    pub dry_run: bool,
    pub page_all: bool,
    pub page_limit: int,
    pub page_delay_ms: int,
    pub sanitize_template: Option<Seq<char>>,
    pub sanitize_mode: SanitizeMode,
    pub format: Option<OutputFormat>,
    pub capture_output: bool,
}

/// The text in an option, if there is one.
pub open spec fn optional_text(s: Option<String>) -> Option<Seq<char>> {
    match s {
        Some(s) => Some(s@),
        None => None,
    }
}

impl View for ExecuteRequest {
    type V = RequestView;

    open spec fn view(&self) -> RequestView {
        RequestView {
            path: texts(self.path@),
            method: self.method@,
            params: optional_text(self.params),
            body: optional_text(self.body),
            token: optional_text(self.token),
            auth: self.auth,
            output: optional_text(self.output),
            upload: optional_text(self.upload),
            dry_run: self.dry_run,
            page_all: self.page_all,
            page_limit: self.page_limit as int,
            page_delay_ms: self.page_delay_ms as int,
            sanitize_template: optional_text(self.sanitize_template),
            sanitize_mode: self.sanitize_mode,
            format: self.format,
            capture_output: self.capture_output,
        }
    }
}

/// A request that still wants a token for `scopes`.
pub struct PlannedCall {
    pub scopes: Vec<String>,
    pub request: ExecuteRequest,
}

/// The mathematical content of a [`PlannedCall`].
#[verifier::ext_equal]
pub struct PlannedView {
    pub scopes: Seq<Seq<char>>,
    pub request: RequestView,
}

impl View for PlannedCall {
    type V = PlannedView;

    open spec fn view(&self) -> PlannedView {
        PlannedView { scopes: texts(self.scopes@), request: self.request@ }
    }
}

impl RequestView {
    /// The request with the token that was obtained, or without one where none was.
    pub open spec fn authorized(self, token: Option<Seq<char>>) -> RequestView {
        RequestView {
            token,
            auth: if token is Some {
                AuthMethod::OAuth
            } else {
                AuthMethod::Anonymous
            },
            ..self
        }
    }
}

/// The token in the answer to a request for one.
pub open spec fn granted(token: Result<String, GwsError>) -> Option<Seq<char>> {
    match token {
        Ok(t) => Some(t@),
        Err(_) => None,
    }
}

impl PlannedCall {
    /// The request to run once it is known whether there is a token. Without one it is run
    /// unauthenticated.
    pub fn authorize(self, token: Result<String, GwsError>) -> (r: ExecuteRequest)
        ensures
            r@ == self@.request.authorized(granted(token)),
    {
        let mut request: ExecuteRequest = self.request;
        match token {
            Ok(t) => {
                request.token = Some(t);
                request.auth = AuthMethod::OAuth;
            },
            Err(_) => {
                request.token = None;
                request.auth = AuthMethod::Anonymous;
            },
        }
        request
    }
}

/// A token, or the lack of one, changes nothing in a request but its token and how it is
/// authenticated: with a token by it, and without one not at all.
pub proof fn law_token_changes_nothing_else(request: RequestView, token: Option<Seq<char>>)
    ensures
        ({
            let r = request.authorized(token);
            &&& r.token == token
            &&& token is Some ==> r.auth == AuthMethod::OAuth
            &&& token is None ==> r.auth == AuthMethod::Anonymous
            &&& r.path == request.path
            &&& r.method == request.method
            &&& r.params == request.params
            &&& r.body == request.body
            &&& r.output == request.output
            &&& r.upload == request.upload
            &&& r.dry_run == request.dry_run
            &&& r.page_all == request.page_all
            &&& r.page_limit == request.page_limit
            &&& r.page_delay_ms == request.page_delay_ms
            &&& r.sanitize_template == request.sanitize_template
            &&& r.sanitize_mode == request.sanitize_mode
            &&& r.format == request.format
            &&& r.capture_output == request.capture_output
        }),
{
}

/// A token that was obtained is the one that is used; none is used where it could not be had.
pub proof fn law_granted_token_is_used(token: String, error: GwsError)
    ensures
        granted(Ok(token)) == Some(token@),
        granted(Err(error)) is None,
{
}

} // verus!
