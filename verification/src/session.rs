//! A server session: what to do on each line of input and on each answer of a collaborator.
//!
//! The session never waits. It asks for one thing at a time with an [`Action`], and is told the
//! outcome with an [`Event`].

use crate::call::{
    call_result, call_result_view, plan_call, planned, verdict_on, CallView, ToolCall, Verdict,
};
use crate::config::{ConfigView, ServerConfig};
use crate::discovery::RestDescription;
use crate::error::{outcome, ErrorView, GwsError};
use crate::executor::{
    granted, ExecuteRequest, PlannedCall, PlannedView, RequestView, SanitizeMode,
};
use crate::json::{copy_items, items_of, parsed, Json, JsonView};
use crate::protocol::{
    framed, handle_request, one_line, parse_error, parse_error_view, request_kind, respond,
    response_view, tools_result, tools_view, Request, RequestKind,
};
use crate::text::{blank, copy_texts, is_blank, sandwich, split, texts};
use crate::tools::{build_tools_list, listing};
use crate::uploads::{judged, rooted};
use vstd::prelude::*;

verus! {

/// An API and its version.
pub struct ApiVersion {
    pub api_name: String,
    pub version: String,
}

/// What the session is told.
pub enum Event {
    /// A line was read.
    Line(String),
    /// A service was resolved to an API, or could not be.
    Resolved(Result<ApiVersion, GwsError>),
    /// A discovery document was fetched, or could not be.
    Fetched(Result<RestDescription, GwsError>),
    /// A token was obtained, or could not be.
    Token(Result<String, GwsError>),
    /// A method was run, with its output where it has some, or failed.
    Executed(Result<Option<Json>, GwsError>),
}

/// What the session asks for next.
pub enum Action {
    /// Read a line.
    ReadLine,
    /// Write this, then read a line.
    Reply(String),
    /// Resolve this service.
    Resolve(String),
    /// Fetch the discovery document of this API.
    Fetch(ApiVersion),
    /// Obtain a token for these scopes.
    GetToken(Vec<String>),
    /// Run this method.
    Execute(ExecuteRequest),
    /// The event was not an answer to what was asked for; nothing changed.
    Unexpected,
}

/// What the session does on an event.
pub struct Step {
    /// Something to report to the operator.
    pub warning: Option<String>,
    pub action: Action,
}

/// The work that a request still needs, by what it waits for.
enum Work {
    ResolveForList(Vec<Option<RestDescription>>),
    FetchForList(Vec<Option<RestDescription>>),
    ResolveForCall(ToolCall),
    FetchForCall(ToolCall),
    Authorize(PlannedCall),
    Execute,
}

/// A request in progress. A notification has no id.
struct Pending {
    id: Option<Json>,
    work: Work,
}

/// A server session.
pub struct Session {
    config: ServerConfig,
    version: String,
    cache: Option<Vec<Json>>,
    pending: Option<Pending>,
}

/// The mathematical content of an [`Action`].
#[verifier::ext_equal]
pub enum ActionView {
    ReadLine,
    Reply(Seq<char>),
    Resolve(Seq<char>),
    Fetch { api_name: Seq<char>, version: Seq<char> },
    GetToken(Seq<Seq<char>>),
    Execute(RequestView),
    Unexpected,
}

/// The mathematical content of a [`Step`].
#[verifier::ext_equal]
pub struct StepView {
    pub warning: Option<Seq<char>>,
    pub action: ActionView,
}

/// The work that a request still needs, by what it waits for.
#[verifier::ext_equal]
pub enum WorkView {
    /// The documents of the first services are known; the next service is to be resolved.
    ResolveForList(Seq<Option<RestDescription>>),
    /// The documents of the first services are known; that of the next is to be fetched.
    FetchForList(Seq<Option<RestDescription>>),
    /// The service of the call is to be resolved.
    ResolveForCall(CallView),
    /// The document of the service of the call is to be fetched.
    FetchForCall(CallView),
    /// A token for the call is to be obtained.
    Authorize(PlannedView),
    /// The call is running.
    Execute,
}

/// A request in progress.
#[verifier::ext_equal]
pub struct PendingView {
    pub id: Option<JsonView>,
    pub work: WorkView,
}

/// The mathematical content of a [`Session`].
#[verifier::ext_equal]
pub struct SessionView {
    pub config: ConfigView,
    pub version: Seq<char>,
    /// The list of tools, once it is known.
    pub cache: Option<Seq<JsonView>>,
    pub pending: Option<PendingView>,
}

/// The value in an option, if there is one.
pub open spec fn optional_json(v: Option<Json>) -> Option<JsonView> {
    match v {
        Some(v) => Some(v@),
        None => None,
    }
}

impl View for Action {
    type V = ActionView;

    open spec fn view(&self) -> ActionView {
        match *self {
            Action::ReadLine => ActionView::ReadLine,
            Action::Reply(line) => ActionView::Reply(line@),
            Action::Resolve(service) => ActionView::Resolve(service@),
            Action::Fetch(api) => ActionView::Fetch {
                api_name: api.api_name@,
                version: api.version@,
            },
            Action::GetToken(scopes) => ActionView::GetToken(texts(scopes@)),
            Action::Execute(request) => ActionView::Execute(request@),
            Action::Unexpected => ActionView::Unexpected,
        }
    }
}

impl View for Step {
    type V = StepView;

    open spec fn view(&self) -> StepView {
        StepView {
            warning: match self.warning {
                Some(w) => Some(w@),
                None => None,
            },
            action: self.action@,
        }
    }
}

impl View for Work {
    type V = WorkView;

    closed spec fn view(&self) -> WorkView {
        match *self {
            Work::ResolveForList(docs) => WorkView::ResolveForList(docs@),
            Work::FetchForList(docs) => WorkView::FetchForList(docs@),
            Work::ResolveForCall(call) => WorkView::ResolveForCall(call@),
            Work::FetchForCall(call) => WorkView::FetchForCall(call@),
            Work::Authorize(call) => WorkView::Authorize(call@),
            Work::Execute => WorkView::Execute,
        }
    }
}

impl View for Session {
    type V = SessionView;

    closed spec fn view(&self) -> SessionView {
        SessionView {
            config: self.config@,
            version: self.version@,
            cache: match self.cache {
                Some(tools) => Some(items_of(tools@)),
                None => None,
            },
            pending: match self.pending {
                Some(p) => Some(PendingView { id: optional_json(p.id), work: p.work@ }),
                None => None,
            },
        }
    }
}

/// The platform takes the path of the file that a request uploads, if any, as relative and finds
/// no step to a parent directory in it. A path that does not begin with a separator then has no
/// segment `..` on any platform.
pub open spec fn upload_cleared(request: RequestView) -> bool {
    request.upload matches Some(path) ==> {
        &&& judged(path, false, false)
        &&& !rooted(path) ==> !split(path, '/').contains(".."@)
    }
}

/// The request is really sent, at most a hundred pages are fetched, a tenth of a second apart,
/// content that does not pass sanitizing is reported, and the output is handed back, not written
/// to a file nor printed: standard output belongs to the replies.
pub open spec fn supervised(request: RequestView) -> bool {
    &&& !request.dry_run
    &&& request.page_limit == 100
    &&& request.page_delay_ms == 100
    &&& request.sanitize_template is None
    &&& request.sanitize_mode == SanitizeMode::Warn
    &&& request.format is None
    &&& request.output is None
    &&& request.capture_output
}

impl SessionView {
    /// While the list of tools is made there is a next service and no list yet; a call has a
    /// resource to look in; a planned call is supervised, and the file that it uploads was cleared.
    pub open spec fn well_formed(self) -> bool {
        match self.pending {
            None => true,
            Some(p) => match p.work {
                WorkView::ResolveForList(docs) => self.cache is None && docs.len()
                    < self.config.services.len(),
                WorkView::FetchForList(docs) => self.cache is None && docs.len()
                    < self.config.services.len(),
                WorkView::ResolveForCall(call) => call.well_formed(),
                WorkView::FetchForCall(call) => call.well_formed(),
                WorkView::Authorize(plan) => upload_cleared(plan.request) && supervised(
                    plan.request,
                ),
                WorkView::Execute => true,
            },
        }
    }

    /// The session with this request in progress.
    pub open spec fn waiting(self, id: Option<JsonView>, work: WorkView) -> SessionView {
        SessionView { pending: Some(PendingView { id, work }), ..self }
    }

    /// The session once a request is done.
    pub open spec fn idle(self) -> SessionView {
        SessionView { pending: None, ..self }
    }
}

/// A step without a warning.
pub open spec fn quietly(action: ActionView) -> StepView {
    StepView { warning: None, action }
}

/// How a request ends: one with an id is answered, a notification is not.
pub open spec fn ending(id: Option<JsonView>, result: Result<JsonView, ErrorView>) -> ActionView {
    match id {
        Some(id) => ActionView::Reply(framed(response_view(id, result))),
        None => ActionView::ReadLine,
    }
}

/// What is reported when a service's document cannot be had.
pub open spec fn unavailable(service: Seq<char>) -> Seq<char> {
    "[gws mcp] Warning: Failed to load discovery document for service '"@ + service
        + "'. It will not be available as a tool."@
}

/// The next step in making the list of tools, given the documents so far.
pub open spec fn list_next(
    s: SessionView,
    id: Option<JsonView>,
    docs: Seq<Option<RestDescription>>,
) -> (SessionView, ActionView) {
    if docs.len() < s.config.services.len() {
        (
            s.waiting(id, WorkView::ResolveForList(docs)),
            ActionView::Resolve(s.config.services[docs.len() as int]),
        )
    } else {
        let tools = listing(docs, s.config.workflows);
        (SessionView { cache: Some(tools), ..s.idle() }, ending(id, Ok(tools_view(tools))))
    }
}

/// The method that a message asks for: none where there is no text.
pub open spec fn method_of(message: JsonView) -> Seq<char> {
    match message.get("method"@) {
        Some(m) => match m.as_str() {
            Some(s) => s,
            None => Seq::empty(),
        },
        None => Seq::empty(),
    }
}

/// The parameters in a message: an empty object where there are none.
pub open spec fn params_of(message: JsonView) -> JsonView {
    match message.get("params"@) {
        Some(p) => p,
        None => JsonView::Object(Map::empty()),
    }
}

/// What the session does on a message.
pub open spec fn on_message(s: SessionView, message: JsonView, verdict: Verdict) -> (
    SessionView,
    ActionView,
) {
    let id = message.get("id"@);
    match request_kind(
        method_of(message),
        params_of(message),
        s.config.services,
        s.version,
        verdict,
    ) {
        RequestKind::Answer(result) => (s.idle(), ending(id, result)),
        RequestKind::List => match s.cache {
            Some(tools) => (s.idle(), ending(id, Ok(tools_view(tools)))),
            None => list_next(s, id, Seq::empty()),
        },
        RequestKind::Call(call) => (
            s.waiting(id, WorkView::ResolveForCall(call)),
            ActionView::Resolve(call.service),
        ),
    }
}

/// What the session does on a line.
pub open spec fn on_line(s: SessionView, line: Seq<char>, verdict: Verdict) -> (
    SessionView,
    ActionView,
) {
    if blank(line) {
        (s, ActionView::ReadLine)
    } else {
        match parsed(line) {
            Some(message) => on_message(s, message, verdict),
            None => (s, ActionView::Reply(framed(parse_error_view()))),
        }
    }
}

/// What the session does on an event: its next state and the step it takes. `verdict` is what
/// the platform makes of the path of a file to upload, where a line asks for one.
pub open spec fn next(s: SessionView, event: Event, verdict: Verdict) -> (SessionView, StepView) {
    match (s.pending, event) {
        (None, Event::Line(line)) => {
            let (s1, action) = on_line(s, line@, verdict);
            (s1, quietly(action))
        },
        (Some(p), Event::Resolved(result)) => match (p.work, result) {
            (WorkView::ResolveForList(docs), Ok(api)) => (
                s.waiting(p.id, WorkView::FetchForList(docs)),
                quietly(ActionView::Fetch { api_name: api.api_name@, version: api.version@ }),
            ),
            (WorkView::ResolveForCall(call), Ok(api)) => (
                s.waiting(p.id, WorkView::FetchForCall(call)),
                quietly(ActionView::Fetch { api_name: api.api_name@, version: api.version@ }),
            ),
            (WorkView::ResolveForList(_), Err(e)) => (s.idle(), quietly(ending(p.id, Err(e@)))),
            (WorkView::ResolveForCall(_), Err(e)) => (s.idle(), quietly(ending(p.id, Err(e@)))),
            _ => (s, quietly(ActionView::Unexpected)),
        },
        (Some(p), Event::Fetched(result)) => match (p.work, result) {
            (WorkView::FetchForList(docs), Ok(doc)) => {
                let (s1, action) = list_next(s, p.id, docs.push(Some(doc)));
                (s1, quietly(action))
            },
            (WorkView::FetchForList(docs), Err(_)) => {
                let (s1, action) = list_next(s, p.id, docs.push(None));
                (
                    s1,
                    StepView {
                        warning: Some(unavailable(s.config.services[docs.len() as int])),
                        action,
                    },
                )
            },
            (WorkView::FetchForCall(call), Ok(doc)) => match planned(call, doc) {
                Ok(plan) => (
                    s.waiting(p.id, WorkView::Authorize(plan)),
                    quietly(ActionView::GetToken(plan.scopes)),
                ),
                Err(e) => (s.idle(), quietly(ending(p.id, Err(e)))),
            },
            (WorkView::FetchForCall(_), Err(e)) => (s.idle(), quietly(ending(p.id, Err(e@)))),
            _ => (s, quietly(ActionView::Unexpected)),
        },
        (Some(p), Event::Token(token)) => match p.work {
            WorkView::Authorize(plan) => (
                s.waiting(p.id, WorkView::Execute),
                quietly(ActionView::Execute(plan.request.authorized(granted(token)))),
            ),
            _ => (s, quietly(ActionView::Unexpected)),
        },
        (Some(p), Event::Executed(result)) => match p.work {
            WorkView::Execute => (
                s.idle(),
                quietly(
                    ending(
                        p.id,
                        match result {
                            Ok(output) => Ok(call_result_view(optional_json(output))),
                            Err(e) => Err(e@),
                        },
                    ),
                ),
            ),
            _ => (s, quietly(ActionView::Unexpected)),
        },
        _ => (s, quietly(ActionView::Unexpected)),
    }
}

/// The verdict on the upload of the call that has just been read, arbitrary but fixed where
/// there is none.
pub open spec fn verdict_in(s: SessionView) -> Verdict {
    match s.pending {
        Some(p) => match p.work {
            WorkView::ResolveForCall(call) => verdict_on(call),
            _ => Verdict { absolute: false, climbs: false },
        },
        None => Verdict { absolute: false, climbs: false },
    }
}

/// A step without a warning.
fn quiet(action: Action) -> (r: Step)
    ensures
        r@ == quietly(action@),
{
    Step { warning: None, action }
}

/// How a request ends.
fn end_request(id: Option<Json>, result: Result<Json, GwsError>) -> (r: Action)
    ensures
        r@ == ending(optional_json(id), outcome(result)),
        r matches Action::Reply(line) ==> one_line(line@),
{
    match id {
        Some(id) => Action::Reply(respond(id, result)),
        None => Action::ReadLine,
    }
}

impl Session {
    /// A session that has read nothing yet. `version` is the version of the program.
    pub fn new(config: ServerConfig, version: &str) -> (r: Session)
        ensures
            r@ == (SessionView { config: config@, version: version@, cache: None, pending: None }),
            r@.well_formed(),
    {
        Session { config, version: version.to_string(), cache: None, pending: None }
    }

    /// Goes on with the list of tools, given the documents so far.
    fn go_on_listing(&mut self, id: Option<Json>, docs: Vec<Option<RestDescription>>) -> (r: Action)
        requires
            old(self)@.pending is None,
            old(self)@.cache is None,
            docs@.len() <= old(self)@.config.services.len(),
        ensures
            (final(self)@, r@) == list_next(old(self)@, optional_json(id), docs@),
            final(self)@.well_formed(),
            r matches Action::Reply(line) ==> one_line(line@),
    {
        assert(texts(self.config.services@).len() == self.config.services@.len());
        if docs.len() < self.config.services.len() {
            let service: String = self.config.services[docs.len()].clone();
            self.pending = Some(Pending { id, work: Work::ResolveForList(docs) });
            Action::Resolve(service)
        } else {
            let tools: Vec<Json> = build_tools_list(&docs, self.config.workflows);
            let reply: Json = tools_result(copy_items(&tools));
            self.cache = Some(tools);
            end_request(id, Ok(reply))
        }
    }

    /// Acts on a message that was read from a line.
    pub fn take_message(&mut self, message: Json) -> (r: Action)
        requires
            old(self)@.pending is None,
        ensures
            (final(self)@, r@) == on_message(old(self)@, message@, verdict_in(final(self)@)),
            final(self)@.well_formed(),
            r matches Action::Reply(line) ==> one_line(line@),
    {
        let no_params: Json = Json::Object(Vec::new());
        let request: Request = {
            let method: &str = match message.get("method") {
                Some(m) => match m.as_str() {
                    Some(s) => s,
                    None => "",
                },
                None => "",
            };
            proof {
                reveal_strlit("");
                assert(""@ =~= Seq::empty());
            }
            let params: &Json = match message.get("params") {
                Some(p) => p,
                None => &no_params,
            };
            handle_request(method, params, &self.config.services, self.version.as_str())
        };
        let id: Option<Json> = message.into_field("id");
        match request {
            Request::Answer(result) => end_request(id, result),
            Request::List => {
                if let Some(tools) = &self.cache {
                    let reply: Json = tools_result(copy_items(tools));
                    return end_request(id, Ok(reply));
                }
                self.go_on_listing(id, Vec::new())
            },
            Request::Call(call) => {
                let service: String = call.service.clone();
                self.pending = Some(Pending { id, work: Work::ResolveForCall(call) });
                Action::Resolve(service)
            },
        }
    }

    /// Acts on a line.
    fn take_line(&mut self, line: &str) -> (r: Action)
        requires
            old(self)@.pending is None,
        ensures
            (final(self)@, r@) == on_line(old(self)@, line@, verdict_in(final(self)@)),
            final(self)@.well_formed(),
            r matches Action::Reply(line) ==> one_line(line@),
    {
        if is_blank(line) {
            return Action::ReadLine;
        }
        match Json::parse(line) {
            Some(message) => self.take_message(message),
            None => Action::Reply(parse_error()),
        }
    }

    /// Acts on an event. Every reply is one line.
    pub fn step(&mut self, event: Event) -> (r: Step)
        requires
            old(self)@.well_formed(),
        ensures
            (final(self)@, r@) == next(old(self)@, event, verdict_in(final(self)@)),
            final(self)@.well_formed(),
            r.action matches Action::Reply(line) ==> one_line(line@),
    {
        match self.pending.take() {
            None => match event {
                Event::Line(line) => quiet(self.take_line(line.as_str())),
                _ => quiet(Action::Unexpected),
            },
            Some(Pending { id, work }) => match (work, event) {
                (Work::ResolveForList(docs), Event::Resolved(Ok(api))) => {
                    self.pending = Some(Pending { id, work: Work::FetchForList(docs) });
                    quiet(Action::Fetch(api))
                },
                (Work::ResolveForCall(call), Event::Resolved(Ok(api))) => {
                    self.pending = Some(Pending { id, work: Work::FetchForCall(call) });
                    quiet(Action::Fetch(api))
                },
                (Work::ResolveForList(_), Event::Resolved(Err(e))) => quiet(
                    end_request(id, Err(e)),
                ),
                (Work::ResolveForCall(_), Event::Resolved(Err(e))) => quiet(
                    end_request(id, Err(e)),
                ),
                (Work::FetchForList(known), Event::Fetched(result)) => {
                    let mut docs: Vec<Option<RestDescription>> = known;
                    let mut warning: Option<String> = None;
                    match result {
                        Ok(doc) => {
                            docs.push(Some(doc));
                        },
                        Err(_) => {
                            warning = Some(
                                sandwich(
                                    "[gws mcp] Warning: Failed to load discovery document for service '",
                                    self.config.services[docs.len()].as_str(),
                                    "'. It will not be available as a tool.",
                                ),
                            );
                            docs.push(None);
                        },
                    }
                    let action: Action = self.go_on_listing(id, docs);
                    Step { warning, action }
                },
                (Work::FetchForCall(call), Event::Fetched(Ok(doc))) => match plan_call(call, &doc) {
                    Ok(plan) => {
                        let scopes: Vec<String> = copy_texts(&plan.scopes);
                        self.pending = Some(Pending { id, work: Work::Authorize(plan) });
                        quiet(Action::GetToken(scopes))
                    },
                    Err(e) => quiet(end_request(id, Err(e))),
                },
                (Work::FetchForCall(_), Event::Fetched(Err(e))) => quiet(end_request(id, Err(e))),
                (Work::Authorize(plan), Event::Token(token)) => {
                    self.pending = Some(Pending { id, work: Work::Execute });
                    quiet(Action::Execute(plan.authorize(token)))
                },
                (Work::Execute, Event::Executed(Ok(output))) => quiet(
                    end_request(id, Ok(call_result(&output))),
                ),
                (Work::Execute, Event::Executed(Err(e))) => quiet(end_request(id, Err(e))),
                (work, _) => {
                    self.pending = Some(Pending { id, work });
                    quiet(Action::Unexpected)
                },
            },
        }
    }
}

} // verus!
