//! What holds of every session.

use crate::call::{call_result_view, planned, requested_call, CallView, Verdict};
use crate::discovery::RestDescription;
use crate::error::{ErrorView, GwsError};
use crate::executor::{granted, AuthMethod, PlannedView};
use crate::json::{parsed, Json, JsonView};
use crate::protocol::{
    framed, law_parse_error_is_under_no_id, law_response_is_under_the_id, lemma_methods_differ,
    parse_error_view, reports_parse_error, responds_with, response_view, tools_view,
};
use crate::session::{
    ending, list_next, method_of, next, on_message, optional_json, params_of, quietly, supervised,
    upload_cleared, ActionView, ApiVersion, Event, SessionView, WorkView,
};
use crate::text::blank;
use crate::tools::listing;
use vstd::prelude::*;

verus! {

/// A notification in progress is never answered, and stays one.
pub proof fn law_notification_is_not_answered(s: SessionView, event: Event, verdict: Verdict)
    requires
        s.pending matches Some(p) && p.id is None,
    ensures
        next(s, event, verdict).1.action !is Reply,
        next(s, event, verdict).0.pending matches Some(q) ==> q.id is None,
{
}

/// A message without an id is a notification: it is not answered, and what it starts has no id.
pub proof fn law_message_without_id(s: SessionView, message: JsonView, verdict: Verdict)
    requires
        s.pending is None,
        message.get("id"@) is None,
    ensures
        on_message(s, message, verdict).1 !is Reply,
        on_message(s, message, verdict).0.pending matches Some(q) ==> q.id is None,
{
}

proof fn lemma_reply_is_under_the_id(action: ActionView, id: JsonView)
    requires
        action matches ActionView::Reply(line) ==> exists|result: Result<JsonView, ErrorView>|
            line == framed(#[trigger] response_view(id, result)),
    ensures
        action matches ActionView::Reply(line) ==> exists|
            result: Result<JsonView, Seq<char>>,
        | #[trigger]
            responds_with(line, id, result),
{
    if let ActionView::Reply(line) = action {
        let result = choose|result: Result<JsonView, ErrorView>|
            line == framed(#[trigger] response_view(id, result));
        law_response_is_under_the_id(id, result);
    }
}

/// A request in progress keeps its id until it ends; it ends with a reply, there is no reply
/// before that, and the reply carries the id.
pub proof fn law_reply_carries_the_id(
    s: SessionView,
    event: Event,
    verdict: Verdict,
    id: JsonView,
)
    requires
        s.pending matches Some(p) && p.id == Some(id),
    ensures
        next(s, event, verdict).0.pending matches Some(q) ==> q.id == Some(id),
        next(s, event, verdict).0.pending is None <==> next(s, event, verdict).1.action is Reply,
        next(s, event, verdict).1.action matches ActionView::Reply(line) ==> exists|
            result: Result<JsonView, ErrorView>,
        |
            line == framed(#[trigger] response_view(id, result)),
        next(s, event, verdict).1.action matches ActionView::Reply(line) ==> exists|
            result: Result<JsonView, Seq<char>>,
        | #[trigger]
            responds_with(line, id, result),
{
    lemma_reply_is_under_the_id(next(s, event, verdict).1.action, id);
}

/// A message with an id either is answered at once, with its id, or is in progress under it.
pub proof fn law_message_with_id(s: SessionView, message: JsonView, verdict: Verdict, id: JsonView)
    requires
        s.pending is None,
        message.get("id"@) == Some(id),
    ensures
        on_message(s, message, verdict).0.pending matches Some(q) ==> q.id == Some(id),
        on_message(s, message, verdict).0.pending is None <==> on_message(
            s,
            message,
            verdict,
        ).1 is Reply,
        on_message(s, message, verdict).1 matches ActionView::Reply(line) ==> exists|
            result: Result<JsonView, ErrorView>,
        |
            line == framed(#[trigger] response_view(id, result)),
        on_message(s, message, verdict).1 matches ActionView::Reply(line) ==> exists|
            result: Result<JsonView, Seq<char>>,
        | #[trigger]
            responds_with(line, id, result),
{
    lemma_reply_is_under_the_id(on_message(s, message, verdict).1, id);
}

/// A line that is not JSON is answered with a parse error; a blank one is passed over. Neither
/// changes the session.
pub proof fn law_line_without_message(s: SessionView, line: String, verdict: Verdict)
    requires
        s.pending is None,
        blank(line@) || parsed(line@) is None,
    ensures
        next(s, Event::Line(line), verdict).0 == s,
        next(s, Event::Line(line), verdict).1.action == if blank(line@) {
            ActionView::ReadLine
        } else {
            ActionView::Reply(framed(parse_error_view()))
        },
        next(s, Event::Line(line), verdict).1.warning is None,
        !blank(line@) ==> reports_parse_error(
            next(s, Event::Line(line), verdict).1.action->Reply_0,
        ),
{
    law_parse_error_is_under_no_id();
}

/// What the platform makes of a path matters only when a line is read.
pub proof fn law_verdict_is_for_lines(s: SessionView, event: Event, a: Verdict, b: Verdict)
    requires
        s.pending is Some || event !is Line,
    ensures
        next(s, event, a) == next(s, event, b),
{
}

/// What a session offers never changes.
pub proof fn law_config_is_fixed(s: SessionView, event: Event, verdict: Verdict)
    ensures
        next(s, event, verdict).0.config == s.config,
        next(s, event, verdict).0.version == s.version,
{
}

/// The list of tools is being made.
pub open spec fn listing_in_progress(s: SessionView) -> bool {
    s.pending matches Some(p) && (p.work is ResolveForList || p.work is FetchForList)
}

/// The list of tools is made once: after that it never changes, and is never made again. (In a
/// well-formed session none is being made where one is known.)
pub proof fn law_cache_is_kept(s: SessionView, event: Event, verdict: Verdict)
    requires
        !listing_in_progress(s),
        s.cache is Some,
    ensures
        next(s, event, verdict).0.cache == s.cache,
        !listing_in_progress(next(s, event, verdict).0),
{
}

/// A request for a list that is known is answered from what is known, and nothing is fetched.
pub proof fn law_known_list_is_answered(
    s: SessionView,
    message: JsonView,
    verdict: Verdict,
    tools: Seq<JsonView>,
)
    requires
        s.pending is None,
        s.cache == Some(tools),
        method_of(message) == "tools/list"@,
    ensures
        on_message(s, message, verdict).0 == s,
        on_message(s, message, verdict).1 == ending(message.get("id"@), Ok(tools_view(tools))),
{
    lemma_methods_differ();
}

/// Only services that the session offers are ever looked up.
pub proof fn law_only_enabled_services(s: SessionView, event: Event, verdict: Verdict)
    requires
        s.well_formed(),
    ensures
        next(s, event, verdict).1.action matches ActionView::Resolve(service)
            ==> s.config.services.contains(service),
{
}

/// A call whose file to upload is not allowed ends with an error as soon as its document is
/// there, or before: no token is asked for and nothing is run.
pub proof fn law_refused_upload_ends_the_call(
    s: SessionView,
    result: Result<RestDescription, GwsError>,
    verdict: Verdict,
)
    requires
        s.pending matches Some(p) && p.work matches WorkView::FetchForCall(call)
            && call.upload matches Some(u) && !u.allowed(),
    ensures
        next(s, Event::Fetched(result), verdict).0 == s.idle(),
        exists|e: ErrorView|
            next(s, Event::Fetched(result), verdict).1.action == #[trigger] ending(
                s.pending->0.id,
                Err(e),
            ),
{
}

/// A call that is run has had its file to upload cleared: the platform takes its path as relative
/// and finds no step to a parent directory in it.
pub proof fn law_run_upload_is_cleared(s: SessionView, event: Event, verdict: Verdict)
    requires
        s.well_formed(),
    ensures
        next(s, event, verdict).1.action matches ActionView::Execute(request) ==> upload_cleared(
            request,
        ),
{
}

/// Every call that is run is supervised, and it carries a token exactly when it is authenticated.
pub proof fn law_run_is_supervised(s: SessionView, event: Event, verdict: Verdict)
    requires
        s.well_formed(),
    ensures
        next(s, event, verdict).1.action matches ActionView::Execute(request) ==> supervised(
            request,
        ) && (request.token is Some <==> request.auth == AuthMethod::OAuth),
{
}

/// A call that is neither refused when it is read nor when its document is there goes through
/// all its steps: its service is resolved, the document fetched, a token asked for with the
/// scopes of the method, the method run with the token or without, and the request answered with
/// the outcome. The session is then as it was.
pub proof fn law_call_is_run_and_answered(
    s: SessionView,
    message: JsonView,
    verdict: Verdict,
    call: CallView,
    plan: PlannedView,
    api: ApiVersion,
    doc: RestDescription,
    token: Result<String, GwsError>,
    result: Result<Option<Json>, GwsError>,
)
    requires
        s.pending is None,
        method_of(message) == "tools/call"@,
        requested_call(params_of(message), s.config.services, verdict) == Ok::<_, ErrorView>(call),
        planned(call, doc) == Ok::<_, ErrorView>(plan),
    ensures
        ({
            let (s1, resolve) = on_message(s, message, verdict);
            let (s2, fetch) = next(s1, Event::Resolved(Ok(api)), verdict);
            let (s3, authorize) = next(s2, Event::Fetched(Ok(doc)), verdict);
            let (s4, execute) = next(s3, Event::Token(token), verdict);
            let (s5, end) = next(s4, Event::Executed(result), verdict);
            let outcome = match result {
                Ok(output) => Ok(call_result_view(optional_json(output))),
                Err(e) => Err(e@),
            };
            &&& resolve == ActionView::Resolve(call.service)
            &&& fetch == quietly(
                ActionView::Fetch { api_name: api.api_name@, version: api.version@ },
            )
            &&& authorize == quietly(ActionView::GetToken(plan.scopes))
            &&& execute == quietly(
                ActionView::Execute(plan.request.authorized(granted(token))),
            )
            &&& end == quietly(ending(message.get("id"@), outcome))
            &&& s5 == s
        }),
{
    lemma_methods_differ();
}

/// The event that answers what a request waits for.
pub open spec fn answers(work: WorkView, event: Event) -> bool {
    match work {
        WorkView::ResolveForList(_) => event is Resolved,
        WorkView::FetchForList(_) => event is Fetched,
        WorkView::ResolveForCall(_) => event is Resolved,
        WorkView::FetchForCall(_) => event is Fetched,
        WorkView::Authorize(_) => event is Token,
        WorkView::Execute => event is Executed,
    }
}

/// How many answers a request in progress can still need.
pub open spec fn remaining(s: SessionView) -> int {
    match s.pending {
        None => 0,
        Some(p) => match p.work {
            WorkView::ResolveForList(docs) => 2 * (s.config.services.len() - docs.len()),
            WorkView::FetchForList(docs) => 2 * (s.config.services.len() - docs.len()) - 1,
            WorkView::ResolveForCall(_) => 4,
            WorkView::FetchForCall(_) => 3,
            WorkView::Authorize(_) => 2,
            WorkView::Execute => 1,
        },
    }
}

/// Every answer brings a request nearer to its end, and anything else changes nothing.
pub proof fn law_answers_make_progress(s: SessionView, event: Event, verdict: Verdict)
    requires
        s.well_formed(),
        s.pending is Some,
    ensures
        0 < remaining(s),
        answers(s.pending->0.work, event) ==> {
            &&& next(s, event, verdict).1.action !is Unexpected
            &&& 0 <= remaining(next(s, event, verdict).0) < remaining(s)
        },
        !answers(s.pending->0.work, event) ==> {
            &&& next(s, event, verdict).1.action is Unexpected
            &&& next(s, event, verdict).0 == s
        },
{
}

/// The session after the next services were resolved and their documents fetched, or not, and
/// the last action that it took.
pub open spec fn after_documents(
    s: SessionView,
    action: ActionView,
    answers: Seq<(ApiVersion, Result<RestDescription, GwsError>)>,
    verdict: Verdict,
) -> (SessionView, ActionView)
    decreases answers.len(),
{
    if answers.len() == 0 {
        (s, action)
    } else {
        let (api, result) = answers[0];
        let (s1, _) = next(s, Event::Resolved(Ok(api)), verdict);
        let (s2, step) = next(s1, Event::Fetched(result), verdict);
        after_documents(s2, step.action, answers.skip(1), verdict)
    }
}

/// The documents among the answers.
pub open spec fn documents(
    answers: Seq<(ApiVersion, Result<RestDescription, GwsError>)>,
) -> Seq<Option<RestDescription>> {
    Seq::new(
        answers.len(),
        |i: int|
            match answers[i].1 {
                Ok(doc) => Some(doc),
                Err(_) => None,
            },
    )
}

proof fn lemma_listing_from(
    s: SessionView,
    id: Option<JsonView>,
    docs: Seq<Option<RestDescription>>,
    answers: Seq<(ApiVersion, Result<RestDescription, GwsError>)>,
    verdict: Verdict,
)
    requires
        s.pending is None,
        s.cache is None,
        docs.len() + answers.len() == s.config.services.len(),
    ensures
        ({
            let (s0, action) = list_next(s, id, docs);
            let tools = listing(docs + documents(answers), s.config.workflows);
            after_documents(s0, action, answers, verdict) == (
                SessionView { cache: Some(tools), ..s },
                ending(id, Ok(tools_view(tools))),
            )
        }),
    decreases answers.len(),
{
    let (s0, action) = list_next(s, id, docs);
    if answers.len() == 0 {
        assert(docs + documents(answers) =~= docs);
    } else {
        let (api, result) = answers[0];
        let (s1, _) = next(s0, Event::Resolved(Ok(api)), verdict);
        let (s2, step) = next(s1, Event::Fetched(result), verdict);
        let more = docs.push(documents(answers)[0]);
        assert(s1.idle() =~= s);
        assert(list_next(s1, id, more) == list_next(s, id, more)) by {
            assert(s1.waiting(id, WorkView::ResolveForList(more)) =~= s.waiting(
                id,
                WorkView::ResolveForList(more),
            ));
        }
        assert((s2, step.action) == list_next(s, id, more));
        lemma_listing_from(s, id, more, answers.skip(1), verdict);
        assert(documents(answers.skip(1)) =~= documents(answers).skip(1));
        assert(more + documents(answers.skip(1)) =~= docs + documents(answers));
    }
}

/// A first request for the list of tools, once every service is resolved and its document is
/// fetched or known to be missing, ends with the tools of all those documents, and the session
/// knows that list from then on.
pub proof fn law_first_list_is_complete(
    s: SessionView,
    message: JsonView,
    answers: Seq<(ApiVersion, Result<RestDescription, GwsError>)>,
    verdict: Verdict,
)
    requires
        s.pending is None,
        s.cache is None,
        method_of(message) == "tools/list"@,
        answers.len() == s.config.services.len(),
    ensures
        ({
            let (s0, action) = on_message(s, message, verdict);
            let tools = listing(documents(answers), s.config.workflows);
            after_documents(s0, action, answers, verdict) == (
                SessionView { cache: Some(tools), ..s },
                ending(message.get("id"@), Ok(tools_view(tools))),
            )
        }),
{
    lemma_methods_differ();
    lemma_listing_from(s, message.get("id"@), Seq::empty(), answers, verdict);
    assert(Seq::<Option<RestDescription>>::empty() + documents(answers) =~= documents(answers));
}

} // verus!
