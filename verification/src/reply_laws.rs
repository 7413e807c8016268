//! What a client is told, and what is run for it, in terms of what it asked.

use crate::call::{
    call_result_view, is_text_result, law_arguments_are_passed_on, law_output_is_told,
    law_plan_is_for_the_call, planned, requested_call, text_of, CallView, Verdict,
};
use crate::discovery::{descend, find, RestDescription, RestMethod};
use crate::error::{ErrorView, GwsError};
use crate::executor::AuthMethod;
use crate::json::{parsed, pretty_text, Json, JsonView};
use crate::protocol::{
    in_words, introduces, law_list_is_under_tools, law_methods_are_told_apart,
    law_response_is_under_the_id, lemma_methods_differ, request_kind, responds_with, tools_view,
};
use crate::routing::{
    all_plain, law_enabled_services_can_be_called, law_name_is_taken_apart, plain_name,
};
use crate::session::{
    ending, list_next, next, on_message, optional_json, ActionView, ApiVersion, Event, SessionView,
    StepView, WorkView,
};
use crate::session_laws::{after_documents, documents, law_first_list_is_complete};
use crate::text::{blank, join};
use crate::tools::listing;
use vstd::prelude::*;

verus! {

/// The message asks for this method.
pub open spec fn asks_for(message: JsonView, method: Seq<char>) -> bool {
    message.get("method"@) == Some(JsonView::Str(method))
}

/// What is under a key, or an empty object where nothing is.
pub open spec fn is_under(v: JsonView, key: Seq<char>, inner: JsonView) -> bool {
    match v.get(key) {
        Some(found) => inner == found,
        None => inner == JsonView::Object(Map::empty()),
    }
}

/// A request with this id is answered with this result; a notification is not answered.
pub open spec fn ends_with(
    action: ActionView,
    id: Option<JsonView>,
    result: Result<JsonView, Seq<char>>,
) -> bool {
    match id {
        Some(id) => action is Reply && responds_with(action->Reply_0, id, result),
        None => action is ReadLine,
    }
}

proof fn lemma_ending(id: Option<JsonView>, result: Result<JsonView, ErrorView>)
    ensures
        ends_with(ending(id, result), id, in_words(result)),
{
    if let Some(id) = id {
        law_response_is_under_the_id(id, result);
    }
}

/// A server introduces itself on `initialize`, whatever the parameters are: with the version of
/// the protocol, its name and version, and that it has tools. The session stays as it is.
pub proof fn law_initialize_is_answered(s: SessionView, message: JsonView, verdict: Verdict)
    requires
        s.pending is None,
        asks_for(message, "initialize"@),
    ensures
        on_message(s, message, verdict).0 == s,
        exists|v: JsonView| #[trigger]
            introduces(v, s.version) && ends_with(
                on_message(s, message, verdict).1,
                message.get("id"@),
                Ok(v),
            ),
{
    let params = if message.get("params"@) is Some {
        message.get("params"@)->0
    } else {
        JsonView::Object(Map::empty())
    };
    law_methods_are_told_apart(
        "initialize"@,
        params,
        s.config.services,
        s.version,
        verdict,
    );
    let kind = request_kind(
        "initialize"@,
        params,
        s.config.services,
        s.version,
        verdict,
    );
    let v = kind->Answer_0->Ok_0;
    lemma_ending(message.get("id"@), Ok(v));
    assert(introduces(v, s.version));
}

/// That a client is ready is taken note of: the result is an empty object, and the session stays
/// as it is.
pub proof fn law_readiness_is_noted(s: SessionView, message: JsonView, verdict: Verdict)
    requires
        s.pending is None,
        asks_for(message, "notifications/initialized"@),
    ensures
        on_message(s, message, verdict).0 == s,
        ends_with(
            on_message(s, message, verdict).1,
            message.get("id"@),
            Ok(JsonView::Object(Map::empty())),
        ),
{
    lemma_methods_differ();
    lemma_ending(message.get("id"@), Ok(JsonView::Object(Map::empty())));
}

/// A method that the server does not know is refused by its name, and one that is missing or not
/// text by an empty name. The session stays as it is.
pub proof fn law_unknown_method_is_refused(
    s: SessionView,
    message: JsonView,
    verdict: Verdict,
    method: Seq<char>,
)
    requires
        s.pending is None,
        asks_for(message, method) || (method.len() == 0 && (message.get("method"@) is Some
            ==> message.get("method"@)->0 !is Str)),
        method != "initialize"@,
        method != "notifications/initialized"@,
        method != "tools/list"@,
        method != "tools/call"@,
    ensures
        on_message(s, message, verdict).0 == s,
        ends_with(
            on_message(s, message, verdict).1,
            message.get("id"@),
            Err("Method not supported: "@ + method),
        ),
{
    assert(method.len() == 0 ==> method =~= Seq::empty());
    lemma_ending(
        message.get("id"@),
        Err(ErrorView::Validation("Method not supported: "@ + method)),
    );
}

/// A list that is known is given under `tools`, as it is.
pub proof fn law_known_list_is_given(
    s: SessionView,
    message: JsonView,
    verdict: Verdict,
    tools: Seq<JsonView>,
)
    requires
        s.pending is None,
        s.cache == Some(tools),
        asks_for(message, "tools/list"@),
    ensures
        on_message(s, message, verdict).0 == s,
        ends_with(on_message(s, message, verdict).1, message.get("id"@), Ok(tools_view(tools))),
        tools_view(tools)->Object_0["tools"@] == JsonView::Array(tools),
{
    lemma_methods_differ();
    law_list_is_under_tools(tools);
    lemma_ending(message.get("id"@), Ok(tools_view(tools)));
}

/// A call that is refused when it is read is answered with the reason, and nothing is asked for.
pub proof fn law_refused_call_is_answered(
    s: SessionView,
    message: JsonView,
    verdict: Verdict,
    params: JsonView,
)
    requires
        s.pending is None,
        asks_for(message, "tools/call"@),
        is_under(message, "params"@, params),
        requested_call(params, s.config.services, verdict) is Err,
    ensures
        on_message(s, message, verdict).0 == s,
        ends_with(
            on_message(s, message, verdict).1,
            message.get("id"@),
            in_words(Err(requested_call(params, s.config.services, verdict)->Err_0)),
        ),
{
    lemma_methods_differ();
    lemma_ending(
        message.get("id"@),
        Err(requested_call(params, s.config.services, verdict)->Err_0),
    );
}

/// The steps of a call that nothing stands in the way of, from its message to the end.
pub open spec fn call_steps(
    s: SessionView,
    message: JsonView,
    verdict: Verdict,
    api: ApiVersion,
    doc: RestDescription,
    token: Result<String, GwsError>,
    result: Result<Option<Json>, GwsError>,
) -> (ActionView, StepView, StepView, StepView, StepView, SessionView) {
    let (s1, resolve) = on_message(s, message, verdict);
    let (s2, fetch) = next(s1, Event::Resolved(Ok(api)), verdict);
    let (s3, authorize) = next(s2, Event::Fetched(Ok(doc)), verdict);
    let (s4, execute) = next(s3, Event::Token(token), verdict);
    let (s5, end) = next(s4, Event::Executed(result), verdict);
    (resolve, fetch, authorize, execute, end, s5)
}

/// What is run for a call is what it says: the method at the end of its name, of a service that
/// is enabled and was looked up, with the JSON text of its parameters and of its body, each exactly
/// where it is given and whatever else is, with the file to upload and all pages where that is
/// asked for, and with the token that was obtained, or without one.
pub proof fn law_call_is_run_as_asked(
    s: SessionView,
    message: JsonView,
    verdict: Verdict,
    params: JsonView,
    arguments: JsonView,
    api: ApiVersion,
    doc: RestDescription,
    token: Result<String, GwsError>,
    result: Result<Option<Json>, GwsError>,
)
    requires
        s.pending is None,
        asks_for(message, "tools/call"@),
        is_under(message, "params"@, params),
        is_under(params, "arguments"@, arguments),
        call_steps(s, message, verdict, api, doc, token, result).3.action is Execute,
    ensures
        ({
            let steps = call_steps(s, message, verdict, api, doc, token, result);
            let service = steps.0->Resolve_0;
            let request = steps.3.action->Execute_0;
            &&& steps.0 is Resolve
            &&& s.config.services.contains(service)
            &&& params.get("name"@) == Some(
                JsonView::Str(join(seq![service] + request.path.push(request.method), "_"@)),
            )
            &&& plain_name(service)
            &&& all_plain(request.path)
            &&& plain_name(request.method)
            &&& steps.1.action == ActionView::Fetch {
                api_name: api.api_name@,
                version: api.version@,
            }
            &&& request.params == text_of(arguments.get("params"@))
            &&& request.body == text_of(arguments.get("body"@))
            &&& match arguments.get("upload"@) {
                Some(JsonView::Str(path)) => request.upload == Some(path) && !verdict.absolute
                    && !verdict.climbs,
                _ => request.upload is None,
            }
            &&& request.page_all <==> arguments.get("page_all"@) == Some(JsonView::Bool(true))
            &&& match token {
                Ok(t) => request.token == Some(t@) && request.auth == AuthMethod::OAuth,
                Err(_) => request.token is None && request.auth == AuthMethod::Anonymous,
            }
            &&& request.page_limit == 100
            &&& request.page_delay_ms == 100
            &&& request.capture_output
            &&& !request.dry_run
        }),
{
    lemma_methods_differ();
    let (s1, resolve) = on_message(s, message, verdict);
    let r = requested_call(params, s.config.services, verdict);
    if r is Err {
        law_refused_call_is_answered(s, message, verdict, params);
        assert(s1.pending is None);
        assert(false);
    }
    let call = r->Ok_0;
    law_name_is_taken_apart(params, s.config.services, verdict, call);
    law_arguments_are_passed_on(params, s.config.services, verdict, call, arguments);
    if planned(call, doc) is Ok {
        law_plan_is_for_the_call(call, doc, planned(call, doc)->Ok_0);
    }
}

/// A call by the name of a method of its document is run, where its service is enabled and its
/// file to upload, if any, is relative and does not climb. A token is asked for with the scopes of
/// the method, and the client is told the output, word that there is none, or the failure. The
/// session is then as it was.
pub proof fn law_call_goes_through(
    s: SessionView,
    message: JsonView,
    verdict: Verdict,
    params: JsonView,
    arguments: JsonView,
    service: Seq<char>,
    path: Seq<Seq<char>>,
    method: RestMethod,
    name: Seq<char>,
    api: ApiVersion,
    doc: RestDescription,
    token: Result<String, GwsError>,
    result: Result<Option<Json>, GwsError>,
)
    requires
        s.pending is None,
        asks_for(message, "tools/call"@),
        is_under(message, "params"@, params),
        is_under(params, "arguments"@, arguments),
        path.len() > 0,
        plain_name(service),
        all_plain(path),
        plain_name(name),
        service != "workflow"@,
        s.config.services.contains(service),
        params.get("name"@) == Some(JsonView::Str(join(seq![service] + path.push(name), "_"@))),
        descend(doc.resources@, path) is Ok,
        find(descend(doc.resources@, path)->Ok_0.methods@, name) == Some(method),
        arguments.get("upload"@) is Some && arguments.get("upload"@)->0 is Str ==> !verdict.absolute
            && !verdict.climbs,
    ensures
        ({
            let (resolve, fetch, authorize, execute, end, after) = call_steps(
                s,
                message,
                verdict,
                api,
                doc,
                token,
                result,
            );
            let id = message.get("id"@);
            &&& resolve == ActionView::Resolve(service)
            &&& authorize.action is GetToken
            &&& authorize.action->GetToken_0.len() == method.scopes@.len()
            &&& forall|i: int|
                0 <= i < method.scopes@.len() ==> authorize.action->GetToken_0[i] == (
                #[trigger] method.scopes@[i])@
            &&& execute.action is Execute
            &&& execute.action->Execute_0.path == path
            &&& execute.action->Execute_0.method == name
            &&& after == s
            &&& match result {
                Ok(Some(output)) => exists|v: JsonView| #[trigger]
                    is_text_result(v, pretty_text(output@)) && ends_with(end.action, id, Ok(v)),
                Ok(None) => exists|v: JsonView| #[trigger]
                    is_text_result(v, "Execution completed with no output."@) && ends_with(
                        end.action,
                        id,
                        Ok(v),
                    ),
                Err(e) => ends_with(end.action, id, Err(text_of_error(e))),
            }
        }),
{
    lemma_methods_differ();
    law_enabled_services_can_be_called(
        service,
        path,
        name,
        s.config.services,
        params,
        verdict,
    );
    let call: CallView = requested_call(params, s.config.services, verdict)->Ok_0;
    law_arguments_are_passed_on(params, s.config.services, verdict, call, arguments);
    law_plan_is_for_the_call(call, doc, planned(call, doc)->Ok_0);
    let id = message.get("id"@);
    match result {
        Ok(output) => {
            let told = optional_json(output);
            law_output_is_told(told->0);
            let v = call_result_view(told);
            lemma_ending(id, Ok(v));
            match output {
                Some(o) => {
                    assert(is_text_result(v, pretty_text(o@)));
                },
                None => {
                    assert(is_text_result(v, "Execution completed with no output."@));
                },
            }
        },
        Err(e) => {
            lemma_ending(id, Err(e@));
        },
    }
}

/// The text that an error was made with.
pub open spec fn text_of_error(e: GwsError) -> Seq<char> {
    match e {
        GwsError::Validation(m) => m@,
        GwsError::Discovery(m) => m@,
        GwsError::Other(m) => m@,
        GwsError::Service(m) => m@,
    }
}

/// A service that cannot be resolved, a document that cannot be had for a call, and a run that
/// fails, each end the request with that error, in its own words. Nothing else changes; a list that
/// was being made is not kept.
pub proof fn law_failures_are_told(s: SessionView, event: Event, verdict: Verdict, e: GwsError)
    requires
        s.pending is Some,
        match s.pending->0.work {
            WorkView::ResolveForList(_) => event == Event::Resolved(Err(e)),
            WorkView::ResolveForCall(_) => event == Event::Resolved(Err(e)),
            WorkView::FetchForCall(_) => event == Event::Fetched(Err(e)),
            WorkView::Execute => event == Event::Executed(Err(e)),
            _ => false,
        },
    ensures
        next(s, event, verdict).0 == (SessionView { pending: None, ..s }),
        ends_with(
            next(s, event, verdict).1.action,
            s.pending->0.id,
            Err(text_of_error(e)),
        ),
{
    lemma_ending(s.pending->0.id, Err(e@));
}

/// The operator is warned exactly when a document cannot be had while the list is made, and told
/// of which service it is.
pub proof fn law_warning_names_the_service(s: SessionView, event: Event, verdict: Verdict)
    ensures
        next(s, event, verdict).1.warning is Some <==> s.pending is Some
            && s.pending->0.work is FetchForList && event is Fetched && event->Fetched_0 is Err,
        next(s, event, verdict).1.warning is Some ==> next(s, event, verdict).1.warning->0
            == "[gws mcp] Warning: Failed to load discovery document for service '"@
            + s.config.services[s.pending->0.work->FetchForList_0.len() as int]
            + "'. It will not be available as a tool."@,
{
}

/// While the list is made, the services are resolved in order, and the document of each is fetched
/// as it was resolved.
pub proof fn law_services_are_listed_in_order(
    s: SessionView,
    message: JsonView,
    verdict: Verdict,
    answers: Seq<(ApiVersion, Result<RestDescription, GwsError>)>,
    api: ApiVersion,
)
    requires
        s.pending is None,
        s.cache is None,
        asks_for(message, "tools/list"@),
        answers.len() < s.config.services.len(),
    ensures
        ({
            let (s0, first) = on_message(s, message, verdict);
            let (sk, action) = after_documents(s0, first, answers, verdict);
            &&& action == ActionView::Resolve(s.config.services[answers.len() as int])
            &&& next(sk, Event::Resolved(Ok(api)), verdict).1.action == ActionView::Fetch {
                api_name: api.api_name@,
                version: api.version@,
            }
        }),
{
    lemma_methods_differ();
    lemma_listing_goes_on(s, message.get("id"@), Seq::empty(), answers, verdict);
}

proof fn lemma_listing_goes_on(
    s: SessionView,
    id: Option<JsonView>,
    docs: Seq<Option<RestDescription>>,
    answers: Seq<(ApiVersion, Result<RestDescription, GwsError>)>,
    verdict: Verdict,
)
    requires
        s.pending is None,
        docs.len() + answers.len() < s.config.services.len(),
    ensures
        ({
            let (s0, action) = list_next(s, id, docs);
            let (sk, last) = after_documents(s0, action, answers, verdict);
            &&& last == ActionView::Resolve(
                s.config.services[(docs.len() + answers.len()) as int],
            )
            &&& sk.pending is Some
            &&& sk.pending->0.work is ResolveForList
        }),
    decreases answers.len(),
{
    let (s0, action) = list_next(s, id, docs);
    if answers.len() > 0 {
        let (api, result) = answers[0];
        let (s1, _) = next(s0, Event::Resolved(Ok(api)), verdict);
        let (s2, step) = next(s1, Event::Fetched(result), verdict);
        let more = docs.push(
            match result {
                Ok(doc) => Some(doc),
                Err(_) => None,
            },
        );
        assert(s1.waiting(id, WorkView::ResolveForList(more)) =~= s.waiting(
            id,
            WorkView::ResolveForList(more),
        ));
        assert((s2, step.action) == list_next(s, id, more));
        lemma_listing_goes_on(s, id, more, answers.skip(1), verdict);
    }
}

/// A list that is asked for for the first time is given, once every service is resolved and its
/// document is fetched or known to be missing: the tools of all those documents, under `tools`.
pub proof fn law_first_list_is_given(
    s: SessionView,
    message: JsonView,
    verdict: Verdict,
    answers: Seq<(ApiVersion, Result<RestDescription, GwsError>)>,
    docs: Seq<Option<RestDescription>>,
)
    requires
        s.pending is None,
        s.cache is None,
        asks_for(message, "tools/list"@),
        answers.len() == s.config.services.len(),
        docs.len() == answers.len(),
        forall|i: int|
            0 <= i < docs.len() ==> match (#[trigger] answers[i]).1 {
                Ok(doc) => docs[i] == Some(doc),
                Err(_) => docs[i] is None,
            },
    ensures
        ({
            let (s0, first) = on_message(s, message, verdict);
            let (after, action) = after_documents(s0, first, answers, verdict);
            let tools = listing(docs, s.config.workflows);
            &&& after == (SessionView { cache: Some(tools), ..s })
            &&& ends_with(action, message.get("id"@), Ok(tools_view(tools)))
            &&& tools_view(tools)->Object_0["tools"@] == JsonView::Array(tools)
        }),
{
    law_first_list_is_complete(s, message, answers, verdict);
    assert forall|i: int| 0 <= i < docs.len() implies docs[i]
        == documents(answers)[i] by {
        assert(answers[i] == answers[i]);
    }
    assert(documents(answers) =~= docs);
    let tools = listing(docs, s.config.workflows);
    law_list_is_under_tools(tools);
    lemma_ending(message.get("id"@), Ok(tools_view(tools)));
}

/// A line that is not blank is taken as the message that it holds, whatever that is.
pub proof fn law_line_is_its_message(
    s: SessionView,
    line: String,
    message: JsonView,
    verdict: Verdict,
)
    requires
        s.pending is None,
        !blank(line@),
        parsed(line@) == Some(message),
    ensures
        next(s, Event::Line(line), verdict).0 == on_message(s, message, verdict).0,
        next(s, Event::Line(line), verdict).1.action == on_message(s, message, verdict).1,
        next(s, Event::Line(line), verdict).1.warning is None,
{
}

/// The two sessions differ at most in the id of the request in progress.
pub open spec fn same_but_id(a: SessionView, b: SessionView) -> bool {
    &&& a.config == b.config
    &&& a.version == b.version
    &&& a.cache == b.cache
    &&& match (a.pending, b.pending) {
        (Some(p), Some(q)) => p.work == q.work,
        (None, None) => true,
        _ => false,
    }
}

/// The two actions ask for the same: only whether and under which id there is a reply may differ.
pub open spec fn same_but_reply(a: ActionView, b: ActionView) -> bool {
    a == b || ((a is Reply || a is ReadLine) && (b is Reply || b is ReadLine))
}

/// The id of a message, and whether it has one, changes nothing but the reply: a notification does
/// the same work as a request.
pub proof fn law_id_changes_only_the_reply(
    s: SessionView,
    a: JsonView,
    b: JsonView,
    verdict: Verdict,
)
    requires
        s.pending is None,
        a.get("method"@) == b.get("method"@),
        a.get("params"@) == b.get("params"@),
    ensures
        same_but_id(on_message(s, a, verdict).0, on_message(s, b, verdict).0),
        same_but_reply(on_message(s, a, verdict).1, on_message(s, b, verdict).1),
{
}

/// Nor does the id of a request in progress change anything but the reply.
pub proof fn law_id_in_progress_changes_only_the_reply(
    a: SessionView,
    b: SessionView,
    event: Event,
    verdict: Verdict,
)
    requires
        a.pending is Some,
        same_but_id(a, b),
    ensures
        same_but_id(next(a, event, verdict).0, next(b, event, verdict).0),
        same_but_reply(next(a, event, verdict).1.action, next(b, event, verdict).1.action),
        next(a, event, verdict).1.warning == next(b, event, verdict).1.warning,
{
}

} // verus!
