//! Requests and responses of the Model Context Protocol, which are JSON-RPC messages, one on a
//! line.

use crate::call::{handle_tools_call, requested_call, verdict_on, CallView, ToolCall, Verdict};
use crate::error::{outcome, ErrorView, GwsError};
use crate::json::{decimal, digits, field, items_of, json_text, Json, JsonView};
use crate::text::{concatenated, same_text, texts};
use vstd::prelude::*;

verus! {

/// What a request comes to.
pub enum Request {
    /// It is answered at once.
    Answer(Result<Json, GwsError>),
    /// The list of tools is asked for.
    List,
    /// A tool is called.
    Call(ToolCall),
}

/// The mathematical content of a [`Request`].
#[verifier::ext_equal]
pub enum RequestKind {
    Answer(Result<JsonView, ErrorView>),
    List,
    Call(CallView),
}

impl View for Request {
    type V = RequestKind;

    open spec fn view(&self) -> RequestKind {
        match *self {
            Request::Answer(result) => RequestKind::Answer(outcome(result)),
            Request::List => RequestKind::List,
            Request::Call(call) => RequestKind::Call(call@),
        }
    }
}

/// What the server says of itself.
pub open spec fn initialize_view(version: Seq<char>) -> JsonView {
    JsonView::Object(
        Map::empty().insert("protocolVersion"@, JsonView::Str("2024-11-05"@)).insert(
            "serverInfo"@,
            JsonView::Object(
                Map::empty().insert("name"@, JsonView::Str("gws-mcp"@)).insert(
                    "version"@,
                    JsonView::Str(version),
                ),
            ),
        ).insert(
            "capabilities"@,
            JsonView::Object(Map::empty().insert("tools"@, JsonView::Object(Map::empty()))),
        ),
    )
}

/// The answer to a request for the list of tools.
pub open spec fn tools_view(tools: Seq<JsonView>) -> JsonView {
    JsonView::Object(Map::empty().insert("tools"@, JsonView::Array(tools)))
}

/// What a request for `method` comes to.
pub open spec fn request_kind(
    method: Seq<char>,
    params: JsonView,
    services: Seq<Seq<char>>,
    version: Seq<char>,
    verdict: Verdict,
) -> RequestKind {
    if method == "initialize"@ {
        RequestKind::Answer(Ok(initialize_view(version)))
    } else if method == "notifications/initialized"@ {
        RequestKind::Answer(Ok(JsonView::Object(Map::empty())))
    } else if method == "tools/list"@ {
        RequestKind::List
    } else if method == "tools/call"@ {
        match requested_call(params, services, verdict) {
            Ok(call) => RequestKind::Call(call),
            Err(e) => RequestKind::Answer(Err(e)),
        }
    } else {
        RequestKind::Answer(Err(ErrorView::Validation("Method not supported: "@ + method)))
    }
}

/// An error object.
pub open spec fn error_view(code: int, message: Seq<char>) -> JsonView {
    JsonView::Object(
        Map::empty().insert("code"@, JsonView::Number(decimal(code))).insert(
            "message"@,
            JsonView::Str(message),
        ),
    )
}

/// The response to the request with this id.
pub open spec fn response_view(id: JsonView, result: Result<JsonView, ErrorView>) -> JsonView {
    let head = Map::empty().insert("jsonrpc"@, JsonView::Str("2.0"@)).insert("id"@, id);
    JsonView::Object(
        match result {
            Ok(v) => head.insert("result"@, v),
            Err(e) => head.insert("error"@, error_view(-32603, e.message())),
        },
    )
}

/// The response to a line that is not JSON.
pub open spec fn parse_error_view() -> JsonView {
    JsonView::Object(
        Map::empty().insert("jsonrpc"@, JsonView::Str("2.0"@)).insert("id"@, JsonView::Null).insert(
            "error"@,
            error_view(-32700, "Parse error"@),
        ),
    )
}

/// A message as a line: its text and a line feed.
pub open spec fn framed(v: JsonView) -> Seq<char> {
    json_text(v).push('\n')
}

/// One line: a line feed at the end and none before it.
pub open spec fn one_line(s: Seq<char>) -> bool {
    s.len() > 0 && s.last() == '\n' && !s.drop_last().contains('\n')
}

/// What the server says of itself.
fn initialize_result(version: &str) -> (r: Json)
    ensures
        r@ == initialize_view(version@),
{
    let info: Vec<(String, Json)> = field(Vec::new(), "name", Json::text("gws-mcp"));
    let info: Vec<(String, Json)> = field(info, "version", Json::text(version));
    let capabilities: Vec<(String, Json)> = field(Vec::new(), "tools", Json::Object(Vec::new()));
    let fields: Vec<(String, Json)> = field(
        Vec::new(),
        "protocolVersion",
        Json::text("2024-11-05"),
    );
    let fields: Vec<(String, Json)> = field(fields, "serverInfo", Json::Object(info));
    Json::Object(field(fields, "capabilities", Json::Object(capabilities)))
}

/// The answer to a request for the list of tools.
pub fn tools_result(tools: Vec<Json>) -> (r: Json)
    ensures
        r@ == tools_view(items_of(tools@)),
{
    Json::Object(field(Vec::new(), "tools", Json::Array(tools)))
}

/// Decides what a request for `method` comes to.
pub fn handle_request(
    method: &str,
    params: &Json,
    services: &Vec<String>,
    version: &str,
) -> (r: Request)
    ensures
        r@ == request_kind(
            method@,
            params@,
            texts(services@),
            version@,
            match r {
                Request::Call(call) => verdict_on(call@),
                _ => Verdict { absolute: false, climbs: false },
            },
        ),
        r matches Request::Call(call) ==> call@.well_formed(),
{
    if same_text(method, "initialize") {
        Request::Answer(Ok(initialize_result(version)))
    } else if same_text(method, "notifications/initialized") {
        Request::Answer(Ok(Json::Object(Vec::new())))
    } else if same_text(method, "tools/list") {
        Request::List
    } else if same_text(method, "tools/call") {
        match handle_tools_call(params, services) {
            Ok(call) => Request::Call(call),
            Err(e) => Request::Answer(Err(e)),
        }
    } else {
        Request::Answer(Err(GwsError::Validation(concatenated("Method not supported: ", method))))
    }
}

/// An error object.
fn error_object(code: i64, message: &str) -> (r: Json)
    ensures
        r@ == error_view(code as int, message@),
{
    let fields: Vec<(String, Json)> = field(Vec::new(), "code", Json::whole_number(code));
    Json::Object(field(fields, "message", Json::text(message)))
}

/// A message as a line.
fn frame(v: &Json) -> (r: String)
    ensures
        r@ == framed(v@),
        one_line(r@),
{
    let text: String = v.to_text();
    let line: String = concatenated(text.as_str(), "\n");
    proof {
        reveal_strlit("\n");
        assert("\n"@ =~= seq!['\n']);
        assert(text@ + "\n"@ =~= text@.push('\n'));
        assert(line@.drop_last() =~= text@);
    }
    line
}

/// The response to the request with this id.
pub fn response(id: Json, result: Result<Json, GwsError>) -> (r: Json)
    ensures
        r@ == response_view(id@, outcome(result)),
{
    let fields: Vec<(String, Json)> = field(Vec::new(), "jsonrpc", Json::text("2.0"));
    let fields: Vec<(String, Json)> = field(fields, "id", id);
    let fields: Vec<(String, Json)> = match result {
        Ok(v) => field(fields, "result", v),
        Err(e) => field(fields, "error", error_object(-32603, e.message())),
    };
    Json::Object(fields)
}

/// The response to a line that is not JSON.
pub fn parse_error_response() -> (r: Json)
    ensures
        r@ == parse_error_view(),
{
    let fields: Vec<(String, Json)> = field(Vec::new(), "jsonrpc", Json::text("2.0"));
    let fields: Vec<(String, Json)> = field(fields, "id", Json::Null);
    Json::Object(field(fields, "error", error_object(-32700, "Parse error")))
}

/// The line that responds to the request with this id.
pub fn respond(id: Json, result: Result<Json, GwsError>) -> (r: String)
    ensures
        r@ == framed(response_view(id@, outcome(result))),
        one_line(r@),
{
    frame(&response(id, result))
}

/// The line that responds to a line that is not JSON.
pub fn parse_error() -> (r: String)
    ensures
        r@ == framed(parse_error_view()),
        one_line(r@),
{
    frame(&parse_error_response())
}

/// The keys of requests and responses, and of what they hold, differ.
proof fn lemma_keys_differ()
    ensures
        "jsonrpc"@ != "id"@,
        "jsonrpc"@ != "result"@,
        "jsonrpc"@ != "error"@,
        "id"@ != "result"@,
        "id"@ != "error"@,
        "result"@ != "error"@,
        "code"@ != "message"@,
        "protocolVersion"@ != "serverInfo"@,
        "protocolVersion"@ != "capabilities"@,
        "serverInfo"@ != "capabilities"@,
        "name"@ != "version"@,
{
    reveal_strlit("jsonrpc");
    reveal_strlit("id");
    reveal_strlit("result");
    reveal_strlit("error");
    reveal_strlit("code");
    reveal_strlit("message");
    reveal_strlit("protocolVersion");
    reveal_strlit("serverInfo");
    reveal_strlit("capabilities");
    reveal_strlit("name");
    reveal_strlit("version");
    assert("jsonrpc"@.len() == 7 && "id"@.len() == 2 && "result"@.len() == 6 && "error"@.len() == 5
        && "code"@.len() == 4 && "message"@.len() == 7 && "protocolVersion"@.len() == 15
        && "serverInfo"@.len() == 10 && "capabilities"@.len() == 12 && "name"@.len() == 4
        && "version"@.len() == 7);
}

/// An error object with this code and message, and nothing else.
pub open spec fn is_error(v: JsonView, code: Seq<char>, message: Seq<char>) -> bool {
    &&& v is Object
    &&& forall|key: Seq<char>| #[trigger]
        v->Object_0.contains_key(key) <==> key == "code"@ || key == "message"@
    &&& v->Object_0["code"@] == JsonView::Number(code)
    &&& v->Object_0["message"@] == JsonView::Str(message)
}

/// A response under this id: with this result and no error, or with an error of this message and
/// no result.
pub open spec fn is_response(
    reply: JsonView,
    id: JsonView,
    result: Result<JsonView, Seq<char>>,
) -> bool {
    &&& reply is Object
    &&& reply->Object_0.contains_key("jsonrpc"@)
    &&& reply->Object_0["jsonrpc"@] == JsonView::Str("2.0"@)
    &&& reply->Object_0.contains_key("id"@)
    &&& reply->Object_0["id"@] == id
    &&& match result {
        Ok(v) => {
            &&& forall|key: Seq<char>| #[trigger]
                reply->Object_0.contains_key(key) <==> key == "jsonrpc"@ || key == "id"@ || key
                    == "result"@
            &&& reply->Object_0["result"@] == v
        },
        Err(message) => {
            &&& forall|key: Seq<char>| #[trigger]
                reply->Object_0.contains_key(key) <==> key == "jsonrpc"@ || key == "id"@ || key
                    == "error"@
            &&& is_error(reply->Object_0["error"@], "-32603"@, message)
        },
    }
}

/// The line is the text of such a response and a line feed.
pub open spec fn responds_with(
    line: Seq<char>,
    id: JsonView,
    result: Result<JsonView, Seq<char>>,
) -> bool {
    exists|reply: JsonView|
        line == (#[trigger] json_text(reply)).push('\n') && is_response(reply, id, result)
}

/// The line is the text of a report that a line could not be read: under no id, and no result.
pub open spec fn reports_parse_error(line: Seq<char>) -> bool {
    exists|reply: JsonView|
        line == (#[trigger] json_text(reply)).push('\n') && reply is Object && (forall|
            key: Seq<char>,
        | #[trigger]
            reply->Object_0.contains_key(key) <==> key == "jsonrpc"@ || key == "id"@ || key
                == "error"@) && reply->Object_0["jsonrpc"@] == JsonView::Str("2.0"@)
            && reply->Object_0["id"@] == JsonView::Null && is_error(
            reply->Object_0["error"@],
            "-32700"@,
            "Parse error"@,
        )
}

/// The text of an error.
pub open spec fn in_words(result: Result<JsonView, ErrorView>) -> Result<JsonView, Seq<char>> {
    match result {
        Ok(v) => Ok(v),
        Err(ErrorView::Validation(m)) => Err(m),
        Err(ErrorView::Discovery(m)) => Err(m),
        Err(ErrorView::Other(m)) => Err(m),
        Err(ErrorView::Service(m)) => Err(m),
    }
}

proof fn lemma_codes()
    ensures
        decimal(-32603) == "-32603"@,
        decimal(-32700) == "-32700"@,
{
    reveal_strlit("-32603");
    reveal_strlit("-32700");
    reveal_with_fuel(digits, 6);
    assert(decimal(-32603) =~= "-32603"@);
    assert(decimal(-32700) =~= "-32700"@);
}

/// The response to a request is under the request's id, whatever the id is, and holds its result
/// or the text of its error, whatever that is.
pub proof fn law_response_is_under_the_id(id: JsonView, result: Result<JsonView, ErrorView>)
    ensures
        is_response(response_view(id, result), id, in_words(result)),
        responds_with(framed(response_view(id, result)), id, in_words(result)),
{
    lemma_keys_differ();
    lemma_codes();
    assert(is_response(response_view(id, result), id, in_words(result)));
    assert(framed(response_view(id, result)) == json_text(response_view(id, result)).push('\n'));
}

/// A line that could not be read is reported under no id.
pub proof fn law_parse_error_is_under_no_id()
    ensures
        reports_parse_error(framed(parse_error_view())),
{
    lemma_keys_differ();
    lemma_codes();
    assert(framed(parse_error_view()) == json_text(parse_error_view()).push('\n'));
}

/// What a server says of itself: the version of the protocol, its name and version, and that it
/// has tools.
pub open spec fn introduces(v: JsonView, version: Seq<char>) -> bool {
    &&& v is Object
    &&& forall|key: Seq<char>| #[trigger]
        v->Object_0.contains_key(key) <==> key == "protocolVersion"@ || key == "serverInfo"@ || key
            == "capabilities"@
    &&& v->Object_0["protocolVersion"@] == JsonView::Str("2024-11-05"@)
    &&& v->Object_0["serverInfo"@] is Object
    &&& forall|key: Seq<char>| #[trigger]
        v->Object_0["serverInfo"@]->Object_0.contains_key(key) <==> key == "name"@ || key
            == "version"@
    &&& v->Object_0["serverInfo"@]->Object_0["name"@] == JsonView::Str("gws-mcp"@)
    &&& v->Object_0["serverInfo"@]->Object_0["version"@] == JsonView::Str(version)
    &&& v->Object_0["capabilities"@] is Object
    &&& forall|key: Seq<char>| #[trigger]
        v->Object_0["capabilities"@]->Object_0.contains_key(key) <==> key == "tools"@
    &&& v->Object_0["capabilities"@]->Object_0["tools"@] == JsonView::Object(Map::empty())
}

/// The methods that a server knows have different names.
pub proof fn lemma_methods_differ()
    ensures
        "initialize"@ != "notifications/initialized"@,
        "initialize"@ != "tools/list"@,
        "initialize"@ != "tools/call"@,
        "notifications/initialized"@ != "tools/list"@,
        "notifications/initialized"@ != "tools/call"@,
        "tools/list"@ != "tools/call"@,
{
    reveal_strlit("initialize");
    reveal_strlit("notifications/initialized");
    reveal_strlit("tools/list");
    reveal_strlit("tools/call");
    assert("initialize"@[0] == 'i' && "notifications/initialized"@[0] == 'n' && "tools/list"@[0]
        == 't' && "tools/call"@[0] == 't' && "tools/list"@[6] == 'l' && "tools/call"@[6] == 'c');
}

/// What is answered at once does not depend on the parameters: a server introduces itself, takes
/// note that its client is ready, and refuses a method that it does not know, by name. It goes on
/// to list or to call where that is asked for, and for nothing else.
pub proof fn law_methods_are_told_apart(
    method: Seq<char>,
    params: JsonView,
    services: Seq<Seq<char>>,
    version: Seq<char>,
    verdict: Verdict,
)
    ensures
        ({
            let kind = request_kind(method, params, services, version, verdict);
            &&& method == "initialize"@ ==> kind is Answer && kind->Answer_0 is Ok && introduces(
                kind->Answer_0->Ok_0,
                version,
            )
            &&& method == "notifications/initialized"@ ==> kind == RequestKind::Answer(
                Ok(JsonView::Object(Map::empty())),
            )
            &&& kind is List <==> method == "tools/list"@
            &&& kind is Call ==> method == "tools/call"@
            &&& method == "tools/call"@ ==> match requested_call(params, services, verdict) {
                Ok(call) => kind == RequestKind::Call(call),
                Err(e) => kind == RequestKind::Answer(Err(e)),
            }
            &&& method != "initialize"@ && method != "notifications/initialized"@ && method
                != "tools/list"@ && method != "tools/call"@ ==> kind == RequestKind::Answer(
                Err(ErrorView::Validation("Method not supported: "@ + method)),
            )
        }),
{
    lemma_methods_differ();
    lemma_keys_differ();
}

/// The answer to a request for the list of tools is the list, under `tools`, as it is.
pub proof fn law_list_is_under_tools(tools: Seq<JsonView>)
    ensures
        tools_view(tools) is Object,
        forall|key: Seq<char>| #[trigger]
            tools_view(tools)->Object_0.contains_key(key) <==> key == "tools"@,
        tools_view(tools)->Object_0["tools"@] == JsonView::Array(tools),
{
}

} // verus!
