//! Calls of tools that stand for API methods.

use crate::discovery::{descend, find, follow, lookup, RestDescription};
use crate::error::{outcome, ErrorView, GwsError};
use crate::executor::{
    optional_text, AuthMethod, ExecuteRequest, PlannedCall, PlannedView, RequestView, SanitizeMode,
};
use crate::json::{field, items_of, json_text, lemma_items_of_push, pretty_text, Json, JsonView};
use crate::text::{
    begins_with, concatenated, copy_texts, holds_text, sandwich, split, split_at_char, texts,
};
use crate::uploads::{examine_upload, rooted, Upload, UploadView};
use vstd::prelude::*;

verus! {

/// A call of a tool, read out of a request.
pub struct ToolCall {
    pub service: String,
    /// The resources on the way to the method, outermost first.
    pub path: Vec<String>,
    pub method: String,
    pub params: Option<String>,
    pub body: Option<String>,
    pub upload: Option<Upload>,
    pub page_all: bool,
}

/// The mathematical content of a [`ToolCall`].
#[verifier::ext_equal]
pub struct CallView {
    pub service: Seq<char>,
    pub path: Seq<Seq<char>>,
    pub method: Seq<char>,
    pub params: Option<Seq<char>>,
    pub body: Option<Seq<char>>,
    pub upload: Option<UploadView>,
    pub page_all: bool,
}

impl View for ToolCall {
    type V = CallView;

    open spec fn view(&self) -> CallView {
        CallView {
            service: self.service@,
            path: texts(self.path@),
            method: self.method@,
            params: optional_text(self.params),
            body: optional_text(self.body),
            upload: match self.upload {
                Some(u) => Some(u@),
                None => None,
            },
            page_all: self.page_all,
        }
    }
}

impl CallView {
    /// There is a resource to look in, and what is said of the file to upload is sound.
    pub open spec fn well_formed(self) -> bool {
        &&& self.path.len() > 0
        &&& self.upload matches Some(u) ==> u.sound()
    }
}

/// What a platform makes of the path of a file to upload.
#[verifier::ext_equal]
pub struct Verdict {
    pub absolute: bool,
    pub climbs: bool,
}

/// The verdict on the upload in a call, arbitrary but fixed where there is none.
pub open spec fn verdict_on(call: CallView) -> Verdict {
    match call.upload {
        Some(u) => Verdict { absolute: u.absolute, climbs: u.climbs },
        None => Verdict { absolute: false, climbs: false },
    }
}

/// The arguments in the parameters of a call: an empty object where there are none.
pub open spec fn arguments_of(params: JsonView) -> JsonView {
    match params.get("arguments"@) {
        Some(a) => a,
        None => JsonView::Object(Map::empty()),
    }
}

/// The JSON text of an argument, if it is there.
pub open spec fn argument_text(arguments: JsonView, key: Seq<char>) -> Option<Seq<char>> {
    match arguments.get(key) {
        Some(v) => Some(json_text(v)),
        None => None,
    }
}

/// The text under `key`, if there is text.
pub open spec fn text_under(v: JsonView, key: Seq<char>) -> Option<Seq<char>> {
    match v.get(key) {
        Some(s) => s.as_str(),
        None => None,
    }
}

/// The call that `params` ask for of a server with these services, or why it is refused.
/// `verdict` is what the platform makes of the path of the file to upload.
pub open spec fn requested_call(
    params: JsonView,
    services: Seq<Seq<char>>,
    verdict: Verdict,
) -> Result<CallView, ErrorView> {
    match text_under(params, "name"@) {
        None => Err(ErrorView::Validation("Missing 'name' in tools/call"@)),
        Some(name) => {
            let parts = split(name, '_');
            let arguments = arguments_of(params);
            if "workflow_"@.is_prefix_of(name) {
                Err(ErrorView::Other("Workflows are not yet fully implemented via MCP"@))
            } else if parts.len() < 3 {
                Err(ErrorView::Validation("Invalid API tool name: "@ + name))
            } else if !services.contains(parts[0]) {
                Err(
                    ErrorView::Validation(
                        "Service '"@ + parts[0] + "' is not enabled in this MCP session"@,
                    ),
                )
            } else {
                Ok(
                    CallView {
                        service: parts[0],
                        path: parts.subrange(1, parts.len() - 1),
                        method: parts.last(),
                        params: argument_text(arguments, "params"@),
                        body: argument_text(arguments, "body"@),
                        upload: match text_under(arguments, "upload"@) {
                            Some(path) => Some(
                                UploadView {
                                    path,
                                    absolute: verdict.absolute,
                                    climbs: verdict.climbs,
                                },
                            ),
                            None => None,
                        },
                        page_all: match arguments.get("page_all"@) {
                            Some(b) => b.as_bool() == Some(true),
                            None => false,
                        },
                    },
                )
            }
        },
    }
}

/// The request that a call comes to, given the document of its service, or why it is refused.
pub open spec fn planned(call: CallView, doc: RestDescription) -> Result<PlannedView, ErrorView> {
    match descend(doc.resources@, call.path) {
        Err(name) => Err(
            ErrorView::Validation("Resource '"@ + name + "' not found in Discovery Document"@),
        ),
        Ok(res) => match find(res.methods@, call.method) {
            None => Err(ErrorView::Validation("Method '"@ + call.method + "' not found"@)),
            Some(method) => match call.upload {
                Some(u) if !u.allowed() => Err(
                    ErrorView::Validation(
                        "Upload path '"@ + u.path
                            + "' is not allowed. Paths must be relative and within the current directory."@,
                    ),
                ),
                _ => Ok(
                    PlannedView {
                        scopes: texts(method.scopes@),
                        request: RequestView {
                            path: call.path,
                            method: call.method,
                            params: call.params,
                            body: call.body,
                            token: None,
                            auth: AuthMethod::Anonymous,
                            output: None,
                            upload: match call.upload {
                                Some(u) => Some(u.path),
                                None => None,
                            },
                            dry_run: false,
                            page_all: call.page_all,
                            page_limit: 100,
                            page_delay_ms: 100,
                            sanitize_template: None,
                            sanitize_mode: SanitizeMode::Warn,
                            format: None,
                            capture_output: true,
                        },
                    },
                ),
            },
        },
    }
}

/// What a client is told of the output of a call.
pub open spec fn output_text(output: Option<JsonView>) -> Seq<char> {
    match output {
        Some(v) => pretty_text(v),
        None => "Execution completed with no output."@,
    }
}

/// A result that is one piece of text.
pub open spec fn text_result_view(text: Seq<char>) -> JsonView {
    JsonView::Object(
        Map::empty().insert(
            "content"@,
            JsonView::Array(
                seq![
                    JsonView::Object(
                        Map::empty().insert("type"@, JsonView::Str("text"@)).insert(
                            "text"@,
                            JsonView::Str(text),
                        ),
                    ),
                ],
            ),
        ).insert("isError"@, JsonView::Bool(false)),
    )
}

/// The result of a call that ran.
pub open spec fn call_result_view(output: Option<JsonView>) -> JsonView {
    text_result_view(output_text(output))
}

/// The JSON text of an argument, if it is there.
fn text_of_argument(arguments: Option<&Json>, key: &str) -> (r: Option<String>)
    ensures
        optional_text(r) == match arguments {
            Some(a) => argument_text(a@, key@),
            None => None,
        },
{
    match arguments {
        Some(a) => match a.get(key) {
            Some(v) => Some(v.to_text()),
            None => None,
        },
        None => None,
    }
}

/// Reads the call that `params` ask for, and refuses it where no document is needed to tell.
pub fn handle_tools_call(params: &Json, services: &Vec<String>) -> (r: Result<ToolCall, GwsError>)
    ensures
        outcome(r) == requested_call(
            params@,
            texts(services@),
            match r {
                Ok(call) => verdict_on(call@),
                Err(_) => Verdict { absolute: false, climbs: false },
            },
        ),
        r matches Ok(call) ==> call@.well_formed(),
{
    let name: &str = match params.get("name") {
        Some(n) => match n.as_str() {
            Some(s) => s,
            None => {
                return Err(GwsError::Validation("Missing 'name' in tools/call".to_string()));
            },
        },
        None => {
            return Err(GwsError::Validation("Missing 'name' in tools/call".to_string()));
        },
    };
    let arguments: Option<&Json> = params.get("arguments");
    if begins_with(name, "workflow_") {
        return Err(
            GwsError::Other("Workflows are not yet fully implemented via MCP".to_string()),
        );
    }
    let parts: Vec<String> = split_at_char(name, '_');
    assert(texts(parts@).len() == parts@.len());
    if parts.len() < 3 {
        return Err(GwsError::Validation(concatenated("Invalid API tool name: ", name)));
    }
    assert(texts(parts@)[0] == parts@[0]@);
    if !holds_text(services, parts[0].as_str()) {
        return Err(
            GwsError::Validation(
                sandwich(
                    "Service '",
                    parts[0].as_str(),
                    "' is not enabled in this MCP session",
                ),
            ),
        );
    }
    let mut path: Vec<String> = Vec::new();
    let mut i: usize = 1;
    while i < parts.len() - 1
        invariant
            parts@.len() >= 3,
            1 <= i <= parts@.len() - 1,
            path@.len() == i - 1,
            forall|k: int| 0 <= k < i - 1 ==> (#[trigger] path@[k])@ == parts@[k + 1]@,
        decreases parts@.len() - i,
    {
        path.push(parts[i].clone());
        i += 1;
    }
    assert(texts(path@) =~= texts(parts@).subrange(1, parts@.len() - 1));
    let upload: Option<Upload> = match arguments {
        Some(a) => match a.get("upload") {
            Some(v) => match v.as_str() {
                Some(raw) => Some(examine_upload(raw)),
                None => None,
            },
            None => None,
        },
        None => None,
    };
    let page_all: bool = match arguments {
        Some(a) => match a.get("page_all") {
            Some(v) => match v.as_bool() {
                Some(b) => b,
                None => false,
            },
            None => false,
        },
        None => false,
    };
    Ok(
        ToolCall {
            service: parts[0].clone(),
            path,
            method: parts[parts.len() - 1].clone(),
            params: text_of_argument(arguments, "params"),
            body: text_of_argument(arguments, "body"),
            upload,
            page_all,
        },
    )
}

/// Finds the method of a call in the document of its service, and checks the file to upload.
pub fn plan_call(call: ToolCall, doc: &RestDescription) -> (r: Result<PlannedCall, GwsError>)
    requires
        call@.path.len() > 0,
    ensures
        outcome(r) == planned(call@, *doc),
{
    assert(texts(call.path@).len() == call.path@.len());
    match follow(&doc.resources, &call.path) {
        Err(i) => Err(
            GwsError::Validation(
                sandwich(
                    "Resource '",
                    call.path[i].as_str(),
                    "' not found in Discovery Document",
                ),
            ),
        ),
        Ok(res) => match lookup(&res.methods, call.method.as_str()) {
            None => Err(
                GwsError::Validation(sandwich("Method '", call.method.as_str(), "' not found")),
            ),
            Some(method) => {
                let upload: Option<String> = match call.upload {
                    Some(u) => {
                        if u.absolute || u.climbs {
                            return Err(
                                GwsError::Validation(
                                    sandwich(
                                        "Upload path '",
                                        u.path.as_str(),
                                        "' is not allowed. Paths must be relative and within the current directory.",
                                    ),
                                ),
                            );
                        }
                        Some(u.path)
                    },
                    None => None,
                };
                Ok(
                    PlannedCall {
                        scopes: copy_texts(&method.scopes),
                        request: ExecuteRequest {
                            path: call.path,
                            method: call.method,
                            params: call.params,
                            body: call.body,
                            token: None,
                            auth: AuthMethod::Anonymous,
                            output: None,
                            upload,
                            dry_run: false,
                            page_all: call.page_all,
                            page_limit: 100,
                            page_delay_ms: 100,
                            sanitize_template: None,
                            sanitize_mode: SanitizeMode::Warn,
                            format: None,
                            capture_output: true,
                        },
                    },
                )
            },
        },
    }
}

/// A result that is one piece of text.
pub fn text_result(text: String) -> (r: Json)
    ensures
        r@ == text_result_view(text@),
{
    let content: Vec<(String, Json)> = field(Vec::new(), "type", Json::text("text"));
    let content: Vec<(String, Json)> = field(content, "text", Json::Str(text));
    let mut items: Vec<Json> = Vec::new();
    items.push(Json::Object(content));
    proof {
        lemma_items_of_push(Seq::empty(), items@[0]);
        assert(items@ =~= Seq::empty().push(items@[0]));
        assert(items_of(items@) =~= seq![items@[0]@]);
    }
    let fields: Vec<(String, Json)> = field(Vec::new(), "content", Json::Array(items));
    Json::Object(field(fields, "isError", Json::Bool(false)))
}

/// The result of a call that ran: its output, indented, or word that there is none.
pub fn call_result(output: &Option<Json>) -> (r: Json)
    ensures
        r@ == call_result_view(
            match *output {
                Some(v) => Some(v@),
                None => None,
            },
        ),
{
    text_result(
        match output {
            Some(v) => v.to_pretty_text(),
            None => "Execution completed with no output.".to_string(),
        },
    )
}

/// On every platform a call is refused, whatever its document holds, where the path of the file to
/// upload does not begin with a separator and has a segment `..`.
pub proof fn law_parent_segment_is_refused(call: CallView, doc: RestDescription)
    requires
        call.well_formed(),
        call.upload matches Some(u) && !rooted(u.path) && split(u.path, '/').contains(".."@),
    ensures
        planned(call, doc) is Err,
{
}

/// The text of a value, if there is one.
pub open spec fn text_of(v: Option<JsonView>) -> Option<Seq<char>> {
    match v {
        Some(v) => Some(json_text(v)),
        None => None,
    }
}

/// A call that is accepted passes each of its arguments on, whatever the others are: parameters
/// and body as their JSON text, the file to upload as it is where it is text, and that all pages
/// are wanted exactly where that is said by `true`. Without arguments there is none of these.
pub proof fn law_arguments_are_passed_on(
    params: JsonView,
    services: Seq<Seq<char>>,
    verdict: Verdict,
    call: CallView,
    arguments: JsonView,
)
    requires
        requested_call(params, services, verdict) == Ok::<_, ErrorView>(call),
        params.get("arguments"@) == Some(arguments) || (params.get("arguments"@) is None
            && arguments == JsonView::Object(Map::empty())),
    ensures
        call.params == text_of(arguments.get("params"@)),
        call.body == text_of(arguments.get("body"@)),
        match arguments.get("upload"@) {
            Some(JsonView::Str(path)) => call.upload == Some(
                UploadView { path, absolute: verdict.absolute, climbs: verdict.climbs },
            ),
            _ => call.upload is None,
        },
        call.page_all <==> arguments.get("page_all"@) == Some(JsonView::Bool(true)),
{
}

/// A call is planned exactly where its document has its method and its file to upload, if any, is
/// relative and does not climb. The request is then for that method, with the scopes of the
/// method and all that the call says.
pub proof fn law_plan_is_for_the_call(call: CallView, doc: RestDescription, plan: PlannedView)
    ensures
        planned(call, doc) is Ok <==> {
            &&& descend(doc.resources@, call.path) is Ok
            &&& find(descend(doc.resources@, call.path)->Ok_0.methods@, call.method) is Some
            &&& call.upload is Some ==> !call.upload->0.absolute && !call.upload->0.climbs
        },
        planned(call, doc) == Ok::<_, ErrorView>(plan) ==> {
            let method = find(descend(doc.resources@, call.path)->Ok_0.methods@, call.method)->0;
            &&& plan.scopes.len() == method.scopes@.len()
            &&& forall|i: int|
                0 <= i < plan.scopes.len() ==> plan.scopes[i] == (#[trigger] method.scopes@[i])@
            &&& plan.request.path == call.path
            &&& plan.request.method == call.method
            &&& plan.request.params == call.params
            &&& plan.request.body == call.body
            &&& plan.request.token is None
            &&& plan.request.auth == AuthMethod::Anonymous
            &&& plan.request.output is None
            &&& call.upload is Some ==> plan.request.upload == Some(call.upload->0.path)
            &&& call.upload is None ==> plan.request.upload is None
            &&& !plan.request.dry_run
            &&& plan.request.page_all == call.page_all
            &&& plan.request.page_limit == 100
            &&& plan.request.page_delay_ms == 100
            &&& plan.request.sanitize_template is None
            &&& plan.request.sanitize_mode == SanitizeMode::Warn
            &&& plan.request.format is None
            &&& plan.request.capture_output
        },
{
}

/// Why a call is not planned: the first name on its way that leads nowhere, then its method, then
/// the file that it uploads, each by name.
pub proof fn law_refusal_says_why(call: CallView, doc: RestDescription)
    ensures
        descend(doc.resources@, call.path) is Err ==> planned(call, doc) == Err::<PlannedView, _>(
            ErrorView::Validation(
                "Resource '"@ + descend(doc.resources@, call.path)->Err_0
                    + "' not found in Discovery Document"@,
            ),
        ),
        descend(doc.resources@, call.path) is Ok && find(
            descend(doc.resources@, call.path)->Ok_0.methods@,
            call.method,
        ) is None ==> planned(call, doc) == Err::<PlannedView, _>(
            ErrorView::Validation("Method '"@ + call.method + "' not found"@),
        ),
        descend(doc.resources@, call.path) is Ok && find(
            descend(doc.resources@, call.path)->Ok_0.methods@,
            call.method,
        ) is Some && call.upload is Some && (call.upload->0.absolute || call.upload->0.climbs)
            ==> planned(call, doc) == Err::<PlannedView, _>(
            ErrorView::Validation(
                "Upload path '"@ + call.upload->0.path
                    + "' is not allowed. Paths must be relative and within the current directory."@,
            ),
        ),
{
}

/// A result that is one piece of this text, and no error.
pub open spec fn is_text_result(v: JsonView, text: Seq<char>) -> bool {
    &&& v is Object
    &&& forall|key: Seq<char>| #[trigger]
        v->Object_0.contains_key(key) <==> key == "content"@ || key == "isError"@
    &&& v->Object_0["isError"@] == JsonView::Bool(false)
    &&& v->Object_0["content"@] is Array
    &&& v->Object_0["content"@]->Array_0.len() == 1
    &&& v->Object_0["content"@]->Array_0[0] is Object
    &&& forall|key: Seq<char>| #[trigger]
        v->Object_0["content"@]->Array_0[0]->Object_0.contains_key(key) <==> key == "type"@ || key
            == "text"@
    &&& v->Object_0["content"@]->Array_0[0]->Object_0["type"@] == JsonView::Str("text"@)
    &&& v->Object_0["content"@]->Array_0[0]->Object_0["text"@] == JsonView::Str(text)
}

/// A client is told the output of its call as indented JSON text, whatever it is, and word where
/// there is none.
pub proof fn law_output_is_told(output: JsonView)
    ensures
        is_text_result(call_result_view(Some(output)), pretty_text(output)),
        is_text_result(call_result_view(None), "Execution completed with no output."@),
{
    reveal_strlit("content");
    reveal_strlit("isError");
    reveal_strlit("type");
    reveal_strlit("text");
    assert("content"@[0] == 'c' && "isError"@[0] == 'i' && "type"@[1] == 'y' && "text"@[1] == 'e');
}

} // verus!
