//! Sending a message.

use crate::cli::{flag_arg, flag_args, string_arg, string_args};
use crate::discovery::{find, lookup, RestDescription, RestMethod, RestResource};
use crate::encoding::{
    base64_len, base64_url, base64_url_decoded, encode_url_safe, law_base64_alphabet,
    law_base64_decodes,
};
use crate::error::{outcome, ErrorView, GwsError};
use crate::executor::{
    AuthMethod, ExecuteRequest, PlannedCall, PlannedView, RequestView, SanitizeMode,
};
use crate::json::{field, json_text, Json, JsonView};
use crate::text::{copy_texts, texts};
use vstd::prelude::*;
use vstd::utf8::{decode_utf8, encode_utf8, encode_utf8_decode_utf8};

verus! {

/// A message to send.
pub struct SendConfig {
    pub to: String,
    pub subject: String,
    pub body_text: String,
}

/// The mathematical content of a [`SendConfig`].
#[verifier::ext_equal]
pub struct SendView {
    pub to: Seq<char>,
    pub subject: Seq<char>,
    pub body_text: Seq<char>,
}

impl View for SendConfig {
    type V = SendView;

    open spec fn view(&self) -> SendView {
        SendView { to: self.to@, subject: self.subject@, body_text: self.body_text@ }
    }
}

/// A message in MIME form: the header lines, an empty line and the body.
pub open spec fn raw_message(to: Seq<char>, subject: Seq<char>, body: Seq<char>) -> Seq<char> {
    "To: "@ + to + "\r\nSubject: "@ + subject + "\r\n\r\n"@ + body
}

/// The request body that carries a message: its UTF-8 bytes in URL-safe base64.
pub open spec fn send_body_view(raw: Seq<char>) -> JsonView {
    JsonView::Object(Map::empty().insert("raw"@, JsonView::Str(base64_url(encode_utf8(raw)))))
}

/// The encoded message fits in memory.
pub open spec fn encodable(raw: Seq<char>) -> bool {
    base64_len(encode_utf8(raw).len() as int) <= isize::MAX
}

/// The message that the matches of the command hold.
pub open spec fn send_args(matches: clap::ArgMatches) -> SendView {
    SendView {
        to: string_args(matches)["to"@],
        subject: string_args(matches)["subject"@],
        body_text: string_args(matches)["body"@],
    }
}

/// The matches hold a message.
pub open spec fn has_send_args(matches: clap::ArgMatches) -> bool {
    &&& string_args(matches).contains_key("to"@)
    &&& string_args(matches).contains_key("subject"@)
    &&& string_args(matches).contains_key("body"@)
}

impl SendView {
    /// The message in MIME form.
    pub open spec fn raw(self) -> Seq<char> {
        raw_message(self.to, self.subject, self.body_text)
    }
}

/// The request that sends a message, or what the document lacks for it.
pub open spec fn sending(config: SendView, doc: RestDescription, dry_run: bool) -> Result<
    PlannedView,
    ErrorView,
> {
    match find(doc.resources@, "users"@) {
        None => Err(ErrorView::Discovery("Resource 'users' not found"@)),
        Some(users) => match find(users.resources@, "messages"@) {
            None => Err(ErrorView::Discovery("Resource 'users.messages' not found"@)),
            Some(messages) => match find(messages.methods@, "send"@) {
                None => Err(ErrorView::Discovery("Method 'users.messages.send' not found"@)),
                Some(method) => Ok(
                    PlannedView {
                        scopes: texts(method.scopes@),
                        request: RequestView {
                            path: seq!["users"@, "messages"@],
                            method: "send"@,
                            params: Some(
                                json_text(
                                    JsonView::Object(
                                        Map::empty().insert("userId"@, JsonView::Str("me"@)),
                                    ),
                                ),
                            ),
                            body: Some(json_text(send_body_view(config.raw()))),
                            token: None,
                            auth: AuthMethod::Anonymous,
                            output: None,
                            upload: None,
                            dry_run,
                            page_all: false,
                            page_limit: 10,
                            page_delay_ms: 100,
                            sanitize_template: None,
                            sanitize_mode: SanitizeMode::Warn,
                            format: None,
                            capture_output: false,
                        },
                    },
                ),
            },
        },
    }
}

/// Writes a message in MIME form.
pub fn create_raw_message(to: &str, subject: &str, body: &str) -> (r: String)
    ensures
        r@ == raw_message(to@, subject@, body@),
{
    let mut s: String = "To: ".to_string();
    s.append(to);
    s.append("\r\nSubject: ");
    s.append(subject);
    s.append("\r\n\r\n");
    s.append(body);
    s
}

/// The request body that carries a message.
pub fn create_send_body(raw_msg: &str) -> (r: Json)
    requires
        encodable(raw_msg@),
    ensures
        r@ == send_body_view(raw_msg@),
{
    let encoded: String = encode_url_safe(raw_msg.as_bytes());
    Json::Object(field(Vec::new(), "raw", Json::Str(encoded)))
}

/// The message that the matches of the command hold, if they hold one.
pub fn try_parse_send_args(matches: &clap::ArgMatches) -> (r: Option<SendConfig>)
    ensures
        r is Some <==> has_send_args(*matches),
        r matches Some(config) ==> config@ == send_args(*matches),
{
    match (
        string_arg(matches, "to"),
        string_arg(matches, "subject"),
        string_arg(matches, "body"),
    ) {
        (Some(to), Some(subject), Some(body_text)) => Some(SendConfig { to, subject, body_text }),
        _ => None,
    }
}

/// The message that the matches of the command hold.
pub fn parse_send_args(matches: &clap::ArgMatches) -> (r: SendConfig)
    requires
        has_send_args(*matches),
    ensures
        r@ == send_args(*matches),
{
    try_parse_send_args(matches).unwrap()
}

/// Plans the request that sends a message.
pub fn plan_send(doc: &RestDescription, config: &SendConfig, dry_run: bool) -> (r: Result<
    PlannedCall,
    GwsError,
>)
    requires
        encodable(config@.raw()),
    ensures
        outcome(r) == sending(config@, *doc, dry_run),
{
    let message: String = create_raw_message(
        config.to.as_str(),
        config.subject.as_str(),
        config.body_text.as_str(),
    );
    let body: Json = create_send_body(message.as_str());
    let users: &RestResource = match lookup(&doc.resources, "users") {
        Some(res) => res,
        None => {
            return Err(GwsError::Discovery("Resource 'users' not found".to_string()));
        },
    };
    let messages: &RestResource = match lookup(&users.resources, "messages") {
        Some(res) => res,
        None => {
            return Err(GwsError::Discovery("Resource 'users.messages' not found".to_string()));
        },
    };
    let method: &RestMethod = match lookup(&messages.methods, "send") {
        Some(m) => m,
        None => {
            return Err(GwsError::Discovery("Method 'users.messages.send' not found".to_string()));
        },
    };
    let params: Json = Json::Object(field(Vec::new(), "userId", Json::text("me")));
    let mut path: Vec<String> = Vec::new();
    path.push("users".to_string());
    path.push("messages".to_string());
    assert(texts(path@) =~= seq!["users"@, "messages"@]);
    Ok(
        PlannedCall {
            scopes: copy_texts(&method.scopes),
            request: ExecuteRequest {
                path,
                method: "send".to_string(),
                params: Some(params.to_text()),
                body: Some(body.to_text()),
                token: None,
                auth: AuthMethod::Anonymous,
                output: None,
                upload: None,
                dry_run,
                page_all: false,
                page_limit: 10,
                page_delay_ms: 100,
                sanitize_template: None,
                sanitize_mode: SanitizeMode::Warn,
                format: None,
                capture_output: false,
            },
        },
    )
}

/// The switch for a dry run is there, or is not needed: the document lacks what sending needs.
pub open spec fn has_dry_run_where_needed(matches: clap::ArgMatches, doc: RestDescription) -> bool {
    sending(send_args(matches), doc, false) is Ok ==> flag_args(matches).contains_key("dry-run"@)
}

/// Plans the request that the matches of the command ask for.
pub fn handle_send(doc: &RestDescription, matches: &clap::ArgMatches) -> (r: Result<
    PlannedCall,
    GwsError,
>)
    requires
        has_send_args(*matches),
        encodable(send_args(*matches).raw()),
        has_dry_run_where_needed(*matches, *doc),
    ensures
        outcome(r) == sending(send_args(*matches), *doc, flag_args(*matches)["dry-run"@]),
{
    let config: SendConfig = parse_send_args(matches);
    let dry_run: bool = match flag_arg(matches, "dry-run") {
        Some(b) => b,
        None => false,
    };
    plan_send(doc, &config, dry_run)
}

/// Plans the request that the matches of the command ask for. Nothing comes of matches without a
/// message, of a message too long to encode, nor of matches without the switch for a dry run where
/// the document has what sending needs.
pub fn try_handle_send(doc: &RestDescription, matches: &clap::ArgMatches) -> (r: Option<
    Result<PlannedCall, GwsError>,
>)
    ensures
        r is Some <==> {
            &&& has_send_args(*matches)
            &&& encodable(send_args(*matches).raw())
            &&& has_dry_run_where_needed(*matches, *doc)
        },
        r matches Some(plan) ==> outcome(plan) == sending(
            send_args(*matches),
            *doc,
            flag_args(*matches)["dry-run"@],
        ),
{
    let config: SendConfig = match try_parse_send_args(matches) {
        Some(config) => config,
        None => {
            return None;
        },
    };
    let message: String = create_raw_message(
        config.to.as_str(),
        config.subject.as_str(),
        config.body_text.as_str(),
    );
    let size: usize = message.as_str().as_bytes().len();
    if size > (isize::MAX as usize) / 4 * 3 {
        return None;
    }
    if flag_arg(matches, "dry-run").is_none() && plan_send(doc, &config, false).is_ok() {
        return None;
    }
    Some(handle_send(doc, matches))
}

/// What the command comes to once the request was run: its failure as it is, or nothing to say.
pub fn finish_send<E>(result: Result<Option<Json>, E>) -> (r: Result<(), E>)
    ensures
        r == match result {
            Ok(_) => Ok(()),
            Err(e) => Err(e),
        },
{
    match result {
        Ok(_) => Ok(()),
        Err(e) => Err(e),
    }
}

/// A value with one text, under one key, and nothing else.
pub open spec fn is_one_text(v: JsonView, key: Seq<char>, text: Seq<char>) -> bool {
    &&& v is Object
    &&& forall|k: Seq<char>| #[trigger] v->Object_0.contains_key(k) <==> k == key
    &&& v->Object_0[key] == JsonView::Str(text)
}

/// A request that sends a message, with a token or without, is for the user that the token is of,
/// whether it is a dry run or not. It carries the message, of which no further pages are fetched:
/// nothing is uploaded, the output is printed and not written to a file, content that does not
/// pass sanitizing is reported, and it is a dry run exactly when that was asked for.
pub proof fn law_sent_request(
    config: SendView,
    doc: RestDescription,
    dry_run: bool,
    plan: PlannedView,
    token: Option<Seq<char>>,
)
    requires
        sending(config, doc, dry_run) == Ok::<_, ErrorView>(plan),
    ensures
        ({
            let request = plan.request.authorized(token);
            &&& request.path == seq!["users"@, "messages"@]
            &&& request.method == "send"@
            &&& exists|v: JsonView|
                request.params == Some(#[trigger] json_text(v)) && is_one_text(
                    v,
                    "userId"@,
                    "me"@,
                )
            &&& request.body == Some(json_text(send_body_view(config.raw())))
            &&& exists|v: JsonView, encoded: Seq<char>|
                request.body == Some(#[trigger] json_text(v)) && #[trigger] is_one_text(
                    v,
                    "raw"@,
                    encoded,
                ) && decode_utf8(base64_url_decoded(encoded)) == "To: "@ + config.to
                    + "\r\nSubject: "@ + config.subject + "\r\n\r\n"@ + config.body_text
            &&& request.token == token
            &&& request.auth == AuthMethod::OAuth <==> token is Some
            &&& request.dry_run == dry_run
            &&& !request.page_all
            &&& request.page_limit == 10
            &&& request.page_delay_ms == 100
            &&& request.output is None
            &&& request.upload is None
            &&& request.sanitize_template is None
            &&& request.sanitize_mode == SanitizeMode::Warn
            &&& request.format is None
            &&& !request.capture_output
        }),
{
    let params = JsonView::Object(Map::empty().insert("userId"@, JsonView::Str("me"@)));
    assert(is_one_text(params, "userId"@, "me"@));
    assert(plan.request.params == Some(json_text(params)));
    let encoded = base64_url(encode_utf8(config.raw()));
    assert(is_one_text(send_body_view(config.raw()), "raw"@, encoded));
    law_base64_decodes(encode_utf8(config.raw()));
    encode_utf8_decode_utf8(config.raw());
}

/// A dry run is planned exactly where a real one is, and the two differ in nothing else.
pub proof fn law_dry_run_changes_nothing_else(config: SendView, doc: RestDescription)
    ensures
        match (sending(config, doc, true), sending(config, doc, false)) {
            (Ok(dry), Ok(live)) => {
                &&& dry.scopes == live.scopes
                &&& dry.request == (RequestView { dry_run: true, ..live.request })
                &&& !live.request.dry_run
            },
            (Err(a), Err(b)) => a == b,
            _ => false,
        },
{
}

/// Sending is planned, with the scopes of the method, where the document has `send` in `messages`
/// in `users`. Where it does not, what is missing is said by name.
pub proof fn law_sending_needs_its_method(config: SendView, doc: RestDescription, dry_run: bool)
    ensures
        ({
            let users = find(doc.resources@, "users"@);
            let messages = find(users->0.resources@, "messages"@);
            let send = find(messages->0.methods@, "send"@);
            let plan = sending(config, doc, dry_run);
            &&& users is None ==> plan == Err::<PlannedView, _>(
                ErrorView::Discovery("Resource 'users' not found"@),
            )
            &&& users is Some && messages is None ==> plan == Err::<PlannedView, _>(
                ErrorView::Discovery("Resource 'users.messages' not found"@),
            )
            &&& users is Some && messages is Some && send is None ==> plan == Err::<
                PlannedView,
                _,
            >(ErrorView::Discovery("Method 'users.messages.send' not found"@))
            &&& users is Some && messages is Some && send is Some ==> {
                &&& plan is Ok
                &&& plan->Ok_0.scopes.len() == send->0.scopes@.len()
                &&& forall|i: int|
                    0 <= i < plan->Ok_0.scopes.len() ==> plan->Ok_0.scopes[i] == (
                    #[trigger] send->0.scopes@[i])@
            }
        }),
{
}

/// A message begins with its two header lines, the receiver's and that of the subject, then comes
/// an empty line, and it ends with its body.
pub proof fn law_message_has_its_parts(to: Seq<char>, subject: Seq<char>, body: Seq<char>)
    ensures
        raw_message(to, subject, body) == "To: "@ + to + "\r\n"@ + "Subject: "@ + subject
            + "\r\n"@ + "\r\n"@ + body,
{
    reveal_strlit("\r\n");
    reveal_strlit("Subject: ");
    reveal_strlit("\r\nSubject: ");
    reveal_strlit("\r\n\r\n");
    assert("\r\nSubject: "@ =~= "\r\n"@ + "Subject: "@);
    assert("\r\n\r\n"@ =~= "\r\n"@ + "\r\n"@);
    assert(raw_message(to, subject, body) =~= "To: "@ + to + "\r\n"@ + "Subject: "@ + subject
        + "\r\n"@ + "\r\n"@ + body);
}

/// A message is made of the options that name its parts.
pub proof fn law_options_make_the_message(matches: clap::ArgMatches)
    ensures
        send_args(matches).to == string_args(matches)["to"@],
        send_args(matches).subject == string_args(matches)["subject"@],
        send_args(matches).body_text == string_args(matches)["body"@],
        send_args(matches).raw() == raw_message(
            string_args(matches)["to"@],
            string_args(matches)["subject"@],
            string_args(matches)["body"@],
        ),
{
}

/// The message is what decoding the request body's `raw` gives back.
pub proof fn law_send_body_decodes(raw: Seq<char>)
    ensures
        send_body_view(raw).get("raw"@) matches Some(v) && v.as_str() matches Some(encoded)
            && decode_utf8(base64_url_decoded(encoded)) == raw,
{
    law_base64_decodes(encode_utf8(raw));
    encode_utf8_decode_utf8(raw);
}

/// Matches hold a message exactly where they hold its three options, and the switch for a dry run
/// is wanted only where there is something to send with.
pub proof fn law_options_that_are_needed(matches: clap::ArgMatches, doc: RestDescription)
    ensures
        has_send_args(matches) <==> string_args(matches).contains_key("to"@) && string_args(
            matches,
        ).contains_key("subject"@) && string_args(matches).contains_key("body"@),
        has_dry_run_where_needed(matches, doc) <==> flag_args(matches).contains_key("dry-run"@)
            || sending(send_args(matches), doc, true) is Err,
{
    law_dry_run_changes_nothing_else(send_args(matches), doc);
}

/// A message can be sent exactly where its encoding fits in memory.
pub proof fn law_messages_that_fit(raw: Seq<char>)
    ensures
        encodable(raw) <==> base64_url(encode_utf8(raw)).len() <= isize::MAX,
{
    law_base64_alphabet(encode_utf8(raw));
}

} // verus!
