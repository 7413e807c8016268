use gws::config::ServerConfig;
use gws::discovery::{RestDescription, RestMethod, RestResource};
use gws::error::GwsError;
use gws::executor::{AuthMethod, ExecuteRequest, SanitizeMode};
use gws::json::Json;
use gws::session::{Action, ApiVersion, Event, Session, Step};

fn session(services: &str, workflows: bool) -> Session {
    let config = ServerConfig::new(services, workflows, false, &vec![]);
    Session::new(config, "1.2.3")
}

fn line(s: &mut Session, text: &str) -> Step {
    s.step(Event::Line(text.to_string()))
}

fn reply(step: Step) -> String {
    assert!(step.warning.is_none());
    match step.action {
        Action::Reply(text) => {
            assert_eq!(text.matches('\n').count(), 1);
            text.strip_suffix('\n').unwrap().to_string()
        }
        _ => panic!("no reply"),
    }
}

fn resolve(step: Step) -> String {
    match step.action {
        Action::Resolve(service) => service,
        _ => panic!("nothing to resolve"),
    }
}

fn resolved(s: &mut Session, api: &str) -> Step {
    s.step(Event::Resolved(Ok(ApiVersion {
        api_name: api.to_string(),
        version: "v3".to_string(),
    })))
}

fn drive() -> RestDescription {
    let list = RestMethod {
        description: Some("Lists files.".to_string()),
        scopes: vec!["drive.readonly".to_string()],
    };
    RestDescription {
        name: "drive".to_string(),
        resources: vec![(
            "files".to_string(),
            RestResource {
                methods: vec![("list".to_string(), list)],
                resources: vec![],
            },
        )],
    }
}

fn service_error() -> GwsError {
    GwsError::Service("it broke\nbadly".to_string())
}

fn error(id: &str, message: &str) -> String {
    format!("{{\"error\":{{\"code\":-32603,\"message\":\"{message}\"}},\"id\":{id},\"jsonrpc\":\"2.0\"}}")
}

#[test]
fn initialize_is_answered() {
    let mut s = session("drive", false);
    let step = line(&mut s, "{\"jsonrpc\":\"2.0\",\"id\":1,\"method\":\"initialize\"}");
    assert_eq!(
        reply(step),
        "{\"id\":1,\"jsonrpc\":\"2.0\",\"result\":{\"capabilities\":{\"tools\":{}},\
         \"protocolVersion\":\"2024-11-05\",\"serverInfo\":{\"name\":\"gws-mcp\",\"version\":\"1.2.3\"}}}"
    );
}

#[test]
fn notifications_are_not_answered() {
    let mut s = session("drive", false);
    for text in [
        "{\"method\":\"notifications/initialized\"}",
        "{\"method\":\"initialize\"}",
        "{\"method\":\"nonsense\"}",
        "{\"method\":\"tools/call\"}",
        "[1]",
        "7",
    ] {
        assert!(matches!(line(&mut s, text).action, Action::ReadLine), "{text}");
    }
}

#[test]
fn an_id_of_null_is_an_id() {
    let mut s = session("", false);
    let step = line(&mut s, "{\"id\":null,\"method\":\"notifications/initialized\"}");
    assert_eq!(reply(step), "{\"id\":null,\"jsonrpc\":\"2.0\",\"result\":{}}");
}

#[test]
fn lines_without_a_message() {
    let mut s = session("", false);
    for text in ["", "   ", "\t\u{a0}"] {
        assert!(matches!(line(&mut s, text).action, Action::ReadLine));
    }
    assert_eq!(
        reply(line(&mut s, "{oops")),
        "{\"error\":{\"code\":-32700,\"message\":\"Parse error\"},\"id\":null,\"jsonrpc\":\"2.0\"}"
    );
}

#[test]
fn unknown_methods_are_refused() {
    let mut s = session("", false);
    let step = line(&mut s, "{\"id\":\"x\",\"method\":\"tools/drop\"}");
    assert_eq!(reply(step), error("\"x\"", "Method not supported: tools/drop"));
    let step = line(&mut s, "{\"id\":2.50,\"method\":5}");
    assert_eq!(reply(step), error("2.5", "Method not supported: "));
}

#[test]
fn the_list_is_made_once() {
    let mut s = session("drive,gmail", true);
    let ask = "{\"id\":1,\"method\":\"tools/list\"}";
    assert_eq!(resolve(line(&mut s, ask)), "drive");
    match resolved(&mut s, "drive").action {
        Action::Fetch(api) => {
            assert_eq!(api.api_name, "drive");
            assert_eq!(api.version, "v3");
        }
        _ => panic!("nothing to fetch"),
    }
    let step = s.step(Event::Fetched(Ok(drive())));
    assert!(step.warning.is_none());
    assert_eq!(resolve(step), "gmail");
    assert!(matches!(resolved(&mut s, "gmail").action, Action::Fetch(_)));
    let mut step = s.step(Event::Fetched(Err(service_error())));
    assert_eq!(
        step.warning.take().unwrap(),
        "[gws mcp] Warning: Failed to load discovery document for service 'gmail'. \
         It will not be available as a tool."
    );
    let text = reply(step);
    let answer = Json::parse(&text).unwrap();
    let tools = match answer.get("result").unwrap().get("tools").unwrap() {
        Json::Array(tools) => tools,
        _ => panic!("no list"),
    };
    let names: Vec<&str> = tools
        .iter()
        .map(|t| t.get("name").unwrap().as_str().unwrap())
        .collect();
    assert_eq!(names.len(), 6);
    assert_eq!(names[0], "drive_files_list");
    assert_eq!(names[5], "workflow_file_announce");

    assert_eq!(reply(line(&mut s, ask)), text);
}

#[test]
fn no_services_make_an_empty_list() {
    let mut s = session("", false);
    let step = line(&mut s, "{\"id\":1,\"method\":\"tools/list\"}");
    assert_eq!(reply(step), "{\"id\":1,\"jsonrpc\":\"2.0\",\"result\":{\"tools\":[]}}");
}

#[test]
fn a_service_that_cannot_be_resolved_ends_the_list() {
    let mut s = session("drive", false);
    let ask = "{\"id\":1,\"method\":\"tools/list\"}";
    line(&mut s, ask);
    let step = s.step(Event::Resolved(Err(service_error())));
    assert_eq!(reply(step), error("1", "it broke\\nbadly"));
    assert_eq!(resolve(line(&mut s, ask)), "drive");
}

#[test]
fn a_notification_may_make_the_list() {
    let mut s = session("drive", false);
    line(&mut s, "{\"method\":\"tools/list\"}");
    resolved(&mut s, "drive");
    assert!(matches!(s.step(Event::Fetched(Ok(drive()))).action, Action::ReadLine));
    let step = line(&mut s, "{\"id\":1,\"method\":\"tools/list\"}");
    assert!(reply(step).contains("drive_files_list"));
}

fn call(s: &mut Session, params: &str) -> Step {
    line(s, &format!("{{\"id\":7,\"method\":\"tools/call\",\"params\":{params}}}"))
}

fn run_to_plan(s: &mut Session, params: &str) -> Step {
    assert_eq!(resolve(call(s, params)), "drive");
    assert!(matches!(resolved(s, "drive").action, Action::Fetch(_)));
    s.step(Event::Fetched(Ok(drive())))
}

fn run_to_request(s: &mut Session, params: &str, token: Result<String, GwsError>) -> ExecuteRequest {
    match run_to_plan(s, params).action {
        Action::GetToken(scopes) => assert_eq!(scopes, ["drive.readonly"]),
        _ => panic!("no token asked for"),
    }
    match s.step(Event::Token(token)).action {
        Action::Execute(request) => request,
        _ => panic!("nothing to run"),
    }
}

#[test]
fn a_call_is_run_and_answered() {
    let mut s = session("drive", false);
    let request = run_to_request(
        &mut s,
        "{\"name\":\"drive_files_list\",\"arguments\":{\"params\":{\"q\":\"x\",\"pageSize\":2},\
         \"body\":[1.10],\"upload\":\"in/a.txt\",\"page_all\":true}}",
        Ok("secret".to_string()),
    );
    assert_eq!(request.path, ["files"]);
    assert_eq!(request.method, "list");
    assert_eq!(request.params.as_deref(), Some("{\"pageSize\":2,\"q\":\"x\"}"));
    assert_eq!(request.body.as_deref(), Some("[1.1]"));
    assert_eq!(request.token.as_deref(), Some("secret"));
    assert_eq!(request.auth, AuthMethod::OAuth);
    assert_eq!(request.upload.as_deref(), Some("in/a.txt"));
    assert!(!request.dry_run && request.page_all && request.capture_output);
    assert_eq!(request.page_limit, 100);
    assert_eq!(request.page_delay_ms, 100);
    assert_eq!(request.output, None);
    assert_eq!(request.sanitize_template, None);
    assert_eq!(request.sanitize_mode, SanitizeMode::Warn);
    assert_eq!(request.format, None);

    let output = Json::parse("{\"files\":[]}").unwrap();
    let step = s.step(Event::Executed(Ok(Some(output))));
    assert_eq!(
        reply(step),
        "{\"id\":7,\"jsonrpc\":\"2.0\",\"result\":{\"content\":[{\"text\":\
         \"{\\n  \\\"files\\\": []\\n}\",\"type\":\"text\"}],\"isError\":false}}"
    );
}

#[test]
fn a_call_runs_without_a_token_and_without_output() {
    let mut s = session("drive", false);
    let request = run_to_request(
        &mut s,
        "{\"name\":\"drive_files_list\",\"arguments\":{\"upload\":3,\"page_all\":\"yes\"}}",
        Err(service_error()),
    );
    assert_eq!(request.token, None);
    assert_eq!(request.auth, AuthMethod::Anonymous);
    assert_eq!(request.params, None);
    assert_eq!(request.body, None);
    assert_eq!(request.upload, None);
    assert!(!request.page_all);
    let step = s.step(Event::Executed(Ok(None)));
    assert_eq!(
        reply(step),
        "{\"id\":7,\"jsonrpc\":\"2.0\",\"result\":{\"content\":[{\"text\":\
         \"Execution completed with no output.\",\"type\":\"text\"}],\"isError\":false}}"
    );
}

#[test]
fn a_call_that_fails_is_answered_with_the_error() {
    let mut s = session("drive", false);
    run_to_request(&mut s, "{\"name\":\"drive_files_list\"}", Ok("t".to_string()));
    let step = s.step(Event::Executed(Err(service_error())));
    assert_eq!(reply(step), error("7", "it broke\\nbadly"));

    call(&mut s, "{\"name\":\"drive_files_list\"}");
    let step = s.step(Event::Resolved(Err(service_error())));
    assert_eq!(reply(step), error("7", "it broke\\nbadly"));

    call(&mut s, "{\"name\":\"drive_files_list\"}");
    resolved(&mut s, "drive");
    let step = s.step(Event::Fetched(Err(service_error())));
    assert_eq!(reply(step), error("7", "it broke\\nbadly"));
}

#[test]
fn calls_that_are_refused_at_once() {
    let mut s = session("drive", true);
    let cases = [
        ("{}", "Missing 'name' in tools/call"),
        ("{\"name\":3}", "Missing 'name' in tools/call"),
        (
            "{\"name\":\"workflow_standup_report\"}",
            "Workflows are not yet fully implemented via MCP",
        ),
        ("{\"name\":\"drive_files\"}", "Invalid API tool name: drive_files"),
        (
            "{\"name\":\"gmail_users_list\"}",
            "Service 'gmail' is not enabled in this MCP session",
        ),
        ("{\"name\":\"__\"}", "Service '' is not enabled in this MCP session"),
    ];
    for (params, message) in cases {
        assert_eq!(reply(call(&mut s, params)), error("7", message));
    }
    let step = line(&mut s, "{\"id\":7,\"method\":\"tools/call\"}");
    assert_eq!(reply(step), error("7", "Missing 'name' in tools/call"));
}

#[test]
fn calls_that_are_refused_by_the_document() {
    let mut s = session("drive", false);
    let cases = [
        (
            "{\"name\":\"drive_folders_list\"}",
            "Resource 'folders' not found in Discovery Document",
        ),
        (
            "{\"name\":\"drive_files_labels_add\"}",
            "Resource 'labels' not found in Discovery Document",
        ),
        ("{\"name\":\"drive_files_get\"}", "Method 'get' not found"),
        (
            "{\"name\":\"drive_files_list\",\"arguments\":{\"upload\":\"../secret\"}}",
            "Upload path '../secret' is not allowed. Paths must be relative and within the current directory.",
        ),
        (
            "{\"name\":\"drive_files_get\",\"arguments\":{\"upload\":\"../secret\"}}",
            "Method 'get' not found",
        ),
    ];
    for (params, message) in cases {
        assert_eq!(reply(run_to_plan(&mut s, params)), error("7", message));
    }
}

#[test]
fn an_absolute_upload_is_judged_as_the_platform_does() {
    for path in ["/etc/passwd", "/a/../b", "C:\\\\x", "C:/../x"] {
        let mut s = session("drive", false);
        let step = run_to_plan(
            &mut s,
            &format!("{{\"name\":\"drive_files_list\",\"arguments\":{{\"upload\":\"{path}\"}}}}"),
        );
        let raw = path.replace("\\\\", "\\");
        let p = std::path::Path::new(&raw);
        let climbs = p.components().any(|c| c == std::path::Component::ParentDir);
        assert_eq!(
            matches!(step.action, Action::Reply(_)),
            p.is_absolute() || climbs,
            "{path}"
        );
    }
}

#[test]
fn names_with_the_separator_lead_elsewhere() {
    let mut s = session("drive", false);
    let step = run_to_plan(&mut s, "{\"name\":\"drive_shared_files_list\"}");
    assert_eq!(
        reply(step),
        error("7", "Resource 'shared' not found in Discovery Document")
    );
}

#[test]
fn events_that_answer_nothing_change_nothing() {
    let mut s = session("drive", false);
    assert!(matches!(resolved(&mut s, "x").action, Action::Unexpected));
    call(&mut s, "{\"name\":\"drive_files_list\"}");
    for event in [
        Event::Line("{}".to_string()),
        Event::Fetched(Ok(drive())),
        Event::Token(Ok("t".to_string())),
        Event::Executed(Ok(None)),
    ] {
        assert!(matches!(s.step(event).action, Action::Unexpected));
    }
    assert!(matches!(resolved(&mut s, "drive").action, Action::Fetch(_)));
    assert!(matches!(resolved(&mut s, "drive").action, Action::Unexpected));
    assert!(matches!(s.step(Event::Fetched(Ok(drive()))).action, Action::GetToken(_)));
    assert!(matches!(s.step(Event::Executed(Ok(None))).action, Action::Unexpected));
}

#[test]
fn a_message_can_be_handed_over_as_a_value() {
    let mut s = session("drive", false);
    let message = Json::parse("{\"id\":[1],\"method\":\"tools/call\",\"params\":{\"name\":\"drive_a_b\"}}").unwrap();
    match s.take_message(message) {
        Action::Resolve(service) => assert_eq!(service, "drive"),
        _ => panic!("nothing to resolve"),
    }
    let step = s.step(Event::Resolved(Err(service_error())));
    assert_eq!(reply(step), error("[1]", "it broke\\nbadly"));
}

/// Feeds the lines to a session, with every answer given, and returns what it writes.
fn run(lines: &[&str]) -> Vec<String> {
    let mut s = session("drive,gmail", false);
    let mut out = vec![];
    for text in lines {
        let mut event = Event::Line(text.to_string());
        loop {
            event = match s.step(event).action {
                Action::ReadLine => break,
                Action::Reply(reply) => {
                    out.push(reply);
                    break;
                }
                Action::Resolve(service) => Event::Resolved(Ok(ApiVersion {
                    api_name: service,
                    version: "v1".to_string(),
                })),
                Action::Fetch(api) if api.api_name == "drive" => Event::Fetched(Ok(drive())),
                Action::Fetch(_) => Event::Fetched(Err(service_error())),
                Action::GetToken(_) => Event::Token(Err(service_error())),
                Action::Execute(_) => Event::Executed(Ok(None)),
                Action::Unexpected => panic!("an answer was not expected"),
            }
        }
    }
    out
}

#[test]
fn the_replies_of_a_run_match_its_lines() {
    let lines = [
        "{\"id\":1,\"method\":\"tools/call\",\"params\":{\"name\":\"drive_files_list\"}}",
        "",
        "{\"method\":\"tools/list\"}",
        "nonsense",
        "{\"method\":\"tools/call\",\"params\":{\"name\":\"drive_files_list\"}}",
        " \t ",
        "{\"id\":2,\"method\":\"tools/list\"}",
        "3",
        "{\"id\":3,\"method\":\"none\"}",
    ];
    let ids: Vec<String> = run(&lines)
        .iter()
        .map(|reply| Json::parse(reply).unwrap().get("id").unwrap().to_text())
        .collect();
    assert_eq!(ids, ["1", "null", "2", "3"]);
}

#[test]
fn blank_lines_change_nothing_in_a_run() {
    let spoken = [
        "{\"id\":1,\"method\":\"tools/list\"}",
        "nonsense",
        "{\"id\":2,\"method\":\"tools/call\",\"params\":{\"name\":\"drive_files_list\"}}",
    ];
    let spaced = ["", spoken[0], " ", "\u{3000}", spoken[1], spoken[2], "\r"];
    assert_eq!(run(&spoken), run(&spaced));
    assert_eq!(run(&spoken).len(), 3);
}

#[test]
fn a_list_that_is_known_outlasts_a_run() {
    let ask = "{\"id\":1,\"method\":\"tools/list\"}";
    let replies = run(&[
        ask,
        "{\"method\":\"tools/list\"}",
        "{\"id\":2,\"method\":\"tools/call\",\"params\":{\"name\":\"drive_files_list\"}}",
        "nonsense",
        "",
        ask,
    ]);
    assert_eq!(replies.len(), 4);
    assert!(replies[0].contains("drive_files_list"));
    assert_eq!(replies[0], replies[3]);
}
