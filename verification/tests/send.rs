use base64::engine::general_purpose::URL_SAFE;
use base64::Engine;
use clap::{Arg, ArgMatches, Command};
use gws::discovery::{RestDescription, RestMethod, RestResource};
use gws::error::GwsError;
use gws::executor::{AuthMethod, SanitizeMode};
use gws::helpers::gmail::send::{
    create_raw_message, create_send_body, finish_send, handle_send, parse_send_args, plan_send,
    try_handle_send, try_parse_send_args, SendConfig,
};
use gws::json::Json;

#[test]
fn test_create_raw_message() {
    let msg = create_raw_message("test@example.com", "Hello", "World");
    assert_eq!(msg, "To: test@example.com\r\nSubject: Hello\r\n\r\nWorld");
}

#[test]
fn test_create_send_body() {
    let raw = "To: a@b.com\r\nSubject: hi\r\n\r\nbody";
    let body = create_send_body(raw);
    let encoded = body.get("raw").unwrap().as_str().unwrap();

    let decoded_bytes = URL_SAFE.decode(encoded).unwrap();
    let decoded = String::from_utf8(decoded_bytes).unwrap();

    assert_eq!(decoded, raw);
}

fn make_matches_send(args: &[&str]) -> ArgMatches {
    let cmd = Command::new("test")
        .arg(Arg::new("to").long("to"))
        .arg(Arg::new("subject").long("subject"))
        .arg(Arg::new("body").long("body"));
    cmd.try_get_matches_from(args).unwrap()
}

#[test]
fn test_parse_send_args() {
    let matches = make_matches_send(&[
        "test",
        "--to",
        "me@example.com",
        "--subject",
        "Hi",
        "--body",
        "Body",
    ]);
    let config = parse_send_args(&matches);
    assert_eq!(config.to, "me@example.com");
    assert_eq!(config.subject, "Hi");
    assert_eq!(config.body_text, "Body");
}

#[test]
fn send_body_has_the_exact_encoding() {
    let cases = [
        ("", ""),
        ("f", "Zg=="),
        ("fo", "Zm8="),
        ("foo", "Zm9v"),
        ("foob", "Zm9vYg=="),
        ("To: a@b.com", "VG86IGFAYi5jb20="),
        ("\u{7ff}\u{3ff}~~~?", "37_Pv35-fj8="),
    ];
    for (raw, encoded) in cases {
        let body = create_send_body(raw);
        assert_eq!(body.get("raw").unwrap().as_str(), Some(encoded));
    }
}

#[test]
fn send_body_decodes_to_any_message() {
    let raw = "To: a@b.com\r\nSubject: Gr\u{fc}\u{df}e \u{1f600}\r\n\r\n\u{20ac}";
    let body = create_send_body(raw);
    let bytes = URL_SAFE
        .decode(body.get("raw").unwrap().as_str().unwrap())
        .unwrap();
    assert_eq!(String::from_utf8(bytes).unwrap(), raw);
}

fn send_command() -> Command {
    Command::new("send")
        .arg(Arg::new("to").long("to"))
        .arg(Arg::new("subject").long("subject"))
        .arg(Arg::new("body").long("body"))
        .arg(
            Arg::new("dry-run")
                .long("dry-run")
                .action(clap::ArgAction::SetTrue),
        )
}

fn document(resource: &str, nested: &str, method: &str) -> RestDescription {
    let send = RestMethod {
        description: None,
        scopes: vec!["mail.send".to_string(), "mail".to_string()],
    };
    let messages = RestResource {
        methods: vec![(method.to_string(), send)],
        resources: vec![],
    };
    let users = RestResource {
        methods: vec![],
        resources: vec![(nested.to_string(), messages)],
    };
    RestDescription {
        name: "gmail".to_string(),
        resources: vec![(resource.to_string(), users)],
    }
}

#[test]
fn send_plans_the_request() {
    let args = ["send", "--to", "x@y.z", "--subject", "S", "--body", "B", "--dry-run"];
    let matches = send_command().try_get_matches_from(args).unwrap();
    let doc = document("users", "messages", "send");
    for plan in [
        handle_send(&doc, &matches).unwrap(),
        try_handle_send(&doc, &matches).unwrap().unwrap(),
    ] {
        assert_eq!(plan.scopes, ["mail.send", "mail"]);
        let request = plan.authorize(Ok("token".to_string()));
        assert_eq!(request.path, ["users", "messages"]);
        assert_eq!(request.method, "send");
        assert_eq!(request.params.as_deref(), Some("{\"userId\":\"me\"}"));
        let encoded = URL_SAFE.encode("To: x@y.z\r\nSubject: S\r\n\r\nB");
        assert_eq!(request.body, Some(format!("{{\"raw\":\"{encoded}\"}}")));
        assert_eq!(request.token.as_deref(), Some("token"));
        assert_eq!(request.auth, AuthMethod::OAuth);
        assert_eq!(request.upload, None);
        assert!(request.dry_run);
        assert!(!request.page_all);
        assert_eq!(request.page_limit, 10);
        assert_eq!(request.page_delay_ms, 100);
        assert_eq!(request.output, None);
        assert_eq!(request.sanitize_template, None);
        assert_eq!(request.sanitize_mode, SanitizeMode::Warn);
        assert_eq!(request.format, None);
        assert!(!request.capture_output);
    }
}

#[test]
fn send_goes_on_without_a_token() {
    let config = SendConfig {
        to: "x@y.z".to_string(),
        subject: "S".to_string(),
        body_text: "B".to_string(),
    };
    let plan = plan_send(&document("users", "messages", "send"), &config, false).unwrap();
    let request = plan.authorize(Err(GwsError::Service("no credentials".to_string())));
    assert_eq!(request.token, None);
    assert_eq!(request.auth, AuthMethod::Anonymous);
    assert!(!request.dry_run);
}

#[test]
fn send_says_what_the_document_lacks() {
    let config = SendConfig {
        to: String::new(),
        subject: String::new(),
        body_text: String::new(),
    };
    let cases = [
        (document("people", "messages", "send"), "Resource 'users' not found"),
        (document("users", "drafts", "send"), "Resource 'users.messages' not found"),
        (document("users", "messages", "list"), "Method 'users.messages.send' not found"),
    ];
    for (doc, message) in cases {
        match plan_send(&doc, &config, false) {
            Err(GwsError::Discovery(m)) => assert_eq!(m, message),
            _ => panic!("expected {message}"),
        }
    }
}

#[test]
fn missing_options_are_noticed() {
    let matches = send_command()
        .try_get_matches_from(["send", "--to", "x@y.z", "--subject", "S"])
        .unwrap();
    assert!(try_parse_send_args(&matches).is_none());
    assert!(try_handle_send(&document("users", "messages", "send"), &matches).is_none());

    let matches = make_matches_send(&["test", "--to", "a", "--subject", "b", "--body", "c"]);
    assert_eq!(try_parse_send_args(&matches).unwrap().body_text, "c");
    assert!(try_handle_send(&document("users", "messages", "send"), &matches).is_none());
}

#[test]
fn the_switch_is_needed_only_where_sending_is_possible() {
    let matches = make_matches_send(&["test", "--to", "a", "--subject", "b", "--body", "c"]);
    let cases = [
        (document("people", "messages", "send"), "Resource 'users' not found"),
        (document("users", "drafts", "send"), "Resource 'users.messages' not found"),
        (document("users", "messages", "list"), "Method 'users.messages.send' not found"),
    ];
    for (doc, message) in cases {
        for plan in [
            handle_send(&doc, &matches),
            try_handle_send(&doc, &matches).unwrap(),
        ] {
            match plan {
                Err(GwsError::Discovery(m)) => assert_eq!(m, message),
                _ => panic!("expected {message}"),
            }
        }
    }
}

#[test]
fn a_send_ends_as_its_run_does() {
    assert_eq!(finish_send::<u8>(Ok(None)), Ok(()));
    assert_eq!(finish_send::<u8>(Ok(Some(Json::Null))), Ok(()));
    assert_eq!(finish_send(Err(7)), Err(7));
    match finish_send(Err(GwsError::Service("it broke".to_string()))) {
        Err(GwsError::Service(m)) => assert_eq!(m, "it broke"),
        _ => panic!("expected the error of the run"),
    }
}
