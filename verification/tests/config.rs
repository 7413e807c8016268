use clap::Command;
use gws::cli::{build_mcp_cli, match_mcp_args};
use gws::config::ServerConfig;

fn known() -> Vec<String> {
    vec!["drive".to_string(), "gmail".to_string(), "calendar".to_string()]
}

fn texts(args: &[&str]) -> Vec<String> {
    args.iter().map(|a| a.to_string()).collect()
}

fn config(args: &[&str]) -> ServerConfig {
    ServerConfig::from_args(&texts(args), &known()).unwrap()
}

#[test]
fn no_services_by_default() {
    let c = config(&["mcp"]);
    assert!(c.services.is_empty());
    assert!(!c.workflows && !c.helpers);
    assert_eq!(
        c.notice(),
        [
            "[gws mcp] Warning: No services configured. Zero tools will be exposed.",
            "[gws mcp] Re-run with: gws mcp -s <service> (e.g., -s drive,gmail,calendar)",
            "[gws mcp] Use -s all to expose all available services."
        ]
    );
}

#[test]
fn all_stands_for_every_known_service() {
    let c = config(&["mcp", "-s", "all", "-w"]);
    assert_eq!(c.services, known());
    assert!(c.workflows && !c.helpers);
    assert_eq!(
        c.notice(),
        ["[gws mcp] Starting with services: drive, gmail, calendar"]
    );
}

#[test]
fn services_are_split_at_commas_and_trimmed() {
    let c = config(&["mcp", "--services", " drive , gmail,,all", "--helpers"]);
    assert_eq!(c.services, ["drive", "gmail", "", "all"]);
    assert!(!c.workflows && c.helpers);
    assert_eq!(ServerConfig::new(" ", false, false, &known()).services, [""]);
}

#[test]
fn matches_of_another_command_give_no_configuration() {
    let matches = Command::new("other").try_get_matches_from(["other"]).unwrap();
    assert!(ServerConfig::from_matches(&matches, &known()).is_none());
}

#[test]
fn matches_of_the_command_give_a_configuration() {
    let args = texts(&["mcp", "-we", "-s=drive"]);
    let c = ServerConfig::from_matches(&match_mcp_args(&args).unwrap(), &known()).unwrap();
    assert_eq!(c.services, ["drive"]);
    assert!(c.workflows && c.helpers);
    let matches = build_mcp_cli().try_get_matches_from(&args).unwrap();
    assert_eq!(
        ServerConfig::from_matches(&matches, &known()).unwrap().services,
        ["drive"]
    );
}

#[test]
fn other_arguments_are_not_accepted() {
    for args in [
        &["mcp", "--nonsense"][..],
        &["mcp", "drive"],
        &["mcp", "-s"],
        &["mcp", "--workflows=yes"],
        &["mcp", "-w", "-w"],
        &["mcp", "--help"],
    ] {
        assert!(match_mcp_args(&texts(args)).is_none(), "{args:?}");
        assert!(ServerConfig::from_args(&texts(args), &known()).is_none());
    }
    assert!(ServerConfig::from_args(&[], &known()).is_some());
}

#[test]
fn the_command_has_its_options() {
    let command = build_mcp_cli();
    assert_eq!(command.get_name(), "mcp");
    assert_eq!(
        command.get_about().unwrap().to_string(),
        "Starts the MCP server over stdio"
    );
    let options: Vec<(&str, &str, char, String)> = command
        .get_arguments()
        .map(|a| {
            (
                a.get_id().as_str(),
                a.get_long().unwrap(),
                a.get_short().unwrap(),
                a.get_help().unwrap().to_string(),
            )
        })
        .collect();
    assert_eq!(
        options,
        [
            (
                "services",
                "services",
                's',
                "Comma separated list of services to expose (e.g., drive,gmail,all)".to_string()
            ),
            (
                "workflows",
                "workflows",
                'w',
                "Expose workflows as tools".to_string()
            ),
            (
                "helpers",
                "helpers",
                'e',
                "Expose service-specific helpers as tools".to_string()
            ),
        ]
    );
}

#[test]
fn the_plain_command_starts_without_services() {
    for args in [&[][..], &["mcp"], &["--help"], &["gws mcp"]] {
        let c = config(args);
        assert!(c.services.is_empty() && !c.workflows && !c.helpers, "{args:?}");
    }
}
