use gws::call::{handle_tools_call, plan_call};
use gws::discovery::{follow, lookup, RestDescription, RestMethod, RestResource};
use gws::json::Json;
use gws::tools::{build_tools_list, walk_resources};

fn method(name: &str, description: Option<&str>) -> (String, RestMethod) {
    (
        name.to_string(),
        RestMethod {
            description: description.map(|d| d.to_string()),
            scopes: vec![],
        },
    )
}

fn resource(
    name: &str,
    methods: Vec<(String, RestMethod)>,
    resources: Vec<(String, RestResource)>,
) -> (String, RestResource) {
    (name.to_string(), RestResource { methods, resources })
}

fn drive() -> RestDescription {
    RestDescription {
        name: "drive".to_string(),
        resources: vec![
            resource(
                "files",
                vec![method("list", Some("Lists files.")), method("get", Some(""))],
                vec![resource("labels", vec![method("add", None)], vec![])],
            ),
            resource("about", vec![], vec![]),
            resource("drives", vec![method("hide", None)], vec![]),
        ],
    }
}

fn names(tools: &[Json]) -> Vec<&str> {
    tools
        .iter()
        .map(|t| t.get("name").unwrap().as_str().unwrap())
        .collect()
}

#[test]
fn every_method_becomes_a_tool() {
    let mut tools = vec![Json::Null];
    let doc = drive();
    walk_resources(&doc.name, &doc.resources, &mut tools);
    assert_eq!(
        names(&tools[1..]),
        [
            "drive_files_list",
            "drive_files_get",
            "drive_files_labels_add",
            "drive_drives_hide"
        ]
    );
    let text = |i: usize| tools[i].get("description").unwrap().as_str().unwrap();
    assert_eq!(text(1), "Lists files.");
    assert_eq!(text(2), "Execute the drive_files_get Google API method");
    assert_eq!(text(3), "Execute the drive_files_labels_add Google API method");
    assert_eq!(
        tools[1].to_text(),
        "{\"description\":\"Lists files.\",\"inputSchema\":{\"properties\":{\
         \"body\":{\"description\":\"Request body API object\",\"type\":\"object\"},\
         \"page_all\":{\"description\":\"Auto-paginate, returning all pages\",\"type\":\"boolean\"},\
         \"params\":{\"description\":\"Query or path parameters (e.g. fileId, q, pageSize)\",\"type\":\"object\"},\
         \"upload\":{\"description\":\"Local file path to upload as media content\",\"type\":\"string\"}},\
         \"type\":\"object\"},\"name\":\"drive_files_list\"}"
    );
}

#[test]
fn every_tool_has_another_name() {
    let tools = build_tools_list(&vec![Some(drive())], false);
    let list = names(&tools);
    for i in 0..list.len() {
        for j in 0..i {
            assert_ne!(list[i], list[j]);
        }
    }
}

#[test]
fn the_order_of_resources_changes_only_the_order_of_tools() {
    let mut turned = drive();
    turned.resources.reverse();
    turned.resources[2].1.methods.reverse();
    let tools = build_tools_list(&vec![Some(drive())], false);
    let other = build_tools_list(&vec![Some(turned)], false);
    let mut a = names(&tools);
    let mut b = names(&other);
    assert_ne!(a, b);
    a.sort();
    b.sort();
    assert_eq!(a, b);
}

#[test]
fn missing_documents_are_left_out_and_workflows_come_last() {
    let tools = build_tools_list(&vec![None, Some(drive()), None], true);
    assert_eq!(
        names(&tools),
        [
            "drive_files_list",
            "drive_files_get",
            "drive_files_labels_add",
            "drive_drives_hide",
            "workflow_standup_report",
            "workflow_meeting_prep",
            "workflow_email_to_task",
            "workflow_weekly_digest",
            "workflow_file_announce"
        ]
    );
    assert!(build_tools_list(&vec![], false).is_empty());
    assert_eq!(build_tools_list(&vec![], true).len(), 5);
}

#[test]
fn workflow_tools_are_exact() {
    let tools = build_tools_list(&vec![], true);
    let expected = [
        "{\"description\":\"Today's meetings + open tasks as a standup summary\",\"inputSchema\":{\"properties\":{\
         \"format\":{\"description\":\"Output format: json, table, yaml, csv\",\"type\":\"string\"}},\
         \"type\":\"object\"},\"name\":\"workflow_standup_report\"}",
        "{\"description\":\"Prepare for your next meeting: agenda, attendees, and linked docs\",\"inputSchema\":{\"properties\":{\
         \"calendar\":{\"description\":\"Calendar ID (default: primary)\",\"type\":\"string\"}},\
         \"type\":\"object\"},\"name\":\"workflow_meeting_prep\"}",
        "{\"description\":\"Convert a Gmail message into a Google Tasks entry\",\"inputSchema\":{\"properties\":{\
         \"message_id\":{\"description\":\"Gmail message ID\",\"type\":\"string\"},\
         \"tasklist\":{\"description\":\"Task list ID\",\"type\":\"string\"}},\
         \"required\":[\"message_id\"],\"type\":\"object\"},\"name\":\"workflow_email_to_task\"}",
        "{\"description\":\"Weekly summary: this week's meetings + unread email count\",\"inputSchema\":{\"properties\":{\
         \"format\":{\"description\":\"Output format\",\"type\":\"string\"}},\
         \"type\":\"object\"},\"name\":\"workflow_weekly_digest\"}",
        "{\"description\":\"Announce a Drive file in a Chat space\",\"inputSchema\":{\"properties\":{\
         \"file_id\":{\"description\":\"Drive file ID\",\"type\":\"string\"},\
         \"message\":{\"description\":\"Custom message\",\"type\":\"string\"},\
         \"space\":{\"description\":\"Chat space name\",\"type\":\"string\"}},\
         \"required\":[\"file_id\",\"space\"],\"type\":\"object\"},\"name\":\"workflow_file_announce\"}",
    ];
    for (tool, text) in tools.iter().zip(expected) {
        assert_eq!(tool.to_text(), text);
    }
}

#[test]
fn resources_are_found_by_their_path() {
    let doc = drive();
    let path = vec!["files".to_string(), "labels".to_string()];
    let found = follow(&doc.resources, &path).ok().unwrap();
    assert!(lookup(&found.methods, "add").is_some());
    assert!(lookup(&found.methods, "list").is_none());
    let path = vec!["files".to_string(), "nothing".to_string(), "labels".to_string()];
    assert_eq!(follow(&doc.resources, &path).err(), Some(1));
    let path = vec!["labels".to_string()];
    assert_eq!(follow(&doc.resources, &path).err(), Some(0));
}

fn call_named(name: &str) -> Json {
    Json::Object(vec![("name".to_string(), Json::text(name))])
}

#[test]
fn every_tool_can_be_called_by_its_name() {
    let doc = drive();
    let services = vec!["drive".to_string()];
    let tools = build_tools_list(&vec![Some(drive())], false);
    for name in names(&tools) {
        let call = handle_tools_call(&call_named(name), &services).unwrap_or_else(|e| panic!("{e:?}"));
        assert_eq!(call.service, "drive");
        let request = plan_call(call, &doc).unwrap_or_else(|e| panic!("{e:?}")).request;
        let way = [request.path.join("_"), request.method].join("_");
        assert_eq!(["drive", &way].join("_"), name);
    }
}

#[test]
fn the_order_of_resources_does_not_change_a_plan() {
    let mut turned = drive();
    turned.resources.reverse();
    turned.resources[2].1.methods.reverse();
    let services = vec!["drive".to_string()];
    for name in ["drive_files_get", "drive_files_labels_add", "drive_files_put"] {
        let plans = [drive(), turned_copy(&turned)].map(|doc| {
            let call = handle_tools_call(&call_named(name), &services).ok().unwrap();
            plan_call(call, &doc)
                .map(|plan| (plan.scopes, plan.request.path, plan.request.method))
                .map_err(|e| e.message().to_string())
        });
        assert_eq!(plans[0], plans[1]);
        assert_eq!(plans[0].is_ok(), name != "drive_files_put");
    }
}

fn turned_copy(doc: &RestDescription) -> RestDescription {
    RestDescription {
        name: doc.name.clone(),
        resources: doc.resources.iter().map(|(n, r)| (n.clone(), copy(r))).collect(),
    }
}

fn copy(res: &RestResource) -> RestResource {
    RestResource {
        methods: res
            .methods
            .iter()
            .map(|(n, m)| method(n, m.description.as_deref()))
            .collect(),
        resources: res.resources.iter().map(|(n, r)| (n.clone(), copy(r))).collect(),
    }
}
