//! The tools that the server offers: one for each method of each enabled service, and the
//! workflows.

use crate::discovery::{RestDescription, RestMethod, RestResource};
use crate::json::{field, fields_of, items_of, lemma_items_of_push, Json, JsonView};
use vstd::prelude::*;

verus! {

/// The schema of one property of a tool's input.
pub open spec fn property_view(kind: Seq<char>, description: Seq<char>) -> JsonView {
    JsonView::Object(
        Map::empty().insert("type"@, JsonView::Str(kind)).insert(
            "description"@,
            JsonView::Str(description),
        ),
    )
}

/// The schema of a tool's input, given the schemas of its properties.
pub open spec fn schema_view(properties: Map<Seq<char>, JsonView>) -> Map<Seq<char>, JsonView> {
    Map::empty().insert("type"@, JsonView::Str("object"@)).insert(
        "properties"@,
        JsonView::Object(properties),
    )
}

/// A tool as a client sees it.
pub open spec fn tool_view(
    name: Seq<char>,
    description: Seq<char>,
    schema: Map<Seq<char>, JsonView>,
) -> JsonView {
    JsonView::Object(
        Map::empty().insert("name"@, JsonView::Str(name)).insert(
            "description"@,
            JsonView::Str(description),
        ).insert("inputSchema"@, JsonView::Object(schema)),
    )
}

/// The input of every tool that stands for an API method.
pub open spec fn method_properties() -> Map<Seq<char>, JsonView> {
    Map::empty().insert(
        "params"@,
        property_view("object"@, "Query or path parameters (e.g. fileId, q, pageSize)"@),
    ).insert("body"@, property_view("object"@, "Request body API object"@)).insert(
        "upload"@,
        property_view("string"@, "Local file path to upload as media content"@),
    ).insert("page_all"@, property_view("boolean"@, "Auto-paginate, returning all pages"@))
}

/// What is said of the tool for an API method: the method's own description, unless that is
/// missing or empty.
pub open spec fn method_description(tool: Seq<char>, own: Option<String>) -> Seq<char> {
    match own {
        Some(d) if d@.len() > 0 => d@,
        _ => "Execute the "@ + tool + " Google API method"@,
    }
}

/// The name of a resource, or of a tool, below `prefix`.
pub open spec fn below(prefix: Seq<char>, name: Seq<char>) -> Seq<char> {
    prefix + "_"@ + name
}

/// The tool for one method of a resource.
pub open spec fn method_tool(prefix: Seq<char>, entry: (String, RestMethod)) -> JsonView {
    let name = below(prefix, entry.0@);
    tool_view(
        name,
        method_description(name, entry.1.description),
        schema_view(method_properties()),
    )
}

/// The tools for the methods of a resource.
pub open spec fn method_tools(prefix: Seq<char>, methods: Seq<(String, RestMethod)>) -> Seq<
    JsonView,
> {
    Seq::new(methods.len(), |i: int| method_tool(prefix, methods[i]))
}

/// The tools for a resource: those of its methods, then those of its sub-resources.
pub open spec fn resource_tools(prefix: Seq<char>, res: RestResource) -> Seq<JsonView>
    decreases res,
{
    method_tools(prefix, res.methods@) + walk(prefix, res.resources@)
}

/// The tools for a list of resources below `prefix`, in order.
pub open spec fn walk(prefix: Seq<char>, resources: Seq<(String, RestResource)>) -> Seq<JsonView>
    decreases resources,
{
    if resources.len() == 0 {
        Seq::empty()
    } else {
        walk(prefix, resources.drop_last()) + resource_tools(
            below(prefix, resources.last().0@),
            resources.last().1,
        )
    }
}

/// A list of names as a JSON array of strings.
pub open spec fn names_view(names: Seq<Seq<char>>) -> JsonView {
    JsonView::Array(Seq::new(names.len(), |i: int| JsonView::Str(names[i])))
}

/// The tool for the standup report.
pub open spec fn standup_report() -> JsonView {
    tool_view(
        "workflow_standup_report"@,
        "Today's meetings + open tasks as a standup summary"@,
        schema_view(
            Map::empty().insert(
                "format"@,
                property_view("string"@, "Output format: json, table, yaml, csv"@),
            ),
        ),
    )
}

/// The tool for meeting preparation.
pub open spec fn meeting_prep() -> JsonView {
    tool_view(
        "workflow_meeting_prep"@,
        "Prepare for your next meeting: agenda, attendees, and linked docs"@,
        schema_view(
            Map::empty().insert(
                "calendar"@,
                property_view("string"@, "Calendar ID (default: primary)"@),
            ),
        ),
    )
}

/// The tool that turns a message into a task.
pub open spec fn email_to_task() -> JsonView {
    tool_view(
        "workflow_email_to_task"@,
        "Convert a Gmail message into a Google Tasks entry"@,
        schema_view(
            Map::empty().insert(
                "message_id"@,
                property_view("string"@, "Gmail message ID"@),
            ).insert("tasklist"@, property_view("string"@, "Task list ID"@)),
        ).insert("required"@, names_view(seq!["message_id"@])),
    )
}

/// The tool for the weekly digest.
pub open spec fn weekly_digest() -> JsonView {
    tool_view(
        "workflow_weekly_digest"@,
        "Weekly summary: this week's meetings + unread email count"@,
        schema_view(
            Map::empty().insert("format"@, property_view("string"@, "Output format"@)),
        ),
    )
}

/// The tool that announces a file.
pub open spec fn file_announce() -> JsonView {
    tool_view(
        "workflow_file_announce"@,
        "Announce a Drive file in a Chat space"@,
        schema_view(
            Map::empty().insert("file_id"@, property_view("string"@, "Drive file ID"@)).insert(
                "space"@,
                property_view("string"@, "Chat space name"@),
            ).insert("message"@, property_view("string"@, "Custom message"@)),
        ).insert("required"@, names_view(seq!["file_id"@, "space"@])),
    )
}

/// The tools for the workflows.
pub open spec fn workflow_tools() -> Seq<JsonView> {
    seq![standup_report(), meeting_prep(), email_to_task(), weekly_digest(), file_announce()]
}

/// The whole list of tools: for each service in turn, those of its document where there is one;
/// then the workflows where they are enabled.
pub open spec fn listing(docs: Seq<Option<RestDescription>>, workflows: bool) -> Seq<JsonView> {
    document_tools(docs) + if workflows {
        workflow_tools()
    } else {
        Seq::empty()
    }
}

/// The tools of a list of documents, in order.
pub open spec fn document_tools(docs: Seq<Option<RestDescription>>) -> Seq<JsonView>
    decreases docs.len(),
{
    if docs.len() == 0 {
        Seq::empty()
    } else {
        document_tools(docs.drop_last()) + match docs.last() {
            Some(doc) => walk(doc.name@, doc.resources@),
            None => Seq::empty(),
        }
    }
}

/// The schema of one property of a tool's input.
fn property(kind: &str, description: &str) -> (r: Json)
    ensures
        r@ == property_view(kind@, description@),
{
    let fields: Vec<(String, Json)> = field(Vec::new(), "type", Json::text(kind));
    Json::Object(field(fields, "description", Json::text(description)))
}

/// The schema of a tool's input.
fn schema(properties: Vec<(String, Json)>) -> (r: Vec<(String, Json)>)
    ensures
        fields_of(r@) == schema_view(fields_of(properties@)),
{
    let fields: Vec<(String, Json)> = field(Vec::new(), "type", Json::text("object"));
    field(fields, "properties", Json::Object(properties))
}

/// A tool as a client sees it.
fn tool(name: &str, description: &str, schema: Vec<(String, Json)>) -> (r: Json)
    ensures
        r@ == tool_view(name@, description@, fields_of(schema@)),
{
    let fields: Vec<(String, Json)> = field(Vec::new(), "name", Json::text(name));
    let fields: Vec<(String, Json)> = field(fields, "description", Json::text(description));
    Json::Object(field(fields, "inputSchema", Json::Object(schema)))
}

/// The schema of the input of a tool that stands for an API method.
fn method_schema() -> (r: Vec<(String, Json)>)
    ensures
        fields_of(r@) == schema_view(method_properties()),
{
    let p: Vec<(String, Json)> = field(
        Vec::new(),
        "params",
        property("object", "Query or path parameters (e.g. fileId, q, pageSize)"),
    );
    let p: Vec<(String, Json)> = field(
        p,
        "body",
        property("object", "Request body API object"),
    );
    let p: Vec<(String, Json)> = field(
        p,
        "upload",
        property("string", "Local file path to upload as media content"),
    );
    let p: Vec<(String, Json)> = field(
        p,
        "page_all",
        property("boolean", "Auto-paginate, returning all pages"),
    );
    schema(p)
}

/// The name of a resource, or of a tool, below `prefix`.
fn name_below(prefix: &str, name: &str) -> (r: String)
    ensures
        r@ == below(prefix@, name@),
{
    let mut s: String = prefix.to_string();
    s.append("_");
    s.append(name);
    s
}

/// What is said of the tool for an API method.
fn describe_method(tool: &str, own: &Option<String>) -> (r: String)
    ensures
        r@ == method_description(tool@, *own),
{
    if let Some(d) = own {
        if !d.as_str().is_empty() {
            return d.clone();
        }
    }
    let mut s: String = "Execute the ".to_string();
    s.append(tool);
    s.append(" Google API method");
    s
}

/// Adds the tools for every method below `resources` to `tools`.
pub fn walk_resources(prefix: &str, resources: &Vec<(String, RestResource)>, tools: &mut Vec<Json>)
    ensures
        items_of(final(tools)@) == items_of(old(tools)@) + walk(prefix@, resources@),
    decreases resources@,
{
    let ghost start = items_of(tools@);
    let mut i: usize = 0;
    assert(resources@.take(0) =~= Seq::empty());
    assert(start + walk(prefix@, resources@.take(0)) =~= start);
    while i < resources.len()
        invariant
            i <= resources@.len(),
            items_of(tools@) == start + walk(prefix@, resources@.take(i as int)),
        decreases resources@.len() - i,
    {
        let ghost before = items_of(tools@);
        let ghost res = resources@[i as int].1;
        let new_prefix: String = name_below(prefix, resources[i].0.as_str());
        let methods: &Vec<(String, RestMethod)> = &resources[i].1.methods;
        let mut j: usize = 0;
        assert(before + method_tools(new_prefix@, methods@.take(0)) =~= before);
        while j < methods.len()
            invariant
                j <= methods@.len(),
                items_of(tools@) == before + method_tools(new_prefix@, methods@.take(j as int)),
            decreases methods@.len() - j,
        {
            let tool_name: String = name_below(new_prefix.as_str(), methods[j].0.as_str());
            let description: String = describe_method(
                tool_name.as_str(),
                &methods[j].1.description,
            );
            let item: Json = tool(tool_name.as_str(), description.as_str(), method_schema());
            proof {
                lemma_items_of_push(tools@, item);
                assert(method_tools(new_prefix@, methods@.take(j + 1)) =~= method_tools(
                    new_prefix@,
                    methods@.take(j as int),
                ).push(item@));
                assert(items_of(tools@).push(item@) =~= before + method_tools(
                    new_prefix@,
                    methods@.take(j + 1),
                ));
            }
            tools.push(item);
            j += 1;
        }
        assert(methods@.take(methods@.len() as int) =~= methods@);
        assert(decreases_to!(resources@ => res.resources@)) by {
            assert(decreases_to!(resources@ => resources@[i as int]));
            assert(decreases_to!(resources@[i as int] => res));
            assert(decreases_to!(res => res.resources));
            assert(decreases_to!(res.resources => res.resources@));
        }
        walk_resources(new_prefix.as_str(), &resources[i].1.resources, tools);
        proof {
            let upto = resources@.take(i + 1);
            assert(upto.drop_last() =~= resources@.take(i as int));
            assert(upto.last() == resources@[i as int]);
            assert(walk(prefix@, upto) == walk(prefix@, upto.drop_last()) + resource_tools(
                new_prefix@,
                res,
            ));
            assert(resource_tools(new_prefix@, res) == method_tools(new_prefix@, methods@) + walk(
                new_prefix@,
                res.resources@,
            ));
            assert(items_of(tools@) =~= start + walk(prefix@, resources@.take(i + 1)));
        }
        i += 1;
    }
    assert(resources@.take(resources@.len() as int) =~= resources@);
}

/// A list of names as a JSON array of strings.
fn names_json(names: &Vec<&str>) -> (r: Json)
    ensures
        r@ == names_view(Seq::new(names@.len(), |i: int| names@[i]@)),
{
    let mut items: Vec<Json> = Vec::new();
    let mut i: usize = 0;
    while i < names.len()
        invariant
            i <= names@.len(),
            items_of(items@) =~= Seq::new(i as nat, |j: int| JsonView::Str(names@[j]@)),
        decreases names@.len() - i,
    {
        let item: Json = Json::text(names[i]);
        proof {
            lemma_items_of_push(items@, item);
        }
        items.push(item);
        i += 1;
    }
    let ghost list = Seq::new(names@.len(), |j: int| names@[j]@);
    assert(Seq::new(list.len(), |j: int| JsonView::Str(list[j])) =~= items_of(items@));
    Json::Array(items)
}

/// The tool for the standup report.
fn standup_report_tool() -> (r: Json)
    ensures
        r@ == standup_report(),
{
    let p: Vec<(String, Json)> = field(
        Vec::new(),
        "format",
        property("string", "Output format: json, table, yaml, csv"),
    );
    tool(
        "workflow_standup_report",
        "Today's meetings + open tasks as a standup summary",
        schema(p),
    )
}

/// The tool for meeting preparation.
fn meeting_prep_tool() -> (r: Json)
    ensures
        r@ == meeting_prep(),
{
    let p: Vec<(String, Json)> = field(
        Vec::new(),
        "calendar",
        property("string", "Calendar ID (default: primary)"),
    );
    tool(
        "workflow_meeting_prep",
        "Prepare for your next meeting: agenda, attendees, and linked docs",
        schema(p),
    )
}

/// The tool that turns a message into a task.
fn email_to_task_tool() -> (r: Json)
    ensures
        r@ == email_to_task(),
{
    let p: Vec<(String, Json)> = field(
        Vec::new(),
        "message_id",
        property("string", "Gmail message ID"),
    );
    let p: Vec<(String, Json)> = field(p, "tasklist", property("string", "Task list ID"));
    let required: Vec<&str> = vec!["message_id"];
    proof {
        assert(Seq::new(required@.len(), |i: int| required@[i]@) =~= seq!["message_id"@]);
    }
    tool(
        "workflow_email_to_task",
        "Convert a Gmail message into a Google Tasks entry",
        field(schema(p), "required", names_json(&required)),
    )
}

/// The tool for the weekly digest.
fn weekly_digest_tool() -> (r: Json)
    ensures
        r@ == weekly_digest(),
{
    let p: Vec<(String, Json)> = field(Vec::new(), "format", property("string", "Output format"));
    tool(
        "workflow_weekly_digest",
        "Weekly summary: this week's meetings + unread email count",
        schema(p),
    )
}

/// The tool that announces a file.
fn file_announce_tool() -> (r: Json)
    ensures
        r@ == file_announce(),
{
    let p: Vec<(String, Json)> = field(Vec::new(), "file_id", property("string", "Drive file ID"));
    let p: Vec<(String, Json)> = field(p, "space", property("string", "Chat space name"));
    let p: Vec<(String, Json)> = field(p, "message", property("string", "Custom message"));
    let required: Vec<&str> = vec!["file_id", "space"];
    proof {
        assert(Seq::new(required@.len(), |i: int| required@[i]@) =~= seq!["file_id"@, "space"@]);
    }
    tool(
        "workflow_file_announce",
        "Announce a Drive file in a Chat space",
        field(schema(p), "required", names_json(&required)),
    )
}

/// Adds the tools for the workflows to `tools`.
pub fn add_workflow_tools(tools: &mut Vec<Json>)
    ensures
        items_of(final(tools)@) == items_of(old(tools)@) + workflow_tools(),
{
    let a: Json = standup_report_tool();
    let b: Json = meeting_prep_tool();
    let c: Json = email_to_task_tool();
    let d: Json = weekly_digest_tool();
    let e: Json = file_announce_tool();
    proof {
        let t = tools@;
        lemma_items_of_push(t, a);
        lemma_items_of_push(t.push(a), b);
        lemma_items_of_push(t.push(a).push(b), c);
        lemma_items_of_push(t.push(a).push(b).push(c), d);
        lemma_items_of_push(t.push(a).push(b).push(c).push(d), e);
        assert(items_of(t).push(a@).push(b@).push(c@).push(d@).push(e@) =~= items_of(t)
            + workflow_tools());
    }
    tools.push(a);
    tools.push(b);
    tools.push(c);
    tools.push(d);
    tools.push(e);
}

/// The whole list of tools: for each service in turn, those of its document where there is one;
/// then the workflows where they are enabled.
pub fn build_tools_list(docs: &Vec<Option<RestDescription>>, workflows: bool) -> (r: Vec<Json>)
    ensures
        items_of(r@) == listing(docs@, workflows),
{
    let mut tools: Vec<Json> = Vec::new();
    let mut i: usize = 0;
    assert(docs@.take(0) =~= Seq::empty());
    while i < docs.len()
        invariant
            i <= docs@.len(),
            items_of(tools@) == document_tools(docs@.take(i as int)),
        decreases docs@.len() - i,
    {
        proof {
            assert(docs@.take(i + 1).drop_last() =~= docs@.take(i as int));
        }
        match &docs[i] {
            Some(doc) => {
                walk_resources(doc.name.as_str(), &doc.resources, &mut tools);
            },
            None => {
                assert(items_of(tools@) + Seq::<JsonView>::empty() =~= items_of(tools@));
            },
        }
        i += 1;
    }
    assert(docs@.take(docs@.len() as int) =~= docs@);
    if workflows {
        add_workflow_tools(&mut tools);
    } else {
        assert(items_of(tools@) + Seq::<JsonView>::empty() =~= items_of(tools@));
    }
    tools
}

/// The schema of one property: its type and its description, and nothing else.
pub open spec fn is_property(v: JsonView, kind: Seq<char>, description: Seq<char>) -> bool {
    &&& v is Object
    &&& forall|key: Seq<char>| #[trigger]
        v->Object_0.contains_key(key) <==> key == "type"@ || key == "description"@
    &&& v->Object_0["type"@] == JsonView::Str(kind)
    &&& v->Object_0["description"@] == JsonView::Str(description)
}

/// A tool of this name and description, whose input is an object.
pub open spec fn is_tool(v: JsonView, name: Seq<char>, description: Seq<char>) -> bool {
    &&& v is Object
    &&& forall|key: Seq<char>| #[trigger]
        v->Object_0.contains_key(key) <==> key == "name"@ || key == "description"@ || key
            == "inputSchema"@
    &&& v->Object_0["name"@] == JsonView::Str(name)
    &&& v->Object_0["description"@] == JsonView::Str(description)
    &&& v->Object_0["inputSchema"@] is Object
    &&& input_schema(v).contains_key("type"@)
    &&& input_schema(v)["type"@] == JsonView::Str("object"@)
    &&& input_schema(v).contains_key("properties"@)
    &&& input_schema(v)["properties"@] is Object
    &&& forall|key: Seq<char>| #[trigger]
        input_schema(v).contains_key(key) ==> key == "type"@ || key == "properties"@ || key
            == "required"@
}

/// The schema of the input of a tool.
pub open spec fn input_schema(tool: JsonView) -> Map<Seq<char>, JsonView> {
    tool->Object_0["inputSchema"@]->Object_0
}

/// The properties in the input of a tool.
pub open spec fn input_properties(tool: JsonView) -> Map<Seq<char>, JsonView> {
    input_schema(tool)["properties"@]->Object_0
}

proof fn lemma_tool_keys_differ()
    ensures
        "name"@ != "description"@,
        "name"@ != "inputSchema"@,
        "description"@ != "inputSchema"@,
        "type"@ != "description"@,
        "type"@ != "properties"@,
        "type"@ != "required"@,
        "properties"@ != "required"@,
        "params"@ != "body"@,
        "params"@ != "upload"@,
        "params"@ != "page_all"@,
        "body"@ != "upload"@,
        "body"@ != "page_all"@,
        "upload"@ != "page_all"@,
        "message_id"@ != "tasklist"@,
        "file_id"@ != "space"@,
        "file_id"@ != "message"@,
        "space"@ != "message"@,
{
    reveal_strlit("name");
    reveal_strlit("description");
    reveal_strlit("inputSchema");
    reveal_strlit("type");
    reveal_strlit("properties");
    reveal_strlit("required");
    reveal_strlit("params");
    reveal_strlit("body");
    reveal_strlit("upload");
    reveal_strlit("page_all");
    reveal_strlit("message_id");
    reveal_strlit("tasklist");
    reveal_strlit("file_id");
    reveal_strlit("space");
    reveal_strlit("message");
    assert("name"@.len() == 4 && "description"@[0] == 'd' && "inputSchema"@[0] == 'i'
        && "type"@.len() == 4 && "description"@.len() == 11 && "inputSchema"@.len() == 11);
    assert("properties"@.len() == 10 && "required"@.len() == 8 && "params"@[0] == 'p'
        && "upload"@[0] == 'u' && "params"@.len() == 6 && "upload"@.len() == 6 && "body"@.len() == 4
        && "page_all"@.len() == 8);
    assert("message_id"@.len() == 10 && "tasklist"@.len() == 8 && "file_id"@[0] == 'f'
        && "message"@[0] == 'm' && "space"@.len() == 5);
}

/// The tool for a method goes by the name of its resource and its own, with `_` between them,
/// says what the method says of itself, where it says anything, and takes parameters, a body, a
/// file to upload and whether to fetch all pages.
pub proof fn law_tool_describes_its_method(prefix: Seq<char>, entry: (String, RestMethod))
    ensures
        ({
            let tool = method_tool(prefix, entry);
            let name = prefix + "_"@ + entry.0@;
            let own = entry.1.description;
            let properties = input_properties(tool);
            &&& own is Some && own->0@.len() > 0 ==> is_tool(tool, name, own->0@)
            &&& own is None || own->0@.len() == 0 ==> is_tool(
                tool,
                name,
                "Execute the "@ + name + " Google API method"@,
            )
            &&& !input_schema(tool).contains_key("required"@)
            &&& forall|key: Seq<char>| #[trigger]
                properties.contains_key(key) <==> key == "params"@ || key == "body"@ || key
                    == "upload"@ || key == "page_all"@
            &&& is_property(
                properties["params"@],
                "object"@,
                "Query or path parameters (e.g. fileId, q, pageSize)"@,
            )
            &&& is_property(properties["body"@], "object"@, "Request body API object"@)
            &&& is_property(
                properties["upload"@],
                "string"@,
                "Local file path to upload as media content"@,
            )
            &&& is_property(
                properties["page_all"@],
                "boolean"@,
                "Auto-paginate, returning all pages"@,
            )
        }),
{
    lemma_tool_keys_differ();
}

/// The tools of resources come one after the other: those of each resource are one for each of
/// its methods, in order, under the resource's name, then those of its sub-resources under it.
pub proof fn law_resources_are_walked_in_order(
    prefix: Seq<char>,
    a: Seq<(String, RestResource)>,
    b: Seq<(String, RestResource)>,
    entry: (String, RestResource),
)
    ensures
        walk(prefix, Seq::empty()) == Seq::<JsonView>::empty(),
        walk(prefix, a + b) == walk(prefix, a) + walk(prefix, b),
        ({
            let tools = walk(prefix, seq![entry]);
            let inner = prefix + "_"@ + entry.0@;
            let methods = entry.1.methods@;
            &&& tools.len() >= methods.len()
            &&& forall|i: int|
                0 <= i < methods.len() ==> tools[i] == method_tool(inner, #[trigger] methods[i])
            &&& tools.skip(methods.len() as int) == walk(inner, entry.1.resources@)
        }),
    decreases b.len(),
{
    let one = seq![entry];
    assert(one.drop_last() =~= Seq::empty());
    let inner = prefix + "_"@ + entry.0@;
    let own = method_tools(inner, entry.1.methods@);
    let nested = walk(inner, entry.1.resources@);
    assert(walk(prefix, one.drop_last()) =~= Seq::empty());
    assert(walk(prefix, one) =~= resource_tools(inner, entry.1));
    assert(resource_tools(inner, entry.1) == own + nested);
    assert((own + nested).skip(own.len() as int) =~= nested);
    if b.len() == 0 {
        assert(a + b =~= a);
        assert(walk(prefix, a) + walk(prefix, b) =~= walk(prefix, a));
    } else {
        let whole = a + b;
        law_resources_are_walked_in_order(prefix, a, b.drop_last(), entry);
        assert(whole.drop_last() =~= a + b.drop_last());
        assert(whole.last() == b.last());
        assert(walk(prefix, whole) =~= walk(prefix, a) + walk(prefix, b));
    }
}

/// The list of tools is made document by document: the documents of some services and those of
/// more have the tools of the first and then those of the others, one document has the tools of
/// its resources under its name, and one that could not be had has none. Workflows come behind
/// all of them.
pub proof fn law_documents_are_listed_in_order(
    a: Seq<Option<RestDescription>>,
    b: Seq<Option<RestDescription>>,
    doc: RestDescription,
)
    ensures
        listing(Seq::empty(), false) == Seq::<JsonView>::empty(),
        listing(a + b, false) == listing(a, false) + listing(b, false),
        listing(seq![Some(doc)], false) == walk(doc.name@, doc.resources@),
        listing(seq![None], false) == Seq::<JsonView>::empty(),
        listing(a, true) == listing(a, false) + listing(Seq::empty(), true),
    decreases b.len(),
{
    let none = Seq::<Option<RestDescription>>::empty();
    assert(listing(none, false) =~= Seq::<JsonView>::empty());
    assert(seq![Some(doc)].drop_last() =~= none);
    assert(document_tools(seq![Some(doc)].drop_last()) =~= Seq::<JsonView>::empty());
    assert(listing(seq![Some(doc)], false) =~= walk(doc.name@, doc.resources@));
    let missing = seq![None::<RestDescription>];
    assert(missing.drop_last() =~= none);
    assert(document_tools(missing.drop_last()) =~= Seq::<JsonView>::empty());
    assert(listing(missing, false) =~= Seq::<JsonView>::empty());
    assert(listing(a, true) =~= listing(a, false) + listing(none, true));
    if b.len() == 0 {
        assert(a + b =~= a);
        assert(listing(a, false) + listing(b, false) =~= listing(a, false));
    } else {
        let whole = a + b;
        law_documents_are_listed_in_order(a, b.drop_last(), doc);
        assert(whole.drop_last() =~= a + b.drop_last());
        assert(whole.last() == b.last());
        assert(document_tools(whole.drop_last()) =~= listing(whole.drop_last(), false));
        assert(document_tools(b.drop_last()) =~= listing(b.drop_last(), false));
        assert(document_tools(a) =~= listing(a, false));
        assert(listing(whole, false) =~= document_tools(whole));
        assert(listing(b, false) =~= document_tools(b));
        assert(listing(whole, false) =~= listing(a, false) + listing(b, false));
    }
}

/// How many tools the documents that could be had have together.
pub open spec fn tools_in(docs: Seq<Option<RestDescription>>) -> nat
    decreases docs.len(),
{
    if docs.len() == 0 {
        0
    } else {
        match docs[0] {
            Some(doc) => walk(doc.name@, doc.resources@).len() + tools_in(docs.skip(1)),
            None => tools_in(docs.skip(1)),
        }
    }
}

proof fn lemma_split_documents(docs: Seq<Option<RestDescription>>, i: int)
    requires
        0 <= i < docs.len(),
    ensures
        listing(docs, false) == listing(docs.take(i), false) + listing(seq![docs[i]], false)
            + listing(docs.skip(i + 1), false),
{
    let some: RestDescription = arbitrary();
    law_documents_are_listed_in_order(docs.take(i), seq![docs[i]], some);
    law_documents_are_listed_in_order(docs.take(i) + seq![docs[i]], docs.skip(i + 1), some);
    assert(docs.take(i) + seq![docs[i]] + docs.skip(i + 1) =~= docs);
}

/// Every tool of every document that could be had is listed, whichever service it is of.
pub proof fn law_every_document_is_listed(
    docs: Seq<Option<RestDescription>>,
    workflows: bool,
    i: int,
    doc: RestDescription,
    tool: JsonView,
)
    requires
        0 <= i < docs.len(),
        docs[i] == Some(doc),
        walk(doc.name@, doc.resources@).contains(tool),
    ensures
        listing(docs, workflows).contains(tool),
{
    lemma_split_documents(docs, i);
    law_documents_are_listed_in_order(docs, Seq::empty(), doc);
    let before = listing(docs.take(i), false);
    let own = walk(doc.name@, doc.resources@);
    let j = choose|j: int| 0 <= j < own.len() && own[j] == tool;
    assert(listing(docs, false)[before.len() + j] == tool);
    assert(listing(docs, workflows)[before.len() + j] == tool);
}

/// Every tool that is listed is one of a document that could be had, or a workflow, and that only
/// where workflows are offered.
pub proof fn law_every_listed_tool_is_of_a_document(
    docs: Seq<Option<RestDescription>>,
    workflows: bool,
    tool: JsonView,
)
    requires
        listing(docs, workflows).contains(tool),
    ensures
        (workflows && listing(Seq::empty(), true).contains(tool)) || exists|i: int|
            0 <= i < docs.len() && (#[trigger] docs[i]) is Some && walk(
                docs[i]->0.name@,
                docs[i]->0.resources@,
            ).contains(tool),
    decreases docs.len(),
{
    let some: RestDescription = arbitrary();
    law_documents_are_listed_in_order(docs, Seq::empty(), some);
    let j = choose|j: int|
        0 <= j < listing(docs, workflows).len() && listing(docs, workflows)[j] == tool;
    if j >= listing(docs, false).len() {
        let k = j - listing(docs, false).len();
        assert(listing(Seq::empty(), true)[k] == tool);
    } else if docs.len() > 0 {
        let n = docs.len() - 1;
        lemma_split_documents(docs, n);
        assert(docs.skip(n + 1) =~= Seq::empty());
        let front = docs.take(n);
        let before = listing(front, false);
        if j < before.len() {
            assert(before[j] == tool);
            law_every_listed_tool_is_of_a_document(front, false, tool);
            let i = choose|i: int|
                0 <= i < front.len() && (#[trigger] front[i]) is Some && walk(
                    front[i]->0.name@,
                    front[i]->0.resources@,
                ).contains(tool);
            assert(docs[i] == front[i]);
        } else {
            let own = listing(seq![docs[n]], false);
            assert(own[j - before.len()] == tool);
            match docs[n] {
                Some(doc) => {
                    law_documents_are_listed_in_order(docs, Seq::empty(), doc);
                },
                None => {},
            }
        }
    }
}

/// The list is as long as the tools of all documents together, and five longer where workflows
/// are offered.
pub proof fn law_list_is_as_long_as_its_documents(docs: Seq<Option<RestDescription>>)
    ensures
        listing(docs, false).len() == tools_in(docs),
        listing(docs, true).len() == tools_in(docs) + 5,
    decreases docs.len(),
{
    let some: RestDescription = arbitrary();
    law_documents_are_listed_in_order(docs, Seq::empty(), some);
    if docs.len() > 0 {
        lemma_split_documents(docs, 0);
        assert(docs.take(0) =~= Seq::empty());
        law_list_is_as_long_as_its_documents(docs.skip(1));
        match docs[0] {
            Some(doc) => {
                law_documents_are_listed_in_order(docs, Seq::empty(), doc);
            },
            None => {},
        }
    } else {
        assert(docs =~= Seq::empty());
    }
}

/// The workflows that are offered, where they are: each with its input.
pub proof fn law_workflows_are_described()
    ensures
        ({
            let tools = listing(Seq::empty(), true);
            &&& tools.len() == 5
            &&& is_tool(
                tools[0],
                "workflow_standup_report"@,
                "Today's meetings + open tasks as a standup summary"@,
            )
            &&& input_properties(tools[0]).dom() == set!["format"@]
            &&& is_property(
                input_properties(tools[0])["format"@],
                "string"@,
                "Output format: json, table, yaml, csv"@,
            )
            &&& is_tool(
                tools[1],
                "workflow_meeting_prep"@,
                "Prepare for your next meeting: agenda, attendees, and linked docs"@,
            )
            &&& input_properties(tools[1]).dom() == set!["calendar"@]
            &&& is_property(
                input_properties(tools[1])["calendar"@],
                "string"@,
                "Calendar ID (default: primary)"@,
            )
            &&& is_tool(
                tools[2],
                "workflow_email_to_task"@,
                "Convert a Gmail message into a Google Tasks entry"@,
            )
            &&& input_properties(tools[2]).dom() == set!["message_id"@, "tasklist"@]
            &&& is_property(
                input_properties(tools[2])["message_id"@],
                "string"@,
                "Gmail message ID"@,
            )
            &&& is_property(input_properties(tools[2])["tasklist"@], "string"@, "Task list ID"@)
            &&& is_tool(
                tools[3],
                "workflow_weekly_digest"@,
                "Weekly summary: this week's meetings + unread email count"@,
            )
            &&& input_properties(tools[3]).dom() == set!["format"@]
            &&& is_property(input_properties(tools[3])["format"@], "string"@, "Output format"@)
            &&& is_tool(
                tools[4],
                "workflow_file_announce"@,
                "Announce a Drive file in a Chat space"@,
            )
            &&& input_properties(tools[4]).dom() == set!["file_id"@, "space"@, "message"@]
            &&& is_property(input_properties(tools[4])["file_id"@], "string"@, "Drive file ID"@)
            &&& is_property(input_properties(tools[4])["space"@], "string"@, "Chat space name"@)
            &&& is_property(input_properties(tools[4])["message"@], "string"@, "Custom message"@)
            &&& forall|i: int|
                #![trigger tools[i]]
                0 <= i < 5 ==> (input_schema(tools[i]).contains_key("required"@) <==> i == 2 || i
                    == 4)
            &&& input_schema(tools[2])["required"@] == JsonView::Array(
                seq![JsonView::Str("message_id"@)],
            )
            &&& input_schema(tools[4])["required"@] == JsonView::Array(
                seq![JsonView::Str("file_id"@), JsonView::Str("space"@)],
            )
        }),
{
    lemma_tool_keys_differ();
    let tools = listing(Seq::empty(), true);
    assert(tools =~= workflow_tools());
    assert(input_properties(tools[0]).dom() =~= set!["format"@]);
    assert(input_properties(tools[1]).dom() =~= set!["calendar"@]);
    assert(input_properties(tools[2]).dom() =~= set!["message_id"@, "tasklist"@]);
    assert(input_properties(tools[3]).dom() =~= set!["format"@]);
    assert(input_properties(tools[4]).dom() =~= set!["file_id"@, "space"@, "message"@]);
    assert(names_view(seq!["message_id"@])->Array_0 =~= seq![JsonView::Str("message_id"@)]);
    assert(names_view(seq!["file_id"@, "space"@])->Array_0 =~= seq![
        JsonView::Str("file_id"@),
        JsonView::Str("space"@),
    ]);
}

} // verus!
