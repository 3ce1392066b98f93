//! JSON-RPC over standard input and output.
//!
//! A request line either gets no reply, or is answered at once, or needs the
//! memory service first. In the last case the step names what to ask of the
//! service and keeps the request's id; one of the `*_reply` functions then makes
//! the reply from what the service said.

use vstd::prelude::*;

use crate::json;
use crate::json::Json;
use crate::text;

verus! {

/// The revision of the Model Context Protocol that the daemon speaks.
pub const PROTOCOL_VERSION: &'static str = "2025-06-18";

/// What `initialize` tells the client to do first.
pub const INSTRUCTIONS: &'static str =
    "MentisDB is an append-only semantic memory server. READ THIS FIRST: call `resources/read` for `mentisdb://skill/core` immediately after initialize to load the embedded MentisDB operating skill.";

/// What every tool's name begins with.
pub const TOOL_PREFIX: &'static str = "mentisdb_";

/// The error code of every error reply.
pub const INTERNAL_ERROR: i64 = -32603;

/// The name under which the service knows the tool that a client calls `name`.
pub open spec fn canonical(name: Seq<char>) -> Seq<char> {
    if TOOL_PREFIX@.is_prefix_of(text::trimmed(name)) {
        text::trimmed(name)
    } else {
        TOOL_PREFIX@ + text::trimmed(name)
    }
}

/// The name under which the service knows the tool that a client calls `name`:
/// without the white space around it, and with the prefix `mentisdb_`.
pub fn canonical_tool_name(name: &str) -> (tool: String)
    ensures
        tool@ == canonical(name@),
{
    let name = text::trim(name);
    if text::starts_with(name, TOOL_PREFIX) {
        return name.to_owned();
    }
    let mut tool = TOOL_PREFIX.to_owned();
    tool.append(name);
    tool
}

/// A tool as the service describes it.
pub struct ToolDefinition {
    pub name: String,
    pub description: String,
    pub parameters_schema: serde_json::Value,
}

/// What running a tool gave.
pub struct ToolResult {
    pub success: bool,
    pub output: serde_json::Value,
}

/// What a request asks for.
pub struct Rpc {
    pub id: Json,
    pub method: Seq<char>,
    pub params: Json,
}

/// The request that a JSON value is; `None` where it is none, or expects no reply.
pub open spec fn rpc_of(request: Json) -> Option<Rpc> {
    match (
        text_member(request, "jsonrpc"@),
        json::member(request, "id"@),
        text_member(request, "method"@),
    ) {
        (Some(version), Some(id), Some(method)) => if version == "2.0"@ {
            Some(Rpc { id, method, params: params_of(request) })
        } else {
            None
        },
        _ => None,
    }
}

/// The member `key` of a value, where it is a string.
pub open spec fn text_member(value: Json, key: Seq<char>) -> Option<Seq<char>> {
    match json::member(value, key) {
        Some(found) => json::text_of(found),
        None => None,
    }
}

/// The member `key` of a value, where it is a string, and else the empty text.
pub open spec fn text_param(value: Json, key: Seq<char>) -> Seq<char> {
    match text_member(value, key) {
        Some(text) => text,
        None => Seq::empty(),
    }
}

/// The parameters of a request, and `null` where it has none.
pub open spec fn params_of(request: Json) -> Json {
    match json::member(request, "params"@) {
        Some(params) => params,
        None => Json::Null,
    }
}

/// The arguments for a tool, and the empty object where the parameters have none.
pub open spec fn arguments_of(params: Json) -> Json {
    match json::member(params, "arguments"@) {
        Some(arguments) => arguments,
        None => Json::Obj(json::no_members()),
    }
}

/// What a request line leads to.
pub enum Plan {
    Silent,
    Reply(Seq<char>),
    ListTools { id: Json },
    CallTool { id: Json, tool: Seq<char>, arguments: Json },
    ListResources { id: Json },
    ReadResource { id: Json, uri: Seq<char> },
}

/// The reply that carries a result.
pub open spec fn answer(id: Json, result: Json) -> Json {
    Json::Obj(map!["jsonrpc"@ => Json::Str("2.0"@), "id"@ => id, "result"@ => result])
}

/// The reply that carries an error.
pub open spec fn refusal(id: Json, message: Seq<char>) -> Json {
    Json::Obj(
        map![
            "jsonrpc"@ => Json::Str("2.0"@),
            "id"@ => id,
            "error"@ => Json::Obj(
                map![
                    "code"@ => Json::Num(json::signed_decimal(INTERNAL_ERROR as int)),
                    "message"@ => Json::Str(message),
                ],
            ),
        ],
    )
}

/// The result of `initialize`.
pub open spec fn handshake(version: Seq<char>) -> Json {
    Json::Obj(
        map![
            "protocolVersion"@ => Json::Str(PROTOCOL_VERSION@),
            "capabilities"@ => Json::Obj(
                map![
                    "tools"@ => Json::Obj(map!["listChanged"@ => Json::Bool(false)]),
                    "resources"@ => Json::Obj(
                        map!["subscribe"@ => Json::Bool(false), "listChanged"@ => Json::Bool(false)],
                    ),
                ],
            ),
            "serverInfo"@ => Json::Obj(
                map!["name"@ => Json::Str("mentisdb"@), "version"@ => Json::Str(version)],
            ),
            "instructions"@ => Json::Str(INSTRUCTIONS@),
        ],
    )
}

/// Whether a method needs the memory service.
pub open spec fn is_service_method(method: Seq<char>) -> bool {
    ||| method == "tools/list"@
    ||| method == "tools/call"@
    ||| method == "resources/list"@
    ||| method == "resources/read"@
}

/// The reply to a request that needs no service: `initialize`, `ping`, and any
/// method that the daemon does not have.
pub open spec fn immediate_reply(rpc: Rpc, version: Seq<char>) -> Option<Json> {
    if rpc.method == "initialize"@ {
        Some(answer(rpc.id, handshake(version)))
    } else if rpc.method == "ping"@ {
        Some(answer(rpc.id, Json::Obj(json::no_members())))
    } else if is_service_method(rpc.method) {
        None
    } else {
        Some(refusal(rpc.id, "Method not found: "@ + rpc.method))
    }
}

/// What the request `rpc` leads to, for a daemon of the given version.
pub open spec fn dispatch(rpc: Rpc, version: Seq<char>) -> Plan {
    match immediate_reply(rpc, version) {
        Some(reply) => Plan::Reply(json::json_print(reply)),
        None => if rpc.method == "tools/list"@ {
            Plan::ListTools { id: rpc.id }
        } else if rpc.method == "tools/call"@ {
            Plan::CallTool {
                id: rpc.id,
                tool: canonical(text_param(rpc.params, "name"@)),
                arguments: arguments_of(rpc.params),
            }
        } else if rpc.method == "resources/list"@ {
            Plan::ListResources { id: rpc.id }
        } else {
            Plan::ReadResource { id: rpc.id, uri: text_param(rpc.params, "uri"@) }
        },
    }
}

/// What the JSON value `request` leads to.
pub open spec fn plan(request: Json, version: Seq<char>) -> Plan {
    match rpc_of(request) {
        Some(rpc) => dispatch(rpc, version),
        None => Plan::Silent,
    }
}

/// Whether `reply` is the text of the reply that the request `request` gets at once.
pub open spec fn is_immediate_reply(reply: Seq<char>, request: Json, version: Seq<char>) -> bool {
    rpc_of(request) matches Some(rpc) && immediate_reply(rpc, version) matches Some(content)
        && json::written(reply, content)
}

/// What to do about a request line.
pub enum StdioStep {
    /// Nothing: the line is no request, or one that expects no reply.
    Silent,
    /// Write this reply.
    Reply(String),
    /// Ask the service for its tools.
    ListTools { id: serde_json::Value },
    /// Have the service run a tool.
    CallTool { id: serde_json::Value, tool: String, arguments: serde_json::Value },
    /// Ask the service for its resources.
    ListResources { id: serde_json::Value },
    /// Ask the service for the text of a resource.
    ReadResource { id: serde_json::Value, uri: String },
}

impl View for StdioStep {
    type V = Plan;

    open spec fn view(&self) -> Plan {
        match *self {
            StdioStep::Silent => Plan::Silent,
            StdioStep::Reply(text) => Plan::Reply(text@),
            StdioStep::ListTools { id } => Plan::ListTools { id: json::json_content(id) },
            StdioStep::CallTool { id, tool, arguments } => Plan::CallTool {
                id: json::json_content(id),
                tool: tool@,
                arguments: json::json_content(arguments),
            },
            StdioStep::ListResources { id } => Plan::ListResources { id: json::json_content(id) },
            StdioStep::ReadResource { id, uri } => Plan::ReadResource {
                id: json::json_content(id),
                uri: uri@,
            },
        }
    }
}

/// The reply that carries a result, as text.
pub(crate) fn success_reply(id: serde_json::Value, result: serde_json::Value) -> (reply: String)
    ensures
        json::written(reply@, answer(json::json_content(id), json::json_content(result))),
{
    let mut members = json::new_object();
    json::insert(&mut members, "jsonrpc", json::string("2.0"));
    json::insert(&mut members, "id", id);
    json::insert(&mut members, "result", result);
    json::print(&json::object(members))
}

/// The reply that carries an error, as text.
fn error_reply(id: serde_json::Value, message: &str) -> (reply: String)
    ensures
        json::written(reply@, refusal(json::json_content(id), message@)),
{
    let mut error = json::new_object();
    json::insert(&mut error, "code", json::integer(INTERNAL_ERROR));
    json::insert(&mut error, "message", json::string(message));
    let mut members = json::new_object();
    json::insert(&mut members, "jsonrpc", json::string("2.0"));
    json::insert(&mut members, "id", id);
    json::insert(&mut members, "error", json::object(error));
    json::print(&json::object(members))
}

/// The result of `initialize`.
fn handshake_value(version: &str) -> (result: serde_json::Value)
    ensures
        json::json_content(result) == handshake(version@),
{
    let mut tools = json::new_object();
    json::insert(&mut tools, "listChanged", json::boolean(false));
    let mut resources = json::new_object();
    json::insert(&mut resources, "subscribe", json::boolean(false));
    json::insert(&mut resources, "listChanged", json::boolean(false));
    let mut capabilities = json::new_object();
    json::insert(&mut capabilities, "tools", json::object(tools));
    json::insert(&mut capabilities, "resources", json::object(resources));
    let mut server = json::new_object();
    json::insert(&mut server, "name", json::string("mentisdb"));
    json::insert(&mut server, "version", json::string(version));
    let mut members = json::new_object();
    json::insert(&mut members, "protocolVersion", json::string(PROTOCOL_VERSION));
    json::insert(&mut members, "capabilities", json::object(capabilities));
    json::insert(&mut members, "serverInfo", json::object(server));
    json::insert(&mut members, "instructions", json::string(INSTRUCTIONS));
    json::object(members)
}

/// The member `key` of a value, where it is a string.
pub fn get_text<'a>(value: &'a serde_json::Value, key: &str) -> (found: Option<&'a str>)
    ensures
        match text_member(json::json_content(*value), key@) {
            Some(text) => found is Some && found->Some_0@ == text,
            None => found is None,
        },
{
    match json::get(value, key) {
        Some(member) => json::as_str(member),
        None => None,
    }
}

/// The member `key` of a value, where it is a string, and else the empty text.
pub fn get_text_param<'a>(value: &'a serde_json::Value, key: &str) -> (found: &'a str)
    ensures
        found@ == text_param(json::json_content(*value), key@),
{
    match get_text(value, key) {
        Some(text) => text,
        None => {
            proof {
                reveal_strlit("");
            }
            assert(""@ =~= Seq::empty());
            ""
        },
    }
}

/// The parameters of a request, and `null` where it has none.
pub fn request_params(request: &serde_json::Value) -> (params: serde_json::Value)
    ensures
        json::json_content(params) == params_of(json::json_content(*request)),
{
    match json::get(request, "params") {
        Some(params) => json::copy(params),
        None => json::null(),
    }
}

/// What to do about the request `request`, for a daemon of the given version.
pub fn handle_request(request: &serde_json::Value, version: &str) -> (step: StdioStep)
    ensures
        step@ == plan(json::json_content(*request), version@),
        step matches StdioStep::Reply(reply) ==> is_immediate_reply(
            reply@,
            json::json_content(*request),
            version@,
        ),
{
    let jsonrpc = match get_text(request, "jsonrpc") {
        Some(jsonrpc) => jsonrpc,
        None => return StdioStep::Silent,
    };
    if !text::same_text(jsonrpc, "2.0") {
        return StdioStep::Silent;
    }
    let id = match json::get(request, "id") {
        Some(id) => json::copy(id),
        None => return StdioStep::Silent,
    };
    let method = match get_text(request, "method") {
        Some(method) => method,
        None => return StdioStep::Silent,
    };
    let params = request_params(request);

    if text::same_text(method, "initialize") {
        StdioStep::Reply(success_reply(id, handshake_value(version)))
    } else if text::same_text(method, "ping") {
        StdioStep::Reply(success_reply(id, json::object(json::new_object())))
    } else if text::same_text(method, "tools/list") {
        StdioStep::ListTools { id }
    } else if text::same_text(method, "tools/call") {
        let tool = canonical_tool_name(get_text_param(&params, "name"));
        let arguments = match json::get(&params, "arguments") {
            Some(arguments) => json::copy(arguments),
            None => json::object(json::new_object()),
        };
        StdioStep::CallTool { id, tool, arguments }
    } else if text::same_text(method, "resources/list") {
        StdioStep::ListResources { id }
    } else if text::same_text(method, "resources/read") {
        StdioStep::ReadResource { id, uri: get_text_param(&params, "uri").to_owned() }
    } else {
        let mut message = "Method not found: ".to_owned();
        message.append(method);
        StdioStep::Reply(error_reply(id, message.as_str()))
    }
}

/// What to do about a request line, for a daemon of the given version. A line
/// that is not JSON gets no reply.
pub fn handle_stdio_jsonrpc(line: &str, version: &str) -> (step: StdioStep)
    ensures
        step@ == match json::json_parse(line@) {
            Some(request) => plan(request, version@),
            None => Plan::Silent,
        },
        step matches StdioStep::Reply(reply) ==> json::json_parse(line@) matches Some(request)
            && is_immediate_reply(reply@, request, version@),
{
    match json::parse(line) {
        Ok(request) => handle_request(&request, version),
        Err(_) => StdioStep::Silent,
    }
}

/// How a tool is listed.
pub open spec fn tool_entry(tool: ToolDefinition) -> Json {
    Json::Obj(
        map![
            "name"@ => Json::Str(tool.name@),
            "description"@ => Json::Str(tool.description@),
            "inputSchema"@ => json::json_content(tool.parameters_schema),
        ],
    )
}

/// The result of `tools/list`.
pub open spec fn tool_listing(tools: Seq<ToolDefinition>) -> Json {
    Json::Obj(
        map!["tools"@ => Json::Arr(tools.map_values(|tool: ToolDefinition| tool_entry(tool)))],
    )
}

/// The reply to `tools/list`, from the tools that the service gave or the error
/// that it failed with.
pub fn tools_list_reply(
    id: serde_json::Value,
    outcome: Result<Vec<ToolDefinition>, String>,
) -> (reply: String)
    ensures
        json::written(
            reply@,
            match outcome {
                Ok(tools) => answer(json::json_content(id), tool_listing(tools@)),
                Err(message) => refusal(json::json_content(id), message@),
            },
        ),
{
    let tools = match outcome {
        Ok(tools) => tools,
        Err(message) => return error_reply(id, message.as_str()),
    };
    let mut entries: Vec<serde_json::Value> = Vec::new();
    for i in 0..tools.len()
        invariant
            json::contents(entries@) == tools@.take(i as int).map_values(
                |tool: ToolDefinition| tool_entry(tool),
            ),
    {
        let mut members = json::new_object();
        json::insert(&mut members, "name", json::string(tools[i].name.as_str()));
        json::insert(&mut members, "description", json::string(tools[i].description.as_str()));
        json::insert(&mut members, "inputSchema", json::copy(&tools[i].parameters_schema));
        let entry = json::object(members);
        let ghost before = json::contents(entries@);
        entries.push(entry);
        assert(json::contents(entries@) =~= before.push(tool_entry(tools@[i as int])));
        assert(tools@.take(i + 1) =~= tools@.take(i as int).push(tools@[i as int]));
        assert(json::contents(entries@) =~= tools@.take(i + 1).map_values(
            |tool: ToolDefinition| tool_entry(tool),
        ));
    }
    assert(tools@.take(tools@.len() as int) =~= tools@);
    let mut members = json::new_object();
    json::insert(&mut members, "tools", json::array(entries));
    success_reply(id, json::object(members))
}

/// The text that stands for a tool's output: a string as it is, any other value
/// as JSON.
pub open spec fn output_text(output: Json) -> Seq<char> {
    match json::text_of(output) {
        Some(text) => text,
        None => json::json_print(output),
    }
}

/// The result of `tools/call`.
pub open spec fn call_result(result: ToolResult) -> Json {
    Json::Obj(
        map![
            "content"@ => Json::Arr(
                seq![
                    Json::Obj(
                        map![
                            "type"@ => Json::Str("text"@),
                            "text"@ => Json::Str(output_text(json::json_content(result.output))),
                        ],
                    ),
                ],
            ),
            "isError"@ => Json::Bool(!result.success),
        ],
    )
}

/// The reply to `tools/call`, from what running the tool gave or the error that
/// the service failed with.
pub fn tools_call_reply(id: serde_json::Value, outcome: Result<ToolResult, String>) -> (reply:
    String)
    ensures
        json::written(
            reply@,
            match outcome {
                Ok(result) => answer(json::json_content(id), call_result(result)),
                Err(message) => refusal(json::json_content(id), message@),
            },
        ),
{
    let result = match outcome {
        Ok(result) => result,
        Err(message) => return error_reply(id, message.as_str()),
    };
    let text = match json::as_str(&result.output) {
        Some(text) => text.to_owned(),
        None => json::print(&result.output),
    };
    let mut block = json::new_object();
    json::insert(&mut block, "type", json::string("text"));
    json::insert(&mut block, "text", json::string(text.as_str()));
    let mut blocks: Vec<serde_json::Value> = Vec::new();
    blocks.push(json::object(block));
    assert(json::contents(blocks@) =~= seq![json::json_content(blocks@[0])]);
    let mut members = json::new_object();
    json::insert(&mut members, "content", json::array(blocks));
    json::insert(&mut members, "isError", json::boolean(!result.success));
    success_reply(id, json::object(members))
}

/// The result of `resources/list`.
pub open spec fn resource_listing(resources: Seq<serde_json::Value>) -> Json {
    Json::Obj(map!["resources"@ => Json::Arr(json::contents(resources))])
}

/// The reply to `resources/list`, from the resources that the service gave, each
/// as JSON, or the error that it failed with.
pub fn resources_list_reply(
    id: serde_json::Value,
    outcome: Result<Vec<serde_json::Value>, String>,
) -> (reply: String)
    ensures
        json::written(
            reply@,
            match outcome {
                Ok(resources) => answer(json::json_content(id), resource_listing(resources@)),
                Err(message) => refusal(json::json_content(id), message@),
            },
        ),
{
    match outcome {
        Ok(resources) => {
            let mut members = json::new_object();
            json::insert(&mut members, "resources", json::array(resources));
            success_reply(id, json::object(members))
        },
        Err(message) => error_reply(id, message.as_str()),
    }
}

/// The result of `resources/read`.
pub open spec fn resource_text(uri: Seq<char>, text: Seq<char>) -> Json {
    Json::Obj(
        map![
            "contents"@ => Json::Arr(
                seq![Json::Obj(map!["uri"@ => Json::Str(uri), "text"@ => Json::Str(text)])],
            ),
        ],
    )
}

/// The reply to `resources/read`, from the text that the service gave or the
/// error that it failed with.
pub fn resources_read_reply(
    id: serde_json::Value,
    uri: &str,
    outcome: Result<String, String>,
) -> (reply: String)
    ensures
        json::written(
            reply@,
            match outcome {
                Ok(text) => answer(json::json_content(id), resource_text(uri@, text@)),
                Err(message) => refusal(json::json_content(id), message@),
            },
        ),
{
    match outcome {
        Ok(text) => {
            let mut entry = json::new_object();
            json::insert(&mut entry, "uri", json::string(uri));
            json::insert(&mut entry, "text", json::string(text.as_str()));
            let mut entries: Vec<serde_json::Value> = Vec::new();
            entries.push(json::object(entry));
            assert(json::contents(entries@) =~= seq![json::json_content(entries@[0])]);
            let mut members = json::new_object();
            json::insert(&mut members, "contents", json::array(entries));
            success_reply(id, json::object(members))
        },
        Err(message) => error_reply(id, message.as_str()),
    }
}

/// What the service said, or that it was not asked.
pub enum ServiceOutcome {
    NotAsked,
    Tools(Result<Vec<ToolDefinition>, String>),
    Tool(Result<ToolResult, String>),
    Resources(Result<Vec<serde_json::Value>, String>),
    Resource(Result<String, String>),
}

/// Whether `outcome` is what the service can say where `plan` was followed.
pub open spec fn fits(plan: Plan, outcome: ServiceOutcome) -> bool {
    match plan {
        Plan::Silent => outcome is NotAsked,
        Plan::Reply(_) => outcome is NotAsked,
        Plan::ListTools { .. } => outcome is Tools,
        Plan::CallTool { .. } => outcome is Tool,
        Plan::ListResources { .. } => outcome is Resources,
        Plan::ReadResource { .. } => outcome is Resource,
    }
}

/// The reply to a request that needs the service, by what the service said.
pub open spec fn service_reply(plan: Plan, outcome: ServiceOutcome) -> Option<Json> {
    match (plan, outcome) {
        (Plan::ListTools { id }, ServiceOutcome::Tools(said)) => Some(
            match said {
                Ok(tools) => answer(id, tool_listing(tools@)),
                Err(message) => refusal(id, message@),
            },
        ),
        (Plan::CallTool { id, .. }, ServiceOutcome::Tool(said)) => Some(
            match said {
                Ok(result) => answer(id, call_result(result)),
                Err(message) => refusal(id, message@),
            },
        ),
        (Plan::ListResources { id }, ServiceOutcome::Resources(said)) => Some(
            match said {
                Ok(resources) => answer(id, resource_listing(resources@)),
                Err(message) => refusal(id, message@),
            },
        ),
        (Plan::ReadResource { id, uri }, ServiceOutcome::Resource(said)) => Some(
            match said {
                Ok(text) => answer(id, resource_text(uri, text@)),
                Err(message) => refusal(id, message@),
            },
        ),
        _ => None,
    }
}

/// The text of the reply that following `plan` ends with.
pub open spec fn final_reply(plan: Plan, outcome: ServiceOutcome) -> Option<Seq<char>> {
    match plan {
        Plan::Reply(reply) => Some(reply),
        _ => match service_reply(plan, outcome) {
            Some(content) => Some(json::json_print(content)),
            None => None,
        },
    }
}

/// The reply that a step ends with, by what the service said; `None` where there is
/// none to write. What the service says to another question than the step's is no
/// reply to it.
pub fn reply_to_step(step: StdioStep, outcome: ServiceOutcome) -> (reply: Option<String>)
    ensures
        match final_reply(step@, outcome) {
            Some(expected) => reply is Some && reply->Some_0@ == expected,
            None => reply is None,
        },
        service_reply(step@, outcome) matches Some(content) ==> json::written(
            reply->Some_0@,
            content,
        ),
{
    match (step, outcome) {
        (StdioStep::Reply(reply), _) => Some(reply),
        (StdioStep::ListTools { id }, ServiceOutcome::Tools(said)) => Some(
            tools_list_reply(id, said),
        ),
        (StdioStep::CallTool { id, .. }, ServiceOutcome::Tool(said)) => Some(
            tools_call_reply(id, said),
        ),
        (StdioStep::ListResources { id }, ServiceOutcome::Resources(said)) => Some(
            resources_list_reply(id, said),
        ),
        (StdioStep::ReadResource { id, uri }, ServiceOutcome::Resource(said)) => Some(
            resources_read_reply(id, uri.as_str(), said),
        ),
        _ => None,
    }
}

/// Every request gets a reply, whatever the service says to what it is asked, and
/// nothing else does.
pub proof fn law_every_request_gets_a_reply(
    request: Json,
    version: Seq<char>,
    outcome: ServiceOutcome,
)
    requires
        fits(plan(request, version), outcome),
    ensures
        final_reply(plan(request, version), outcome) is Some <==> rpc_of(request) is Some,
{
}

/// The id that a step keeps until the service has spoken.
pub open spec fn pending_id(plan: Plan) -> Option<Json> {
    match plan {
        Plan::Silent => None,
        Plan::Reply(_) => None,
        Plan::ListTools { id } => Some(id),
        Plan::CallTool { id, .. } => Some(id),
        Plan::ListResources { id } => Some(id),
        Plan::ReadResource { id, .. } => Some(id),
    }
}

/// A tool's canonical name always has the prefix.
pub proof fn law_canonical_name_is_prefixed(name: Seq<char>)
    ensures
        TOOL_PREFIX@.is_prefix_of(canonical(name)),
{
    assert((TOOL_PREFIX@ + text::trimmed(name)).subrange(0, TOOL_PREFIX@.len() as int)
        =~= TOOL_PREFIX@);
}

/// A canonical name is its own canonical name.
pub proof fn law_canonical_name_is_stable(name: Seq<char>)
    ensures
        canonical(canonical(name)) == canonical(name),
{
    law_canonical_name_is_prefixed(name);
    text::lemma_trimmed_ends(name);
    reveal_strlit("mentisdb_");
    let tool = canonical(name);
    assert(tool.first() == 'm' && !text::is_white_space(tool.last())) by {
        assert(TOOL_PREFIX@.first() == 'm' && TOOL_PREFIX@.last() == '_');
        if TOOL_PREFIX@.is_prefix_of(text::trimmed(name)) {
            assert(tool.subrange(0, TOOL_PREFIX@.len() as int)[0] == tool[0]);
        }
    }
    text::lemma_trimmed_fixed(tool);
}

/// White space around a tool's name makes no difference.
pub proof fn law_canonical_name_ignores_outer_space(name: Seq<char>)
    ensures
        canonical(text::trimmed(name)) == canonical(name),
{
    text::lemma_trimmed_ends(name);
    text::lemma_trimmed_fixed(text::trimmed(name));
}

/// A reply with a result carries the protocol's version, the id it was made with
/// and the result, and no error.
pub proof fn law_answer_members(id: Json, result: Json)
    ensures
        json::member(answer(id, result), "jsonrpc"@) == Some(Json::Str("2.0"@)),
        json::member(answer(id, result), "id"@) == Some(id),
        json::member(answer(id, result), "result"@) == Some(result),
        json::member(answer(id, result), "error"@) is None,
{
    lemma_member_names_differ();
}

/// A reply with an error carries the protocol's version, the id it was made with,
/// the code of internal errors and the message, and no result.
pub proof fn law_refusal_members(id: Json, message: Seq<char>)
    ensures
        json::member(refusal(id, message), "jsonrpc"@) == Some(Json::Str("2.0"@)),
        json::member(refusal(id, message), "id"@) == Some(id),
        json::member(refusal(id, message), "result"@) is None,
        json::member(refusal(id, message), "error"@) matches Some(error) && {
            &&& json::member(error, "code"@) == Some(Json::Num(json::signed_decimal(-32603)))
            &&& json::member(error, "message"@) == Some(Json::Str(message))
        },
{
    lemma_member_names_differ();
}

proof fn lemma_member_names_differ()
    ensures
        "jsonrpc"@ != "id"@,
        "jsonrpc"@ != "result"@,
        "jsonrpc"@ != "error"@,
        "id"@ != "result"@,
        "id"@ != "error"@,
        "result"@ != "error"@,
        "code"@ != "message"@,
{
    reveal_strlit("jsonrpc");
    reveal_strlit("id");
    reveal_strlit("result");
    reveal_strlit("error");
    reveal_strlit("code");
    reveal_strlit("message");
    assert("jsonrpc"@.len() == 7 && "id"@.len() == 2 && "result"@.len() == 6 && "error"@.len()
        == 5 && "code"@.len() == 4 && "message"@.len() == 7);
}

/// A value gets a reply exactly where it is a request: a JSON-RPC 2.0 object with
/// an id and a method. A notification, which has no id, gets none.
pub proof fn law_only_requests_are_answered(request: Json, version: Seq<char>)
    ensures
        plan(request, version) is Silent <==> rpc_of(request) is None,
        json::member(request, "id"@) is None ==> plan(request, version) is Silent,
{
}

/// What waits for the service is replied to under the id of the request.
pub proof fn law_pending_step_keeps_id(request: Json, version: Seq<char>)
    ensures
        pending_id(plan(request, version)) matches Some(id) ==> json::member(request, "id"@)
            == Some(id),
{
}

/// What is answered at once is answered under the id of the request, with a
/// result for the methods that need no service and with an error for any method
/// that the daemon does not have.
pub proof fn law_immediate_reply_keeps_id(request: Json, version: Seq<char>)
    requires
        plan(request, version) is Reply,
    ensures
        ({
            let id = json::member(request, "id"@)->Some_0;
            let method = text_member(request, "method"@)->Some_0;
            let reply = plan(request, version)->Reply_0;
            &&& json::member(request, "id"@) is Some
            &&& text_member(request, "method"@) is Some
            &&& if method == "initialize"@ {
                reply == json::json_print(answer(id, handshake(version)))
            } else if method == "ping"@ {
                reply == json::json_print(answer(id, Json::Obj(json::no_members())))
            } else {
                reply == json::json_print(refusal(id, "Method not found: "@ + method))
            }
        }),
{
}

/// Every tool that the service is told to run is named with the prefix.
pub proof fn law_called_tool_is_prefixed(request: Json, version: Seq<char>)
    ensures
        plan(request, version) matches Plan::CallTool { tool, .. } ==> TOOL_PREFIX@.is_prefix_of(
            tool,
        ),
{
    if let Some(rpc) = rpc_of(request) {
        law_canonical_name_is_prefixed(text_param(rpc.params, "name"@));
    }
}

/// A reply with a result is plain where its id and its result are.
pub proof fn law_answer_is_plain(id: Json, result: Json, depth: nat)
    requires
        json::plain(id, depth),
        json::plain(result, depth),
    ensures
        json::plain(answer(id, result), depth + 1),
{
    let members = answer(id, result)->Obj_0;
    assert forall|key: Seq<char>| #[trigger] members.contains_key(key) implies json::plain(
        members[key],
        depth,
    ) by {
        lemma_member_names_differ();
    }
}

/// A reply with an error is plain where its id is.
pub proof fn law_refusal_is_plain(id: Json, message: Seq<char>, depth: nat)
    requires
        json::plain(id, depth),
        depth > 0,
    ensures
        json::plain(refusal(id, message), depth + 1),
{
    lemma_member_names_differ();
    text::lemma_decimal_digits(32603);
    let code = json::signed_decimal(-32603);
    assert(code =~= seq!['-'] + text::decimal(32603));
    assert forall|i: int| 0 <= i < code.len() implies code[i] != '.' && code[i] != 'e' by {
        if i > 0 {
            assert(code[i] == text::decimal(32603)[i - 1]);
        }
    }
    let error = refusal(id, message)->Obj_0["error"@]->Obj_0;
    assert forall|key: Seq<char>| #[trigger] error.contains_key(key) implies json::plain(
        error[key],
        (depth - 1) as nat,
    ) by {}
    let members = refusal(id, message)->Obj_0;
    assert forall|key: Seq<char>| #[trigger] members.contains_key(key) implies json::plain(
        members[key],
        depth,
    ) by {}
}

proof fn lemma_handshake_is_plain(version: Seq<char>, depth: nat)
    requires
        depth >= 3,
    ensures
        json::plain(handshake(version), depth),
{
    reveal_with_fuel(json::plain, 4);
}

/// The reply that a request gets at once is plain where the request's id is: it is
/// then read back, from the line that it is written as, as what it was made of.
pub proof fn law_immediate_reply_is_plain(rpc: Rpc, version: Seq<char>)
    requires
        json::plain(rpc.id, (json::max_depth() - 1) as nat),
    ensures
        immediate_reply(rpc, version) matches Some(reply) ==> json::plain(reply, json::max_depth()),
{
    let depth = (json::max_depth() - 1) as nat;
    lemma_handshake_is_plain(version, depth);
    assert(json::plain(Json::Obj(json::no_members()), depth));
    law_answer_is_plain(rpc.id, handshake(version), depth);
    law_answer_is_plain(rpc.id, Json::Obj(json::no_members()), depth);
    law_refusal_is_plain(rpc.id, "Method not found: "@ + rpc.method, depth);
}

/// The reply to a tool call is plain where the request's id is, whatever the tool put
/// out: its output is carried as text.
pub proof fn law_tool_reply_is_plain(id: Json, result: ToolResult)
    requires
        json::plain(id, (json::max_depth() - 1) as nat),
    ensures
        json::plain(answer(id, call_result(result)), json::max_depth()),
{
    let depth = (json::max_depth() - 1) as nat;
    assert(json::plain(call_result(result), depth)) by {
        reveal_with_fuel(json::plain, 4);
    }
    law_answer_is_plain(id, call_result(result), depth);
}

/// The reply with the text of a resource is plain where the request's id is.
pub proof fn law_resource_reply_is_plain(id: Json, uri: Seq<char>, text: Seq<char>)
    requires
        json::plain(id, (json::max_depth() - 1) as nat),
    ensures
        json::plain(answer(id, resource_text(uri, text)), json::max_depth()),
{
    let depth = (json::max_depth() - 1) as nat;
    assert(json::plain(resource_text(uri, text), depth)) by {
        reveal_with_fuel(json::plain, 4);
    }
    law_answer_is_plain(id, resource_text(uri, text), depth);
}

/// The reply that lists the tools is plain where the request's id is and the schemas
/// of the tools are, at depths that leave room for what they stand in.
pub proof fn law_tool_listing_reply_is_plain(id: Json, tools: Seq<ToolDefinition>)
    requires
        json::plain(id, (json::max_depth() - 1) as nat),
        forall|i: int|
            0 <= i < tools.len() ==> json::plain(
                json::json_content((#[trigger] tools[i]).parameters_schema),
                (json::max_depth() - 4) as nat,
            ),
    ensures
        json::plain(answer(id, tool_listing(tools)), json::max_depth()),
{
    let depth = json::max_depth();
    let entries = tools.map_values(|tool: ToolDefinition| tool_entry(tool));
    assert forall|i: int| 0 <= i < entries.len() implies json::plain(
        #[trigger] entries[i],
        (depth - 3) as nat,
    ) by {
        let members = tool_entry(tools[i])->Obj_0;
        assert(entries[i] == Json::Obj(members));
        assert forall|key: Seq<char>| #[trigger] members.contains_key(key) implies json::plain(
            members[key],
            (depth - 4) as nat,
        ) by {
            assert(json::plain(json::json_content(tools[i].parameters_schema), (depth - 4) as nat));
        }
    }
    assert(json::plain(Json::Arr(entries), (depth - 2) as nat));
    let members = tool_listing(tools)->Obj_0;
    assert forall|key: Seq<char>| #[trigger] members.contains_key(key) implies json::plain(
        members[key],
        (depth - 2) as nat,
    ) by {}
    assert(json::plain(tool_listing(tools), (depth - 1) as nat));
    law_answer_is_plain(id, tool_listing(tools), (depth - 1) as nat);
}

/// The reply that lists the resources is plain where the request's id is and the
/// resources are, at depths that leave room for what they stand in.
pub proof fn law_resource_listing_reply_is_plain(id: Json, resources: Seq<serde_json::Value>)
    requires
        json::plain(id, (json::max_depth() - 1) as nat),
        forall|i: int|
            0 <= i < resources.len() ==> json::plain(
                json::json_content(#[trigger] resources[i]),
                (json::max_depth() - 3) as nat,
            ),
    ensures
        json::plain(answer(id, resource_listing(resources)), json::max_depth()),
{
    let depth = json::max_depth();
    let entries = json::contents(resources);
    assert forall|i: int| 0 <= i < entries.len() implies json::plain(
        #[trigger] entries[i],
        (depth - 3) as nat,
    ) by {
        assert(entries[i] == json::json_content(resources[i]));
    }
    assert(json::plain(Json::Arr(entries), (depth - 2) as nat));
    let members = resource_listing(resources)->Obj_0;
    assert forall|key: Seq<char>| #[trigger] members.contains_key(key) implies json::plain(
        members[key],
        (depth - 2) as nat,
    ) by {}
    assert(json::plain(resource_listing(resources), (depth - 1) as nat));
    law_answer_is_plain(id, resource_listing(resources), (depth - 1) as nat);
}

/// A canonical name is the name without the white space around it, with the prefix before
/// it where it does not begin with that, and with nothing else changed.
pub proof fn law_canonical_name_keeps_the_name(name: Seq<char>)
    ensures
        (exists|rest: Seq<char>| text::trimmed(name) == #[trigger] ("mentisdb_"@ + rest))
            ==> canonical(name) == text::trimmed(name),
        !(exists|rest: Seq<char>| text::trimmed(name) == #[trigger] ("mentisdb_"@ + rest))
            ==> canonical(name) == "mentisdb_"@ + text::trimmed(name),
{
    let bare = text::trimmed(name);
    let prefix = "mentisdb_"@;
    if exists|rest: Seq<char>| bare == #[trigger] (prefix + rest) {
        let rest = choose|rest: Seq<char>| bare == #[trigger] (prefix + rest);
        assert(bare.subrange(0, prefix.len() as int) =~= prefix);
    }
    if prefix.is_prefix_of(bare) {
        let rest = bare.skip(prefix.len() as int);
        assert(bare =~= prefix + rest) by {
            assert(bare.subrange(0, prefix.len() as int) =~= prefix);
            assert forall|i: int| 0 <= i < bare.len() implies bare[i] == (prefix + rest)[i] by {
                if i < prefix.len() {
                    assert(bare.subrange(0, prefix.len() as int)[i] == bare[i]);
                }
            }
        }
    }
}

proof fn lemma_methods_differ()
    ensures
        "initialize"@ != "ping"@,
        "initialize"@ != "tools/list"@,
        "initialize"@ != "tools/call"@,
        "initialize"@ != "resources/list"@,
        "initialize"@ != "resources/read"@,
        "ping"@ != "tools/list"@,
        "ping"@ != "tools/call"@,
        "ping"@ != "resources/list"@,
        "ping"@ != "resources/read"@,
        "tools/list"@ != "tools/call"@,
        "tools/list"@ != "resources/list"@,
        "tools/list"@ != "resources/read"@,
        "tools/call"@ != "resources/list"@,
        "tools/call"@ != "resources/read"@,
        "resources/list"@ != "resources/read"@,
{
    reveal_strlit("initialize");
    reveal_strlit("ping");
    reveal_strlit("tools/list");
    reveal_strlit("tools/call");
    reveal_strlit("resources/list");
    reveal_strlit("resources/read");
    assert("ping"@.len() == 4 && "initialize"@.len() == 10 && "tools/list"@.len() == 10
        && "tools/call"@.len() == 10 && "resources/list"@.len() == 14 && "resources/read"@.len()
        == 14);
    assert("initialize"@[0] == 'i' && "tools/list"@[0] == 't' && "tools/call"@[0] == 't');
    assert("tools/list"@[6] == 'l' && "tools/call"@[6] == 'c');
    assert("resources/list"@[10] == 'l' && "resources/read"@[10] == 'r');
}

/// An object with the right version, an id and a method is a request, and it leads, by its
/// method, to a question to the service or to a reply, under its own id. A method that the
/// daemon does not have leads to an error that names it.
pub proof fn law_method_decides(members: Map<Seq<char>, Json>, method: Seq<char>, version: Seq<char>)
    requires
        members.contains_key("jsonrpc"@),
        members["jsonrpc"@] == Json::Str("2.0"@),
        members.contains_key("id"@),
        members.contains_key("method"@),
        members["method"@] == Json::Str(method),
    ensures
        ({
            let id = members["id"@];
            let next = plan(Json::Obj(members), version);
            &&& method == "tools/list"@ ==> next == Plan::ListTools { id }
            &&& method == "tools/call"@ ==> (next matches Plan::CallTool { id: kept, .. } && kept
                == id)
            &&& method == "resources/list"@ ==> next == Plan::ListResources { id }
            &&& method == "resources/read"@ ==> (next matches Plan::ReadResource { id: kept, .. }
                && kept == id)
            &&& method == "initialize"@ ==> next == Plan::Reply(
                json::json_print(answer(id, handshake(version))),
            )
            &&& method == "ping"@ ==> next == Plan::Reply(
                json::json_print(answer(id, Json::Obj(Map::empty()))),
            )
            &&& method != "tools/list"@ && method != "tools/call"@ && method != "resources/list"@
                && method != "resources/read"@ && method != "initialize"@ && method != "ping"@
                ==> next == Plan::Reply(
                json::json_print(refusal(id, "Method not found: "@ + method)),
            )
        }),
{
    lemma_methods_differ();
}

/// What is no object, or lacks an id, or has no string for the right version or for a
/// method, leads to nothing, and nothing else does.
pub proof fn law_only_requests_lead_to_something(request: Json, version: Seq<char>)
    ensures
        plan(request, version) !is Silent <==> (request matches Json::Obj(members) && {
            &&& members.contains_key("jsonrpc"@)
            &&& members["jsonrpc"@] == Json::Str("2.0"@)
            &&& members.contains_key("id"@)
            &&& members.contains_key("method"@)
            &&& members["method"@] is Str
        }),
{
}

/// A tool is called by the canonical form of the name that the parameters give, and with
/// the arguments that they give, unchanged. Without a name that is a string, the name is
/// empty, and without arguments, they are the empty object.
pub proof fn law_tool_call_keeps_its_parameters(members: Map<Seq<char>, Json>, version: Seq<char>)
    requires
        plan(Json::Obj(members), version) is CallTool,
    ensures
        ({
            let tool = plan(Json::Obj(members), version)->tool;
            let arguments = plan(Json::Obj(members), version)->arguments;
            let params = members["params"@];
            let given = members.contains_key("params"@) && params is Obj;
            let named = given && params->Obj_0.contains_key("name"@) && params->Obj_0["name"@]
                is Str;
            &&& named ==> tool == canonical(params->Obj_0["name"@]->Str_0)
            &&& !named ==> tool == "mentisdb_"@
            &&& given && params->Obj_0.contains_key("arguments"@) ==> arguments
                == params->Obj_0["arguments"@]
            &&& !(given && params->Obj_0.contains_key("arguments"@)) ==> arguments == Json::Obj(
                Map::empty(),
            )
        }),
{
    let nothing = Seq::<char>::empty();
    text::lemma_trimmed_fixed(nothing);
    reveal_strlit("mentisdb_");
    assert(TOOL_PREFIX@.len() == 9);
    assert(TOOL_PREFIX@ + nothing =~= TOOL_PREFIX@);
    assert(!TOOL_PREFIX@.is_prefix_of(nothing));
}

/// A resource is read by the address that the parameters give, unchanged, and by the empty
/// one where they give no string.
pub proof fn law_resource_read_keeps_its_address(members: Map<Seq<char>, Json>, version: Seq<char>)
    requires
        plan(Json::Obj(members), version) is ReadResource,
    ensures
        ({
            let uri = plan(Json::Obj(members), version)->uri;
            let params = members["params"@];
            let given = members.contains_key("params"@) && params is Obj
                && params->Obj_0.contains_key("uri"@) && params->Obj_0["uri"@] is Str;
            &&& given ==> uri == params->Obj_0["uri"@]->Str_0
            &&& !given ==> uri.len() == 0
        }),
{
}

/// A reply with a result has these three members, and no other.
pub proof fn law_answer_is_made_of_three(id: Json, result: Json)
    ensures
        answer(id, result) matches Json::Obj(members) && {
            &&& members.dom() == set!["jsonrpc"@, "id"@, "result"@]
            &&& members["jsonrpc"@] == Json::Str("2.0"@)
            &&& members["id"@] == id
            &&& members["result"@] == result
        },
{
    lemma_member_names_differ();
    assert(answer(id, result)->Obj_0.dom() =~= set!["jsonrpc"@, "id"@, "result"@]);
}

proof fn lemma_error_code()
    ensures
        json::signed_decimal(-32603) == "-32603"@,
{
    reveal_strlit("-32603");
    reveal_with_fuel(text::decimal, 5);
    assert(text::decimal(3) =~= seq!['3']);
    assert(text::decimal(32) =~= seq!['3', '2']);
    assert(text::decimal(326) =~= seq!['3', '2', '6']);
    assert(text::decimal(3260) =~= seq!['3', '2', '6', '0']);
    assert(text::decimal(32603) =~= seq!['3', '2', '6', '0', '3']);
    assert(json::signed_decimal(-32603) =~= "-32603"@);
}

/// A reply with an error has these three members, and its error these two, and no other.
/// The message is carried unchanged.
pub proof fn law_refusal_is_made_of_three(id: Json, message: Seq<char>)
    ensures
        refusal(id, message) matches Json::Obj(members) && {
            &&& members.dom() == set!["jsonrpc"@, "id"@, "error"@]
            &&& members["jsonrpc"@] == Json::Str("2.0"@)
            &&& members["id"@] == id
            &&& members["error"@] matches Json::Obj(error)
            &&& error.dom() == set!["code"@, "message"@]
            &&& error["code"@] == Json::Num("-32603"@)
            &&& error["message"@] == Json::Str(message)
        },
{
    lemma_member_names_differ();
    lemma_error_code();
    let members = refusal(id, message)->Obj_0;
    assert(members.dom() =~= set!["jsonrpc"@, "id"@, "error"@]);
    assert(members["error"@]->Obj_0.dom() =~= set!["code"@, "message"@]);
}

/// `initialize` is answered with the protocol's revision, what the server can do, its name
/// and version, and what to do first.
pub proof fn law_handshake_introduces_the_server(version: Seq<char>)
    ensures
        handshake(version) matches Json::Obj(members) && {
            &&& members.dom() == set![
                "protocolVersion"@,
                "capabilities"@,
                "serverInfo"@,
                "instructions"@,
            ]
            &&& members["protocolVersion"@] == Json::Str("2025-06-18"@)
            &&& members["instructions"@] == Json::Str(
                "MentisDB is an append-only semantic memory server. READ THIS FIRST: call `resources/read` for `mentisdb://skill/core` immediately after initialize to load the embedded MentisDB operating skill."@,
            )
            &&& members["serverInfo"@] matches Json::Obj(server)
            &&& server.dom() == set!["name"@, "version"@]
            &&& server["name"@] == Json::Str("mentisdb"@)
            &&& server["version"@] == Json::Str(version)
            &&& members["capabilities"@] matches Json::Obj(capabilities)
            &&& capabilities.dom() == set!["tools"@, "resources"@]
            &&& capabilities["tools"@] matches Json::Obj(tools)
            &&& tools.dom() == set!["listChanged"@]
            &&& tools["listChanged"@] == Json::Bool(false)
            &&& capabilities["resources"@] matches Json::Obj(resources)
            &&& resources.dom() == set!["subscribe"@, "listChanged"@]
            &&& resources["subscribe"@] == Json::Bool(false)
            &&& resources["listChanged"@] == Json::Bool(false)
        },
{
    reveal_strlit("protocolVersion");
    reveal_strlit("capabilities");
    reveal_strlit("serverInfo");
    reveal_strlit("instructions");
    reveal_strlit("name");
    reveal_strlit("version");
    reveal_strlit("tools");
    reveal_strlit("resources");
    reveal_strlit("subscribe");
    reveal_strlit("listChanged");
    assert("protocolVersion"@.len() == 15 && "capabilities"@.len() == 12 && "serverInfo"@.len()
        == 10 && "instructions"@.len() == 12);
    assert("capabilities"@[0] == 'c' && "instructions"@[0] == 'i');
    assert("name"@.len() == 4 && "version"@.len() == 7 && "tools"@.len() == 5
        && "resources"@.len() == 9 && "subscribe"@.len() == 9 && "listChanged"@.len() == 11);
    let members = handshake(version)->Obj_0;
    assert(members.dom() =~= set![
        "protocolVersion"@,
        "capabilities"@,
        "serverInfo"@,
        "instructions"@,
    ]);
    assert(members["serverInfo"@]->Obj_0.dom() =~= set!["name"@, "version"@]);
    let capabilities = members["capabilities"@]->Obj_0;
    assert(capabilities.dom() =~= set!["tools"@, "resources"@]);
    assert(capabilities["tools"@]->Obj_0.dom() =~= set!["listChanged"@]);
    assert(capabilities["resources"@]->Obj_0.dom() =~= set!["subscribe"@, "listChanged"@]);
}

/// The listing of the tools has an entry for every tool that the service has, in the same
/// order, with the tool's name, description and schema, unchanged.
pub proof fn law_every_tool_is_listed(tools: Seq<ToolDefinition>)
    ensures
        tool_listing(tools) matches Json::Obj(members) && {
            &&& members.dom() == set!["tools"@]
            &&& members["tools"@] matches Json::Arr(items)
            &&& items.len() == tools.len()
            &&& forall|i: int|
                0 <= i < tools.len() ==> ((#[trigger] items[i]) matches Json::Obj(entry) && {
                    &&& entry.dom() == set!["name"@, "description"@, "inputSchema"@]
                    &&& entry["name"@] == Json::Str(tools[i].name@)
                    &&& entry["description"@] == Json::Str(tools[i].description@)
                    &&& entry["inputSchema"@] == json::json_content(tools[i].parameters_schema)
                })
        },
{
    reveal_strlit("name");
    reveal_strlit("description");
    reveal_strlit("inputSchema");
    assert("name"@.len() == 4 && "description"@.len() == 11 && "inputSchema"@.len() == 11);
    assert("description"@[0] == 'd' && "inputSchema"@[0] == 'i');
    let members = tool_listing(tools)->Obj_0;
    assert(members.dom() =~= set!["tools"@]);
    let items = members["tools"@]->Arr_0;
    assert forall|i: int| 0 <= i < tools.len() implies ((#[trigger] items[i]) matches Json::Obj(
        entry,
    ) && {
        &&& entry.dom() == set!["name"@, "description"@, "inputSchema"@]
        &&& entry["name"@] == Json::Str(tools[i].name@)
        &&& entry["description"@] == Json::Str(tools[i].description@)
        &&& entry["inputSchema"@] == json::json_content(tools[i].parameters_schema)
    }) by {
        assert(items[i] == tool_entry(tools[i]));
        assert(items[i]->Obj_0.dom() =~= set!["name"@, "description"@, "inputSchema"@]);
    }
}

/// The result of a tool call is one piece of text, and whether the tool failed. The text is
/// the tool's output where that is a string, and its JSON text where it is not.
pub proof fn law_tool_output_is_carried_whole(result: ToolResult)
    ensures
        call_result(result) matches Json::Obj(members) && {
            &&& members.dom() == set!["content"@, "isError"@]
            &&& members["isError"@] == Json::Bool(!result.success)
            &&& members["content"@] matches Json::Arr(blocks)
            &&& blocks.len() == 1
            &&& blocks[0] matches Json::Obj(block)
            &&& block.dom() == set!["type"@, "text"@]
            &&& block["type"@] == Json::Str("text"@)
            &&& block["text"@] == match json::json_content(result.output) {
                Json::Str(text) => Json::Str(text),
                other => Json::Str(json::json_print(other)),
            }
        },
{
    reveal_strlit("content");
    reveal_strlit("isError");
    reveal_strlit("type");
    reveal_strlit("text");
    assert("content"@[0] == 'c' && "isError"@[0] == 'i');
    assert("type"@.len() == 4 && "text"@.len() == 4 && "type"@[1] == 'y' && "text"@[1] == 'e');
    let members = call_result(result)->Obj_0;
    assert(members.dom() =~= set!["content"@, "isError"@]);
    assert(members["content"@]->Arr_0[0]->Obj_0.dom() =~= set!["type"@, "text"@]);
}

/// The listing of the resources has every resource that the service has, in the same order
/// and unchanged.
pub proof fn law_every_resource_is_listed(resources: Seq<serde_json::Value>)
    ensures
        resource_listing(resources) matches Json::Obj(members) && {
            &&& members.dom() == set!["resources"@]
            &&& members["resources"@] matches Json::Arr(items)
            &&& items.len() == resources.len()
            &&& forall|i: int|
                0 <= i < resources.len() ==> #[trigger] items[i] == json::json_content(resources[i])
        },
{
    assert(resource_listing(resources)->Obj_0.dom() =~= set!["resources"@]);
}

/// A resource is given by its address and its text, all of it and unchanged.
pub proof fn law_resource_text_is_carried_whole(uri: Seq<char>, text: Seq<char>)
    ensures
        resource_text(uri, text) matches Json::Obj(members) && {
            &&& members.dom() == set!["contents"@]
            &&& members["contents"@] matches Json::Arr(entries)
            &&& entries.len() == 1
            &&& entries[0] matches Json::Obj(entry)
            &&& entry.dom() == set!["uri"@, "text"@]
            &&& entry["uri"@] == Json::Str(uri)
            &&& entry["text"@] == Json::Str(text)
        },
{
    reveal_strlit("uri");
    reveal_strlit("text");
    assert("uri"@.len() == 3 && "text"@.len() == 4);
    let members = resource_text(uri, text)->Obj_0;
    assert(members.dom() =~= set!["contents"@]);
    assert(members["contents"@]->Arr_0[0]->Obj_0.dom() =~= set!["uri"@, "text"@]);
}

/// What the service says to a question is the reply under the id of the question: its
/// result where it succeeded, and its error, unchanged, where it failed.
pub proof fn law_service_decides_the_reply(
    id: Json,
    tool: Seq<char>,
    arguments: Json,
    uri: Seq<char>,
    tools: Vec<ToolDefinition>,
    result: ToolResult,
    resources: Vec<serde_json::Value>,
    text: String,
    error: String,
)
    ensures
        ({
            let failed = Some(json::json_print(refusal(id, error@)));
            let list_tools = Plan::ListTools { id };
            let call_tool = Plan::CallTool { id, tool, arguments };
            let list_resources = Plan::ListResources { id };
            let read_resource = Plan::ReadResource { id, uri };
            &&& final_reply(list_tools, ServiceOutcome::Tools(Ok(tools))) == Some(
                json::json_print(answer(id, tool_listing(tools@))),
            )
            &&& final_reply(list_tools, ServiceOutcome::Tools(Err(error))) == failed
            &&& final_reply(call_tool, ServiceOutcome::Tool(Ok(result))) == Some(
                json::json_print(answer(id, call_result(result))),
            )
            &&& final_reply(call_tool, ServiceOutcome::Tool(Err(error))) == failed
            &&& final_reply(list_resources, ServiceOutcome::Resources(Ok(resources))) == Some(
                json::json_print(answer(id, resource_listing(resources@))),
            )
            &&& final_reply(list_resources, ServiceOutcome::Resources(Err(error))) == failed
            &&& final_reply(read_resource, ServiceOutcome::Resource(Ok(text))) == Some(
                json::json_print(answer(id, resource_text(uri, text@))),
            )
            &&& final_reply(read_resource, ServiceOutcome::Resource(Err(error))) == failed
        }),
{
}

/// What needs no service is written as it is, and where there is nothing to do, nothing is.
pub proof fn law_immediate_reply_is_final(reply: Seq<char>, outcome: ServiceOutcome)
    ensures
        final_reply(Plan::Reply(reply), outcome) == Some(reply),
        final_reply(Plan::Silent, outcome) is None,
{
}

/// A step stands for what it holds.
pub proof fn law_step_stands_for_what_it_holds(step: StdioStep)
    ensures
        match step {
            StdioStep::Silent => step@ is Silent,
            StdioStep::Reply(reply) => step@ == Plan::Reply(reply@),
            StdioStep::ListTools { id } => step@ == (Plan::ListTools {
                id: json::json_content(id),
            }),
            StdioStep::CallTool { id, tool, arguments } => step@ == (Plan::CallTool {
                id: json::json_content(id),
                tool: tool@,
                arguments: json::json_content(arguments),
            }),
            StdioStep::ListResources { id } => step@ == (Plan::ListResources {
                id: json::json_content(id),
            }),
            StdioStep::ReadResource { id, uri } => step@ == (Plan::ReadResource {
                id: json::json_content(id),
                uri: uri@,
            }),
        },
{
}

/// A text member is a member that is a string, and only that. Where it is missing, its text
/// is empty. Parameters that are missing are `null`.
pub proof fn law_members_are_read_as_they_stand(value: Json, key: Seq<char>)
    ensures
        ({
            let found = value is Obj && value->Obj_0.contains_key(key) && value->Obj_0[key] is Str;
            &&& found ==> text_member(value, key) == Some(value->Obj_0[key]->Str_0)
                && text_param(value, key) == value->Obj_0[key]->Str_0
            &&& !found ==> text_member(value, key) is None && text_param(value, key).len() == 0
            &&& params_of(value) == if value is Obj && value->Obj_0.contains_key("params"@) {
                value->Obj_0["params"@]
            } else {
                Json::Null
            }
        }),
{
}

} // verus!
