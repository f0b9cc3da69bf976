//! The other side of the protocol: what a server answers to the requests of
//! a client. The server itself is whatever implements [`AbstractMCPServer`];
//! the answers are put together here.
use vstd::prelude::*;
use crate::codec::{json_parse, parse};
use crate::definitions::{
    MCPResourceContent, MCPResourceDefinition, MCPResourceDefinitionView, MCPToolAnnotations,
    MCPToolAnnotationsView, MCPToolDefinition, MCPToolDefinitionView, annotations_of_json,
    contents_json, contents_to_json, text_or_null, tool_of_json,
};
use crate::json::{Json, JsonView, items_view, member, views};
use crate::protocol::{MCPRequest, MCPRequestView, MCPResponse, MCPResponseView, request_of_json};
use crate::text::{concat, str_eq, trim, trimmed};
use crate::MCP_PROTOCOL_VERSION;

verus! {

/// The name and the version of a server.
#[derive(Debug)]
pub struct ServerInfo {
    pub name: String,
    pub version: String,
}

pub ghost struct ServerInfoView {
    pub name: Seq<char>,
    pub version: Seq<char>,
}

impl View for ServerInfo {
    type V = ServerInfoView;

    open spec fn view(&self) -> ServerInfoView {
        ServerInfoView { name: self.name@, version: self.version@ }
    }
}

/// A server. Nothing is promised of what an implementation gives back: what
/// is answered to a client is stated for whatever it gives.
pub trait AbstractMCPServer {
    /// The name and the version of the server.
    fn get_server_info(&self) -> ServerInfo;

    /// The tools that the server is ready to be called with.
    fn get_tools_list(&self) -> Vec<MCPToolDefinition>;

    /// Calls a tool; `args` are the arguments where they are an object.
    fn on_tool_call(&mut self, name: &str, args: Option<&Json>) -> String;

    /// The resources of the server.
    fn get_resources_list(&self) -> Vec<MCPResourceDefinition>;

    /// Reads the resource at a URI.
    fn on_resources_read(&mut self, uri: &str) -> Vec<MCPResourceContent>;
}

/// The code of the error for a request that cannot be served.
pub const INVALID_REQUEST_CODE: &'static str = "-32600";

/// The code of the error for parameters that cannot be used.
pub const INVALID_PARAMS_CODE: &'static str = "-32603";

/// An error as a response carries it: a code and a message.
pub open spec fn error_json(code: Seq<char>, message: Seq<char>) -> JsonView {
    JsonView::Object(
        Map::<Seq<char>, JsonView>::empty().insert("code"@, JsonView::Number(code)).insert(
            "message"@,
            JsonView::String(message),
        ),
    )
}

/// The response that carries an error.
pub open spec fn error_response(id: JsonView, code: Seq<char>, message: Seq<char>) -> MCPResponseView {
    MCPResponseView {
        jsonrpc: crate::protocol::JSONRPC_VERSION@,
        id,
        result: None,
        error: Some(error_json(code, message)),
    }
}

/// The response that carries a result.
pub open spec fn result_response(id: JsonView, result: JsonView) -> MCPResponseView {
    MCPResponseView {
        jsonrpc: crate::protocol::JSONRPC_VERSION@,
        id,
        result: Some(result),
        error: None,
    }
}

fn make_error(id: &Json, code: &str, message: &str) -> (r: MCPResponse)
    ensures
        r@ == error_response(id@, code@, message@),
{
    let mut error = Json::object();
    error.insert("code", Json::number(code));
    error.insert("message", Json::string(message));
    MCPResponse::new(id.clone(), None, Some(error))
}

/// The answer to a request that cannot be served.
pub fn invalid_request(id: &Json, message: String) -> (r: MCPResponse)
    ensures
        r@ == error_response(id@, INVALID_REQUEST_CODE@, message@),
{
    make_error(id, INVALID_REQUEST_CODE, message.as_str())
}

/// The answer to a request whose parameters cannot be used.
pub fn invalid_params_error_response(id: &Json, message: String) -> (r: MCPResponse)
    ensures
        r@ == error_response(id@, INVALID_PARAMS_CODE@, message@),
{
    make_error(id, INVALID_PARAMS_CODE, message.as_str())
}

/// What a server answers to `initialize`: the protocol version, what it is
/// capable of, and its name and version.
pub open spec fn initialize_result(info: ServerInfoView) -> JsonView {
    let unchanging = JsonView::Object(
        Map::<Seq<char>, JsonView>::empty().insert("listChanged"@, JsonView::Bool(false)),
    );
    JsonView::Object(
        Map::<Seq<char>, JsonView>::empty().insert(
            "protocolVersion"@,
            JsonView::String(MCP_PROTOCOL_VERSION@),
        ).insert(
            "capabilities"@,
            JsonView::Object(
                Map::<Seq<char>, JsonView>::empty().insert("tools"@, unchanging).insert(
                    "resources"@,
                    unchanging,
                ),
            ),
        ).insert(
            "serverInfo"@,
            JsonView::Object(
                Map::<Seq<char>, JsonView>::empty().insert(
                    "name"@,
                    JsonView::String(info.name),
                ).insert("version"@, JsonView::String(info.version)),
            ),
        ),
    )
}

/// The answer to `initialize` of a server with the given info.
pub fn initialize_response(id: &Json, info: &ServerInfo) -> (r: MCPResponse)
    ensures
        r@ == result_response(id@, initialize_result(info@)),
{
    let mut tools = Json::object();
    tools.insert("listChanged", Json::Bool(false));
    let mut resources = Json::object();
    resources.insert("listChanged", Json::Bool(false));
    let mut capabilities = Json::object();
    capabilities.insert("tools", tools);
    capabilities.insert("resources", resources);
    let mut server_info = Json::object();
    server_info.insert("name", Json::string(info.name.as_str()));
    server_info.insert("version", Json::string(info.version.as_str()));
    let mut result = Json::object();
    result.insert("protocolVersion", Json::string(MCP_PROTOCOL_VERSION));
    result.insert("capabilities", capabilities);
    result.insert("serverInfo", server_info);
    MCPResponse::new(id.clone(), Some(result), None)
}

/// Answers `initialize` with the info that the server gives.
pub fn process_initialize<T: AbstractMCPServer>(server: &mut T, request: MCPRequest) -> (r:
    MCPResponse)
    ensures
        exists|info: ServerInfo| r@ == #[trigger] result_response(
            request@.id,
            initialize_result(info@),
        ),
{
    let info = server.get_server_info();
    initialize_response(&request.id, &info)
}

/// A boolean hint as a member of an object, where the hint is there.
pub open spec fn with_hint(
    m: Map<Seq<char>, JsonView>,
    key: Seq<char>,
    hint: Option<bool>,
) -> Map<Seq<char>, JsonView> {
    match hint {
        Some(b) => m.insert(key, JsonView::Bool(b)),
        None => m,
    }
}

/// Annotations as a JSON object: each hint that is there, and nothing else.
pub open spec fn annotations_json(a: MCPToolAnnotationsView) -> JsonView {
    let titled = match a.title {
        Some(t) => Map::<Seq<char>, JsonView>::empty().insert("title"@, JsonView::String(t)),
        None => Map::<Seq<char>, JsonView>::empty(),
    };
    JsonView::Object(
        with_hint(
            with_hint(
                with_hint(
                    with_hint(titled, "readOnlyHint"@, a.read_only_hint),
                    "destructiveHint"@,
                    a.destructive_hint,
                ),
                "idempotentHint"@,
                a.idempotent_hint,
            ),
            "openWorldHint"@,
            a.open_world_hint,
        ),
    )
}

fn insert_hint(j: &mut Json, key: &str, hint: Option<bool>)
    requires
        old(j)@ is Object,
    ensures
        final(j)@ == JsonView::Object(with_hint(old(j)@->Object_0, key@, hint)),
{
    match hint {
        Some(b) => {
            j.insert(key, Json::Bool(b));
        },
        None => {},
    }
}

/// A tool as a JSON object: `name` and `inputSchema`, and `description` and
/// `annotations` where the tool has them.
pub open spec fn tool_json(t: MCPToolDefinitionView) -> JsonView {
    let base = Map::<Seq<char>, JsonView>::empty().insert("name"@, JsonView::String(t.name));
    let described = match t.description {
        Some(d) => base.insert("description"@, JsonView::String(d)),
        None => base,
    };
    let with_schema = described.insert("inputSchema"@, t.input_schema);
    JsonView::Object(
        match t.annotations {
            Some(a) => with_schema.insert("annotations"@, annotations_json(a)),
            None => with_schema,
        },
    )
}

impl MCPToolAnnotations {
    /// The annotations as a JSON object.
    pub fn to_json(&self) -> (j: Json)
        ensures
            j@ == annotations_json(self@),
    {
        let mut j = Json::object();
        match &self.title {
            Some(t) => {
                j.insert("title", Json::string(t.as_str()));
            },
            None => {},
        }
        insert_hint(&mut j, "readOnlyHint", self.read_only_hint);
        insert_hint(&mut j, "destructiveHint", self.destructive_hint);
        insert_hint(&mut j, "idempotentHint", self.idempotent_hint);
        insert_hint(&mut j, "openWorldHint", self.open_world_hint);
        j
    }
}

impl MCPToolDefinition {
    /// The tool as a JSON object.
    pub fn to_json(&self) -> (j: Json)
        ensures
            j@ == tool_json(self@),
    {
        let mut j = Json::object();
        j.insert("name", Json::string(self.name.as_str()));
        match &self.description {
            Some(d) => {
                j.insert("description", Json::string(d.as_str()));
            },
            None => {},
        }
        j.insert("inputSchema", self.input_schema.clone());
        match &self.annotations {
            Some(a) => {
                j.insert("annotations", a.to_json());
            },
            None => {},
        }
        j
    }
}

/// What a server answers to `tools/list`: its tools under `tools`.
pub open spec fn tools_list_result(tools: Seq<MCPToolDefinitionView>) -> JsonView {
    JsonView::Object(
        Map::<Seq<char>, JsonView>::empty().insert(
            "tools"@,
            JsonView::Array(Seq::new(tools.len(), |i: int| tool_json(tools[i]))),
        ),
    )
}

/// The answer to `tools/list` of a server with the given tools.
pub fn tools_list_response(id: &Json, tools: &Vec<MCPToolDefinition>) -> (r: MCPResponse)
    ensures
        r@ == result_response(id@, tools_list_result(views(tools@))),
{
    let mut items: Vec<Json> = Vec::new();
    let mut i: usize = 0;
    while i < tools.len()
        invariant
            i <= tools.len(),
            items.len() == i,
            forall|k: int| 0 <= k < i ==> items@[k]@ == tool_json(tools@[k]@),
        decreases tools.len() - i,
    {
        items.push(tools[i].to_json());
        i = i + 1;
    }
    assert(items_view(items@) =~= Seq::new(
        views(tools@).len(),
        |i: int| tool_json(views(tools@)[i]),
    ));
    let mut result = Json::object();
    result.insert("tools", Json::Array(items));
    MCPResponse::new(id.clone(), Some(result), None)
}

/// Answers `tools/list` with the tools that the server gives.
pub fn process_tools_list<T: AbstractMCPServer>(server: &mut T, request: MCPRequest) -> (r:
    MCPResponse)
    ensures
        exists|tools: Seq<MCPToolDefinitionView>| r@ == #[trigger] result_response(
            request@.id,
            tools_list_result(tools),
        ),
{
    let tools = server.get_tools_list();
    tools_list_response(&request.id, &tools)
}

/// What a server answers to `tools/call`: the text that the tool gave, as
/// the one item of `content`.
pub open spec fn tool_call_result(text: Seq<char>) -> JsonView {
    JsonView::Object(
        Map::<Seq<char>, JsonView>::empty().insert(
            "content"@,
            JsonView::Array(
                seq![
                    JsonView::Object(
                        Map::<Seq<char>, JsonView>::empty().insert(
                            "type"@,
                            JsonView::String("text"@),
                        ).insert("text"@, JsonView::String(text)),
                    ),
                ],
            ),
        ),
    )
}

/// The answer to `tools/call` of a tool that gave `text`.
pub fn tool_call_response(id: &Json, text: &str) -> (r: MCPResponse)
    ensures
        r@ == result_response(id@, tool_call_result(text@)),
{
    let mut item = Json::object();
    item.insert("type", Json::string("text"));
    item.insert("text", Json::string(text));
    let items = vec![item];
    assert(items_view(items@) =~= seq![item@]);
    let mut result = Json::object();
    result.insert("content", Json::Array(items));
    MCPResponse::new(id.clone(), Some(result), None)
}

/// The name of the tool that the parameters of `tools/call` ask for, or the
/// message that says why there is none.
pub open spec fn tool_name_of_params(params: Option<JsonView>) -> Result<Seq<char>, Seq<char>> {
    match params {
        None => Err("Missing params in the tools/call request"@),
        Some(JsonView::Object(m)) => if m.contains_key("name"@) {
            match m["name"@] {
                JsonView::String(name) => Ok(name),
                _ => Err("Missing or invalid name param for tools/call request"@),
            }
        } else {
            Err("Missing or invalid name param for tools/call request"@)
        },
        Some(_) => Err("Invalid params in the tools/call request"@),
    }
}

/// Reads the name of the tool that the parameters of `tools/call` ask for.
pub fn tool_name_from_params(params: &Option<Json>) -> (r: Result<String, String>)
    ensures
        match tool_name_of_params(crate::protocol::opt_json(*params)) {
            Ok(name) => r matches Ok(s) && s@ == name,
            Err(message) => r matches Err(s) && s@ == message,
        },
{
    match params {
        None => Err("Missing params in the tools/call request".to_owned()),
        Some(p) => {
            if !p.is_object() {
                return Err("Invalid params in the tools/call request".to_owned());
            }
            match p.get("name") {
                Some(Json::String(name)) => Ok(name.clone()),
                _ => Err("Missing or invalid name param for tools/call request".to_owned()),
            }
        },
    }
}

/// Answers `tools/call`: parameters that name no tool are an error; else the
/// tool is called with the arguments, where they are an object, and its text
/// is the answer.
pub fn process_tools_call<T: AbstractMCPServer>(server: &mut T, request: MCPRequest) -> (r:
    MCPResponse)
    ensures
        match tool_name_of_params(request@.params) {
            Err(message) => r@ == error_response(request@.id, INVALID_PARAMS_CODE@, message),
            Ok(_) => exists|text: Seq<char>| r@ == #[trigger] result_response(
                request@.id,
                tool_call_result(text),
            ),
        },
{
    match tool_name_from_params(&request.params) {
        Err(message) => invalid_params_error_response(&request.id, message),
        Ok(name) => {
            let args: Option<&Json> = match &request.params {
                Some(p) => match p.get("arguments") {
                    Some(Json::Object(members)) => p.get("arguments"),
                    _ => None,
                },
                None => None,
            };
            let text = server.on_tool_call(name.as_str(), args);
            tool_call_response(&request.id, text.as_str())
        },
    }
}

/// A count as a JSON value, or `null` where there is none.
pub open spec fn count_or_null(n: Option<nat>) -> JsonView {
    match n {
        Some(n) => JsonView::Number(crate::text::decimal(n)),
        None => JsonView::Null,
    }
}

/// A resource as a JSON object.
pub open spec fn resource_json(d: MCPResourceDefinitionView) -> JsonView {
    let base = Map::<Seq<char>, JsonView>::empty().insert("uri"@, text_or_null(d.uri));
    let templated = match d.uri_template {
        Some(t) => base.insert("uriTemplate"@, JsonView::String(t)),
        None => base,
    };
    let named = templated.insert("name"@, JsonView::String(d.name)).insert(
        "description"@,
        text_or_null(d.description),
    );
    let typed = match d.mime_type {
        Some(t) => named.insert("mimeType"@, JsonView::String(t)),
        None => named,
    };
    JsonView::Object(typed.insert("size"@, count_or_null(d.size)))
}

impl MCPResourceDefinition {
    /// The resource as a JSON object.
    pub fn to_json(&self) -> (j: Json)
        ensures
            j@ == resource_json(self@),
    {
        let mut j = Json::object();
        match &self.uri {
            Some(u) => {
                j.insert("uri", Json::string(u.as_str()));
            },
            None => {
                j.insert("uri", Json::Null);
            },
        }
        match &self.uri_template {
            Some(t) => {
                j.insert("uriTemplate", Json::string(t.as_str()));
            },
            None => {},
        }
        j.insert("name", Json::string(self.name.as_str()));
        match &self.description {
            Some(d) => {
                j.insert("description", Json::string(d.as_str()));
            },
            None => {
                j.insert("description", Json::Null);
            },
        }
        match &self.mime_type {
            Some(t) => {
                j.insert("mimeType", Json::string(t.as_str()));
            },
            None => {},
        }
        match self.size {
            Some(n) => {
                j.insert("size", Json::Number(crate::text::u64_to_string(n as u64)));
            },
            None => {
                j.insert("size", Json::Null);
            },
        }
        j
    }
}

/// The direct resources of a list as JSON objects; resources without a URI
/// are left out.
pub open spec fn direct_resources_json(resources: Seq<MCPResourceDefinitionView>) -> Seq<JsonView>
    decreases resources.len(),
{
    if resources.len() == 0 {
        Seq::empty()
    } else {
        let rest = direct_resources_json(resources.drop_last());
        if resources.last().uri is Some {
            rest.push(resource_json(resources.last()))
        } else {
            rest
        }
    }
}

/// What a server answers to `resources/list`: its direct resources under
/// `resources`.
pub open spec fn resources_list_result(resources: Seq<MCPResourceDefinitionView>) -> JsonView {
    JsonView::Object(
        Map::<Seq<char>, JsonView>::empty().insert(
            "resources"@,
            JsonView::Array(direct_resources_json(resources)),
        ),
    )
}

/// The answer to `resources/list` of a server with the given resources.
pub fn resources_list_response(id: &Json, resources: &Vec<MCPResourceDefinition>) -> (r:
    MCPResponse)
    ensures
        r@ == result_response(id@, resources_list_result(views(resources@))),
{
    let ghost all = views(resources@);
    let mut items: Vec<Json> = Vec::new();
    let mut i: usize = 0;
    assert(all.take(0) =~= Seq::empty());
    assert(items_view(items@) =~= Seq::empty());
    while i < resources.len()
        invariant
            i <= resources.len(),
            all == views(resources@),
            items_view(items@) == direct_resources_json(all.take(i as int)),
        decreases resources.len() - i,
    {
        proof {
            assert(all.take(i + 1).drop_last() =~= all.take(i as int));
            assert(all.take(i + 1).last() == resources@[i as int]@);
        }
        if resources[i].uri.is_some() {
            let ghost before = items_view(items@);
            let item = resources[i].to_json();
            items.push(item);
            assert(items_view(items@) =~= before.push(item@));
        }
        i = i + 1;
    }
    assert(all.take(resources.len() as int) =~= all);
    let mut result = Json::object();
    result.insert("resources", Json::Array(items));
    MCPResponse::new(id.clone(), Some(result), None)
}

/// Answers `resources/list` with the resources that the server gives.
pub fn process_resources_list<T: AbstractMCPServer>(server: &mut T, request: MCPRequest) -> (r:
    MCPResponse)
    ensures
        exists|resources: Seq<MCPResourceDefinitionView>| r@ == #[trigger] result_response(
            request@.id,
            resources_list_result(resources),
        ),
{
    let resources = server.get_resources_list();
    resources_list_response(&request.id, &resources)
}

/// The URI that the parameters of `resources/read` ask for.
pub open spec fn uri_of_params(params: Option<JsonView>) -> Option<Seq<char>> {
    match params {
        Some(p) => match member(p, "uri"@) {
            Some(JsonView::String(uri)) => Some(uri),
            _ => None,
        },
        None => None,
    }
}

/// What a server answers to `resources/read`: the contents under `contents`.
pub open spec fn resources_read_result(contents: Seq<MCPResourceContent>) -> JsonView {
    JsonView::Object(
        Map::<Seq<char>, JsonView>::empty().insert(
            "contents"@,
            JsonView::Array(contents_json(contents)),
        ),
    )
}

/// The answer to `resources/read` of a server that read the given contents.
pub fn resources_read_response(id: &Json, contents: &Vec<MCPResourceContent>) -> (r: MCPResponse)
    ensures
        r@ == result_response(id@, resources_read_result(contents@)),
{
    let mut result = Json::object();
    result.insert("contents", contents_to_json(contents));
    MCPResponse::new(id.clone(), Some(result), None)
}

/// Answers `resources/read`: parameters without a URI are an error; else the
/// resource is read and its contents are the answer.
pub fn process_resources_read<T: AbstractMCPServer>(server: &mut T, request: MCPRequest) -> (r:
    MCPResponse)
    ensures
        match uri_of_params(request@.params) {
            None => r@ == error_response(
                request@.id,
                INVALID_PARAMS_CODE@,
                "Cannot find uri in the resources/read request"@,
            ),
            Some(_) => exists|contents: Seq<MCPResourceContent>| r@ == #[trigger] result_response(
                request@.id,
                resources_read_result(contents),
            ),
        },
{
    let uri: Option<String> = match &request.params {
        Some(p) => match p.get("uri") {
            Some(Json::String(uri)) => Some(uri.clone()),
            _ => None,
        },
        None => None,
    };
    match uri {
        None => invalid_params_error_response(
            &request.id,
            "Cannot find uri in the resources/read request".to_owned(),
        ),
        Some(uri) => {
            let contents = server.on_resources_read(uri.as_str());
            resources_read_response(&request.id, &contents)
        },
    }
}

/// Whether `r` is an answer that a server may give to `request`: each method
/// that is served has its own shape of answer, and any other method is an
/// invalid request.
pub open spec fn answers(request: MCPRequestView, r: MCPResponseView) -> bool {
    if request.method == "initialize"@ {
        exists|info: ServerInfo| r == #[trigger] result_response(
            request.id,
            initialize_result(info@),
        )
    } else if request.method == "tools/list"@ {
        exists|tools: Seq<MCPToolDefinitionView>| r == #[trigger] result_response(
            request.id,
            tools_list_result(tools),
        )
    } else if request.method == "tools/call"@ {
        match tool_name_of_params(request.params) {
            Err(message) => r == error_response(request.id, INVALID_PARAMS_CODE@, message),
            Ok(_) => exists|text: Seq<char>| r == #[trigger] result_response(
                request.id,
                tool_call_result(text),
            ),
        }
    } else if request.method == "resources/list"@ {
        exists|resources: Seq<MCPResourceDefinitionView>| r == #[trigger] result_response(
            request.id,
            resources_list_result(resources),
        )
    } else if request.method == "resources/read"@ {
        match uri_of_params(request.params) {
            None => r == error_response(
                request.id,
                INVALID_PARAMS_CODE@,
                "Cannot find uri in the resources/read request"@,
            ),
            Some(_) => exists|contents: Seq<MCPResourceContent>| r == #[trigger] result_response(
                request.id,
                resources_read_result(contents),
            ),
        }
    } else {
        r == error_response(request.id, INVALID_REQUEST_CODE@, "Unknown method: "@ + request.method)
    }
}

/// Answers a request.
pub fn process_request<T: AbstractMCPServer>(server: &mut T, request: MCPRequest) -> (r:
    MCPResponse)
    ensures
        answers(request@, r@),
{
    if str_eq(request.method.as_str(), "initialize") {
        process_initialize(server, request)
    } else if str_eq(request.method.as_str(), "tools/list") {
        process_tools_list(server, request)
    } else if str_eq(request.method.as_str(), "tools/call") {
        process_tools_call(server, request)
    } else if str_eq(request.method.as_str(), "resources/list") {
        process_resources_list(server, request)
    } else if str_eq(request.method.as_str(), "resources/read") {
        process_resources_read(server, request)
    } else {
        let message = concat("Unknown method: ", request.method.as_str());
        invalid_request(&request.id, message)
    }
}

/// The request that a line of input carries: the JSON document of the line,
/// white space aside, where it is an object with an `id` that reads as a
/// request.
pub open spec fn request_of_line(line: Seq<char>) -> Option<MCPRequestView> {
    match json_parse(trimmed(line)) {
        Some(j) => if member(j, "id"@) is Some {
            request_of_json(j)
        } else {
            None
        },
        None => None,
    }
}

/// What a line of input asks of a server.
#[derive(Debug)]
pub enum Incoming {
    /// A request, which is to be answered.
    Request(MCPRequest),
    /// A message without an id: nothing is answered.
    Notification,
    /// Something that cannot be read; the text says why.
    Unreadable(String),
}

/// Reads one line of input: a request where the line carries one; a
/// notification where the line is JSON without an `id`; in every other case
/// something unreadable.
pub fn read_line(line: &str) -> (r: Incoming)
    ensures
        match request_of_line(line@) {
            Some(request) => r matches Incoming::Request(x) && x@ == request,
            None => match json_parse(trimmed(line@)) {
                Some(j) => if member(j, "id"@) is Some {
                    r is Unreadable
                } else {
                    r is Notification
                },
                None => r is Unreadable,
            },
        },
{
    let text = trim(line);
    match parse(text.as_str()) {
        Err(cause) => Incoming::Unreadable(cause.message),
        Ok(j) => {
            if j.get("id").is_some() {
                match MCPRequest::from_json(&j) {
                    Some(request) => Incoming::Request(request),
                    None => Incoming::Unreadable("the message is not a request".to_owned()),
                }
            } else {
                Incoming::Notification
            }
        },
    }
}

/// The keys of annotations have pairwise different lengths.
proof fn lemma_annotation_key_lengths()
    ensures
        "title"@.len() == 5,
        "readOnlyHint"@.len() == 12,
        "destructiveHint"@.len() == 15,
        "idempotentHint"@.len() == 14,
        "openWorldHint"@.len() == 13,
{
    reveal_strlit("title");
    reveal_strlit("readOnlyHint");
    reveal_strlit("destructiveHint");
    reveal_strlit("idempotentHint");
    reveal_strlit("openWorldHint");
}

/// What a server writes for annotations is what a client reads as the same
/// annotations.
pub proof fn lemma_annotations_round_trip(a: MCPToolAnnotationsView)
    ensures
        annotations_of_json(annotations_json(a)) == Some(a),
{
    lemma_annotation_key_lengths();
}

/// What a server writes for a tool is what a client reads as the same tool.
pub proof fn lemma_tool_round_trip(t: MCPToolDefinitionView)
    ensures
        tool_of_json(tool_json(t)) == Some(t),
{
    reveal_strlit("name");
    reveal_strlit("description");
    reveal_strlit("inputSchema");
    reveal_strlit("annotations");
    assert("name"@.len() == 4);
    assert("description"@.len() == 11);
    assert("inputSchema"@.len() == 11);
    assert("annotations"@.len() == 11);
    assert("description"@[0] != "inputSchema"@[0]);
    assert("description"@[0] != "annotations"@[0]);
    assert("inputSchema"@[0] != "annotations"@[0]);
    match t.annotations {
        Some(a) => {
            lemma_annotations_round_trip(a);
        },
        None => {},
    }
}

} // verus!
