//! The JSON-RPC 2.0 envelopes of the tool protocol: requests, responses and
//! notifications, and how each is written as and read from a JSON value.
use vstd::prelude::*;
use crate::json::{Field, Json, JsonView, member, text_field, value_field};
use crate::MCP_PROTOCOL_VERSION;

verus! {

/// The version tag that every envelope carries.
pub const JSONRPC_VERSION: &'static str = "2.0";

/// A request: a method, the id that its response will carry, and parameters.
#[derive(Debug)]
pub struct MCPRequest {
    pub jsonrpc: String,
    pub method: String,
    pub id: Json,
    pub params: Option<Json>,
}

pub ghost struct MCPRequestView {
    pub jsonrpc: Seq<char>,
    pub method: Seq<char>,
    pub id: JsonView,
    pub params: Option<JsonView>,
}

/// The value that an optional tree denotes.
pub open spec fn opt_json(o: Option<Json>) -> Option<JsonView> {
    match o {
        Some(j) => Some(j@),
        None => None,
    }
}

impl View for MCPRequest {
    type V = MCPRequestView;

    open spec fn view(&self) -> MCPRequestView {
        MCPRequestView {
            jsonrpc: self.jsonrpc@,
            method: self.method@,
            id: self.id@,
            params: opt_json(self.params),
        }
    }
}

/// A request as a JSON object: `jsonrpc`, `method`, `id`, and `params` where
/// there are any.
pub open spec fn request_json(r: MCPRequestView) -> JsonView {
    let base = Map::<Seq<char>, JsonView>::empty().insert(
        "jsonrpc"@,
        JsonView::String(r.jsonrpc),
    ).insert("method"@, JsonView::String(r.method)).insert("id"@, r.id);
    JsonView::Object(
        match r.params {
            Some(p) => base.insert("params"@, p),
            None => base,
        },
    )
}

/// The request that a JSON value is: an object with texts under `jsonrpc` and
/// `method` and any value under `id`; `params` may be missing or `null`.
pub open spec fn request_of_json(j: JsonView) -> Option<MCPRequestView> {
    match (text_field(j, "jsonrpc"@), text_field(j, "method"@), member(j, "id"@)) {
        (Field::Present(jsonrpc), Field::Present(method), Some(id)) => Some(
            MCPRequestView { jsonrpc, method, id, params: value_field(j, "params"@) },
        ),
        _ => None,
    }
}

/// The parameters of `initialize`: the protocol version, an empty capability
/// set, and the client's name and version.
pub open spec fn initialize_params(client_name: Seq<char>, client_version: Seq<char>) -> JsonView {
    JsonView::Object(
        Map::<Seq<char>, JsonView>::empty().insert(
            "protocolVersion"@,
            JsonView::String(MCP_PROTOCOL_VERSION@),
        ).insert("capabilities"@, JsonView::Object(Map::empty())).insert(
            "clientInfo"@,
            JsonView::Object(
                Map::<Seq<char>, JsonView>::empty().insert(
                    "name"@,
                    JsonView::String(client_name),
                ).insert("version"@, JsonView::String(client_version)),
            ),
        ),
    )
}

/// The parameters of `tools/call`.
pub open spec fn tools_call_params(tool_name: Seq<char>, args: JsonView) -> JsonView {
    JsonView::Object(
        Map::<Seq<char>, JsonView>::empty().insert("name"@, JsonView::String(tool_name)).insert(
            "arguments"@,
            args,
        ),
    )
}

/// The parameters of `resources/read`.
pub open spec fn resources_read_params(uri: Seq<char>) -> JsonView {
    JsonView::Object(Map::<Seq<char>, JsonView>::empty().insert("uri"@, JsonView::String(uri)))
}

/// The object that maps each argument's name to its text; a later argument
/// replaces an earlier one of the same name.
pub open spec fn text_arguments(args: Seq<(String, String)>) -> Map<Seq<char>, JsonView>
    decreases args.len(),
{
    if args.len() == 0 {
        Map::empty()
    } else {
        text_arguments(args.drop_last()).insert(args.last().0@, JsonView::String(args.last().1@))
    }
}

/// The parameters of `prompts/get`: the prompt's name, and its arguments as
/// an object of texts, or `null` where there are none.
pub open spec fn get_prompt_params(prompt_name: Seq<char>, args: Seq<(String, String)>) -> JsonView {
    JsonView::Object(
        Map::<Seq<char>, JsonView>::empty().insert("name"@, JsonView::String(prompt_name)).insert(
            "arguments"@,
            if args.len() > 0 {
                JsonView::Object(text_arguments(args))
            } else {
                JsonView::Null
            },
        ),
    )
}

impl MCPRequest {
    fn build(method: &str, id: &Json, params: Option<Json>) -> (r: MCPRequest)
        ensures
            r@ == (MCPRequestView {
                jsonrpc: JSONRPC_VERSION@,
                method: method@,
                id: id@,
                params: opt_json(params),
            }),
    {
        MCPRequest {
            jsonrpc: JSONRPC_VERSION.to_owned(),
            method: method.to_owned(),
            id: id.clone(),
            params,
        }
    }

    /// The request that opens a session.
    pub fn initialize(id: &Json, client_name: &str, client_version: &str) -> (r: MCPRequest)
        ensures
            r@ == (MCPRequestView {
                jsonrpc: JSONRPC_VERSION@,
                method: "initialize"@,
                id: id@,
                params: Some(initialize_params(client_name@, client_version@)),
            }),
    {
        let mut info = Json::object();
        info.insert("name", Json::string(client_name));
        info.insert("version", Json::string(client_version));
        let mut params = Json::object();
        params.insert("protocolVersion", Json::string(MCP_PROTOCOL_VERSION));
        params.insert("capabilities", Json::object());
        params.insert("clientInfo", info);
        Self::build("initialize", id, Some(params))
    }

    /// The request for the list of tools.
    pub fn tools_list(id: &Json) -> (r: MCPRequest)
        ensures
            r@ == (MCPRequestView {
                jsonrpc: JSONRPC_VERSION@,
                method: "tools/list"@,
                id: id@,
                params: None,
            }),
    {
        Self::build("tools/list", id, None)
    }

    /// The request to call a tool with the given arguments.
    pub fn tools_call(id: &Json, tool_name: &str, args: &Json) -> (r: MCPRequest)
        ensures
            r@ == (MCPRequestView {
                jsonrpc: JSONRPC_VERSION@,
                method: "tools/call"@,
                id: id@,
                params: Some(tools_call_params(tool_name@, args@)),
            }),
    {
        let mut params = Json::object();
        params.insert("name", Json::string(tool_name));
        params.insert("arguments", args.clone());
        Self::build("tools/call", id, Some(params))
    }

    /// The request for the list of direct resources.
    pub fn resources_list(id: &Json) -> (r: MCPRequest)
        ensures
            r@ == (MCPRequestView {
                jsonrpc: JSONRPC_VERSION@,
                method: "resources/list"@,
                id: id@,
                params: None,
            }),
    {
        Self::build("resources/list", id, None)
    }

    /// The request for the list of resource templates.
    pub fn resource_templates_list(id: &Json) -> (r: MCPRequest)
        ensures
            r@ == (MCPRequestView {
                jsonrpc: JSONRPC_VERSION@,
                method: "resources/templates/list"@,
                id: id@,
                params: None,
            }),
    {
        Self::build("resources/templates/list", id, None)
    }

    /// The request to read the resource at a URI.
    pub fn resources_read(id: &Json, uri: &str) -> (r: MCPRequest)
        ensures
            r@ == (MCPRequestView {
                jsonrpc: JSONRPC_VERSION@,
                method: "resources/read"@,
                id: id@,
                params: Some(resources_read_params(uri@)),
            }),
    {
        let mut params = Json::object();
        params.insert("uri", Json::string(uri));
        Self::build("resources/read", id, Some(params))
    }

    /// The request for the list of prompts.
    pub fn prompts_list(id: &Json) -> (r: MCPRequest)
        ensures
            r@ == (MCPRequestView {
                jsonrpc: JSONRPC_VERSION@,
                method: "prompts/list"@,
                id: id@,
                params: None,
            }),
    {
        Self::build("prompts/list", id, None)
    }

    /// The request for a prompt filled with the given arguments.
    pub fn get_prompt(id: &Json, prompt_name: &str, args: &Vec<(String, String)>) -> (r:
        MCPRequest)
        ensures
            r@ == (MCPRequestView {
                jsonrpc: JSONRPC_VERSION@,
                method: "prompts/get"@,
                id: id@,
                params: Some(get_prompt_params(prompt_name@, args@)),
            }),
    {
        let mut arguments = Json::object();
        let mut i: usize = 0;
        while i < args.len()
            invariant
                i <= args.len(),
                arguments@ == JsonView::Object(text_arguments(args@.take(i as int))),
            decreases args.len() - i,
        {
            arguments.insert(args[i].0.as_str(), Json::string(args[i].1.as_str()));
            proof {
                assert(args@.take(i + 1).drop_last() =~= args@.take(i as int));
            }
            i = i + 1;
        }
        assert(args@.take(args.len() as int) =~= args@);
        let mut params = Json::object();
        params.insert("name", Json::string(prompt_name));
        if args.len() > 0 {
            params.insert("arguments", arguments);
        } else {
            params.insert("arguments", Json::Null);
        }
        Self::build("prompts/get", id, Some(params))
    }

    /// The request as a JSON object.
    pub fn to_json(&self) -> (j: Json)
        ensures
            j@ == request_json(self@),
    {
        let mut j = Json::object();
        j.insert("jsonrpc", Json::string(self.jsonrpc.as_str()));
        j.insert("method", Json::string(self.method.as_str()));
        j.insert("id", self.id.clone());
        match &self.params {
            Some(p) => {
                j.insert("params", p.clone());
            },
            None => {},
        }
        j
    }

    /// Reads a request from a JSON value.
    pub fn from_json(j: &Json) -> (r: Option<MCPRequest>)
        ensures
            r is Some <==> request_of_json(j@) is Some,
            r matches Some(req) ==> request_of_json(j@) == Some(req@),
    {
        let jsonrpc = match j.text_field("jsonrpc") {
            Field::Present(t) => t,
            _ => {
                return None;
            },
        };
        let method = match j.text_field("method") {
            Field::Present(t) => t,
            _ => {
                return None;
            },
        };
        let id = match j.get("id") {
            Some(v) => v.clone(),
            None => {
                return None;
            },
        };
        let params = j.value_field("params");
        Some(MCPRequest { jsonrpc, method, id, params })
    }
}

/// A response: the id of the request it answers, and a result or an error.
#[derive(Debug)]
pub struct MCPResponse {
    pub jsonrpc: String,
    pub id: Json,
    pub result: Option<Json>,
    pub error: Option<Json>,
}

pub ghost struct MCPResponseView {
    pub jsonrpc: Seq<char>,
    pub id: JsonView,
    pub result: Option<JsonView>,
    pub error: Option<JsonView>,
}

impl View for MCPResponse {
    type V = MCPResponseView;

    open spec fn view(&self) -> MCPResponseView {
        MCPResponseView {
            jsonrpc: self.jsonrpc@,
            id: self.id@,
            result: opt_json(self.result),
            error: opt_json(self.error),
        }
    }
}

/// A response as a JSON object: `jsonrpc`, `id`, and `result` and `error`
/// where there is one.
pub open spec fn response_json(r: MCPResponseView) -> JsonView {
    let base = Map::<Seq<char>, JsonView>::empty().insert(
        "jsonrpc"@,
        JsonView::String(r.jsonrpc),
    ).insert("id"@, r.id);
    let with_result = match r.result {
        Some(v) => base.insert("result"@, v),
        None => base,
    };
    JsonView::Object(
        match r.error {
            Some(v) => with_result.insert("error"@, v),
            None => with_result,
        },
    )
}

/// The response that a JSON value is: an object with a text under `jsonrpc`
/// and any value under `id`; `result` and `error` may be missing or `null`.
pub open spec fn response_of_json(j: JsonView) -> Option<MCPResponseView> {
    match (text_field(j, "jsonrpc"@), member(j, "id"@)) {
        (Field::Present(jsonrpc), Some(id)) => Some(
            MCPResponseView {
                jsonrpc,
                id,
                result: value_field(j, "result"@),
                error: value_field(j, "error"@),
            },
        ),
        _ => None,
    }
}

impl MCPResponse {
    /// A response to the request with the given id.
    pub fn new(id: Json, result: Option<Json>, error: Option<Json>) -> (r: MCPResponse)
        ensures
            r@ == (MCPResponseView {
                jsonrpc: JSONRPC_VERSION@,
                id: id@,
                result: opt_json(result),
                error: opt_json(error),
            }),
    {
        MCPResponse { jsonrpc: JSONRPC_VERSION.to_owned(), id, result, error }
    }

    /// The response as a JSON object.
    pub fn to_json(&self) -> (j: Json)
        ensures
            j@ == response_json(self@),
    {
        let mut j = Json::object();
        j.insert("jsonrpc", Json::string(self.jsonrpc.as_str()));
        j.insert("id", self.id.clone());
        match &self.result {
            Some(v) => {
                j.insert("result", v.clone());
            },
            None => {},
        }
        match &self.error {
            Some(v) => {
                j.insert("error", v.clone());
            },
            None => {},
        }
        j
    }

    /// Reads a response from a JSON value.
    pub fn from_json(j: &Json) -> (r: Option<MCPResponse>)
        ensures
            r is Some <==> response_of_json(j@) is Some,
            r matches Some(resp) ==> response_of_json(j@) == Some(resp@),
    {
        let jsonrpc = match j.text_field("jsonrpc") {
            Field::Present(t) => t,
            _ => {
                return None;
            },
        };
        let id = match j.get("id") {
            Some(v) => v.clone(),
            None => {
                return None;
            },
        };
        let result = j.value_field("result");
        let error = j.value_field("error");
        Some(MCPResponse { jsonrpc, id, result, error })
    }
}

/// A notification: a request without an id, which gets no response.
#[derive(Debug)]
pub struct MCPNotification {
    pub jsonrpc: String,
    pub method: String,
    pub params: Option<Json>,
}

pub ghost struct MCPNotificationView {
    pub jsonrpc: Seq<char>,
    pub method: Seq<char>,
    pub params: Option<JsonView>,
}

impl View for MCPNotification {
    type V = MCPNotificationView;

    open spec fn view(&self) -> MCPNotificationView {
        MCPNotificationView {
            jsonrpc: self.jsonrpc@,
            method: self.method@,
            params: opt_json(self.params),
        }
    }
}

/// A notification as a JSON object: `jsonrpc`, `method`, and `params`, which
/// is `null` where there are none.
pub open spec fn notification_json(n: MCPNotificationView) -> JsonView {
    JsonView::Object(
        Map::<Seq<char>, JsonView>::empty().insert("jsonrpc"@, JsonView::String(n.jsonrpc)).insert(
            "method"@,
            JsonView::String(n.method),
        ).insert(
            "params"@,
            match n.params {
                Some(p) => p,
                None => JsonView::Null,
            },
        ),
    )
}

/// The notification that a JSON value is: an object with texts under
/// `jsonrpc` and `method`; `params` may be missing or `null`.
pub open spec fn notification_of_json(j: JsonView) -> Option<MCPNotificationView> {
    match (text_field(j, "jsonrpc"@), text_field(j, "method"@)) {
        (Field::Present(jsonrpc), Field::Present(method)) => Some(
            MCPNotificationView { jsonrpc, method, params: value_field(j, "params"@) },
        ),
        _ => None,
    }
}

impl MCPNotification {
    /// The notification that tells a server that the client is ready.
    pub fn initialized() -> (n: MCPNotification)
        ensures
            n@ == (MCPNotificationView {
                jsonrpc: JSONRPC_VERSION@,
                method: "notifications/initialized"@,
                params: None,
            }),
    {
        MCPNotification {
            jsonrpc: JSONRPC_VERSION.to_owned(),
            method: "notifications/initialized".to_owned(),
            params: None,
        }
    }

    /// The notification as a JSON object.
    pub fn to_json(&self) -> (j: Json)
        ensures
            j@ == notification_json(self@),
    {
        let mut j = Json::object();
        j.insert("jsonrpc", Json::string(self.jsonrpc.as_str()));
        j.insert("method", Json::string(self.method.as_str()));
        match &self.params {
            Some(p) => {
                j.insert("params", p.clone());
            },
            None => {
                j.insert("params", Json::Null);
            },
        }
        j
    }

    /// Reads a notification from a JSON value.
    pub fn from_json(j: &Json) -> (r: Option<MCPNotification>)
        ensures
            r is Some <==> notification_of_json(j@) is Some,
            r matches Some(n) ==> notification_of_json(j@) == Some(n@),
    {
        let jsonrpc = match j.text_field("jsonrpc") {
            Field::Present(t) => t,
            _ => {
                return None;
            },
        };
        let method = match j.text_field("method") {
            Field::Present(t) => t,
            _ => {
                return None;
            },
        };
        let params = j.value_field("params");
        Some(MCPNotification { jsonrpc, method, params })
    }
}

/// The keys of the envelopes are pairwise different texts.
pub proof fn lemma_envelope_keys_differ()
    ensures
        "jsonrpc"@ != "method"@,
        "jsonrpc"@ != "id"@,
        "jsonrpc"@ != "params"@,
        "jsonrpc"@ != "result"@,
        "jsonrpc"@ != "error"@,
        "method"@ != "id"@,
        "method"@ != "params"@,
        "id"@ != "params"@,
        "id"@ != "result"@,
        "id"@ != "error"@,
        "result"@ != "error"@,
{
    reveal_strlit("jsonrpc");
    reveal_strlit("method");
    reveal_strlit("id");
    reveal_strlit("params");
    reveal_strlit("result");
    reveal_strlit("error");
    assert("jsonrpc"@.len() == 7);
    assert("method"@.len() == 6);
    assert("id"@.len() == 2);
    assert("params"@.len() == 6);
    assert("result"@.len() == 6);
    assert("error"@.len() == 5);
    assert("method"@[0] != "params"@[0]);
}

/// Writing a request as a JSON object and reading the object back gives the
/// same method, id and parameters. (Parameters that are `null` are the one
/// exception: they read back as no parameters.)
pub proof fn lemma_request_round_trip(r: MCPRequestView)
    requires
        r.params != Some(JsonView::Null),
    ensures
        request_of_json(request_json(r)) == Some(r),
{
    lemma_envelope_keys_differ();
}

/// Writing a response as a JSON object and reading the object back gives the
/// same id, result and error, as long as neither of the two is `null`.
pub proof fn lemma_response_round_trip(r: MCPResponseView)
    requires
        r.result != Some(JsonView::Null),
        r.error != Some(JsonView::Null),
    ensures
        response_of_json(response_json(r)) == Some(r),
{
    lemma_envelope_keys_differ();
}

/// Writing a notification as a JSON object and reading the object back gives
/// the same method and parameters.
pub proof fn lemma_notification_round_trip(n: MCPNotificationView)
    requires
        n.params != Some(JsonView::Null),
    ensures
        notification_of_json(notification_json(n)) == Some(n),
{
    lemma_envelope_keys_differ();
}

} // verus!
