//! One logical connection to a server: what its responses mean, and the
//! cache of the definitions it has listed.
//!
//! Nothing here sends or receives. A caller builds a request, hands it to a
//! transport, and brings the response back to be read here.
use vstd::prelude::*;
use crate::codec::{json_pretty_text, json_text, stored, to_pretty_text, to_text};
use crate::collections::{
    StringMap, distinct_keys, entry_views, index_of, lemma_index_of, lemma_with_entry,
    lemma_with_entry_views, lookup, with_entry,
};
use crate::definitions::{
    MCPPromptDefinition, MCPPromptDefinitionView, MCPPromptResult, MCPPromptResultView,
    MCPResourceContent, MCPResourceContentView, MCPResourceDefinition, MCPResourceDefinitionView,
    MCPToolDefinition, MCPToolDefinitionView, content_of_json, prompt_of_json,
    prompt_result_of_json, resource_of_json, tool_of_json,
};
use crate::error::{
    NahError, NahErrorView, invalid_response, invalid_value, server_error,
};
use crate::json::{Json, JsonView, array_member, items_view, views};
use crate::protocol::{MCPResponse, MCPResponseView};
use crate::text::concat;

verus! {

/// The error that a response without a usable result stands for: the
/// server's own error in compact JSON, or `unknown error` where the response
/// has neither a result nor an error.
pub open spec fn response_error(server_name: Seq<char>, r: MCPResponseView) -> NahErrorView {
    match r.error {
        Some(e) => server_error(server_name, json_text(stored(e))),
        None => server_error(server_name, "unknown error"@),
    }
}

/// The error that a list response without a result stands for: the server's
/// own error in indented JSON, or `unknown error` where the response has
/// neither a result nor an error.
pub open spec fn list_error(server_name: Seq<char>, r: MCPResponseView) -> NahErrorView {
    match r.error {
        Some(e) => server_error(server_name, json_pretty_text(stored(e))),
        None => server_error(server_name, "unknown error"@),
    }
}

/// The error that a response without a usable result stands for.
pub fn parse_response_error(server_name: &str, response: &MCPResponse) -> (e: NahError)
    ensures
        e@ == response_error(server_name@, response@),
{
    match &response.error {
        Some(err) => {
            let text = to_text(err);
            NahError::mcp_server_error(server_name, text.as_str(), None)
        },
        None => NahError::mcp_server_error(server_name, "unknown error", None),
    }
}

fn parse_list_error(server_name: &str, response: &MCPResponse) -> (e: NahError)
    ensures
        e@ == list_error(server_name@, response@),
{
    match &response.error {
        Some(err) => {
            let text = to_pretty_text(err);
            NahError::mcp_server_error(server_name, text.as_str(), None)
        },
        None => NahError::mcp_server_error(server_name, "unknown error", None),
    }
}

/// The tools that a list of JSON values are, where every one is well-formed.
pub open spec fn tools_of_json(items: Seq<JsonView>) -> Option<Seq<MCPToolDefinitionView>>
    decreases items.len(),
{
    if items.len() == 0 {
        Some(Seq::empty())
    } else {
        match (tools_of_json(items.drop_last()), tool_of_json(items.last())) {
            (Some(rest), Some(last)) => Some(rest.push(last)),
            _ => None,
        }
    }
}

proof fn lemma_tools_fail(items: Seq<JsonView>, k: int)
    requires
        0 <= k <= items.len(),
        tools_of_json(items.take(k)) is None,
    ensures
        tools_of_json(items) is None,
    decreases items.len() - k,
{
    if k < items.len() {
        assert(items.drop_last().take(k) =~= items.take(k));
        lemma_tools_fail(items.drop_last(), k);
    } else {
        assert(items.take(k) =~= items);
    }
}

/// What a response to `tools/list` holds: the tools under `tools` of its
/// result. One malformed tool makes the whole response invalid.
pub open spec fn tools_list_of_response(server_name: Seq<char>, r: MCPResponseView) -> Result<
    Seq<MCPToolDefinitionView>,
    NahErrorView,
> {
    match r.result {
        None => Err(list_error(server_name, r)),
        Some(result) => match array_member(result, "tools"@) {
            None => Err(invalid_response(server_name, None)),
            Some(items) => match tools_of_json(items) {
                Some(tools) => Ok(tools),
                None => Err(invalid_response(server_name, None)),
            },
        },
    }
}

fn read_tools(items: &Vec<Json>) -> (r: Option<Vec<MCPToolDefinition>>)
    ensures
        r is Some <==> tools_of_json(items_view(items@)) is Some,
        r matches Some(v) ==> tools_of_json(items_view(items@)) == Some(views(v@)),
{
    let mut out: Vec<MCPToolDefinition> = Vec::new();
    let mut i: usize = 0;
    assert(items_view(items@).take(0) =~= Seq::empty());
    assert(views(out@) =~= Seq::empty());
    while i < items.len()
        invariant
            i <= items.len(),
            tools_of_json(items_view(items@).take(i as int)) == Some(views(out@)),
        decreases items.len() - i,
    {
        let ghost done = items_view(items@).take(i + 1);
        proof {
            assert(done.drop_last() =~= items_view(items@).take(i as int));
            assert(done.last() == items@[i as int]@);
        }
        match MCPToolDefinition::from_json(&items[i]) {
            Some(t) => {
                let ghost before = views(out@);
                out.push(t);
                assert(views(out@) =~= before.push(t@));
            },
            None => {
                proof {
                    lemma_tools_fail(items_view(items@), i + 1);
                }
                return None;
            },
        }
        i = i + 1;
    }
    assert(items_view(items@).take(items.len() as int) =~= items_view(items@));
    Some(out)
}

/// Reads the tools that a response to `tools/list` holds.
pub fn parse_tools_list_from_response(server_name: &str, response: MCPResponse) -> (r: Result<
    Vec<MCPToolDefinition>,
    NahError,
>)
    ensures
        match tools_list_of_response(server_name@, response@) {
            Ok(tools) => r matches Ok(v) && views(v@) == tools,
            Err(e) => r matches Err(x) && x@ == e,
        },
{
    match &response.result {
        None => Err(parse_list_error(server_name, &response)),
        Some(result) => match result.array_member("tools") {
            None => Err(NahError::mcp_server_invalid_response(server_name, None)),
            Some(items) => match read_tools(items) {
                Some(tools) => Ok(tools),
                None => Err(NahError::mcp_server_invalid_response(server_name, None)),
            },
        },
    }
}

/// The resources of a list of JSON values that are well-formed and have what
/// `keep` asks for; the others are left out.
pub open spec fn resources_of_json(
    items: Seq<JsonView>,
    keep: spec_fn(MCPResourceDefinitionView) -> bool,
) -> Seq<MCPResourceDefinitionView>
    decreases items.len(),
{
    if items.len() == 0 {
        Seq::empty()
    } else {
        let rest = resources_of_json(items.drop_last(), keep);
        match resource_of_json(items.last()) {
            Some(r) => if keep(r) {
                rest.push(r)
            } else {
                rest
            },
            None => rest,
        }
    }
}

/// Whether a resource is a direct one: it has a URI.
pub open spec fn is_direct(r: MCPResourceDefinitionView) -> bool {
    r.uri is Some
}

/// Whether a resource is a template: it has a URI template.
pub open spec fn is_template(r: MCPResourceDefinitionView) -> bool {
    r.uri_template is Some
}

/// What a response to a resource list request holds: the well-formed
/// resources under `key` of its result that have what `keep` asks for.
pub open spec fn resources_of_response(
    server_name: Seq<char>,
    r: MCPResponseView,
    key: Seq<char>,
    keep: spec_fn(MCPResourceDefinitionView) -> bool,
) -> Result<Seq<MCPResourceDefinitionView>, NahErrorView> {
    match r.result {
        None => Err(response_error(server_name, r)),
        Some(result) => match array_member(result, key) {
            None => Err(invalid_response(server_name, None)),
            Some(items) => Ok(resources_of_json(items, keep)),
        },
    }
}

fn read_definitions(items: &Vec<Json>, templates: bool) -> (r: Vec<MCPResourceDefinition>)
    ensures
        views(r@) == resources_of_json(
            items_view(items@),
            if templates {
                |d: MCPResourceDefinitionView| is_template(d)
            } else {
                |d: MCPResourceDefinitionView| is_direct(d)
            },
        ),
{
    let ghost keep = if templates {
        |d: MCPResourceDefinitionView| is_template(d)
    } else {
        |d: MCPResourceDefinitionView| is_direct(d)
    };
    let mut out: Vec<MCPResourceDefinition> = Vec::new();
    let mut i: usize = 0;
    assert(items_view(items@).take(0) =~= Seq::empty());
    assert(views(out@) =~= Seq::empty());
    while i < items.len()
        invariant
            i <= items.len(),
            keep == if templates {
                |d: MCPResourceDefinitionView| is_template(d)
            } else {
                |d: MCPResourceDefinitionView| is_direct(d)
            },
            resources_of_json(items_view(items@).take(i as int), keep) == views(out@),
        decreases items.len() - i,
    {
        let ghost done = items_view(items@).take(i + 1);
        proof {
            assert(done.drop_last() =~= items_view(items@).take(i as int));
            assert(done.last() == items@[i as int]@);
        }
        match MCPResourceDefinition::from_json(&items[i]) {
            Some(d) => {
                let wanted = if templates {
                    d.uri_template.is_some()
                } else {
                    d.uri.is_some()
                };
                if wanted {
                    let ghost before = views(out@);
                    out.push(d);
                    assert(views(out@) =~= before.push(d@));
                }
            },
            None => {},
        }
        i = i + 1;
    }
    assert(items_view(items@).take(items.len() as int) =~= items_view(items@));
    out
}

/// Reads the direct resources that a response to `resources/list` holds. An
/// entry that is malformed or has no URI is left out.
pub fn parse_resources_list(server_name: &str, response: MCPResponse) -> (r: Result<
    Vec<MCPResourceDefinition>,
    NahError,
>)
    ensures
        match resources_of_response(
            server_name@,
            response@,
            "resources"@,
            |d: MCPResourceDefinitionView| is_direct(d),
        ) {
            Ok(resources) => r matches Ok(v) && views(v@) == resources,
            Err(e) => r matches Err(x) && x@ == e,
        },
{
    match &response.result {
        None => Err(parse_response_error(server_name, &response)),
        Some(result) => match result.array_member("resources") {
            None => Err(NahError::mcp_server_invalid_response(server_name, None)),
            Some(items) => Ok(read_definitions(items, false)),
        },
    }
}

/// Reads the resource templates that a response to
/// `resources/templates/list` holds. An entry that is malformed or has no
/// URI template is left out.
pub fn parse_resource_templates_list(server_name: &str, response: MCPResponse) -> (r: Result<
    Vec<MCPResourceDefinition>,
    NahError,
>)
    ensures
        match resources_of_response(
            server_name@,
            response@,
            "resourceTemplates"@,
            |d: MCPResourceDefinitionView| is_template(d),
        ) {
            Ok(resources) => r matches Ok(v) && views(v@) == resources,
            Err(e) => r matches Err(x) && x@ == e,
        },
{
    match &response.result {
        None => Err(parse_response_error(server_name, &response)),
        Some(result) => match result.array_member("resourceTemplates") {
            None => Err(NahError::mcp_server_invalid_response(server_name, None)),
            Some(items) => Ok(read_definitions(items, true)),
        },
    }
}

/// The prompts of a list of JSON values that are well-formed; the others are
/// left out.
pub open spec fn prompts_of_json(items: Seq<JsonView>) -> Seq<MCPPromptDefinitionView>
    decreases items.len(),
{
    if items.len() == 0 {
        Seq::empty()
    } else {
        let rest = prompts_of_json(items.drop_last());
        match prompt_of_json(items.last()) {
            Some(p) => rest.push(p),
            None => rest,
        }
    }
}

/// What a response to `prompts/list` holds.
pub open spec fn prompts_of_response(server_name: Seq<char>, r: MCPResponseView) -> Result<
    Seq<MCPPromptDefinitionView>,
    NahErrorView,
> {
    match r.result {
        None => Err(list_error(server_name, r)),
        Some(result) => match array_member(result, "prompts"@) {
            None => Err(invalid_response(server_name, None)),
            Some(items) => Ok(prompts_of_json(items)),
        },
    }
}

fn read_prompts(items: &Vec<Json>) -> (r: Vec<MCPPromptDefinition>)
    ensures
        views(r@) == prompts_of_json(items_view(items@)),
{
    let mut out: Vec<MCPPromptDefinition> = Vec::new();
    let mut i: usize = 0;
    assert(items_view(items@).take(0) =~= Seq::empty());
    assert(views(out@) =~= Seq::empty());
    while i < items.len()
        invariant
            i <= items.len(),
            prompts_of_json(items_view(items@).take(i as int)) == views(out@),
        decreases items.len() - i,
    {
        let ghost done = items_view(items@).take(i + 1);
        proof {
            assert(done.drop_last() =~= items_view(items@).take(i as int));
            assert(done.last() == items@[i as int]@);
        }
        match MCPPromptDefinition::from_json(&items[i]) {
            Some(p) => {
                let ghost before = views(out@);
                out.push(p);
                assert(views(out@) =~= before.push(p@));
            },
            None => {},
        }
        i = i + 1;
    }
    assert(items_view(items@).take(items.len() as int) =~= items_view(items@));
    out
}

/// Reads the prompts that a response to `prompts/list` holds. A malformed
/// entry is left out.
pub fn parse_prompts_list(server_name: &str, response: MCPResponse) -> (r: Result<
    Vec<MCPPromptDefinition>,
    NahError,
>)
    ensures
        match prompts_of_response(server_name@, response@) {
            Ok(prompts) => r matches Ok(v) && views(v@) == prompts,
            Err(e) => r matches Err(x) && x@ == e,
        },
{
    match &response.result {
        None => Err(parse_list_error(server_name, &response)),
        Some(result) => match result.array_member("prompts") {
            None => Err(NahError::mcp_server_invalid_response(server_name, None)),
            Some(items) => Ok(read_prompts(items)),
        },
    }
}

/// The contents of a list of JSON values that are well-formed and carry a
/// payload, as text or as a blob; the others are left out.
pub open spec fn contents_of_json(items: Seq<JsonView>) -> Seq<MCPResourceContentView>
    decreases items.len(),
{
    if items.len() == 0 {
        Seq::empty()
    } else {
        let rest = contents_of_json(items.drop_last());
        match content_of_json(items.last()) {
            Some(c) => if c.text is Some || c.blob is Some {
                rest.push(c)
            } else {
                rest
            },
            None => rest,
        }
    }
}

/// What a response to `resources/read` holds.
pub open spec fn contents_of_response(server_name: Seq<char>, r: MCPResponseView) -> Result<
    Seq<MCPResourceContentView>,
    NahErrorView,
> {
    match r.result {
        None => Err(response_error(server_name, r)),
        Some(result) => match array_member(result, "contents"@) {
            None => Err(response_error(server_name, r)),
            Some(items) => Ok(contents_of_json(items)),
        },
    }
}

fn read_contents(items: &Vec<Json>) -> (r: Vec<MCPResourceContent>)
    ensures
        views(r@) == contents_of_json(items_view(items@)),
{
    let mut out: Vec<MCPResourceContent> = Vec::new();
    let mut i: usize = 0;
    assert(items_view(items@).take(0) =~= Seq::empty());
    assert(views(out@) =~= Seq::empty());
    while i < items.len()
        invariant
            i <= items.len(),
            contents_of_json(items_view(items@).take(i as int)) == views(out@),
        decreases items.len() - i,
    {
        let ghost done = items_view(items@).take(i + 1);
        proof {
            assert(done.drop_last() =~= items_view(items@).take(i as int));
            assert(done.last() == items@[i as int]@);
        }
        match MCPResourceContent::from_json(&items[i]) {
            Some(c) => {
                if c.has_payload() {
                    let ghost before = views(out@);
                    out.push(c);
                    assert(views(out@) =~= before.push(c@));
                }
            },
            None => {},
        }
        i = i + 1;
    }
    assert(items_view(items@).take(items.len() as int) =~= items_view(items@));
    out
}

/// Reads the contents that a response to `resources/read` holds. An entry
/// that is malformed or carries neither text nor a blob is left out.
pub fn read_resources(server_name: &str, response: MCPResponse) -> (r: Result<
    Vec<MCPResourceContent>,
    NahError,
>)
    ensures
        match contents_of_response(server_name@, response@) {
            Ok(contents) => r matches Ok(v) && views(v@) == contents,
            Err(e) => r matches Err(x) && x@ == e,
        },
{
    match &response.result {
        None => Err(parse_response_error(server_name, &response)),
        Some(result) => match result.array_member("contents") {
            None => Err(parse_response_error(server_name, &response)),
            Some(items) => Ok(read_contents(items)),
        },
    }
}

/// Reads the outcome of `tools/call`: the raw result, or the error that the
/// response stands for.
pub fn call_tool(server_name: &str, response: MCPResponse) -> (r: Result<Json, NahError>)
    ensures
        match response@.result {
            Some(result) => r matches Ok(j) && j@ == result,
            None => r matches Err(e) && e@ == response_error(server_name@, response@),
        },
{
    let e = parse_response_error(server_name, &response);
    match response.result {
        Some(result) => Ok(result),
        None => Err(e),
    }
}

/// What a response to `prompts/get` holds.
pub open spec fn prompt_content_of_response(server_name: Seq<char>, r: MCPResponseView) -> Result<
    MCPPromptResultView,
    NahErrorView,
> {
    match r.result {
        None => Err(response_error(server_name, r)),
        Some(result) => match prompt_result_of_json(result) {
            Some(p) => Ok(p),
            None => Err(invalid_response(server_name, None)),
        },
    }
}

/// Reads the outcome of `prompts/get`: the description and the messages in
/// order.
pub fn get_prompt_content(server_name: &str, response: MCPResponse) -> (r: Result<
    MCPPromptResult,
    NahError,
>)
    ensures
        match prompt_content_of_response(server_name@, response@) {
            Ok(p) => r matches Ok(v) && v@ == p,
            Err(e) => r matches Err(x) && x@ == e,
        },
{
    match &response.result {
        None => Err(parse_response_error(server_name, &response)),
        Some(result) => match MCPPromptResult::from_json(result) {
            Some(p) => Ok(p),
            None => Err(NahError::mcp_server_invalid_response(server_name, None)),
        },
    }
}

/// How long a receive waits for a line, unless a session is told otherwise.
pub const DEFAULT_TIMEOUT_MS: u64 = 5000;

/// The answer to a lookup in a cache of definitions.
pub enum Lookup<'a, T> {
    /// The definition is in the cache.
    Found(&'a T),
    /// The definition is not in the cache, and the list has not been fetched
    /// for this lookup yet: fetch it, then look again.
    Refresh,
    /// The definition is not there even after the list was fetched.
    Missing(NahError),
}

/// The cache entries that a list of tools makes: each tool under its name, a
/// later tool replacing an earlier one of the same name.
pub open spec fn tool_entries(tools: Seq<MCPToolDefinitionView>) -> Seq<
    (Seq<char>, MCPToolDefinitionView),
>
    decreases tools.len(),
{
    if tools.len() == 0 {
        Seq::empty()
    } else {
        with_entry(tool_entries(tools.drop_last()), tools.last().name, tools.last())
    }
}

/// The cache entries that a list of direct resources makes: each resource
/// under its URI.
pub open spec fn resource_entries(resources: Seq<MCPResourceDefinitionView>) -> Seq<
    (Seq<char>, MCPResourceDefinitionView),
>
    decreases resources.len(),
{
    if resources.len() == 0 {
        Seq::empty()
    } else {
        let rest = resource_entries(resources.drop_last());
        match resources.last().uri {
            Some(uri) => with_entry(rest, uri, resources.last()),
            None => rest,
        }
    }
}

/// The cache entries that a list of prompts makes: each prompt under its
/// name.
pub open spec fn prompt_entries(prompts: Seq<MCPPromptDefinitionView>) -> Seq<
    (Seq<char>, MCPPromptDefinitionView),
>
    decreases prompts.len(),
{
    if prompts.len() == 0 {
        Seq::empty()
    } else {
        with_entry(prompt_entries(prompts.drop_last()), prompts.last().name, prompts.last())
    }
}

/// Whether every entry of a tool cache stands under the name of its tool.
pub open spec fn tools_by_name(entries: Seq<(Seq<char>, MCPToolDefinitionView)>) -> bool {
    forall|i: int| 0 <= i < entries.len() ==> (#[trigger] entries[i]).1.name == entries[i].0
}

/// Whether every entry of a resource cache stands under the URI of its
/// resource.
pub open spec fn resources_by_uri(entries: Seq<(Seq<char>, MCPResourceDefinitionView)>) -> bool {
    forall|i: int| 0 <= i < entries.len() ==> (#[trigger] entries[i]).1.uri == Some(entries[i].0)
}

/// Whether every entry of a prompt cache stands under the name of its
/// prompt.
pub open spec fn prompts_by_name(entries: Seq<(Seq<char>, MCPPromptDefinitionView)>) -> bool {
    forall|i: int| 0 <= i < entries.len() ==> (#[trigger] entries[i]).1.name == entries[i].0
}

/// The cache entries made from a list of tools stand each under the name of
/// its tool, and hold every listed name.
pub proof fn lemma_tool_entries_by_name(tools: Seq<MCPToolDefinitionView>)
    ensures
        tools_by_name(tool_entries(tools)),
        distinct_keys(tool_entries(tools)),
        forall|i: int| 0 <= i < tools.len() ==> lookup(tool_entries(tools), tools[i].name) is Some,
        tools.len() > 0 ==> lookup(tool_entries(tools), tools.last().name) == Some(tools.last()),
    decreases tools.len(),
{
    if tools.len() > 0 {
        let rest = tools.drop_last();
        let last = tools.last();
        lemma_tool_entries_by_name(rest);
        lemma_index_of(tool_entries(rest), last.name);
        lemma_with_entry(tool_entries(rest), last.name, last);
        assert forall|i: int| 0 <= i < tools.len() implies lookup(
            tool_entries(tools),
            tools[i].name,
        ) is Some by {
            if i < rest.len() && tools[i].name != last.name {
                assert(rest[i] == tools[i]);
            }
        }
    }
}

/// The cache entries made from a list of direct resources stand each under
/// the URI of its resource.
pub proof fn lemma_resource_entries_by_uri(resources: Seq<MCPResourceDefinitionView>)
    ensures
        resources_by_uri(resource_entries(resources)),
        distinct_keys(resource_entries(resources)),
        forall|i: int|
            0 <= i < resources.len() && resources[i].uri is Some ==> lookup(
                resource_entries(resources),
                resources[i].uri->Some_0,
            ) is Some,
    decreases resources.len(),
{
    if resources.len() > 0 {
        let rest = resources.drop_last();
        let last = resources.last();
        lemma_resource_entries_by_uri(rest);
        match last.uri {
            Some(uri) => {
                lemma_index_of(resource_entries(rest), uri);
                lemma_with_entry(resource_entries(rest), uri, last);
            },
            None => {},
        }
        assert forall|i: int| 0 <= i < resources.len() && resources[i].uri is Some implies lookup(
            resource_entries(resources),
            resources[i].uri->Some_0,
        ) is Some by {
            if i < rest.len() {
                assert(rest[i] == resources[i]);
            }
        }
    }
}

/// The cache entries made from a list of prompts stand each under the name
/// of its prompt, and hold every listed name.
pub proof fn lemma_prompt_entries_by_name(prompts: Seq<MCPPromptDefinitionView>)
    ensures
        prompts_by_name(prompt_entries(prompts)),
        distinct_keys(prompt_entries(prompts)),
        forall|i: int|
            0 <= i < prompts.len() ==> lookup(prompt_entries(prompts), prompts[i].name) is Some,
        prompts.len() > 0 ==> lookup(prompt_entries(prompts), prompts.last().name) == Some(
            prompts.last(),
        ),
    decreases prompts.len(),
{
    if prompts.len() > 0 {
        let rest = prompts.drop_last();
        let last = prompts.last();
        lemma_prompt_entries_by_name(rest);
        lemma_index_of(prompt_entries(rest), last.name);
        lemma_with_entry(prompt_entries(rest), last.name, last);
        assert forall|i: int| 0 <= i < prompts.len() implies lookup(
            prompt_entries(prompts),
            prompts[i].name,
        ) is Some by {
            if i < rest.len() && prompts[i].name != last.name {
                assert(rest[i] == prompts[i]);
            }
        }
    }
}

/// One logical connection to a server: its name, how long a receive may
/// wait, and the definitions that the server has listed.
#[derive(Debug)]
pub struct ServerSession {
    pub server_name: String,
    pub timeout_ms: u64,
    pub tool_cache: StringMap<MCPToolDefinition>,
    pub resource_cache: StringMap<MCPResourceDefinition>,
    pub prompt_cache: StringMap<MCPPromptDefinition>,
}

fn tool_map(tools: Vec<MCPToolDefinition>) -> (m: StringMap<MCPToolDefinition>)
    ensures
        entry_views(m.entries()) == tool_entries(views(tools@)),
{
    let mut m: StringMap<MCPToolDefinition> = StringMap::new();
    let ghost all = views(tools@);
    assert(entry_views(m.entries()) =~= tool_entries(all.take(0)));
    for tool in it: tools
        invariant
            all == views(it.seq()),
            entry_views(m.entries()) == tool_entries(all.take(it.index() as int)),
    {
        proof {
            assert(all.take(it.index() + 1).drop_last() =~= all.take(it.index() as int));
            lemma_with_entry_views(m.entries(), tool.name@, tool);
        }
        let key = tool.name.clone();
        m.insert(key, tool);
    }
    assert(all.take(all.len() as int) =~= all);
    m
}

fn resource_map(resources: Vec<MCPResourceDefinition>) -> (m: StringMap<MCPResourceDefinition>)
    ensures
        entry_views(m.entries()) == resource_entries(views(resources@)),
{
    let mut m: StringMap<MCPResourceDefinition> = StringMap::new();
    let ghost all = views(resources@);
    assert(entry_views(m.entries()) =~= resource_entries(all.take(0)));
    for resource in it: resources
        invariant
            all == views(it.seq()),
            entry_views(m.entries()) == resource_entries(all.take(it.index() as int)),
    {
        proof {
            assert(all.take(it.index() + 1).drop_last() =~= all.take(it.index() as int));
        }
        let key = match &resource.uri {
            Some(uri) => Some(uri.clone()),
            None => None,
        };
        match key {
            Some(uri) => {
                proof {
                    lemma_with_entry_views(m.entries(), uri@, resource);
                }
                m.insert(uri, resource);
            },
            None => {},
        }
    }
    assert(all.take(all.len() as int) =~= all);
    m
}

fn prompt_map(prompts: Vec<MCPPromptDefinition>) -> (m: StringMap<MCPPromptDefinition>)
    ensures
        entry_views(m.entries()) == prompt_entries(views(prompts@)),
{
    let mut m: StringMap<MCPPromptDefinition> = StringMap::new();
    let ghost all = views(prompts@);
    assert(entry_views(m.entries()) =~= prompt_entries(all.take(0)));
    for prompt in it: prompts
        invariant
            all == views(it.seq()),
            entry_views(m.entries()) == prompt_entries(all.take(it.index() as int)),
    {
        proof {
            assert(all.take(it.index() + 1).drop_last() =~= all.take(it.index() as int));
            lemma_with_entry_views(m.entries(), prompt.name@, prompt);
        }
        let key = prompt.name.clone();
        m.insert(key, prompt);
    }
    assert(all.take(all.len() as int) =~= all);
    m
}

impl ServerSession {
    /// Whether every definition in the three caches stands under its own
    /// key: a tool and a prompt under its name, a resource under its URI.
    pub open spec fn wf(&self) -> bool {
        &&& tools_by_name(entry_views(self.tool_cache.entries()))
        &&& resources_by_uri(entry_views(self.resource_cache.entries()))
        &&& prompts_by_name(entry_views(self.prompt_cache.entries()))
    }

    /// A session with empty caches and the default timeout.
    pub fn new(server_name: &str) -> (s: ServerSession)
        ensures
            s.wf(),
            s.server_name@ == server_name@,
            s.timeout_ms == DEFAULT_TIMEOUT_MS,
            s.tool_cache.entries().len() == 0,
            s.resource_cache.entries().len() == 0,
            s.prompt_cache.entries().len() == 0,
    {
        ServerSession {
            server_name: server_name.to_owned(),
            timeout_ms: DEFAULT_TIMEOUT_MS,
            tool_cache: StringMap::new(),
            resource_cache: StringMap::new(),
            prompt_cache: StringMap::new(),
        }
    }

    /// The name of the server.
    pub fn get_server_name(&self) -> (r: &str)
        ensures
            r@ == self.server_name@,
    {
        self.server_name.as_str()
    }

    /// Sets how long a receive waits from now on.
    pub fn set_timeout(&mut self, timeout_ms: u64)
        ensures
            old(self).wf() ==> final(self).wf(),
            final(self).timeout_ms == timeout_ms,
            final(self).server_name == old(self).server_name,
            final(self).tool_cache == old(self).tool_cache,
            final(self).resource_cache == old(self).resource_cache,
            final(self).prompt_cache == old(self).prompt_cache,
    {
        self.timeout_ms = timeout_ms;
    }

    /// Takes the response to `tools/list`: on success the tool cache holds
    /// exactly the listed tools, each under its name; on failure it stays as
    /// it was.
    pub fn fetch_tools(&mut self, response: MCPResponse) -> (r: Result<(), NahError>)
        ensures
            old(self).wf() ==> final(self).wf(),
            r is Ok ==> tools_by_name(entry_views(final(self).tool_cache.entries())),
            final(self).server_name == old(self).server_name,
            final(self).timeout_ms == old(self).timeout_ms,
            final(self).resource_cache == old(self).resource_cache,
            final(self).prompt_cache == old(self).prompt_cache,
            match tools_list_of_response(old(self).server_name@, response@) {
                Ok(tools) => r is Ok && entry_views(final(self).tool_cache.entries())
                    == tool_entries(tools),
                Err(e) => r matches Err(x) && x@ == e && final(self).tool_cache == old(
                    self,
                ).tool_cache,
            },
    {
        match parse_tools_list_from_response(self.server_name.as_str(), response) {
            Ok(tools) => {
                proof {
                    lemma_tool_entries_by_name(views(tools@));
                }
                self.tool_cache = tool_map(tools);
                Ok(())
            },
            Err(e) => Err(e),
        }
    }

    /// Looks a tool up by name. `refreshed` says whether the list of tools
    /// was fetched for this lookup already.
    pub fn get_tool_definition(&self, tool_name: &str, refreshed: bool) -> (r: Lookup<
        MCPToolDefinition,
    >)
        ensures
            self.wf() ==> (r matches Lookup::Found(x) ==> x@.name == tool_name@),
            match self.tool_cache.value_of(tool_name@) {
                Some(d) => r matches Lookup::Found(x) && *x == d,
                None => if refreshed {
                    r matches Lookup::Missing(e) && e@ == invalid_value(
                        "Invalid tool name: "@ + tool_name@,
                    )
                } else {
                    r is Refresh
                },
            },
    {
        proof {
            lemma_index_of(self.tool_cache.entries(), tool_name@);
            let at = index_of(self.tool_cache.entries(), tool_name@);
            if at >= 0 && self.wf() {
                assert(entry_views(self.tool_cache.entries())[at].0 == tool_name@);
            }
        }
        match self.tool_cache.get(tool_name) {
            Some(d) => Lookup::Found(d),
            None => {
                if refreshed {
                    let message = concat("Invalid tool name: ", tool_name);
                    Lookup::Missing(NahError::invalid_value(message.as_str(), None))
                } else {
                    Lookup::Refresh
                }
            },
        }
    }

    /// Takes the response to `resources/list`: on success the resource cache
    /// holds exactly the listed direct resources, each under its URI; on
    /// failure it stays as it was.
    pub fn fetch_resources_list(&mut self, response: MCPResponse) -> (r: Result<(), NahError>)
        ensures
            old(self).wf() ==> final(self).wf(),
            r is Ok ==> resources_by_uri(entry_views(final(self).resource_cache.entries())),
            final(self).server_name == old(self).server_name,
            final(self).timeout_ms == old(self).timeout_ms,
            final(self).tool_cache == old(self).tool_cache,
            final(self).prompt_cache == old(self).prompt_cache,
            match resources_of_response(
                old(self).server_name@,
                response@,
                "resources"@,
                |d: MCPResourceDefinitionView| is_direct(d),
            ) {
                Ok(resources) => r is Ok && entry_views(final(self).resource_cache.entries())
                    == resource_entries(resources),
                Err(e) => r matches Err(x) && x@ == e && final(self).resource_cache == old(
                    self,
                ).resource_cache,
            },
    {
        match parse_resources_list(self.server_name.as_str(), response) {
            Ok(resources) => {
                proof {
                    lemma_resource_entries_by_uri(views(resources@));
                }
                self.resource_cache = resource_map(resources);
                Ok(())
            },
            Err(e) => Err(e),
        }
    }

    /// Takes the response to `resources/templates/list`. Templates are not
    /// cached.
    pub fn fetch_resource_templates_list(&self, response: MCPResponse) -> (r: Result<
        Vec<MCPResourceDefinition>,
        NahError,
    >)
        ensures
            match resources_of_response(
                self.server_name@,
                response@,
                "resourceTemplates"@,
                |d: MCPResourceDefinitionView| is_template(d),
            ) {
                Ok(resources) => r matches Ok(v) && views(v@) == resources,
                Err(e) => r matches Err(x) && x@ == e,
            },
    {
        parse_resource_templates_list(self.server_name.as_str(), response)
    }

    /// Takes the response to `prompts/list`: on success the prompt cache
    /// holds exactly the listed prompts, each under its name; on failure it
    /// stays as it was.
    pub fn fetch_prompts_list(&mut self, response: MCPResponse) -> (r: Result<(), NahError>)
        ensures
            old(self).wf() ==> final(self).wf(),
            r is Ok ==> prompts_by_name(entry_views(final(self).prompt_cache.entries())),
            final(self).server_name == old(self).server_name,
            final(self).timeout_ms == old(self).timeout_ms,
            final(self).tool_cache == old(self).tool_cache,
            final(self).resource_cache == old(self).resource_cache,
            match prompts_of_response(old(self).server_name@, response@) {
                Ok(prompts) => r is Ok && entry_views(final(self).prompt_cache.entries())
                    == prompt_entries(prompts),
                Err(e) => r matches Err(x) && x@ == e && final(self).prompt_cache == old(
                    self,
                ).prompt_cache,
            },
    {
        match parse_prompts_list(self.server_name.as_str(), response) {
            Ok(prompts) => {
                proof {
                    lemma_prompt_entries_by_name(views(prompts@));
                }
                self.prompt_cache = prompt_map(prompts);
                Ok(())
            },
            Err(e) => Err(e),
        }
    }

    /// Looks a direct resource up by URI. `refreshed` says whether the list
    /// of resources was fetched for this lookup already.
    pub fn get_resources_definition(&self, uri: &str, refreshed: bool) -> (r: Lookup<
        MCPResourceDefinition,
    >)
        ensures
            self.wf() ==> (r matches Lookup::Found(x) ==> x@.uri == Some(uri@)),
            match self.resource_cache.value_of(uri@) {
                Some(d) => r matches Lookup::Found(x) && *x == d,
                None => if refreshed {
                    r matches Lookup::Missing(e) && e@ == invalid_value(
                        "Invalid resource uri: "@ + uri@,
                    )
                } else {
                    r is Refresh
                },
            },
    {
        proof {
            lemma_index_of(self.resource_cache.entries(), uri@);
            let at = index_of(self.resource_cache.entries(), uri@);
            if at >= 0 && self.wf() {
                assert(entry_views(self.resource_cache.entries())[at].0 == uri@);
            }
        }
        match self.resource_cache.get(uri) {
            Some(d) => Lookup::Found(d),
            None => {
                if refreshed {
                    let message = concat("Invalid resource uri: ", uri);
                    Lookup::Missing(NahError::invalid_value(message.as_str(), None))
                } else {
                    Lookup::Refresh
                }
            },
        }
    }

    /// Looks a prompt up by name. `refreshed` says whether the list of
    /// prompts was fetched for this lookup already.
    pub fn get_prompt_definition(&self, prompt_name: &str, refreshed: bool) -> (r: Lookup<
        MCPPromptDefinition,
    >)
        ensures
            self.wf() ==> (r matches Lookup::Found(x) ==> x@.name == prompt_name@),
            match self.prompt_cache.value_of(prompt_name@) {
                Some(d) => r matches Lookup::Found(x) && *x == d,
                None => if refreshed {
                    r matches Lookup::Missing(e) && e@ == invalid_value(
                        "Invalid prompt name: "@ + prompt_name@,
                    )
                } else {
                    r is Refresh
                },
            },
    {
        proof {
            lemma_index_of(self.prompt_cache.entries(), prompt_name@);
            let at = index_of(self.prompt_cache.entries(), prompt_name@);
            if at >= 0 && self.wf() {
                assert(entry_views(self.prompt_cache.entries())[at].0 == prompt_name@);
            }
        }
        match self.prompt_cache.get(prompt_name) {
            Some(d) => Lookup::Found(d),
            None => {
                if refreshed {
                    let message = concat("Invalid prompt name: ", prompt_name);
                    Lookup::Missing(NahError::invalid_value(message.as_str(), None))
                } else {
                    Lookup::Refresh
                }
            },
        }
    }
}

} // verus!
