//! Talking to the model endpoint: the body of a completion request, the
//! chunks of a streamed response, and the assembly of the assistant message
//! from them.
use vstd::prelude::*;
use crate::codec::{json_parse, parse};
use crate::collections::{StringMap, entry_views, lemma_with_entry_views, with_entry};
use crate::definitions::{MCPToolDefinition, MCPToolDefinitionView};
use crate::error::{NahError, NahErrorView, invalid_response};
use crate::json::{Json, JsonView, array_member, items_view, member, members_view};
use crate::message::{
    ChatMessage, ChatMessageView, ChatResponseChunk, ChatResponseChunkDelta,
    ChatResponseChunkDeltaView, apply_delta, delta_of_json, empty_message, message_json,
};
use crate::text::{
    concat, concat3, split, split_text, starts_with, strip_prefix, texts, trim, trimmed,
};

verus! {

/// What separates the name of a server from the name of one of its tools in
/// the name under which the model sees the tool.
pub const TOOL_NAME_SEPARATOR: &'static str = ".";

/// What begins a chunk of a streamed completion.
pub const CHUNK_PREFIX: &'static str = "data: ";

/// What begins the chunk that ends a streamed completion.
pub const DONE_CHUNK: &'static str = "data: [DONE]";

/// What separates the chunks of a streamed completion.
pub const CHUNK_SEPARATOR: &'static str = "\n\n";

/// How long to wait, in seconds, before a failed completion is asked for
/// again.
pub const RETRY_BACKOFF_SECONDS: u64 = 30;

/// Where the model is, which model it is, and how to talk to it.
#[derive(Debug)]
pub struct ModelConfig {
    pub base_url: String,
    pub model: String,
    pub auth_token: Option<String>,
    pub extra_params: Option<Json>,
    pub system_prompt: Option<String>,
}

/// The address of the completion endpoint below a base URL.
pub fn completion_endpoint(base_url: &str) -> (r: String)
    ensures
        r@ == base_url@ + "/chat/completions"@,
{
    concat(base_url, "/chat/completions")
}

/// The value of the authorization header for a bearer token.
pub fn bearer_header(token: &str) -> (r: String)
    ensures
        r@ == "Bearer "@ + token@,
{
    concat("Bearer ", token)
}

/// Whether an HTTP status says that a request succeeded.
pub open spec fn is_success(status: u16) -> bool {
    200 <= status < 300
}

/// What the endpoint's refusal of a completion is reported as: an error of
/// the model that carries the status and the body of the response.
pub open spec fn status_error(model: Seq<char>, status: u16, body: Seq<char>) -> NahErrorView {
    NahErrorView {
        code: 101,
        message: "Error from model "@ + model + ": "@
            + "Model server responded with error: HTTP status "@ + crate::text::decimal(
            status as nat,
        ) + ", error message = "@ + body,
        source: None,
    }
}

/// Looks at the status with which the endpoint answered a completion
/// request: success lets the stream be read; anything else is an error that
/// carries the status and the body, and ends the turn.
pub fn check_completion_status(model: &str, status: u16, body: &str) -> (r: Result<(), NahError>)
    ensures
        is_success(status) ==> r is Ok,
        !is_success(status) ==> (r matches Err(e) && e@ == status_error(model@, status, body@)),
{
    if 200 <= status && status < 300 {
        Ok(())
    } else {
        let mut message = "Model server responded with error: HTTP status ".to_owned();
        crate::text::push_decimal(&mut message, status as u64);
        message.append(", error message = ");
        message.append(body);
        let e = NahError::model_error(model, message.as_str(), None);
        assert(e@.message =~= status_error(model@, status, body@).message);
        Err(e)
    }
}

/// The name under which the model sees a tool of a server.
pub open spec fn namespaced(server_name: Seq<char>, tool_name: Seq<char>) -> Seq<char> {
    server_name + TOOL_NAME_SEPARATOR@ + tool_name
}

/// The name under which the model sees a tool of a server: the server's
/// name, a dot, and the tool's name.
pub fn namespaced_tool_name(server_name: &str, tool_name: &str) -> (r: String)
    ensures
        r@ == namespaced(server_name@, tool_name@),
{
    concat3(server_name, TOOL_NAME_SEPARATOR, tool_name)
}

/// A tool as the model is told of it: a function with the namespaced name,
/// the tool's description and its input schema as parameters.
pub open spec fn tool_function_json(server_name: Seq<char>, tool: MCPToolDefinitionView) -> JsonView {
    JsonView::Object(
        Map::<Seq<char>, JsonView>::empty().insert("type"@, JsonView::String("function"@)).insert(
            "function"@,
            JsonView::Object(
                Map::<Seq<char>, JsonView>::empty().insert(
                    "name"@,
                    JsonView::String(namespaced(server_name, tool.name)),
                ).insert(
                    "description"@,
                    match tool.description {
                        Some(d) => JsonView::String(d),
                        None => JsonView::Null,
                    },
                ).insert("parameters"@, tool.input_schema).insert("strict"@, JsonView::Bool(false)),
            ),
        ),
    )
}

/// A tool as the model is told of it.
pub fn tool_function_object(server_name: &str, tool: &MCPToolDefinition) -> (j: Json)
    ensures
        j@ == tool_function_json(server_name@, tool@),
{
    let name = namespaced_tool_name(server_name, tool.name.as_str());
    let mut function = Json::object();
    function.insert("name", Json::String(name));
    match &tool.description {
        Some(d) => {
            function.insert("description", Json::string(d.as_str()));
        },
        None => {
            function.insert("description", Json::Null);
        },
    }
    function.insert("parameters", tool.input_schema.clone());
    function.insert("strict", Json::Bool(false));
    let mut j = Json::object();
    j.insert("type", Json::string("function"));
    j.insert("function", function);
    j
}

/// The tools of one server as the model is told of them, one for one.
pub open spec fn tool_functions_json(server_name: Seq<char>, tools: Seq<MCPToolDefinitionView>) -> Seq<
    JsonView,
> {
    Seq::new(tools.len(), |i: int| tool_function_json(server_name, tools[i]))
}

/// The entries that map the namespaced name of each tool of one server to
/// the server's name, added to `entries`.
pub open spec fn with_server_tools(
    entries: Seq<(Seq<char>, Seq<char>)>,
    server_name: Seq<char>,
    tools: Seq<MCPToolDefinitionView>,
) -> Seq<(Seq<char>, Seq<char>)>
    decreases tools.len(),
{
    if tools.len() == 0 {
        entries
    } else {
        with_entry(
            with_server_tools(entries, server_name, tools.drop_last()),
            namespaced(server_name, tools.last().name),
            server_name,
        )
    }
}

/// Adds the tools of one server to what the model is told: each tool is
/// appended to `tools` as a function, and its namespaced name is mapped to
/// the server.
pub fn pull_tools(
    tools: &mut Vec<Json>,
    name_map: &mut StringMap<String>,
    server_name: &str,
    server_tools: &Vec<&MCPToolDefinition>,
)
    ensures
        items_view(final(tools)@) == items_view(old(tools)@) + tool_functions_json(
            server_name@,
            Seq::new(server_tools@.len(), |i: int| server_tools@[i]@),
        ),
        entry_views(final(name_map).entries()) == with_server_tools(
            entry_views(old(name_map).entries()),
            server_name@,
            Seq::new(server_tools@.len(), |i: int| server_tools@[i]@),
        ),
{
    let ghost all = Seq::new(server_tools@.len(), |i: int| server_tools@[i]@);
    let ghost tools_before = items_view(tools@);
    let ghost entries_before = entry_views(name_map.entries());
    let mut i: usize = 0;
    assert(tool_functions_json(server_name@, all.take(0)) =~= Seq::empty());
    assert(tools_before + Seq::<JsonView>::empty() =~= tools_before);
    while i < server_tools.len()
        invariant
            i <= server_tools.len(),
            all == Seq::new(server_tools@.len(), |k: int| server_tools@[k]@),
            items_view(tools@) == tools_before + tool_functions_json(
                server_name@,
                all.take(i as int),
            ),
            entry_views(name_map.entries()) == with_server_tools(
                entries_before,
                server_name@,
                all.take(i as int),
            ),
        decreases server_tools.len() - i,
    {
        let tool = server_tools[i];
        let ghost so_far = items_view(tools@);
        tools.push(tool_function_object(server_name, tool));
        let key = namespaced_tool_name(server_name, tool.name.as_str());
        let value = server_name.to_owned();
        proof {
            assert(all.take(i + 1).drop_last() =~= all.take(i as int));
            assert(all.take(i + 1).last() == tool@);
            assert(items_view(tools@) =~= so_far.push(tool_function_json(server_name@, tool@)));
            assert(items_view(tools@) =~= tools_before + tool_functions_json(
                server_name@,
                all.take(i + 1),
            ));
            lemma_with_entry_views(name_map.entries(), key@, value);
        }
        name_map.insert(key, value);
        i = i + 1;
    }
    assert(all.take(server_tools.len() as int) =~= all);
}

/// The body of a completion request without the configured extras: the
/// model, the whole history, streaming on, one choice, the tools, and the
/// default sampling parameters.
pub open spec fn default_body(model: Seq<char>, messages: Seq<JsonView>, tools: Seq<JsonView>) -> Map<
    Seq<char>,
    JsonView,
> {
    Map::<Seq<char>, JsonView>::empty().insert("model"@, JsonView::String(model)).insert(
        "messages"@,
        JsonView::Array(messages),
    ).insert("stream"@, JsonView::Bool(true)).insert("n"@, JsonView::Number("1"@)).insert(
        "max_tokens"@,
        JsonView::Number("4096"@),
    ).insert("tools"@, JsonView::Array(tools)).insert(
        "temperature"@,
        JsonView::Number("0.7"@),
    ).insert("top_p"@, JsonView::Number("0.9"@)).insert(
        "frequency_penalty"@,
        JsonView::Number("0.5"@),
    )
}

/// The body of a completion request. The configured extra parameters are
/// merged last, so that they win where a key collides.
pub open spec fn completion_body_json(
    model: Seq<char>,
    messages: Seq<JsonView>,
    tools: Seq<JsonView>,
    extra_params: Option<JsonView>,
) -> JsonView {
    let body = default_body(model, messages, tools);
    JsonView::Object(
        match extra_params {
            Some(JsonView::Object(extra)) => body.union_prefer_right(extra),
            _ => body,
        },
    )
}

/// The messages of a history as JSON objects, one for one.
pub open spec fn history_json(messages: Seq<ChatMessage>) -> Seq<JsonView> {
    Seq::new(messages.len(), |i: int| message_json(messages[i]@))
}

fn copy_items(items: &Vec<Json>) -> (r: Vec<Json>)
    ensures
        items_view(r@) == items_view(items@),
{
    let mut out: Vec<Json> = Vec::new();
    let mut i: usize = 0;
    while i < items.len()
        invariant
            i <= items.len(),
            out.len() == i,
            forall|k: int| 0 <= k < i ==> out@[k]@ == items@[k]@,
        decreases items.len() - i,
    {
        out.push(items[i].clone());
        i = i + 1;
    }
    assert(items_view(out@) =~= items_view(items@));
    out
}

/// The body of a completion request.
pub fn completion_body(
    model: &str,
    messages: &Vec<ChatMessage>,
    tools: &Vec<Json>,
    extra_params: &Option<Json>,
) -> (body: Json)
    ensures
        body@ == completion_body_json(
            model@,
            history_json(messages@),
            items_view(tools@),
            match extra_params {
                Some(j) => Some(j@),
                None => None,
            },
        ),
{
    let mut history: Vec<Json> = Vec::new();
    let mut i: usize = 0;
    while i < messages.len()
        invariant
            i <= messages.len(),
            history.len() == i,
            forall|k: int| 0 <= k < i ==> history@[k]@ == message_json(messages@[k]@),
        decreases messages.len() - i,
    {
        history.push(messages[i].to_json());
        i = i + 1;
    }
    assert(items_view(history@) =~= history_json(messages@));
    let mut body = Json::object();
    body.insert("model", Json::string(model));
    body.insert("messages", Json::Array(history));
    body.insert("stream", Json::Bool(true));
    body.insert("n", Json::number("1"));
    body.insert("max_tokens", Json::number("4096"));
    body.insert("tools", Json::Array(copy_items(tools)));
    body.insert("temperature", Json::number("0.7"));
    body.insert("top_p", Json::number("0.9"));
    body.insert("frequency_penalty", Json::number("0.5"));
    let ghost defaults = default_body(model@, history_json(messages@), items_view(tools@));
    assert(body@ == JsonView::Object(defaults));
    match extra_params {
        Some(Json::Object(members)) => {
            let mut k: usize = 0;
            assert(defaults.union_prefer_right(members_view(members@.take(0))) =~= defaults);
            while k < members.len()
                invariant
                    k <= members.len(),
                    body@ == JsonView::Object(
                        defaults.union_prefer_right(members_view(members@.take(k as int))),
                    ),
                decreases members.len() - k,
            {
                proof {
                    let done = members@.take(k + 1);
                    assert(done.drop_last() =~= members@.take(k as int));
                    assert(defaults.union_prefer_right(members_view(done))
                        =~= defaults.union_prefer_right(
                        members_view(members@.take(k as int)),
                    ).insert(members@[k as int].0@, members@[k as int].1@));
                }
                body.insert(members[k].0.as_str(), members[k].1.clone());
                k = k + 1;
            }
            assert(members@.take(members.len() as int) =~= members@);
        },
        _ => {},
    }
    body
}

/// One event of a completion stream, as the value it denotes.
pub ghost enum ChunkView {
    Delta(ChatResponseChunkDeltaView),
    Done,
}

/// What an exec chunk denotes.
pub open spec fn chunk_view(c: ChatResponseChunk) -> ChunkView {
    match c {
        ChatResponseChunk::Delta(d) => ChunkView::Delta(d@),
        ChatResponseChunk::Done => ChunkView::Done,
    }
}

/// What an optional exec chunk denotes.
pub open spec fn opt_chunk_view(c: Option<ChatResponseChunk>) -> Option<ChunkView> {
    match c {
        Some(c) => Some(chunk_view(c)),
        None => None,
    }
}

/// The partial update that the JSON document of a chunk carries: the value
/// under `delta` of the first of its `choices`, where that is a well-formed
/// update.
pub open spec fn delta_of_chunk_json(j: JsonView) -> Option<ChatResponseChunkDeltaView> {
    match array_member(j, "choices"@) {
        Some(choices) => if choices.len() > 0 {
            match member(choices[0], "delta"@) {
                Some(d) => delta_of_json(d),
                None => None,
            }
        } else {
            None
        },
        None => None,
    }
}

/// Reads the partial update that the JSON document of a chunk carries.
pub fn delta_from_chunk_json(j: &Json) -> (r: Option<ChatResponseChunkDelta>)
    ensures
        r is Some <==> delta_of_chunk_json(j@) is Some,
        r matches Some(d) ==> delta_of_chunk_json(j@) == Some(d@),
{
    match j.array_member("choices") {
        Some(choices) => {
            if choices.len() > 0 {
                match choices[0].get("delta") {
                    Some(d) => ChatResponseChunkDelta::from_json(d),
                    None => None,
                }
            } else {
                None
            }
        },
        None => None,
    }
}

/// What one chunk of a streamed completion is: nothing unless it begins with
/// `data: `; the end of the stream where it begins with `data: [DONE]`; else
/// the partial update that the JSON after the prefix carries, if it carries
/// one.
pub open spec fn chunk_of_text(data: Seq<char>) -> Option<ChunkView> {
    if !CHUNK_PREFIX@.is_prefix_of(data) {
        None
    } else if DONE_CHUNK@.is_prefix_of(data) {
        Some(ChunkView::Done)
    } else {
        match json_parse(trimmed(data.skip(CHUNK_PREFIX@.len() as int))) {
            Some(j) => match delta_of_chunk_json(j) {
                Some(d) => Some(ChunkView::Delta(d)),
                None => None,
            },
            None => None,
        }
    }
}

/// Reads one chunk of a streamed completion.
pub fn get_model_response_chunk(data_str: &str) -> (r: Option<ChatResponseChunk>)
    ensures
        opt_chunk_view(r) == chunk_of_text(data_str@),
{
    if !starts_with(data_str, CHUNK_PREFIX) {
        return None;
    }
    if starts_with(data_str, DONE_CHUNK) {
        return Some(ChatResponseChunk::Done);
    }
    let rest = match strip_prefix(data_str, CHUNK_PREFIX) {
        Some(rest) => rest,
        None => {
            return None;
        },
    };
    let payload = trim(rest.as_str());
    match parse(payload.as_str()) {
        Ok(j) => match delta_from_chunk_json(&j) {
            Some(d) => Some(ChatResponseChunk::Delta(d)),
            None => None,
        },
        Err(_) => None,
    }
}

/// A message under assembly after one more chunk: once the stream has
/// ended nothing changes any more; an update is applied; the end marker ends
/// the stream; anything else is passed over.
pub open spec fn assemble_step(state: (ChatMessageView, bool), chunk: Option<ChunkView>) -> (
    ChatMessageView,
    bool,
) {
    if state.1 {
        state
    } else {
        match chunk {
            Some(ChunkView::Delta(d)) => (apply_delta(state.0, d), false),
            Some(ChunkView::Done) => (state.0, true),
            None => state,
        }
    }
}

/// A message under assembly after a run of chunks, in the order in which
/// they arrived.
pub open spec fn assemble(state: (ChatMessageView, bool), chunks: Seq<Option<ChunkView>>) -> (
    ChatMessageView,
    bool,
)
    decreases chunks.len(),
{
    if chunks.len() == 0 {
        state
    } else {
        assemble(assemble_step(state, chunks[0]), chunks.drop_first())
    }
}

/// The chunks that the pieces of a received text are.
pub open spec fn chunks_of(pieces: Seq<Seq<char>>) -> Seq<Option<ChunkView>> {
    Seq::new(pieces.len(), |i: int| chunk_of_text(pieces[i]))
}

/// The assistant message of one completion, put together from the stream as
/// it arrives.
#[derive(Debug)]
pub struct StreamAssembler {
    pub message: ChatMessage,
    /// Whether the end of the stream was seen.
    pub done: bool,
}

impl StreamAssembler {
    /// An empty message and a stream that has not ended.
    pub fn new() -> (a: StreamAssembler)
        ensures
            a.message@ == empty_message(),
            !a.done,
    {
        StreamAssembler { message: ChatMessage::new(), done: false }
    }

    /// Takes one chunk.
    pub fn push(&mut self, chunk: Option<ChatResponseChunk>)
        ensures
            (final(self).message@, final(self).done) == assemble_step(
                (old(self).message@, old(self).done),
                opt_chunk_view(chunk),
            ),
    {
        if self.done {
            return ;
        }
        match chunk {
            Some(ChatResponseChunk::Delta(d)) => {
                self.message.apply_model_response_chunk(d);
            },
            Some(ChatResponseChunk::Done) => {
                self.done = true;
            },
            None => {},
        }
    }

    /// Takes a piece of the response body as it came off the wire: the text
    /// is cut at blank lines, and each piece is taken as one chunk.
    pub fn feed(&mut self, text: &str)
        ensures
            (final(self).message@, final(self).done) == assemble(
                (old(self).message@, old(self).done),
                chunks_of(split(text@, CHUNK_SEPARATOR@)),
            ),
    {
        let pieces = split_text(text, CHUNK_SEPARATOR);
        let ghost all = chunks_of(split(text@, CHUNK_SEPARATOR@));
        let ghost start = (self.message@, self.done);
        let mut i: usize = 0;
        assert(all.skip(0) =~= all);
        while i < pieces.len()
            invariant
                i <= pieces.len(),
                all == chunks_of(texts(pieces@)),
                assemble(start, all) == assemble((self.message@, self.done), all.skip(i as int)),
            decreases pieces.len() - i,
        {
            proof {
                assert(all.skip(i as int).drop_first() =~= all.skip(i + 1));
                assert(all.skip(i as int)[0] == chunk_of_text(pieces@[i as int]@));
            }
            let chunk = get_model_response_chunk(pieces[i].as_str());
            self.push(chunk);
            i = i + 1;
        }
    }

    /// The assembled message, once the stream has ended; `None` before.
    pub fn finish(self) -> (r: Option<ChatMessage>)
        ensures
            self.done ==> r == Some(self.message),
            !self.done ==> r is None,
    {
        if self.done {
            Some(self.message)
        } else {
            None
        }
    }
}

/// The content fragments of the updates of a run of chunks up to the end
/// marker, one after the other.
pub open spec fn content_before_done(chunks: Seq<Option<ChunkView>>) -> Seq<char>
    decreases chunks.len(),
{
    if chunks.len() == 0 {
        Seq::empty()
    } else {
        match chunks[0] {
            Some(ChunkView::Done) => Seq::empty(),
            Some(ChunkView::Delta(d)) => (match d.content {
                Some(c) => c,
                None => Seq::empty(),
            }) + content_before_done(chunks.drop_first()),
            None => content_before_done(chunks.drop_first()),
        }
    }
}

/// Whether one of the chunks is the end marker.
pub open spec fn has_done(chunks: Seq<Option<ChunkView>>) -> bool {
    exists|i: int| 0 <= i < chunks.len() && chunks[i] == Some(ChunkView::Done)
}

/// Once the stream has ended, no chunk changes the message.
pub proof fn lemma_done_is_final(m: ChatMessageView, chunks: Seq<Option<ChunkView>>)
    ensures
        assemble((m, true), chunks) == (m, true),
    decreases chunks.len(),
{
    if chunks.len() > 0 {
        lemma_done_is_final(m, chunks.drop_first());
    }
}

/// The content of an assembled message is the content it began with and then
/// the content fragments of all updates that came before the end marker, in
/// the order of arrival; and the stream has ended exactly when the end
/// marker came.
pub proof fn lemma_assembled_content(m: ChatMessageView, chunks: Seq<Option<ChunkView>>)
    ensures
        assemble((m, false), chunks).0.content == m.content + content_before_done(chunks),
        assemble((m, false), chunks).1 == has_done(chunks),
    decreases chunks.len(),
{
    if chunks.len() == 0 {
        assert(m.content + Seq::<char>::empty() =~= m.content);
    } else {
        let rest = chunks.drop_first();
        match chunks[0] {
            Some(ChunkView::Done) => {
                lemma_done_is_final(m, rest);
                assert(m.content + Seq::<char>::empty() =~= m.content);
                assert(has_done(chunks));
            },
            Some(ChunkView::Delta(d)) => {
                let next = apply_delta(m, d);
                lemma_assembled_content(next, rest);
                let piece = match d.content {
                    Some(c) => c,
                    None => Seq::<char>::empty(),
                };
                assert(next.content =~= m.content + piece);
                assert(next.content + content_before_done(rest) =~= m.content + (piece
                    + content_before_done(rest)));
                lemma_has_done_rest(chunks);
            },
            None => {
                lemma_assembled_content(m, rest);
                lemma_has_done_rest(chunks);
            },
        }
    }
}

proof fn lemma_has_done_rest(chunks: Seq<Option<ChunkView>>)
    requires
        chunks.len() > 0,
        chunks[0] != Some(ChunkView::Done),
    ensures
        has_done(chunks) == has_done(chunks.drop_first()),
{
    let rest = chunks.drop_first();
    if has_done(chunks) {
        let i = choose|i: int| 0 <= i < chunks.len() && chunks[i] == Some(ChunkView::Done);
        assert(rest[i - 1] == Some(ChunkView::Done));
    }
    if has_done(rest) {
        let i = choose|i: int| 0 <= i < rest.len() && rest[i] == Some(ChunkView::Done);
        assert(chunks[i + 1] == Some(ChunkView::Done));
    }
}

/// The texts of a list of content items, one after the other: each item that
/// has a text under `text` gives it, the others give nothing.
pub open spec fn text_contents(items: Seq<JsonView>) -> Seq<char>
    decreases items.len(),
{
    if items.len() == 0 {
        Seq::empty()
    } else {
        text_contents(items.drop_last()) + match member(items.last(), "text"@) {
            Some(JsonView::String(t)) => t,
            _ => Seq::empty(),
        }
    }
}

/// The text that the result of a tool call unpacks to: the texts of the
/// items under `content`, in order.
pub open spec fn unpacked_text(server_name: Seq<char>, result: JsonView) -> Result<
    Seq<char>,
    NahErrorView,
> {
    match array_member(result, "content"@) {
        Some(items) => Ok(text_contents(items)),
        None => Err(invalid_response(server_name, None)),
    }
}

/// Unpacks the text of the result of a tool call.
pub fn unpack_mcp_text_contents(server_name: &str, result: &Json) -> (r: Result<String, NahError>)
    ensures
        match unpacked_text(server_name@, result@) {
            Ok(t) => r matches Ok(s) && s@ == t,
            Err(e) => r matches Err(x) && x@ == e,
        },
{
    let contents = match result.array_member("content") {
        Some(items) => items,
        None => {
            return Err(NahError::mcp_server_invalid_response(server_name, None));
        },
    };
    let mut text = String::new();
    let mut i: usize = 0;
    assert(items_view(contents@).take(0) =~= Seq::empty());
    while i < contents.len()
        invariant
            i <= contents.len(),
            text@ == text_contents(items_view(contents@).take(i as int)),
        decreases contents.len() - i,
    {
        proof {
            let done = items_view(contents@).take(i + 1);
            assert(done.drop_last() =~= items_view(contents@).take(i as int));
            assert(done.last() == contents@[i as int]@);
        }
        match contents[i].get("text") {
            Some(Json::String(t)) => {
                text.append(t.as_str());
            },
            _ => {
                assert(text@ + Seq::<char>::empty() =~= text@);
            },
        }
        i = i + 1;
    }
    assert(items_view(contents@).take(contents.len() as int) =~= items_view(contents@));
    Ok(text)
}

} // verus!
