//! Chat messages and the partial updates from which a streamed assistant
//! message is put together.
use vstd::prelude::*;
use crate::json::{Field, Json, JsonView, count_field, items_view, text_field, value_field};
use crate::text::opt_text;

verus! {

/// The function that a tool call names, and its arguments as raw JSON text.
#[derive(Debug)]
pub struct FunctionCallRequest {
    pub name: String,
    pub arguments: String,
}

pub ghost struct FunctionCallRequestView {
    pub name: Seq<char>,
    pub arguments: Seq<char>,
}

impl View for FunctionCallRequest {
    type V = FunctionCallRequestView;

    open spec fn view(&self) -> FunctionCallRequestView {
        FunctionCallRequestView { name: self.name@, arguments: self.arguments@ }
    }
}

/// A tool call requested by the model. Only function calls exist so far.
#[derive(Debug)]
pub struct ToolCallRequest {
    pub id: String,
    pub _type: String,
    pub function: FunctionCallRequest,
}

pub ghost struct ToolCallRequestView {
    pub id: Seq<char>,
    pub _type: Seq<char>,
    pub function: FunctionCallRequestView,
}

impl View for ToolCallRequest {
    type V = ToolCallRequestView;

    open spec fn view(&self) -> ToolCallRequestView {
        ToolCallRequestView { id: self.id@, _type: self._type@, function: self.function@ }
    }
}

/// A fragment of a function call, as one chunk of a stream carries it.
#[derive(Debug)]
pub struct FunctionCallRequestChunkDelta {
    pub name: Option<String>,
    pub arguments: Option<String>,
}

pub ghost struct FunctionCallRequestChunkDeltaView {
    pub name: Option<Seq<char>>,
    pub arguments: Option<Seq<char>>,
}

impl View for FunctionCallRequestChunkDelta {
    type V = FunctionCallRequestChunkDeltaView;

    open spec fn view(&self) -> FunctionCallRequestChunkDeltaView {
        FunctionCallRequestChunkDeltaView {
            name: opt_text(self.name),
            arguments: opt_text(self.arguments),
        }
    }
}

/// A fragment of the tool call at position `index` of a message.
#[derive(Debug)]
pub struct ToolCallRequestChunkDelta {
    pub index: usize,
    pub id: Option<String>,
    pub _type: Option<String>,
    pub function: Option<FunctionCallRequestChunkDelta>,
}

pub ghost struct ToolCallRequestChunkDeltaView {
    pub index: nat,
    pub id: Option<Seq<char>>,
    pub _type: Option<Seq<char>>,
    pub function: Option<FunctionCallRequestChunkDeltaView>,
}

impl View for ToolCallRequestChunkDelta {
    type V = ToolCallRequestChunkDeltaView;

    open spec fn view(&self) -> ToolCallRequestChunkDeltaView {
        ToolCallRequestChunkDeltaView {
            index: self.index as nat,
            id: opt_text(self.id),
            _type: opt_text(self._type),
            function: match self.function {
                Some(f) => Some(f@),
                None => None,
            },
        }
    }
}

/// A sparse partial update of an assistant message.
#[derive(Debug)]
pub struct ChatResponseChunkDelta {
    pub role: Option<String>,
    pub content: Option<String>,
    pub reasoning_content: Option<String>,
    pub tool_calls: Option<Vec<ToolCallRequestChunkDelta>>,
}

pub ghost struct ChatResponseChunkDeltaView {
    pub role: Option<Seq<char>>,
    pub content: Option<Seq<char>>,
    pub reasoning_content: Option<Seq<char>>,
    pub tool_calls: Option<Seq<ToolCallRequestChunkDeltaView>>,
}

/// The fragments of a list, one for one.
pub open spec fn fragments_view(v: Seq<ToolCallRequestChunkDelta>) -> Seq<
    ToolCallRequestChunkDeltaView,
> {
    Seq::new(v.len(), |i: int| v[i]@)
}

impl View for ChatResponseChunkDelta {
    type V = ChatResponseChunkDeltaView;

    open spec fn view(&self) -> ChatResponseChunkDeltaView {
        ChatResponseChunkDeltaView {
            role: opt_text(self.role),
            content: opt_text(self.content),
            reasoning_content: opt_text(self.reasoning_content),
            tool_calls: match self.tool_calls {
                Some(v) => Some(fragments_view(v@)),
                None => None,
            },
        }
    }
}

/// One event of a completion stream: an update, or the end of the stream.
#[derive(Debug)]
pub enum ChatResponseChunk {
    Delta(ChatResponseChunkDelta),
    Done,
}

/// A message of a conversation, from the system, the user, the assistant or
/// a tool.
#[derive(Debug)]
pub struct ChatMessage {
    /// `system`, `user`, `assistant` or `tool`.
    pub role: String,
    pub content: String,
    pub reasoning_content: Option<String>,
    /// The call that a `tool` message answers.
    pub tool_call_id: Option<String>,
    /// The calls that an `assistant` message asks for.
    pub tool_calls: Option<Vec<ToolCallRequest>>,
}

pub ghost struct ChatMessageView {
    pub role: Seq<char>,
    pub content: Seq<char>,
    pub reasoning_content: Option<Seq<char>>,
    pub tool_call_id: Option<Seq<char>>,
    pub tool_calls: Option<Seq<ToolCallRequestView>>,
}

/// The tool calls of a list, one for one.
pub open spec fn calls_view(v: Seq<ToolCallRequest>) -> Seq<ToolCallRequestView> {
    Seq::new(v.len(), |i: int| v[i]@)
}

impl View for ChatMessage {
    type V = ChatMessageView;

    open spec fn view(&self) -> ChatMessageView {
        ChatMessageView {
            role: self.role@,
            content: self.content@,
            reasoning_content: opt_text(self.reasoning_content),
            tool_call_id: opt_text(self.tool_call_id),
            tool_calls: match self.tool_calls {
                Some(v) => Some(calls_view(v@)),
                None => None,
            },
        }
    }
}

/// `base` with the fragment appended, where there is one.
pub open spec fn append_fragment(base: Seq<char>, fragment: Option<Seq<char>>) -> Seq<char> {
    match fragment {
        Some(f) => base + f,
        None => base,
    }
}

/// The placeholder that fills a position no fragment has reached yet.
pub open spec fn empty_call() -> ToolCallRequestView {
    ToolCallRequestView {
        id: Seq::empty(),
        _type: Seq::empty(),
        function: FunctionCallRequestView { name: Seq::empty(), arguments: Seq::empty() },
    }
}

/// A tool call with every text of the fragment appended to its own.
pub open spec fn merge_call(
    call: ToolCallRequestView,
    fragment: ToolCallRequestChunkDeltaView,
) -> ToolCallRequestView {
    ToolCallRequestView {
        id: append_fragment(call.id, fragment.id),
        _type: append_fragment(call._type, fragment._type),
        function: match fragment.function {
            Some(f) => FunctionCallRequestView {
                name: append_fragment(call.function.name, f.name),
                arguments: append_fragment(call.function.arguments, f.arguments),
            },
            None => call.function,
        },
    }
}

/// `calls`, grown with placeholders to at least `n` entries.
pub open spec fn padded_calls(calls: Seq<ToolCallRequestView>, n: nat) -> Seq<ToolCallRequestView> {
    if calls.len() >= n {
        calls
    } else {
        calls + Seq::new((n - calls.len()) as nat, |i: int| empty_call())
    }
}

/// One fragment applied to a list of tool calls: the list grows to reach the
/// fragment's index, and the call there takes the fragment's texts.
pub open spec fn apply_fragment(
    calls: Seq<ToolCallRequestView>,
    fragment: ToolCallRequestChunkDeltaView,
) -> Seq<ToolCallRequestView> {
    let grown = padded_calls(calls, fragment.index + 1);
    grown.update(fragment.index as int, merge_call(grown[fragment.index as int], fragment))
}

/// The fragments applied one after the other, in the order of the list.
pub open spec fn apply_fragments(
    calls: Seq<ToolCallRequestView>,
    fragments: Seq<ToolCallRequestChunkDeltaView>,
) -> Seq<ToolCallRequestView>
    decreases fragments.len(),
{
    if fragments.len() == 0 {
        calls
    } else {
        apply_fragment(apply_fragments(calls, fragments.drop_last()), fragments.last())
    }
}

/// A message after one partial update: the role is replaced where the update
/// has one; content and reasoning grow by the update's fragments; tool-call
/// fragments are applied in order.
pub open spec fn apply_delta(m: ChatMessageView, d: ChatResponseChunkDeltaView) -> ChatMessageView {
    ChatMessageView {
        role: match d.role {
            Some(r) => r,
            None => m.role,
        },
        content: append_fragment(m.content, d.content),
        reasoning_content: match d.reasoning_content {
            Some(r) => Some(
                match m.reasoning_content {
                    Some(old) => old + r,
                    None => r,
                },
            ),
            None => m.reasoning_content,
        },
        tool_call_id: m.tool_call_id,
        tool_calls: match d.tool_calls {
            Some(fragments) => Some(
                apply_fragments(
                    match m.tool_calls {
                        Some(calls) => calls,
                        None => Seq::empty(),
                    },
                    fragments,
                ),
            ),
            None => m.tool_calls,
        },
    }
}

fn append_opt(base: &mut String, fragment: &Option<String>)
    ensures
        final(base)@ == append_fragment(old(base)@, opt_text(*fragment)),
{
    match fragment {
        Some(f) => {
            base.append(f.as_str());
        },
        None => {},
    }
}

fn merge_into(call: &mut ToolCallRequest, fragment: &ToolCallRequestChunkDelta)
    ensures
        final(call)@ == merge_call(old(call)@, fragment@),
{
    append_opt(&mut call.id, &fragment.id);
    append_opt(&mut call._type, &fragment._type);
    match &fragment.function {
        Some(f) => {
            append_opt(&mut call.function.name, &f.name);
            append_opt(&mut call.function.arguments, &f.arguments);
        },
        None => {},
    }
}

fn new_call() -> (c: ToolCallRequest)
    ensures
        c@ == empty_call(),
{
    ToolCallRequest {
        id: String::new(),
        _type: String::new(),
        function: FunctionCallRequest { name: String::new(), arguments: String::new() },
    }
}

fn apply_one_fragment(calls: &mut Vec<ToolCallRequest>, fragment: &ToolCallRequestChunkDelta)
    ensures
        calls_view(final(calls)@) == apply_fragment(calls_view(old(calls)@), fragment@),
{
    let idx = fragment.index;
    let ghost before = calls_view(calls@);
    while idx >= calls.len()
        invariant
            calls.len() <= idx + 1 || calls.len() == before.len(),
            calls.len() >= before.len(),
            calls_view(calls@) =~= before + Seq::new(
                (calls.len() - before.len()) as nat,
                |i: int| empty_call(),
            ),
        decreases idx + 1 - calls.len(),
    {
        let ghost so_far = calls_view(calls@);
        calls.push(new_call());
        assert(calls_view(calls@) =~= so_far.push(empty_call()));
    }
    assert(calls_view(calls@) =~= padded_calls(before, (idx + 1) as nat));
    let ghost grown = calls_view(calls@);
    merge_into(&mut calls[idx], fragment);
    assert(calls_view(calls@) =~= grown.update(idx as int, merge_call(grown[idx as int], fragment@)));
}

/// The empty message: no role, no content, nothing optional.
pub open spec fn empty_message() -> ChatMessageView {
    ChatMessageView {
        role: Seq::empty(),
        content: Seq::empty(),
        reasoning_content: None,
        tool_call_id: None,
        tool_calls: None,
    }
}

/// A message after a run of partial updates, applied in order.
pub open spec fn apply_deltas(m: ChatMessageView, deltas: Seq<ChatResponseChunkDeltaView>) -> ChatMessageView
    decreases deltas.len(),
{
    if deltas.len() == 0 {
        m
    } else {
        apply_delta(apply_deltas(m, deltas.drop_last()), deltas.last())
    }
}

/// The partial updates of a list, one for one.
pub open spec fn delta_views(deltas: Seq<ChatResponseChunkDelta>) -> Seq<ChatResponseChunkDeltaView> {
    Seq::new(deltas.len(), |i: int| deltas[i]@)
}

impl Default for ChatMessage {
    fn default() -> (m: ChatMessage)
        ensures
            m@ == empty_message(),
    {
        ChatMessage::new()
    }
}

impl ChatMessage {
    /// Applies a run of partial updates to the message, in order.
    pub fn extend(&mut self, deltas: Vec<ChatResponseChunkDelta>)
        ensures
            final(self)@ == apply_deltas(old(self)@, delta_views(deltas@)),
    {
        let ghost all = delta_views(deltas@);
        assert(all.take(0) =~= Seq::empty());
        for delta in it: deltas
            invariant
                all == delta_views(it.seq()),
                self@ == apply_deltas(old(self)@, all.take(it.index() as int)),
        {
            proof {
                assert(all.take(it.index() + 1).drop_last() =~= all.take(it.index() as int));
                assert(all.take(it.index() + 1).last() == delta@);
            }
            self.apply_model_response_chunk(delta);
        }
        assert(all.take(all.len() as int) =~= all);
    }

    /// The message that a run of partial updates makes of the empty message.
    pub fn from_deltas(deltas: Vec<ChatResponseChunkDelta>) -> (m: ChatMessage)
        ensures
            m@ == apply_deltas(empty_message(), delta_views(deltas@)),
    {
        let mut m = ChatMessage::new();
        m.extend(deltas);
        m
    }

    /// An empty message: no role, no content, nothing optional.
    pub fn new() -> (m: ChatMessage)
        ensures
            m@ == empty_message(),
    {
        ChatMessage {
            role: String::new(),
            content: String::new(),
            reasoning_content: None,
            tool_call_id: None,
            tool_calls: None,
        }
    }

    /// Applies one partial update of a completion stream to the message.
    pub fn apply_model_response_chunk(&mut self, chunk: ChatResponseChunkDelta)
        ensures
            final(self)@ == apply_delta(old(self)@, chunk@),
    {
        let ChatResponseChunkDelta { role, content, reasoning_content, tool_calls } = chunk;
        match role {
            Some(r) => {
                self.role = r;
            },
            None => {},
        }
        append_opt(&mut self.content, &content);
        match reasoning_content {
            Some(r) => {
                match self.reasoning_content.take() {
                    Some(mut old_text) => {
                        old_text.append(r.as_str());
                        self.reasoning_content = Some(old_text);
                    },
                    None => {
                        self.reasoning_content = Some(r);
                    },
                }
            },
            None => {},
        }
        match tool_calls {
            Some(fragments) => {
                let mut calls: Vec<ToolCallRequest> = match self.tool_calls.take() {
                    Some(v) => v,
                    None => Vec::new(),
                };
                let ghost initial = calls_view(calls@);
                assert(initial =~= match old(self)@.tool_calls {
                    Some(c) => c,
                    None => Seq::empty(),
                });
                let mut i: usize = 0;
                while i < fragments.len()
                    invariant
                        i <= fragments.len(),
                        calls_view(calls@) == apply_fragments(
                            initial,
                            fragments_view(fragments@).take(i as int),
                        ),
                    decreases fragments.len() - i,
                {
                    apply_one_fragment(&mut calls, &fragments[i]);
                    proof {
                        let done = fragments_view(fragments@).take(i + 1);
                        assert(done.drop_last() =~= fragments_view(fragments@).take(i as int));
                        assert(done.last() == fragments@[i as int]@);
                    }
                    i = i + 1;
                }
                assert(fragments_view(fragments@).take(fragments.len() as int) =~= fragments_view(
                    fragments@,
                ));
                self.tool_calls = Some(calls);
            },
            None => {},
        }
        assert(self@.reasoning_content == apply_delta(old(self)@, chunk@).reasoning_content);
        assert(self@.tool_calls == apply_delta(old(self)@, chunk@).tool_calls);
    }
}

/// A function call as a JSON object: `name` and `arguments`.
pub open spec fn function_call_json(f: FunctionCallRequestView) -> JsonView {
    JsonView::Object(
        Map::<Seq<char>, JsonView>::empty().insert("name"@, JsonView::String(f.name)).insert(
            "arguments"@,
            JsonView::String(f.arguments),
        ),
    )
}

/// A tool call as a JSON object: `id`, `type` and `function`.
pub open spec fn tool_call_json(c: ToolCallRequestView) -> JsonView {
    JsonView::Object(
        Map::<Seq<char>, JsonView>::empty().insert("id"@, JsonView::String(c.id)).insert(
            "type"@,
            JsonView::String(c._type),
        ).insert("function"@, function_call_json(c.function)),
    )
}

/// The tool calls of a list as JSON objects, one for one.
pub open spec fn tool_calls_json(calls: Seq<ToolCallRequestView>) -> Seq<JsonView> {
    Seq::new(calls.len(), |i: int| tool_call_json(calls[i]))
}

/// A message as a JSON object: `role` and `content`, and `reasoningContent`,
/// `tool_call_id` and `tool_calls` where the message has them.
pub open spec fn message_json(m: ChatMessageView) -> JsonView {
    let base = Map::<Seq<char>, JsonView>::empty().insert("role"@, JsonView::String(m.role)).insert(
        "content"@,
        JsonView::String(m.content),
    );
    let with_reasoning = match m.reasoning_content {
        Some(r) => base.insert("reasoningContent"@, JsonView::String(r)),
        None => base,
    };
    let with_id = match m.tool_call_id {
        Some(id) => with_reasoning.insert("tool_call_id"@, JsonView::String(id)),
        None => with_reasoning,
    };
    JsonView::Object(
        match m.tool_calls {
            Some(calls) => with_id.insert("tool_calls"@, JsonView::Array(tool_calls_json(calls))),
            None => with_id,
        },
    )
}

impl ToolCallRequest {
    /// The tool call as a JSON object.
    pub fn to_json(&self) -> (j: Json)
        ensures
            j@ == tool_call_json(self@),
    {
        let mut function = Json::object();
        function.insert("name", Json::string(self.function.name.as_str()));
        function.insert("arguments", Json::string(self.function.arguments.as_str()));
        let mut j = Json::object();
        j.insert("id", Json::string(self.id.as_str()));
        j.insert("type", Json::string(self._type.as_str()));
        j.insert("function", function);
        j
    }

    /// A copy of the tool call.
    pub fn clone(&self) -> (c: ToolCallRequest)
        ensures
            c@ == self@,
    {
        ToolCallRequest {
            id: self.id.clone(),
            _type: self._type.clone(),
            function: FunctionCallRequest {
                name: self.function.name.clone(),
                arguments: self.function.arguments.clone(),
            },
        }
    }
}

impl ChatMessage {
    /// The message as a JSON object.
    pub fn to_json(&self) -> (j: Json)
        ensures
            j@ == message_json(self@),
    {
        let mut j = Json::object();
        j.insert("role", Json::string(self.role.as_str()));
        j.insert("content", Json::string(self.content.as_str()));
        match &self.reasoning_content {
            Some(r) => {
                j.insert("reasoningContent", Json::string(r.as_str()));
            },
            None => {},
        }
        match &self.tool_call_id {
            Some(id) => {
                j.insert("tool_call_id", Json::string(id.as_str()));
            },
            None => {},
        }
        match &self.tool_calls {
            Some(calls) => {
                let mut items: Vec<Json> = Vec::new();
                let mut i: usize = 0;
                while i < calls.len()
                    invariant
                        i <= calls.len(),
                        items.len() == i,
                        forall|k: int| 0 <= k < i ==> items@[k]@ == tool_call_json(calls@[k]@),
                    decreases calls.len() - i,
                {
                    items.push(calls[i].to_json());
                    i = i + 1;
                }
                assert(items_view(items@) =~= tool_calls_json(calls_view(calls@)));
                j.insert("tool_calls", Json::Array(items));
            },
            None => {},
        }
        j
    }

    /// A copy of the message.
    pub fn clone(&self) -> (m: ChatMessage)
        ensures
            m@ == self@,
    {
        let tool_calls = match &self.tool_calls {
            Some(calls) => {
                let mut copy: Vec<ToolCallRequest> = Vec::new();
                let mut i: usize = 0;
                while i < calls.len()
                    invariant
                        i <= calls.len(),
                        copy.len() == i,
                        forall|k: int| 0 <= k < i ==> copy@[k]@ == calls@[k]@,
                    decreases calls.len() - i,
                {
                    copy.push(calls[i].clone());
                    i = i + 1;
                }
                assert(calls_view(copy@) =~= calls_view(calls@));
                Some(copy)
            },
            None => None,
        };
        ChatMessage {
            role: self.role.clone(),
            content: self.content.clone(),
            reasoning_content: crate::text::clone_opt(&self.reasoning_content),
            tool_call_id: crate::text::clone_opt(&self.tool_call_id),
            tool_calls,
        }
    }
}

/// The fragment of a function call that a JSON value is: an object in which
/// `name` and `arguments`, where present, are texts.
pub open spec fn function_fragment_of_json(j: JsonView) -> Option<
    FunctionCallRequestChunkDeltaView,
> {
    if j is Object && text_field(j, "name"@).is_valid() && text_field(j, "arguments"@).is_valid() {
        Some(
            FunctionCallRequestChunkDeltaView {
                name: text_field(j, "name"@).value(),
                arguments: text_field(j, "arguments"@).value(),
            },
        )
    } else {
        None
    }
}

/// The index looked for under `index`: a count that fits the machine's word.
pub open spec fn index_field(j: JsonView) -> Option<nat> {
    match count_field(j, "index"@) {
        Field::Present(n) => if n <= usize::MAX {
            Some(n)
        } else {
            None
        },
        _ => None,
    }
}

/// The fragment of a tool call that a JSON value is: an object with a count
/// under `index`; `id` and `type`, where present, are texts, and `function`,
/// where present, is a well-formed fragment of a function call.
pub open spec fn call_fragment_of_json(j: JsonView) -> Option<ToolCallRequestChunkDeltaView> {
    match index_field(j) {
        Some(index) => {
            if text_field(j, "id"@).is_valid() && text_field(j, "type"@).is_valid() {
                match value_field(j, "function"@) {
                    None => Some(
                        ToolCallRequestChunkDeltaView {
                            index,
                            id: text_field(j, "id"@).value(),
                            _type: text_field(j, "type"@).value(),
                            function: None,
                        },
                    ),
                    Some(f) => match function_fragment_of_json(f) {
                        Some(function) => Some(
                            ToolCallRequestChunkDeltaView {
                                index,
                                id: text_field(j, "id"@).value(),
                                _type: text_field(j, "type"@).value(),
                                function: Some(function),
                            },
                        ),
                        None => None,
                    },
                }
            } else {
                None
            }
        },
        None => None,
    }
}

/// The fragments that a list of JSON values are, where every one of them is
/// well-formed.
pub open spec fn call_fragments_of_json(items: Seq<JsonView>) -> Option<
    Seq<ToolCallRequestChunkDeltaView>,
>
    decreases items.len(),
{
    if items.len() == 0 {
        Some(Seq::empty())
    } else {
        match (call_fragments_of_json(items.drop_last()), call_fragment_of_json(items.last())) {
            (Some(rest), Some(last)) => Some(rest.push(last)),
            _ => None,
        }
    }
}

proof fn lemma_call_fragments_fail(items: Seq<JsonView>, k: int)
    requires
        0 <= k <= items.len(),
        call_fragments_of_json(items.take(k)) is None,
    ensures
        call_fragments_of_json(items) is None,
    decreases items.len() - k,
{
    if k < items.len() {
        assert(items.drop_last().take(k) =~= items.take(k));
        lemma_call_fragments_fail(items.drop_last(), k);
    } else {
        assert(items.take(k) =~= items);
    }
}

/// The partial update that a JSON value is: an object in which `role`,
/// `content` and `reasoning_content`, where present, are texts, and
/// `tool_calls`, where present, is a list of well-formed fragments.
pub open spec fn delta_of_json(j: JsonView) -> Option<ChatResponseChunkDeltaView> {
    if j is Object && text_field(j, "role"@).is_valid() && text_field(j, "content"@).is_valid()
        && text_field(j, "reasoning_content"@).is_valid() {
        match value_field(j, "tool_calls"@) {
            None => Some(
                ChatResponseChunkDeltaView {
                    role: text_field(j, "role"@).value(),
                    content: text_field(j, "content"@).value(),
                    reasoning_content: text_field(j, "reasoning_content"@).value(),
                    tool_calls: None,
                },
            ),
            Some(JsonView::Array(items)) => match call_fragments_of_json(items) {
                Some(fragments) => Some(
                    ChatResponseChunkDeltaView {
                        role: text_field(j, "role"@).value(),
                        content: text_field(j, "content"@).value(),
                        reasoning_content: text_field(j, "reasoning_content"@).value(),
                        tool_calls: Some(fragments),
                    },
                ),
                None => None,
            },
            Some(_) => None,
        }
    } else {
        None
    }
}

fn optional_text(j: &Json, key: &str) -> (r: Option<Option<String>>)
    ensures
        r is Some <==> text_field(j@, key@).is_valid(),
        r matches Some(t) ==> opt_text(t) == text_field(j@, key@).value(),
{
    match j.text_field(key) {
        Field::Missing => Some(None),
        Field::Present(t) => Some(Some(t)),
        Field::Invalid => None,
    }
}

impl FunctionCallRequestChunkDelta {
    /// Reads a fragment of a function call from a JSON value.
    pub fn from_json(j: &Json) -> (r: Option<FunctionCallRequestChunkDelta>)
        ensures
            r is Some <==> function_fragment_of_json(j@) is Some,
            r matches Some(f) ==> function_fragment_of_json(j@) == Some(f@),
    {
        if !j.is_object() {
            return None;
        }
        let name = match optional_text(j, "name") {
            Some(v) => v,
            None => {
                return None;
            },
        };
        let arguments = match optional_text(j, "arguments") {
            Some(v) => v,
            None => {
                return None;
            },
        };
        Some(FunctionCallRequestChunkDelta { name, arguments })
    }
}

impl ToolCallRequestChunkDelta {
    /// Reads a fragment of a tool call from a JSON value.
    pub fn from_json(j: &Json) -> (r: Option<ToolCallRequestChunkDelta>)
        ensures
            r is Some <==> call_fragment_of_json(j@) is Some,
            r matches Some(f) ==> call_fragment_of_json(j@) == Some(f@),
    {
        let index: usize = match j.count_field("index") {
            Field::Present(n) => {
                if n <= usize::MAX as u64 {
                    n as usize
                } else {
                    return None;
                }
            },
            _ => {
                return None;
            },
        };
        let id = match optional_text(j, "id") {
            Some(v) => v,
            None => {
                return None;
            },
        };
        let _type = match optional_text(j, "type") {
            Some(v) => v,
            None => {
                return None;
            },
        };
        let function = match j.get("function") {
            None => None,
            Some(Json::Null) => None,
            Some(f) => match FunctionCallRequestChunkDelta::from_json(f) {
                Some(v) => Some(v),
                None => {
                    return None;
                },
            },
        };
        Some(ToolCallRequestChunkDelta { index, id, _type, function })
    }

    /// Reads a list of fragments; one malformed fragment fails the list.
    pub fn list_from_json(items: &Vec<Json>) -> (r: Option<Vec<ToolCallRequestChunkDelta>>)
        ensures
            r is Some <==> call_fragments_of_json(items_view(items@)) is Some,
            r matches Some(v) ==> call_fragments_of_json(items_view(items@)) == Some(
                fragments_view(v@),
            ),
    {
        let mut out: Vec<ToolCallRequestChunkDelta> = Vec::new();
        let mut i: usize = 0;
        assert(items_view(items@).take(0) =~= Seq::empty());
        assert(fragments_view(out@) =~= Seq::empty());
        while i < items.len()
            invariant
                i <= items.len(),
                call_fragments_of_json(items_view(items@).take(i as int)) == Some(
                    fragments_view(out@),
                ),
            decreases items.len() - i,
        {
            let ghost done = items_view(items@).take(i + 1);
            proof {
                assert(done.drop_last() =~= items_view(items@).take(i as int));
                assert(done.last() == items@[i as int]@);
            }
            match ToolCallRequestChunkDelta::from_json(&items[i]) {
                Some(f) => {
                    let ghost before = fragments_view(out@);
                    out.push(f);
                    assert(fragments_view(out@) =~= before.push(f@));
                },
                None => {
                    proof {
                        lemma_call_fragments_fail(items_view(items@), i + 1);
                    }
                    return None;
                },
            }
            i = i + 1;
        }
        assert(items_view(items@).take(items.len() as int) =~= items_view(items@));
        Some(out)
    }
}

impl ChatResponseChunkDelta {
    /// Reads a partial update from a JSON value.
    pub fn from_json(j: &Json) -> (r: Option<ChatResponseChunkDelta>)
        ensures
            r is Some <==> delta_of_json(j@) is Some,
            r matches Some(d) ==> delta_of_json(j@) == Some(d@),
    {
        if !j.is_object() {
            return None;
        }
        let role = match optional_text(j, "role") {
            Some(v) => v,
            None => {
                return None;
            },
        };
        let content = match optional_text(j, "content") {
            Some(v) => v,
            None => {
                return None;
            },
        };
        let reasoning_content = match optional_text(j, "reasoning_content") {
            Some(v) => v,
            None => {
                return None;
            },
        };
        let tool_calls = match j.get("tool_calls") {
            None => None,
            Some(Json::Null) => None,
            Some(Json::Array(items)) => match ToolCallRequestChunkDelta::list_from_json(items) {
                Some(v) => Some(v),
                None => {
                    return None;
                },
            },
            Some(_) => {
                return None;
            },
        };
        Some(ChatResponseChunkDelta { role, content, reasoning_content, tool_calls })
    }
}

} // verus!
