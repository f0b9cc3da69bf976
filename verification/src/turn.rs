//! The chat orchestrator: the state of a conversation, and the decisions of
//! one turn as a machine that takes what happened and says what to do next.
//!
//! The machine does no I/O. Its caller writes the transcript, asks the model
//! for a completion, looks tools up, asks the user and calls tools as the
//! machine tells it to, and reports back what came of it.
//!
//! A message joins the history only after its line is in the transcript:
//! the machine stages the message and hands out the line, and takes the
//! message into the history when the caller reports the line as written.
use vstd::prelude::*;
use crate::chat::{
    RETRY_BACKOFF_SECONDS, TOOL_NAME_SEPARATOR, completion_body, completion_body_json,
    history_json, unpack_mcp_text_contents, unpacked_text,
};
use crate::codec::{json_parse, json_text, parse, stored, to_text};
use crate::collections::{StringMap, lookup};
use crate::definitions::MCPToolDefinition;
use crate::error::{
    MODEL_SERVER_ERROR_CODE, NahError, invalid_argument, model_invalid_response, user_cancel,
};
use crate::json::{Json, items_view};
use crate::message::{ChatMessage, ChatMessageView, ToolCallRequestView, calls_view, message_json};
use crate::text::{concat, concat3, strip_prefix, texts};

verus! {

/// Where a turn stands.
#[derive(Debug, Clone, Copy, PartialEq, Eq, Structural)]
pub enum TurnPhase {
    /// No turn is under way.
    Idle,
    /// The user's message, or the answers of a round of tool calls, wait for
    /// their lines to be written to the transcript.
    RecordingInput,
    /// A completion was asked for; its message has not arrived.
    AwaitingCompletion,
    /// The model's message waits for its line to be written to the
    /// transcript.
    RecordingCompletion,
    /// The definition of the tool of the current call was asked for.
    AwaitingDefinition,
    /// The user was asked whether a destructive tool may be called.
    AwaitingConfirmation,
    /// The tool of the current call was called; its result has not arrived.
    AwaitingToolResult,
}

/// What the caller of the machine has to do next.
#[derive(Debug)]
pub enum TurnAction {
    /// Append these lines to the transcript, in order, and flush it. The
    /// messages that they stand for join the history only after this.
    Record { lines: Vec<String> },
    /// Ask the model for a completion with the history as it stands.
    RequestCompletion,
    /// A passing failure: wait, then ask for the same completion again.
    RetryCompletion { wait_seconds: u64 },
    /// Look up the definition of a tool on a server.
    LookupTool { server: String, tool: String },
    /// Ask the user for consent.
    Confirm { prompt: String, cancel_message: String },
    /// Call a tool on a server.
    CallTool { server: String, tool: String, args: Json },
    /// The turn has ended; the last message of the history is the answer.
    Answer,
    /// The turn has ended with an error.
    Abort(NahError),
}

/// The tool call that is being dispatched.
#[derive(Debug)]
pub struct PendingCall {
    pub server: String,
    pub tool: String,
    pub args: Json,
    pub call_id: String,
}

/// What is told to the user when a declined call is cancelled.
pub const CANCEL_MESSAGE: &'static str = "Cancel the tool call!";

/// What a model's malformed arguments are reported as.
pub const BAD_ARGUMENTS_MESSAGE: &'static str =
    "Argument should be a JSON Object, but received an invalid value from the model!";

/// The message of a user.
pub open spec fn user_message_view(text: Seq<char>) -> ChatMessageView {
    ChatMessageView {
        role: "user"@,
        content: text,
        reasoning_content: None,
        tool_call_id: None,
        tool_calls: None,
    }
}

/// The message of the system.
pub open spec fn system_message_view(text: Seq<char>) -> ChatMessageView {
    ChatMessageView {
        role: "system"@,
        content: text,
        reasoning_content: None,
        tool_call_id: None,
        tool_calls: None,
    }
}

/// The message that answers a tool call.
pub open spec fn tool_message_view(text: Seq<char>, call_id: Seq<char>) -> ChatMessageView {
    ChatMessageView {
        role: "tool"@,
        content: text,
        reasoning_content: None,
        tool_call_id: Some(call_id),
        tool_calls: None,
    }
}

/// The line that a message adds to the transcript: its compact JSON text and
/// a newline.
pub open spec fn transcript_line(m: ChatMessageView) -> Seq<char> {
    json_text(stored(message_json(m))) + "\n"@
}

/// The question put to the user before a destructive tool is called.
pub open spec fn confirmation_prompt(tool_name: Seq<char>) -> Seq<char> {
    "Model requests to call tool "@ + tool_name
        + ", which is annotated as destructive. Do you still want to call? [N/y] > "@
}

/// The views of the messages of a history, one for one.
pub open spec fn message_views(messages: Seq<ChatMessage>) -> Seq<ChatMessageView> {
    Seq::new(messages.len(), |i: int| messages[i]@)
}

/// The lines that messages add to the transcript, one for one.
pub open spec fn lines_of(messages: Seq<ChatMessage>) -> Seq<Seq<char>> {
    Seq::new(messages.len(), |i: int| transcript_line(messages[i]@))
}

/// The state of a conversation.
#[derive(Debug)]
pub struct ChatContext {
    /// The name of the model.
    pub model: String,
    /// The tools as the model is told of them.
    pub tools: Vec<Json>,
    /// The server of each tool, under the tool's namespaced name.
    pub tool_name_to_server_map: StringMap<String>,
    /// What the configuration adds to a completion request.
    pub extra_params: Option<Json>,
    /// The conversation so far; messages are only ever appended.
    pub messages: Vec<ChatMessage>,
    /// The messages that join the history once their lines are in the
    /// transcript.
    pub staged: Vec<ChatMessage>,
    pub phase: TurnPhase,
    /// The position in the last message of the call that is dispatched.
    pub call_index: usize,
    pub pending: Option<PendingCall>,
    /// The answers to the calls dispatched so far in this round.
    pub responses: Vec<ChatMessage>,
}

impl ChatContext {
    /// Whether a turn is in the middle of dispatching tool calls.
    pub open spec fn dispatching(&self) -> bool {
        self.phase == TurnPhase::AwaitingDefinition || self.phase == TurnPhase::AwaitingConfirmation
            || self.phase == TurnPhase::AwaitingToolResult
    }

    /// Whether messages wait for their lines to be written.
    pub open spec fn recording(&self) -> bool {
        self.phase == TurnPhase::RecordingInput || self.phase == TurnPhase::RecordingCompletion
    }

    /// The tool calls of the last message of the history.
    pub open spec fn last_calls(&self) -> Seq<ToolCallRequestView> {
        if self.messages@.len() > 0 {
            match self.messages@.last().tool_calls {
                Some(calls) => calls_view(calls@),
                None => Seq::empty(),
            }
        } else {
            Seq::empty()
        }
    }

    /// The invariant of the state: messages are staged only while they are
    /// recorded, and the model's message alone; and while tool calls are
    /// dispatched, the call at hand is one of the calls of the last message,
    /// every call before it has its answer, and the pending call carries its
    /// id.
    pub open spec fn wf(&self) -> bool {
        &&& !self.recording() ==> self.staged@.len() == 0
        &&& self.phase == TurnPhase::RecordingCompletion ==> self.staged@.len() == 1
        &&& self.responses@.len() == self.call_index
        &&& self.dispatching() ==> {
            &&& self.call_index < self.last_calls().len()
            &&& self.pending matches Some(p) && p.call_id@ == self.last_calls()[self.call_index as int].id
        }
        &&& !self.dispatching() ==> self.call_index == 0 && self.pending is None
    }

    /// Whether `action` asks for the lines of the staged messages to be
    /// written to the transcript, in order.
    pub open spec fn is_record(&self, action: TurnAction) -> bool {
        action matches TurnAction::Record { lines } && texts(lines@) == lines_of(self.staged@)
    }

    /// A conversation that begins with the system prompt, where there is
    /// one.
    pub fn new(
        model: String,
        tools: Vec<Json>,
        tool_name_to_server_map: StringMap<String>,
        extra_params: Option<Json>,
        system_prompt: Option<String>,
    ) -> (c: ChatContext)
        ensures
            c.wf(),
            c.phase == TurnPhase::Idle,
            c.model == model,
            c.tools == tools,
            c.tool_name_to_server_map == tool_name_to_server_map,
            c.extra_params == extra_params,
            message_views(c.messages@) == match system_prompt {
                Some(text) => seq![system_message_view(text@)],
                None => Seq::empty(),
            },
    {
        let mut c = ChatContext {
            model,
            tools,
            tool_name_to_server_map,
            extra_params,
            messages: Vec::new(),
            staged: Vec::new(),
            phase: TurnPhase::Idle,
            call_index: 0,
            pending: None,
            responses: Vec::new(),
        };
        assert(message_views(c.messages@) =~= Seq::empty());
        match system_prompt {
            Some(text) => {
                c.messages.push(
                    ChatMessage {
                        role: "system".to_owned(),
                        content: text,
                        reasoning_content: None,
                        tool_call_id: None,
                        tool_calls: None,
                    },
                );
                assert(message_views(c.messages@) =~= seq![system_message_view(text@)]);
            },
            None => {},
        }
        c
    }

    /// The action that asks for the lines of the staged messages.
    fn record(&self) -> (action: TurnAction)
        ensures
            self.is_record(action),
    {
        let mut lines: Vec<String> = Vec::new();
        let mut i: usize = 0;
        while i < self.staged.len()
            invariant
                i <= self.staged.len(),
                lines@.len() == i,
                forall|k: int| 0 <= k < i ==> lines@[k]@ == transcript_line(self.staged@[k]@),
            decreases self.staged.len() - i,
        {
            let mut line = to_text(&self.staged[i].to_json());
            line.append("\n");
            lines.push(line);
            i = i + 1;
        }
        assert(texts(lines@) =~= lines_of(self.staged@));
        TurnAction::Record { lines }
    }

    /// The body of the completion request for the history as it stands.
    pub fn get_generate_request(&self) -> (body: Json)
        ensures
            body@ == completion_body_json(
                self.model@,
                history_json(self.messages@),
                items_view(self.tools@),
                match self.extra_params {
                    Some(j) => Some(j@),
                    None => None,
                },
            ),
    {
        completion_body(self.model.as_str(), &self.messages, &self.tools, &self.extra_params)
    }

    /// Ends the turn with an error. The history stays as it is: the answers
    /// collected in this round are dropped.
    fn abort(&mut self, error: NahError) -> (action: TurnAction)
        ensures
            final(self).aborted_from(*old(self)),
            action == TurnAction::Abort(error),
    {
        self.phase = TurnPhase::Idle;
        self.call_index = 0;
        self.pending = None;
        self.responses = Vec::new();
        self.staged = Vec::new();
        TurnAction::Abort(error)
    }

    /// Whether this state is `before` after its turn was ended with an
    /// error: no turn is under way, and the history is what it was.
    pub open spec fn aborted_from(&self, before: ChatContext) -> bool {
        &&& self.wf()
        &&& self.phase == TurnPhase::Idle
        &&& self.messages == before.messages
        &&& self.model == before.model
        &&& self.tools == before.tools
        &&& self.tool_name_to_server_map == before.tool_name_to_server_map
        &&& self.extra_params == before.extra_params
    }

    /// Whether the history has only grown since `before`: what was there is
    /// still there, in the same order, and anything new stands after it.
    pub open spec fn extends(&self, before: ChatContext) -> bool {
        message_views(before.messages@).is_prefix_of(message_views(self.messages@))
    }

    /// Whether the rest of the state is as it was in `before`: all but the
    /// history, what is staged for it and the progress of the turn.
    pub open spec fn same_setup(&self, before: ChatContext) -> bool {
        &&& self.model == before.model
        &&& self.tools == before.tools
        &&& self.tool_name_to_server_map == before.tool_name_to_server_map
        &&& self.extra_params == before.extra_params
    }

    /// The user says something. The message is staged, and its line is to be
    /// written to the transcript; the history stays as it is until that is
    /// done.
    pub fn user_message(&mut self, message: String) -> (action: TurnAction)
        requires
            old(self).wf(),
            old(self).phase == TurnPhase::Idle,
        ensures
            final(self).wf(),
            final(self).same_setup(*old(self)),
            final(self).phase == TurnPhase::RecordingInput,
            final(self).messages == old(self).messages,
            final(self).staged@.len() == 1,
            final(self).staged@[0]@ == user_message_view(message@),
            final(self).is_record(action),
    {
        self.staged.push(
            ChatMessage {
                role: "user".to_owned(),
                content: message,
                reasoning_content: None,
                tool_call_id: None,
                tool_calls: None,
            },
        );
        self.phase = TurnPhase::RecordingInput;
        self.record()
    }

    /// The lines of the staged messages are in the transcript. The staged
    /// messages join the history, in order, and the turn goes on: after the
    /// user's message or the answers of a round a completion is to be asked
    /// for; after the model's message the turn ends where the message
    /// carries no tool calls, and else their dispatch begins with the first.
    pub fn recorded(&mut self) -> (action: TurnAction)
        requires
            old(self).wf(),
            old(self).recording(),
        ensures
            final(self).wf(),
            final(self).same_setup(*old(self)),
            final(self).extends(*old(self)),
            final(self).messages@ == old(self).messages@ + old(self).staged@,
            old(self).phase == TurnPhase::RecordingInput ==> {
                &&& final(self).phase == TurnPhase::AwaitingCompletion
                &&& action is RequestCompletion
            },
            old(self).phase == TurnPhase::RecordingCompletion ==> match old(
                self,
            ).staged@[0]@.tool_calls {
                None => final(self).phase == TurnPhase::Idle && action is Answer,
                Some(calls) => final(self).dispatched(
                    action,
                    calls,
                    0,
                    old(self).messages@ + old(self).staged@,
                    Seq::empty(),
                ),
            },
    {
        let after_input = match self.phase {
            TurnPhase::RecordingInput => true,
            _ => false,
        };
        let mut taken: Vec<ChatMessage> = Vec::new();
        core::mem::swap(&mut taken, &mut self.staged);
        self.messages.append(&mut taken);
        assert(message_views(old(self).messages@) =~= message_views(self.messages@).take(
            old(self).messages@.len() as int,
        ));
        if after_input {
            self.phase = TurnPhase::AwaitingCompletion;
            return TurnAction::RequestCompletion;
        }
        let last = self.messages.len() - 1;
        assert(self.messages@[last as int] == old(self).staged@[0]);
        let has_calls = self.messages[last].tool_calls.is_some();
        if !has_calls {
            self.phase = TurnPhase::Idle;
            return TurnAction::Answer;
        }
        proof {
            assert(self.responses@ =~= Seq::empty());
            assert(self.messages@ =~= old(self).messages@ + old(self).staged@);
            assert(old(self).staged@[0]@.tool_calls == Some(self.last_calls()));
        }
        let ghost before = message_views(self.messages@);
        let action = self.dispatch_next();
        assert(message_views(self.messages@) =~= before);
        action
    }

    /// The completion failed. What had arrived of the message is dropped,
    /// and the history stays as it is. A non-success status of the endpoint
    /// ends the turn with that error. Any other failure is passing: after a
    /// fixed wait the same completion is to be asked for again.
    pub fn completion_failed(&mut self, error: NahError) -> (action: TurnAction)
        requires
            old(self).wf(),
            old(self).phase == TurnPhase::AwaitingCompletion,
        ensures
            error@.code == MODEL_SERVER_ERROR_CODE ==> {
                &&& final(self).aborted_from(*old(self))
                &&& action == TurnAction::Abort(error)
            },
            error@.code != MODEL_SERVER_ERROR_CODE ==> {
                &&& *final(self) == *old(self)
                &&& action == (TurnAction::RetryCompletion { wait_seconds: RETRY_BACKOFF_SECONDS })
            },
    {
        if error.is_model_server_error() {
            self.abort(error)
        } else {
            TurnAction::RetryCompletion { wait_seconds: RETRY_BACKOFF_SECONDS }
        }
    }

    /// Whether this state and `action` are what the dispatch of the call at
    /// position `at` of `calls` comes to, given the history and the answers
    /// as they were before. The history stays as it was in every case:
    /// - past the last call the round is over: the answers are staged in
    ///   order, and their lines are to be written to the transcript;
    /// - a call to a name that no server has, or that does not begin with
    ///   its server's name and the separator, ends the turn with an error;
    /// - so does a call whose arguments are not JSON;
    /// - otherwise the call becomes the pending call, and the definition of
    ///   its tool is to be looked up.
    pub open spec fn dispatched(
        &self,
        action: TurnAction,
        calls: Seq<ToolCallRequestView>,
        at: int,
        messages: Seq<ChatMessage>,
        responses: Seq<ChatMessage>,
    ) -> bool {
        let ended = self.phase == TurnPhase::Idle;
        &&& self.wf()
        &&& self.messages@ == messages
        &&& if at >= calls.len() {
            &&& self.phase == TurnPhase::RecordingInput
            &&& self.staged@ == responses
            &&& self.is_record(action)
        } else {
            let call = calls[at];
            match lookup(self.tool_name_to_server_map.entries(), call.function.name) {
                None => ended && (action matches TurnAction::Abort(e) && e@
                    == model_invalid_response(self.model@)),
                Some(server) => {
                    let prefix = server@ + TOOL_NAME_SEPARATOR@;
                    if !prefix.is_prefix_of(call.function.name) {
                        ended && (action matches TurnAction::Abort(e) && e@
                            == model_invalid_response(self.model@))
                    } else {
                        match json_parse(call.function.arguments) {
                            None => ended && (action matches TurnAction::Abort(e) && e@.code == 10
                                && e@.message == invalid_argument(
                                BAD_ARGUMENTS_MESSAGE@,
                                None,
                            ).message && e@.source is Some),
                            Some(args) => {
                                &&& self.phase == TurnPhase::AwaitingDefinition
                                &&& self.responses@ == responses
                                &&& self.call_index == at
                                &&& self.pending matches Some(p) && p.server@ == server@ && p.tool@
                                    == call.function.name.skip(prefix.len() as int) && p.args@
                                    == args
                                &&& action matches TurnAction::LookupTool { server: s, tool: t }
                                    && s@ == server@ && t@ == call.function.name.skip(
                                    prefix.len() as int,
                                )
                            },
                        }
                    }
                },
            }
        }
    }

    /// Takes up the call at `call_index` of the last message, or ends the
    /// round when all calls have their answers.
    fn dispatch_next(&mut self) -> (action: TurnAction)
        requires
            old(self).staged@.len() == 0,
            old(self).responses@.len() == old(self).call_index,
            old(self).call_index <= old(self).last_calls().len(),
            old(self).messages@.len() > 0,
            old(self).messages@.last().tool_calls is Some,
        ensures
            final(self).same_setup(*old(self)),
            final(self).dispatched(
                action,
                old(self).last_calls(),
                old(self).call_index as int,
                old(self).messages@,
                old(self).responses@,
            ),
    {
        let last = self.messages.len() - 1;
        let count = match &self.messages[last].tool_calls {
            Some(calls) => calls.len(),
            None => 0,
        };
        if self.call_index >= count {
            core::mem::swap(&mut self.staged, &mut self.responses);
            self.phase = TurnPhase::RecordingInput;
            self.call_index = 0;
            self.pending = None;
            return self.record();
        }
        let (name, arguments, call_id) = match &self.messages[last].tool_calls {
            Some(calls) => {
                let call = &calls[self.call_index];
                (call.function.name.clone(), call.function.arguments.clone(), call.id.clone())
            },
            None => (String::new(), String::new(), String::new()),
        };
        let server: String = match self.tool_name_to_server_map.get(name.as_str()) {
            Some(server) => server.clone(),
            None => {
                let e = NahError::model_invalid_response(self.model.as_str(), None);
                return self.abort(e);
            },
        };
        let prefix = concat(server.as_str(), TOOL_NAME_SEPARATOR);
        let tool = match strip_prefix(name.as_str(), prefix.as_str()) {
            Some(tool) => tool,
            None => {
                let e = NahError::model_invalid_response(self.model.as_str(), None);
                return self.abort(e);
            },
        };
        let args = match parse(arguments.as_str()) {
            Ok(args) => args,
            Err(cause) => {
                let e = NahError::invalid_argument_error(
                    BAD_ARGUMENTS_MESSAGE,
                    Some(cause.message),
                );
                return self.abort(e);
            },
        };
        let action = TurnAction::LookupTool { server: server.clone(), tool: tool.clone() };
        self.pending = Some(PendingCall { server, tool, args, call_id });
        self.phase = TurnPhase::AwaitingDefinition;
        action
    }

    /// The completion has arrived. The message is staged, and its line is to
    /// be written to the transcript; the history stays as it is until that
    /// is done.
    pub fn completion_finished(&mut self, message: ChatMessage) -> (action: TurnAction)
        requires
            old(self).wf(),
            old(self).phase == TurnPhase::AwaitingCompletion,
        ensures
            final(self).wf(),
            final(self).same_setup(*old(self)),
            final(self).phase == TurnPhase::RecordingCompletion,
            final(self).messages == old(self).messages,
            final(self).staged@ == seq![message],
            final(self).is_record(action),
    {
        self.staged.push(message);
        self.phase = TurnPhase::RecordingCompletion;
        assert(self.staged@ =~= seq![message]);
        self.record()
    }

    /// The definition of the pending call's tool was found. A destructive
    /// tool is not called before the user has agreed; any other tool is to
    /// be called now.
    pub fn definition_found(&mut self, definition: &MCPToolDefinition) -> (action: TurnAction)
        requires
            old(self).wf(),
            old(self).phase == TurnPhase::AwaitingDefinition,
        ensures
            final(self).wf(),
            final(self).same_setup(*old(self)),
            final(self).messages == old(self).messages,
            final(self).staged == old(self).staged,
            final(self).responses == old(self).responses,
            final(self).call_index == old(self).call_index,
            final(self).pending == old(self).pending,
            (definition@.annotations matches Some(a) && a.destructive_hint == Some(true)) ==> {
                &&& final(self).phase == TurnPhase::AwaitingConfirmation
                &&& action matches TurnAction::Confirm { prompt, cancel_message } && prompt@
                    == confirmation_prompt(definition@.name) && cancel_message@ == CANCEL_MESSAGE@
            },
            !(definition@.annotations matches Some(a) && a.destructive_hint == Some(true)) ==> {
                &&& final(self).phase == TurnPhase::AwaitingToolResult
                &&& final(self).is_pending_call(action)
            },
    {
        if definition.is_destructive() {
            self.phase = TurnPhase::AwaitingConfirmation;
            let prompt = concat3(
                "Model requests to call tool ",
                definition.name.as_str(),
                ", which is annotated as destructive. Do you still want to call? [N/y] > ",
            );
            TurnAction::Confirm { prompt, cancel_message: CANCEL_MESSAGE.to_owned() }
        } else {
            self.phase = TurnPhase::AwaitingToolResult;
            self.call_pending()
        }
    }

    /// Whether `action` is the call of the pending call's tool, on its
    /// server and with its arguments.
    pub open spec fn is_pending_call(&self, action: TurnAction) -> bool {
        self.pending matches Some(p) && action matches TurnAction::CallTool { server, tool, args }
            && server@ == p.server@ && tool@ == p.tool@ && args@ == p.args@
    }

    fn call_pending(&self) -> (action: TurnAction)
        requires
            self.pending is Some,
        ensures
            self.is_pending_call(action),
    {
        match &self.pending {
            Some(p) => TurnAction::CallTool {
                server: p.server.clone(),
                tool: p.tool.clone(),
                args: p.args.clone(),
            },
            None => TurnAction::Answer,
        }
    }

    /// The definition of the pending call's tool could not be had: the turn
    /// ends with that error.
    pub fn definition_failed(&mut self, error: NahError) -> (action: TurnAction)
        requires
            old(self).wf(),
            old(self).phase == TurnPhase::AwaitingDefinition,
        ensures
            final(self).aborted_from(*old(self)),
            action == TurnAction::Abort(error),
    {
        self.abort(error)
    }

    /// The user has answered. With consent the tool is to be called; without
    /// it the turn ends, cancelled, and the tool is not called.
    pub fn confirmed(&mut self, consent: bool) -> (action: TurnAction)
        requires
            old(self).wf(),
            old(self).phase == TurnPhase::AwaitingConfirmation,
        ensures
            consent ==> {
                &&& final(self).wf()
                &&& final(self).same_setup(*old(self))
                &&& final(self).phase == TurnPhase::AwaitingToolResult
                &&& final(self).messages == old(self).messages
                &&& final(self).staged == old(self).staged
                &&& final(self).responses == old(self).responses
                &&& final(self).call_index == old(self).call_index
                &&& final(self).pending == old(self).pending
                &&& final(self).is_pending_call(action)
            },
            !consent ==> {
                &&& final(self).aborted_from(*old(self))
                &&& action matches TurnAction::Abort(e) && e@ == user_cancel()
            },
    {
        if consent {
            self.phase = TurnPhase::AwaitingToolResult;
            self.call_pending()
        } else {
            self.abort(NahError::user_cancel_request())
        }
    }

    /// The tool call has failed: the turn ends with that error.
    pub fn tool_failed(&mut self, error: NahError) -> (action: TurnAction)
        requires
            old(self).wf(),
            old(self).phase == TurnPhase::AwaitingToolResult,
        ensures
            final(self).aborted_from(*old(self)),
            action == TurnAction::Abort(error),
    {
        self.abort(error)
    }

    /// The tool call has returned. A result without a list of contents ends
    /// the turn with an error. Otherwise the text of the result becomes the
    /// answer to the call, and the next call is taken up.
    pub fn tool_returned(&mut self, result: &Json) -> (action: TurnAction)
        requires
            old(self).wf(),
            old(self).phase == TurnPhase::AwaitingToolResult,
        ensures
            final(self).wf(),
            final(self).same_setup(*old(self)),
            final(self).messages@ == old(self).messages@,
            match unpacked_text(old(self).pending->Some_0.server@, result@) {
                Err(e) => final(self).aborted_from(*old(self)) && (action matches TurnAction::Abort(
                    x,
                ) && x@ == e),
                Ok(text) => exists|answer: ChatMessage|
                    answer@ == tool_message_view(text, old(self).pending->Some_0.call_id@)
                        && #[trigger] final(self).dispatched(
                        action,
                        old(self).last_calls(),
                        old(self).call_index + 1,
                        old(self).messages@,
                        old(self).responses@.push(answer),
                    ),
            },
    {
        let (unpacked, call_id) = match &self.pending {
            Some(p) => (unpack_mcp_text_contents(p.server.as_str(), result), p.call_id.clone()),
            None => (Ok(String::new()), String::new()),
        };
        match unpacked {
            Err(e) => self.abort(e),
            Ok(text) => {
                let answer = ChatMessage {
                    role: "tool".to_owned(),
                    content: text,
                    reasoning_content: None,
                    tool_call_id: Some(call_id),
                    tool_calls: None,
                };
                let ghost pushed = answer;
                self.responses.push(answer);
                let last = self.messages.len() - 1;
                let count = match &self.messages[last].tool_calls {
                    Some(calls) => calls.len(),
                    None => 0,
                };
                assert(self.call_index < count);
                self.call_index = self.call_index + 1;
                self.pending = None;
                let action = self.dispatch_next();
                assert(self.dispatched(
                    action,
                    old(self).last_calls(),
                    old(self).call_index + 1,
                    old(self).messages@,
                    old(self).responses@.push(pushed),
                ));
                action
            },
        }
    }
}

} // verus!
