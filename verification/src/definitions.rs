//! What a server says about its tools, resources and prompts, and how each
//! description is read from the JSON a server sends.
use vstd::prelude::*;
use crate::json::{
    Field, Json, JsonView, array_member, bool_field, count_field, items_view, member, text_field,
    value_field, views,
};
use crate::text::opt_text;

verus! {

/// Optional hints about what a tool does. Each hint is absent, false or true.
#[derive(Debug)]
pub struct MCPToolAnnotations {
    pub title: Option<String>,
    pub read_only_hint: Option<bool>,
    pub destructive_hint: Option<bool>,
    pub idempotent_hint: Option<bool>,
    pub open_world_hint: Option<bool>,
}

pub ghost struct MCPToolAnnotationsView {
    pub title: Option<Seq<char>>,
    pub read_only_hint: Option<bool>,
    pub destructive_hint: Option<bool>,
    pub idempotent_hint: Option<bool>,
    pub open_world_hint: Option<bool>,
}

impl View for MCPToolAnnotations {
    type V = MCPToolAnnotationsView;

    open spec fn view(&self) -> MCPToolAnnotationsView {
        MCPToolAnnotationsView {
            title: opt_text(self.title),
            read_only_hint: self.read_only_hint,
            destructive_hint: self.destructive_hint,
            idempotent_hint: self.idempotent_hint,
            open_world_hint: self.open_world_hint,
        }
    }
}

/// The annotations that a JSON value is: an object in which `title`, where
/// present, is a text and each hint, where present, is a boolean.
pub open spec fn annotations_of_json(j: JsonView) -> Option<MCPToolAnnotationsView> {
    if j is Object && text_field(j, "title"@).is_valid() && bool_field(
        j,
        "readOnlyHint"@,
    ).is_valid() && bool_field(j, "destructiveHint"@).is_valid() && bool_field(
        j,
        "idempotentHint"@,
    ).is_valid() && bool_field(j, "openWorldHint"@).is_valid() {
        Some(
            MCPToolAnnotationsView {
                title: text_field(j, "title"@).value(),
                read_only_hint: bool_field(j, "readOnlyHint"@).value(),
                destructive_hint: bool_field(j, "destructiveHint"@).value(),
                idempotent_hint: bool_field(j, "idempotentHint"@).value(),
                open_world_hint: bool_field(j, "openWorldHint"@).value(),
            },
        )
    } else {
        None
    }
}

/// The text of an optional member: `None` where the member is of another
/// kind, else what was found.
fn optional_text(j: &Json, key: &str) -> (r: Option<Option<String>>)
    ensures
        r is Some <==> text_field(j@, key@).is_valid(),
        r matches Some(t) ==> opt_text(t) == text_field(j@, key@).value(),
{
    match j.text_field(key) {
        Field::Missing => Some(None),
        Field::Present(t) => Some(Some(t)),
        Field::Invalid => None,
    }
}

/// The boolean of an optional member.
fn optional_bool(j: &Json, key: &str) -> (r: Option<Option<bool>>)
    ensures
        r is Some <==> bool_field(j@, key@).is_valid(),
        r matches Some(b) ==> b == bool_field(j@, key@).value(),
{
    match j.bool_field(key) {
        Field::Missing => Some(None),
        Field::Present(b) => Some(Some(b)),
        Field::Invalid => None,
    }
}

/// The text of a member that has to be there.
fn required_text(j: &Json, key: &str) -> (r: Option<String>)
    ensures
        r is Some <==> text_field(j@, key@) is Present,
        r matches Some(t) ==> text_field(j@, key@) == Field::Present(t@),
{
    match j.text_field(key) {
        Field::Present(t) => Some(t),
        _ => None,
    }
}

impl MCPToolAnnotations {
    /// Reads annotations from a JSON value.
    pub fn from_json(j: &Json) -> (r: Option<MCPToolAnnotations>)
        ensures
            r is Some <==> annotations_of_json(j@) is Some,
            r matches Some(a) ==> annotations_of_json(j@) == Some(a@),
    {
        if !j.is_object() {
            return None;
        }
        let title = match optional_text(j, "title") {
            Some(v) => v,
            None => {
                return None;
            },
        };
        let read_only_hint = match optional_bool(j, "readOnlyHint") {
            Some(v) => v,
            None => {
                return None;
            },
        };
        let destructive_hint = match optional_bool(j, "destructiveHint") {
            Some(v) => v,
            None => {
                return None;
            },
        };
        let idempotent_hint = match optional_bool(j, "idempotentHint") {
            Some(v) => v,
            None => {
                return None;
            },
        };
        let open_world_hint = match optional_bool(j, "openWorldHint") {
            Some(v) => v,
            None => {
                return None;
            },
        };
        Some(
            MCPToolAnnotations {
                title,
                read_only_hint,
                destructive_hint,
                idempotent_hint,
                open_world_hint,
            },
        )
    }
}

/// A tool: its name, what it is for, the schema of its input, and hints.
#[derive(Debug)]
pub struct MCPToolDefinition {
    pub name: String,
    pub description: Option<String>,
    pub input_schema: Json,
    pub annotations: Option<MCPToolAnnotations>,
}

pub ghost struct MCPToolDefinitionView {
    pub name: Seq<char>,
    pub description: Option<Seq<char>>,
    pub input_schema: JsonView,
    pub annotations: Option<MCPToolAnnotationsView>,
}

impl View for MCPToolDefinition {
    type V = MCPToolDefinitionView;

    open spec fn view(&self) -> MCPToolDefinitionView {
        MCPToolDefinitionView {
            name: self.name@,
            description: opt_text(self.description),
            input_schema: self.input_schema@,
            annotations: match self.annotations {
                Some(a) => Some(a@),
                None => None,
            },
        }
    }
}

/// The tool that a JSON value is: an object with a text under `name` and any
/// value under `inputSchema`; `description`, where present, is a text, and
/// `annotations`, where present, are well-formed annotations.
pub open spec fn tool_of_json(j: JsonView) -> Option<MCPToolDefinitionView> {
    match (text_field(j, "name"@), member(j, "inputSchema"@)) {
        (Field::Present(name), Some(input_schema)) => {
            if !text_field(j, "description"@).is_valid() {
                None
            } else {
                match value_field(j, "annotations"@) {
                    None => Some(
                        MCPToolDefinitionView {
                            name,
                            description: text_field(j, "description"@).value(),
                            input_schema,
                            annotations: None,
                        },
                    ),
                    Some(a) => match annotations_of_json(a) {
                        Some(annotations) => Some(
                            MCPToolDefinitionView {
                                name,
                                description: text_field(j, "description"@).value(),
                                input_schema,
                                annotations: Some(annotations),
                            },
                        ),
                        None => None,
                    },
                }
            }
        },
        _ => None,
    }
}

impl MCPToolDefinition {
    /// Whether the tool is marked as destructive, so that a call needs the
    /// user's consent.
    pub fn is_destructive(&self) -> (r: bool)
        ensures
            r == (self@.annotations matches Some(a) && a.destructive_hint == Some(true)),
    {
        match &self.annotations {
            Some(a) => match a.destructive_hint {
                Some(true) => true,
                _ => false,
            },
            None => false,
        }
    }

    /// Whether the tool is marked as reaching beyond its own server.
    pub fn is_open_world(&self) -> (r: bool)
        ensures
            r == (self@.annotations matches Some(a) && a.open_world_hint == Some(true)),
    {
        match &self.annotations {
            Some(a) => match a.open_world_hint {
                Some(true) => true,
                _ => false,
            },
            None => false,
        }
    }

    /// Reads a tool from a JSON value.
    pub fn from_json(j: &Json) -> (r: Option<MCPToolDefinition>)
        ensures
            r is Some <==> tool_of_json(j@) is Some,
            r matches Some(t) ==> tool_of_json(j@) == Some(t@),
    {
        let name = match required_text(j, "name") {
            Some(v) => v,
            None => {
                return None;
            },
        };
        let input_schema = match j.get("inputSchema") {
            Some(v) => v.clone(),
            None => {
                return None;
            },
        };
        let description = match optional_text(j, "description") {
            Some(v) => v,
            None => {
                return None;
            },
        };
        let annotations = match j.get("annotations") {
            None => None,
            Some(Json::Null) => None,
            Some(a) => match MCPToolAnnotations::from_json(a) {
                Some(v) => Some(v),
                None => {
                    return None;
                },
            },
        };
        Some(MCPToolDefinition { name, description, input_schema, annotations })
    }
}

/// A resource: a direct one has a URI, a template has a URI template.
#[derive(Debug)]
pub struct MCPResourceDefinition {
    pub uri: Option<String>,
    pub uri_template: Option<String>,
    pub name: String,
    pub description: Option<String>,
    pub mime_type: Option<String>,
    pub size: Option<usize>,
}

pub ghost struct MCPResourceDefinitionView {
    pub uri: Option<Seq<char>>,
    pub uri_template: Option<Seq<char>>,
    pub name: Seq<char>,
    pub description: Option<Seq<char>>,
    pub mime_type: Option<Seq<char>>,
    pub size: Option<nat>,
}

impl View for MCPResourceDefinition {
    type V = MCPResourceDefinitionView;

    open spec fn view(&self) -> MCPResourceDefinitionView {
        MCPResourceDefinitionView {
            uri: opt_text(self.uri),
            uri_template: opt_text(self.uri_template),
            name: self.name@,
            description: opt_text(self.description),
            mime_type: opt_text(self.mime_type),
            size: match self.size {
                Some(n) => Some(n as nat),
                None => None,
            },
        }
    }
}

/// The size looked for under `size`: a count that fits the machine's word.
pub open spec fn size_field(j: JsonView) -> Field<nat> {
    match count_field(j, "size"@) {
        Field::Present(n) => if n <= usize::MAX {
            Field::Present(n)
        } else {
            Field::Invalid
        },
        other => other,
    }
}

/// The resource that a JSON value is: an object with a text under `name`;
/// `uri`, `uriTemplate`, `description` and `mimeType`, where present, are
/// texts, and `size`, where present, is a count.
pub open spec fn resource_of_json(j: JsonView) -> Option<MCPResourceDefinitionView> {
    match text_field(j, "name"@) {
        Field::Present(name) => {
            if text_field(j, "uri"@).is_valid() && text_field(j, "uriTemplate"@).is_valid()
                && text_field(j, "description"@).is_valid() && text_field(
                j,
                "mimeType"@,
            ).is_valid() && size_field(j).is_valid() {
                Some(
                    MCPResourceDefinitionView {
                        uri: text_field(j, "uri"@).value(),
                        uri_template: text_field(j, "uriTemplate"@).value(),
                        name,
                        description: text_field(j, "description"@).value(),
                        mime_type: text_field(j, "mimeType"@).value(),
                        size: size_field(j).value(),
                    },
                )
            } else {
                None
            }
        },
        _ => None,
    }
}

impl MCPResourceDefinition {
    /// Reads a resource from a JSON value.
    pub fn from_json(j: &Json) -> (r: Option<MCPResourceDefinition>)
        ensures
            r is Some <==> resource_of_json(j@) is Some,
            r matches Some(d) ==> resource_of_json(j@) == Some(d@),
    {
        let name = match required_text(j, "name") {
            Some(v) => v,
            None => {
                return None;
            },
        };
        let uri = match optional_text(j, "uri") {
            Some(v) => v,
            None => {
                return None;
            },
        };
        let uri_template = match optional_text(j, "uriTemplate") {
            Some(v) => v,
            None => {
                return None;
            },
        };
        let description = match optional_text(j, "description") {
            Some(v) => v,
            None => {
                return None;
            },
        };
        let mime_type = match optional_text(j, "mimeType") {
            Some(v) => v,
            None => {
                return None;
            },
        };
        let size: Option<usize> = match j.count_field("size") {
            Field::Missing => None,
            Field::Present(n) => {
                if n <= usize::MAX as u64 {
                    Some(n as usize)
                } else {
                    return None;
                }
            },
            Field::Invalid => {
                return None;
            },
        };
        Some(MCPResourceDefinition { uri, uri_template, name, description, mime_type, size })
    }
}

/// One piece of what a resource holds: text, or binary data as a blob.
#[derive(Debug)]
pub struct MCPResourceContent {
    pub uri: String,
    pub mime: Option<String>,
    pub text: Option<String>,
    pub blob: Option<String>,
}

pub ghost struct MCPResourceContentView {
    pub uri: Seq<char>,
    pub mime: Option<Seq<char>>,
    pub text: Option<Seq<char>>,
    pub blob: Option<Seq<char>>,
}

impl View for MCPResourceContent {
    type V = MCPResourceContentView;

    open spec fn view(&self) -> MCPResourceContentView {
        MCPResourceContentView {
            uri: self.uri@,
            mime: opt_text(self.mime),
            text: opt_text(self.text),
            blob: opt_text(self.blob),
        }
    }
}

/// The resource content that a JSON value is: an object with a text under
/// `uri`; `mime`, `text` and `blob`, where present, are texts.
pub open spec fn content_of_json(j: JsonView) -> Option<MCPResourceContentView> {
    match text_field(j, "uri"@) {
        Field::Present(uri) => {
            if text_field(j, "mime"@).is_valid() && text_field(j, "text"@).is_valid()
                && text_field(j, "blob"@).is_valid() {
                Some(
                    MCPResourceContentView {
                        uri,
                        mime: text_field(j, "mime"@).value(),
                        text: text_field(j, "text"@).value(),
                        blob: text_field(j, "blob"@).value(),
                    },
                )
            } else {
                None
            }
        },
        _ => None,
    }
}

impl MCPResourceContent {
    /// Reads a resource content from a JSON value.
    pub fn from_json(j: &Json) -> (r: Option<MCPResourceContent>)
        ensures
            r is Some <==> content_of_json(j@) is Some,
            r matches Some(c) ==> content_of_json(j@) == Some(c@),
    {
        let uri = match required_text(j, "uri") {
            Some(v) => v,
            None => {
                return None;
            },
        };
        let mime = match optional_text(j, "mime") {
            Some(v) => v,
            None => {
                return None;
            },
        };
        let text = match optional_text(j, "text") {
            Some(v) => v,
            None => {
                return None;
            },
        };
        let blob = match optional_text(j, "blob") {
            Some(v) => v,
            None => {
                return None;
            },
        };
        Some(MCPResourceContent { uri, mime, text, blob })
    }

    /// Whether the content carries a payload, as text or as a blob.
    pub fn has_payload(&self) -> (r: bool)
        ensures
            r == (self@.text is Some || self@.blob is Some),
    {
        self.text.is_some() || self.blob.is_some()
    }
}

/// An argument that a prompt accepts.
#[derive(Debug)]
pub struct MCPPromptArgument {
    pub name: String,
    pub description: Option<String>,
    pub required: Option<bool>,
}

pub ghost struct MCPPromptArgumentView {
    pub name: Seq<char>,
    pub description: Option<Seq<char>>,
    pub required: Option<bool>,
}

impl View for MCPPromptArgument {
    type V = MCPPromptArgumentView;

    open spec fn view(&self) -> MCPPromptArgumentView {
        MCPPromptArgumentView {
            name: self.name@,
            description: opt_text(self.description),
            required: self.required,
        }
    }
}

/// The prompt argument that a JSON value is.
pub open spec fn argument_of_json(j: JsonView) -> Option<MCPPromptArgumentView> {
    match text_field(j, "name"@) {
        Field::Present(name) => {
            if text_field(j, "description"@).is_valid() && bool_field(j, "required"@).is_valid() {
                Some(
                    MCPPromptArgumentView {
                        name,
                        description: text_field(j, "description"@).value(),
                        required: bool_field(j, "required"@).value(),
                    },
                )
            } else {
                None
            }
        },
        _ => None,
    }
}

/// The prompt arguments that a list of JSON values are, where every one of
/// them is well-formed.
pub open spec fn arguments_of_json(items: Seq<JsonView>) -> Option<Seq<MCPPromptArgumentView>>
    decreases items.len(),
{
    if items.len() == 0 {
        Some(Seq::empty())
    } else {
        match (arguments_of_json(items.drop_last()), argument_of_json(items.last())) {
            (Some(rest), Some(last)) => Some(rest.push(last)),
            _ => None,
        }
    }
}

impl MCPPromptArgument {
    /// Reads a prompt argument from a JSON value.
    pub fn from_json(j: &Json) -> (r: Option<MCPPromptArgument>)
        ensures
            r is Some <==> argument_of_json(j@) is Some,
            r matches Some(a) ==> argument_of_json(j@) == Some(a@),
    {
        let name = match required_text(j, "name") {
            Some(v) => v,
            None => {
                return None;
            },
        };
        let description = match optional_text(j, "description") {
            Some(v) => v,
            None => {
                return None;
            },
        };
        let required = match optional_bool(j, "required") {
            Some(v) => v,
            None => {
                return None;
            },
        };
        Some(MCPPromptArgument { name, description, required })
    }

    /// Reads a list of prompt arguments; one malformed argument fails the list.
    pub fn list_from_json(items: &Vec<Json>) -> (r: Option<Vec<MCPPromptArgument>>)
        ensures
            r is Some <==> arguments_of_json(items_view(items@)) is Some,
            r matches Some(v) ==> arguments_of_json(items_view(items@)) == Some(views(v@)),
    {
        let mut out: Vec<MCPPromptArgument> = Vec::new();
        let mut i: usize = 0;
        assert(items_view(items@).take(0) =~= Seq::empty());
        assert(views(out@) =~= Seq::empty());
        while i < items.len()
            invariant
                i <= items.len(),
                arguments_of_json(items_view(items@).take(i as int)) == Some(views(out@)),
            decreases items.len() - i,
        {
            let ghost done = items_view(items@).take(i + 1);
            proof {
                assert(done.drop_last() =~= items_view(items@).take(i as int));
                assert(done.last() == items@[i as int]@);
            }
            match MCPPromptArgument::from_json(&items[i]) {
                Some(a) => {
                    let ghost before = views(out@);
                    out.push(a);
                    assert(views(out@) =~= before.push(a@));
                },
                None => {
                    proof {
                        lemma_arguments_fail(items_view(items@), i + 1);
                    }
                    return None;
                },
            }
            i = i + 1;
        }
        assert(items_view(items@).take(items.len() as int) =~= items_view(items@));
        Some(out)
    }
}

/// A list of arguments with a malformed prefix is malformed.
proof fn lemma_arguments_fail(items: Seq<JsonView>, k: int)
    requires
        0 <= k <= items.len(),
        arguments_of_json(items.take(k)) is None,
    ensures
        arguments_of_json(items) is None,
    decreases items.len() - k,
{
    if k < items.len() {
        assert(items.drop_last().take(k) =~= items.take(k));
        lemma_arguments_fail(items.drop_last(), k);
    } else {
        assert(items.take(k) =~= items);
    }
}

/// A prompt: its name, what it is for, and the arguments it takes.
#[derive(Debug)]
pub struct MCPPromptDefinition {
    pub name: String,
    pub description: Option<String>,
    pub arguments: Option<Vec<MCPPromptArgument>>,
}

pub ghost struct MCPPromptDefinitionView {
    pub name: Seq<char>,
    pub description: Option<Seq<char>>,
    pub arguments: Option<Seq<MCPPromptArgumentView>>,
}

impl View for MCPPromptDefinition {
    type V = MCPPromptDefinitionView;

    open spec fn view(&self) -> MCPPromptDefinitionView {
        MCPPromptDefinitionView {
            name: self.name@,
            description: opt_text(self.description),
            arguments: match self.arguments {
                Some(v) => Some(views(v@)),
                None => None,
            },
        }
    }
}

/// The prompt that a JSON value is: an object with a text under `name`;
/// `description`, where present, is a text, and `arguments`, where present,
/// is a list of well-formed arguments.
pub open spec fn prompt_of_json(j: JsonView) -> Option<MCPPromptDefinitionView> {
    match text_field(j, "name"@) {
        Field::Present(name) => {
            if !text_field(j, "description"@).is_valid() {
                None
            } else {
                match value_field(j, "arguments"@) {
                    None => Some(
                        MCPPromptDefinitionView {
                            name,
                            description: text_field(j, "description"@).value(),
                            arguments: None,
                        },
                    ),
                    Some(JsonView::Array(items)) => match arguments_of_json(items) {
                        Some(arguments) => Some(
                            MCPPromptDefinitionView {
                                name,
                                description: text_field(j, "description"@).value(),
                                arguments: Some(arguments),
                            },
                        ),
                        None => None,
                    },
                    Some(_) => None,
                }
            }
        },
        _ => None,
    }
}

impl MCPPromptDefinition {
    /// Reads a prompt from a JSON value.
    pub fn from_json(j: &Json) -> (r: Option<MCPPromptDefinition>)
        ensures
            r is Some <==> prompt_of_json(j@) is Some,
            r matches Some(p) ==> prompt_of_json(j@) == Some(p@),
    {
        let name = match required_text(j, "name") {
            Some(v) => v,
            None => {
                return None;
            },
        };
        let description = match optional_text(j, "description") {
            Some(v) => v,
            None => {
                return None;
            },
        };
        let arguments = match j.get("arguments") {
            None => None,
            Some(Json::Null) => None,
            Some(Json::Array(items)) => match MCPPromptArgument::list_from_json(items) {
                Some(v) => Some(v),
                None => {
                    return None;
                },
            },
            Some(_) => {
                return None;
            },
        };
        Some(MCPPromptDefinition { name, description, arguments })
    }
}

/// What one message of a prompt holds: text, or data of some other type.
#[derive(Debug)]
pub struct PromptMessageContent {
    pub type_: String,
    pub text: Option<String>,
    pub data: Option<String>,
    pub mime_type: Option<String>,
    pub resource: Option<Json>,
    pub annotations: Option<Json>,
}

pub ghost struct PromptMessageContentView {
    pub type_: Seq<char>,
    pub text: Option<Seq<char>>,
    pub data: Option<Seq<char>>,
    pub mime_type: Option<Seq<char>>,
    pub resource: Option<JsonView>,
    pub annotations: Option<JsonView>,
}

impl View for PromptMessageContent {
    type V = PromptMessageContentView;

    open spec fn view(&self) -> PromptMessageContentView {
        PromptMessageContentView {
            type_: self.type_@,
            text: opt_text(self.text),
            data: opt_text(self.data),
            mime_type: opt_text(self.mime_type),
            resource: match self.resource {
                Some(j) => Some(j@),
                None => None,
            },
            annotations: match self.annotations {
                Some(j) => Some(j@),
                None => None,
            },
        }
    }
}

/// The message content that a JSON value is: an object with a text under
/// `type`; `text`, `data` and `mimeType`, where present, are texts.
pub open spec fn message_content_of_json(j: JsonView) -> Option<PromptMessageContentView> {
    match text_field(j, "type"@) {
        Field::Present(type_) => {
            if text_field(j, "text"@).is_valid() && text_field(j, "data"@).is_valid()
                && text_field(j, "mimeType"@).is_valid() {
                Some(
                    PromptMessageContentView {
                        type_,
                        text: text_field(j, "text"@).value(),
                        data: text_field(j, "data"@).value(),
                        mime_type: text_field(j, "mimeType"@).value(),
                        resource: value_field(j, "resource"@),
                        annotations: value_field(j, "annotations"@),
                    },
                )
            } else {
                None
            }
        },
        _ => None,
    }
}

impl PromptMessageContent {
    /// Reads a message content from a JSON value.
    pub fn from_json(j: &Json) -> (r: Option<PromptMessageContent>)
        ensures
            r is Some <==> message_content_of_json(j@) is Some,
            r matches Some(c) ==> message_content_of_json(j@) == Some(c@),
    {
        let type_ = match required_text(j, "type") {
            Some(v) => v,
            None => {
                return None;
            },
        };
        let text = match optional_text(j, "text") {
            Some(v) => v,
            None => {
                return None;
            },
        };
        let data = match optional_text(j, "data") {
            Some(v) => v,
            None => {
                return None;
            },
        };
        let mime_type = match optional_text(j, "mimeType") {
            Some(v) => v,
            None => {
                return None;
            },
        };
        let resource = j.value_field("resource");
        let annotations = j.value_field("annotations");
        Some(PromptMessageContent { type_, text, data, mime_type, resource, annotations })
    }
}

/// One message of a prompt: who says it, and what.
#[derive(Debug)]
pub struct PromptMessage {
    pub role: String,
    pub content: PromptMessageContent,
}

pub ghost struct PromptMessageView {
    pub role: Seq<char>,
    pub content: PromptMessageContentView,
}

impl View for PromptMessage {
    type V = PromptMessageView;

    open spec fn view(&self) -> PromptMessageView {
        PromptMessageView { role: self.role@, content: self.content@ }
    }
}

/// The prompt message that a JSON value is: an object with a text under
/// `role` and a well-formed content under `content`.
pub open spec fn prompt_message_of_json(j: JsonView) -> Option<PromptMessageView> {
    match (text_field(j, "role"@), member(j, "content"@)) {
        (Field::Present(role), Some(c)) => match message_content_of_json(c) {
            Some(content) => Some(PromptMessageView { role, content }),
            None => None,
        },
        _ => None,
    }
}

/// The prompt messages that a list of JSON values are, where every one of
/// them is well-formed.
pub open spec fn prompt_messages_of_json(items: Seq<JsonView>) -> Option<Seq<PromptMessageView>>
    decreases items.len(),
{
    if items.len() == 0 {
        Some(Seq::empty())
    } else {
        match (prompt_messages_of_json(items.drop_last()), prompt_message_of_json(items.last())) {
            (Some(rest), Some(last)) => Some(rest.push(last)),
            _ => None,
        }
    }
}

/// A list of messages with a malformed prefix is malformed.
proof fn lemma_messages_fail(items: Seq<JsonView>, k: int)
    requires
        0 <= k <= items.len(),
        prompt_messages_of_json(items.take(k)) is None,
    ensures
        prompt_messages_of_json(items) is None,
    decreases items.len() - k,
{
    if k < items.len() {
        assert(items.drop_last().take(k) =~= items.take(k));
        lemma_messages_fail(items.drop_last(), k);
    } else {
        assert(items.take(k) =~= items);
    }
}

impl PromptMessage {
    /// Reads a prompt message from a JSON value.
    pub fn from_json(j: &Json) -> (r: Option<PromptMessage>)
        ensures
            r is Some <==> prompt_message_of_json(j@) is Some,
            r matches Some(m) ==> prompt_message_of_json(j@) == Some(m@),
    {
        let role = match required_text(j, "role") {
            Some(v) => v,
            None => {
                return None;
            },
        };
        let content = match j.get("content") {
            Some(c) => match PromptMessageContent::from_json(c) {
                Some(v) => v,
                None => {
                    return None;
                },
            },
            None => {
                return None;
            },
        };
        Some(PromptMessage { role, content })
    }

    /// Reads a list of prompt messages; one malformed message fails the list.
    pub fn list_from_json(items: &Vec<Json>) -> (r: Option<Vec<PromptMessage>>)
        ensures
            r is Some <==> prompt_messages_of_json(items_view(items@)) is Some,
            r matches Some(v) ==> prompt_messages_of_json(items_view(items@)) == Some(views(v@)),
    {
        let mut messages: Vec<PromptMessage> = Vec::new();
        let mut i: usize = 0;
        assert(items_view(items@).take(0) =~= Seq::empty());
        assert(views(messages@) =~= Seq::empty());
        while i < items.len()
            invariant
                i <= items.len(),
                prompt_messages_of_json(items_view(items@).take(i as int)) == Some(
                    views(messages@),
                ),
            decreases items.len() - i,
        {
            let ghost done = items_view(items@).take(i + 1);
            proof {
                assert(done.drop_last() =~= items_view(items@).take(i as int));
                assert(done.last() == items@[i as int]@);
            }
            match PromptMessage::from_json(&items[i]) {
                Some(m) => {
                    let ghost before = views(messages@);
                    messages.push(m);
                    assert(views(messages@) =~= before.push(m@));
                },
                None => {
                    proof {
                        lemma_messages_fail(items_view(items@), i + 1);
                    }
                    return None;
                },
            }
            i = i + 1;
        }
        assert(items_view(items@).take(items.len() as int) =~= items_view(items@));
        Some(messages)
    }
}

/// A prompt as a server fills it: a description and the messages in order.
#[derive(Debug)]
pub struct MCPPromptResult {
    pub description: Option<String>,
    pub messages: Vec<PromptMessage>,
}

pub ghost struct MCPPromptResultView {
    pub description: Option<Seq<char>>,
    pub messages: Seq<PromptMessageView>,
}

impl View for MCPPromptResult {
    type V = MCPPromptResultView;

    open spec fn view(&self) -> MCPPromptResultView {
        MCPPromptResultView { description: opt_text(self.description), messages: views(self.messages@) }
    }
}

/// The prompt result that a JSON value is: an object with a list of
/// well-formed messages under `messages`; `description`, where present, is a
/// text.
pub open spec fn prompt_result_of_json(j: JsonView) -> Option<MCPPromptResultView> {
    match array_member(j, "messages"@) {
        Some(items) => {
            if !text_field(j, "description"@).is_valid() {
                None
            } else {
                match prompt_messages_of_json(items) {
                    Some(messages) => Some(
                        MCPPromptResultView {
                            description: text_field(j, "description"@).value(),
                            messages,
                        },
                    ),
                    None => None,
                }
            }
        },
        None => None,
    }
}

impl MCPPromptResult {
    /// Reads a prompt result from a JSON value.
    pub fn from_json(j: &Json) -> (r: Option<MCPPromptResult>)
        ensures
            r is Some <==> prompt_result_of_json(j@) is Some,
            r matches Some(p) ==> prompt_result_of_json(j@) == Some(p@),
    {
        let items = match j.array_member("messages") {
            Some(v) => v,
            None => {
                return None;
            },
        };
        let description = match optional_text(j, "description") {
            Some(v) => v,
            None => {
                return None;
            },
        };
        let messages = match PromptMessage::list_from_json(items) {
            Some(v) => v,
            None => {
                return None;
            },
        };
        Some(MCPPromptResult { description, messages })
    }
}

/// A text as a JSON value, or `null` where there is none.
pub open spec fn text_or_null(t: Option<Seq<char>>) -> JsonView {
    match t {
        Some(s) => JsonView::String(s),
        None => JsonView::Null,
    }
}

fn json_text_or_null(t: &Option<String>) -> (j: Json)
    ensures
        j@ == text_or_null(opt_text(*t)),
{
    match t {
        Some(s) => Json::string(s.as_str()),
        None => Json::Null,
    }
}

/// A resource content as a JSON object: `uri`, `mime`, `text` and `blob`,
/// each `null` where the content lacks it.
pub open spec fn content_json(c: MCPResourceContentView) -> JsonView {
    JsonView::Object(
        Map::<Seq<char>, JsonView>::empty().insert("uri"@, JsonView::String(c.uri)).insert(
            "mime"@,
            text_or_null(c.mime),
        ).insert("text"@, text_or_null(c.text)).insert("blob"@, text_or_null(c.blob)),
    )
}

impl MCPResourceContent {
    /// The content as a JSON object.
    pub fn to_json(&self) -> (j: Json)
        ensures
            j@ == content_json(self@),
    {
        let mut j = Json::object();
        j.insert("uri", Json::string(self.uri.as_str()));
        j.insert("mime", json_text_or_null(&self.mime));
        j.insert("text", json_text_or_null(&self.text));
        j.insert("blob", json_text_or_null(&self.blob));
        j
    }
}

/// The contents of a list as JSON objects, one for one.
pub open spec fn contents_json(contents: Seq<MCPResourceContent>) -> Seq<JsonView> {
    Seq::new(contents.len(), |i: int| content_json(contents[i]@))
}

/// The contents of a resource as a JSON array.
pub fn contents_to_json(contents: &Vec<MCPResourceContent>) -> (j: Json)
    ensures
        j@ == JsonView::Array(contents_json(contents@)),
{
    let mut items: Vec<Json> = Vec::new();
    let mut i: usize = 0;
    while i < contents.len()
        invariant
            i <= contents.len(),
            items.len() == i,
            forall|k: int| 0 <= k < i ==> items@[k]@ == content_json(contents@[k]@),
        decreases contents.len() - i,
    {
        items.push(contents[i].to_json());
        i = i + 1;
    }
    assert(items_view(items@) =~= contents_json(contents@));
    Json::Array(items)
}

/// A value as it is, or `null` where there is none.
pub open spec fn value_or_null(v: Option<JsonView>) -> JsonView {
    match v {
        Some(j) => j,
        None => JsonView::Null,
    }
}

/// A message content as a JSON object: `type`, `text`, `data`, `mimeType`,
/// `resource` and `annotations`, each `null` where the content lacks it.
pub open spec fn message_content_json(c: PromptMessageContentView) -> JsonView {
    JsonView::Object(
        Map::<Seq<char>, JsonView>::empty().insert("type"@, JsonView::String(c.type_)).insert(
            "text"@,
            text_or_null(c.text),
        ).insert("data"@, text_or_null(c.data)).insert("mimeType"@, text_or_null(c.mime_type)).insert(
            "resource"@,
            value_or_null(c.resource),
        ).insert("annotations"@, value_or_null(c.annotations)),
    )
}

/// A prompt message as a JSON object: `role` and `content`.
pub open spec fn prompt_message_json(m: PromptMessageView) -> JsonView {
    JsonView::Object(
        Map::<Seq<char>, JsonView>::empty().insert("role"@, JsonView::String(m.role)).insert(
            "content"@,
            message_content_json(m.content),
        ),
    )
}

/// A prompt result as a JSON object: `description` and `messages`.
pub open spec fn prompt_result_json(p: MCPPromptResultView) -> JsonView {
    JsonView::Object(
        Map::<Seq<char>, JsonView>::empty().insert("description"@, text_or_null(p.description)).insert(
            "messages"@,
            JsonView::Array(Seq::new(p.messages.len(), |i: int| prompt_message_json(p.messages[i]))),
        ),
    )
}

impl PromptMessage {
    /// The message as a JSON object.
    pub fn to_json(&self) -> (j: Json)
        ensures
            j@ == prompt_message_json(self@),
    {
        let mut content = Json::object();
        content.insert("type", Json::string(self.content.type_.as_str()));
        content.insert("text", json_text_or_null(&self.content.text));
        content.insert("data", json_text_or_null(&self.content.data));
        content.insert("mimeType", json_text_or_null(&self.content.mime_type));
        match &self.content.resource {
            Some(r) => {
                content.insert("resource", r.clone());
            },
            None => {
                content.insert("resource", Json::Null);
            },
        }
        match &self.content.annotations {
            Some(a) => {
                content.insert("annotations", a.clone());
            },
            None => {
                content.insert("annotations", Json::Null);
            },
        }
        let mut j = Json::object();
        j.insert("role", Json::string(self.role.as_str()));
        j.insert("content", content);
        j
    }
}

impl MCPPromptResult {
    /// The prompt result as a JSON object.
    pub fn to_json(&self) -> (j: Json)
        ensures
            j@ == prompt_result_json(self@),
    {
        let mut items: Vec<Json> = Vec::new();
        let mut i: usize = 0;
        while i < self.messages.len()
            invariant
                i <= self.messages.len(),
                items.len() == i,
                forall|k: int| 0 <= k < i ==> items@[k]@ == prompt_message_json(self.messages@[k]@),
            decreases self.messages.len() - i,
        {
            items.push(self.messages[i].to_json());
            i = i + 1;
        }
        assert(items_view(items@) =~= Seq::new(
            self@.messages.len(),
            |i: int| prompt_message_json(self@.messages[i]),
        ));
        let mut j = Json::object();
        j.insert("description", json_text_or_null(&self.description));
        j.insert("messages", Json::Array(items));
        j
    }
}

} // verus!
