//! The configuration: which servers there are, how each is started or
//! reached, and which model to talk to.
use vstd::prelude::*;
use crate::chat::ModelConfig;
use crate::codec::{json_parse, parse};
use crate::collections::{StringMap, entry_views, lemma_with_entry_views, with_entry};
use crate::error::{NahError, NahErrorView, invalid_value, io_error};
use crate::json::{
    Field, Json, JsonView, array_member, count_field, items_view, member, text_field, value_field,
};
use crate::text::{concat, opt_text, texts};

verus! {

/// How a local server is started: a command and its arguments.
#[derive(Debug)]
pub struct MCPLocalServerCommand {
    pub command: String,
    pub args: Vec<String>,
}

/// How a server is started with a command.
pub type MCPServerCommand = MCPLocalServerCommand;

pub ghost struct MCPLocalServerCommandView {
    pub command: Seq<char>,
    pub args: Seq<Seq<char>>,
}

impl View for MCPLocalServerCommand {
    type V = MCPLocalServerCommandView;

    open spec fn view(&self) -> MCPLocalServerCommandView {
        MCPLocalServerCommandView { command: self.command@, args: texts(self.args@) }
    }
}

/// The texts that a list of JSON values are, where every one is a text.
pub open spec fn texts_of_json(items: Seq<JsonView>) -> Option<Seq<Seq<char>>>
    decreases items.len(),
{
    if items.len() == 0 {
        Some(Seq::empty())
    } else {
        match (texts_of_json(items.drop_last()), items.last()) {
            (Some(rest), JsonView::String(t)) => Some(rest.push(t)),
            _ => None,
        }
    }
}

proof fn lemma_texts_fail(items: Seq<JsonView>, k: int)
    requires
        0 <= k <= items.len(),
        texts_of_json(items.take(k)) is None,
    ensures
        texts_of_json(items) is None,
    decreases items.len() - k,
{
    if k < items.len() {
        assert(items.drop_last().take(k) =~= items.take(k));
        lemma_texts_fail(items.drop_last(), k);
    } else {
        assert(items.take(k) =~= items);
    }
}

fn read_texts(items: &Vec<Json>) -> (r: Option<Vec<String>>)
    ensures
        r is Some <==> texts_of_json(items_view(items@)) is Some,
        r matches Some(v) ==> texts_of_json(items_view(items@)) == Some(texts(v@)),
{
    let mut out: Vec<String> = Vec::new();
    let mut i: usize = 0;
    assert(items_view(items@).take(0) =~= Seq::empty());
    assert(texts(out@) =~= Seq::empty());
    while i < items.len()
        invariant
            i <= items.len(),
            texts_of_json(items_view(items@).take(i as int)) == Some(texts(out@)),
        decreases items.len() - i,
    {
        let ghost done = items_view(items@).take(i + 1);
        proof {
            assert(done.drop_last() =~= items_view(items@).take(i as int));
            assert(done.last() == items@[i as int]@);
        }
        match &items[i] {
            Json::String(t) => {
                let ghost before = texts(out@);
                out.push(t.clone());
                assert(texts(out@) =~= before.push(t@));
            },
            _ => {
                proof {
                    lemma_texts_fail(items_view(items@), i + 1);
                }
                return None;
            },
        }
        i = i + 1;
    }
    assert(items_view(items@).take(items.len() as int) =~= items_view(items@));
    Some(out)
}

/// The command that a JSON value is: an object with a text under `command`
/// and a list of texts under `args`.
pub open spec fn command_of_json(j: JsonView) -> Option<MCPLocalServerCommandView> {
    match (text_field(j, "command"@), array_member(j, "args"@)) {
        (Field::Present(command), Some(items)) => match texts_of_json(items) {
            Some(args) => Some(MCPLocalServerCommandView { command, args }),
            None => None,
        },
        _ => None,
    }
}

impl MCPLocalServerCommand {
    /// Reads a command from a JSON value.
    pub fn from_json(j: &Json) -> (r: Option<MCPLocalServerCommand>)
        ensures
            r is Some <==> command_of_json(j@) is Some,
            r matches Some(c) ==> command_of_json(j@) == Some(c@),
    {
        let command = match j.text_field("command") {
            Field::Present(t) => t,
            _ => {
                return None;
            },
        };
        let args = match j.array_member("args") {
            Some(items) => match read_texts(items) {
                Some(v) => v,
                None => {
                    return None;
                },
            },
            None => {
                return None;
            },
        };
        Some(MCPLocalServerCommand { command, args })
    }
}

/// How a remote server is reached: its address, the headers to send, and
/// how long to wait for it.
#[derive(Debug)]
pub struct MCPRemoteServerConfig {
    pub url: String,
    pub headers: StringMap<String>,
    pub timeout_ms: Option<u64>,
}

pub ghost struct MCPRemoteServerConfigView {
    pub url: Seq<char>,
    pub headers: Seq<(Seq<char>, Seq<char>)>,
    pub timeout_ms: Option<nat>,
}

impl View for MCPRemoteServerConfig {
    type V = MCPRemoteServerConfigView;

    open spec fn view(&self) -> MCPRemoteServerConfigView {
        MCPRemoteServerConfigView {
            url: self.url@,
            headers: self.headers.text_entries(),
            timeout_ms: match self.timeout_ms {
                Some(t) => Some(t as nat),
                None => None,
            },
        }
    }
}

/// The headers that the members of an object give, where every member is a
/// text: each key with its text, a later member replacing an earlier one of
/// the same key.
pub open spec fn headers_of_members(members: Seq<(String, Json)>) -> Option<
    Seq<(Seq<char>, Seq<char>)>,
>
    decreases members.len(),
{
    if members.len() == 0 {
        Some(Seq::empty())
    } else {
        match (headers_of_members(members.drop_last()), members.last().1@) {
            (Some(rest), JsonView::String(t)) => Some(with_entry(rest, members.last().0@, t)),
            _ => None,
        }
    }
}

proof fn lemma_headers_fail(members: Seq<(String, Json)>, k: int)
    requires
        0 <= k <= members.len(),
        headers_of_members(members.take(k)) is None,
    ensures
        headers_of_members(members) is None,
    decreases members.len() - k,
{
    if k < members.len() {
        assert(members.drop_last().take(k) =~= members.take(k));
        lemma_headers_fail(members.drop_last(), k);
    } else {
        assert(members.take(k) =~= members);
    }
}

fn read_headers(members: &Vec<(String, Json)>) -> (r: Option<StringMap<String>>)
    ensures
        r is Some <==> headers_of_members(members@) is Some,
        r matches Some(m) ==> headers_of_members(members@) == Some(m.text_entries()),
{
    let mut out: StringMap<String> = StringMap::new();
    let mut i: usize = 0;
    assert(members@.take(0) =~= Seq::empty());
    assert(out.text_entries() =~= Seq::empty());
    while i < members.len()
        invariant
            i <= members.len(),
            headers_of_members(members@.take(i as int)) == Some(out.text_entries()),
        decreases members.len() - i,
    {
        let ghost done = members@.take(i + 1);
        proof {
            assert(done.drop_last() =~= members@.take(i as int));
        }
        match &members[i].1 {
            Json::String(t) => {
                let value = t.clone();
                proof {
                    lemma_with_entry_views(out.entries(), members@[i as int].0@, value);
                }
                out.insert(members[i].0.clone(), value);
            },
            _ => {
                proof {
                    lemma_headers_fail(members@, i + 1);
                }
                return None;
            },
        }
        i = i + 1;
    }
    assert(members@.take(members.len() as int) =~= members@);
    Some(out)
}

/// How long to wait, as a configuration gives it under `timeout_ms`.
pub open spec fn timeout_field(j: JsonView) -> Field<nat> {
    count_field(j, "timeout_ms"@)
}

impl MCPRemoteServerConfig {
    /// The headers under `headers`, where that is an object of texts.
    pub open spec fn readable_headers(j: Json) -> Option<Seq<(Seq<char>, Seq<char>)>> {
        match j.child("headers"@) {
            Some(Json::Object(members)) => headers_of_members(members@),
            _ => None,
        }
    }

    /// What a JSON value says of a remote server: an object with a text
    /// under `url` and an object of texts under `headers`; `timeout_ms`,
    /// where present, is a count.
    pub open spec fn readable(j: Json) -> Option<MCPRemoteServerConfigView> {
        match (text_field(j@, "url"@), Self::readable_headers(j)) {
            (Field::Present(url), Some(headers)) => if timeout_field(j@).is_valid() {
                Some(
                    MCPRemoteServerConfigView {
                        url,
                        headers,
                        timeout_ms: timeout_field(j@).value(),
                    },
                )
            } else {
                None
            },
            _ => None,
        }
    }

    /// Reads the configuration of a remote server from a JSON value.
    pub fn from_json(j: &Json) -> (r: Option<MCPRemoteServerConfig>)
        ensures
            r is Some <==> Self::readable(*j) is Some,
            r matches Some(c) ==> Self::readable(*j) == Some(c@),
    {
        let url = match j.text_field("url") {
            Field::Present(t) => t,
            _ => {
                return None;
            },
        };
        let headers = match j.get("headers") {
            Some(Json::Object(members)) => match read_headers(members) {
                Some(m) => m,
                None => {
                    return None;
                },
            },
            _ => {
                return None;
            },
        };
        let timeout_ms = match j.count_field("timeout_ms") {
            Field::Missing => None,
            Field::Present(n) => Some(n),
            Field::Invalid => {
                return None;
            },
        };
        Some(MCPRemoteServerConfig { url, headers, timeout_ms })
    }
}

/// What a configuration says of one server.
pub ghost enum ServerEntryView {
    Local(MCPLocalServerCommandView),
    Remote(MCPRemoteServerConfigView),
}

/// The error for a server whose configuration cannot be used.
pub open spec fn bad_server(key: Seq<char>) -> NahErrorView {
    invalid_value("invalid server command for tool "@ + key)
}

/// What the configuration under `key` says of its server: with a `command`
/// it is a local server, else with a `url` a remote one; anything else, and
/// anything malformed, is an error.
pub open spec fn server_of_json(key: Seq<char>, value: Json) -> Result<ServerEntryView, NahErrorView> {
    if member(value@, "command"@) is Some {
        match command_of_json(value@) {
            Some(c) => Ok(ServerEntryView::Local(c)),
            None => Err(bad_server(key)),
        }
    } else if member(value@, "url"@) is Some {
        match MCPRemoteServerConfig::readable(value) {
            Some(c) => Ok(ServerEntryView::Remote(c)),
            None => Err(bad_server(key)),
        }
    } else {
        Err(bad_server(key))
    }
}

/// The local and the remote servers that the members of `mcpServers`
/// configure, each under its name; the first server that cannot be read
/// fails the whole.
pub open spec fn servers_of_members(members: Seq<(String, Json)>) -> Result<
    (Seq<(Seq<char>, MCPLocalServerCommandView)>, Seq<(Seq<char>, MCPRemoteServerConfigView)>),
    NahErrorView,
>
    decreases members.len(),
{
    if members.len() == 0 {
        Ok((Seq::empty(), Seq::empty()))
    } else {
        match servers_of_members(members.drop_last()) {
            Err(e) => Err(e),
            Ok((locals, remotes)) => match server_of_json(members.last().0@, members.last().1) {
                Err(e) => Err(e),
                Ok(ServerEntryView::Local(c)) => Ok(
                    (with_entry(locals, members.last().0@, c), remotes),
                ),
                Ok(ServerEntryView::Remote(c)) => Ok(
                    (locals, with_entry(remotes, members.last().0@, c)),
                ),
            },
        }
    }
}

proof fn lemma_servers_fail(members: Seq<(String, Json)>, k: int)
    requires
        0 <= k <= members.len(),
        servers_of_members(members.take(k)) is Err,
    ensures
        servers_of_members(members) == servers_of_members(members.take(k)),
    decreases members.len() - k,
{
    if k < members.len() {
        assert(members.drop_last().take(k) =~= members.take(k));
        lemma_servers_fail(members.drop_last(), k);
    } else {
        assert(members.take(k) =~= members);
    }
}

/// The servers that a configuration document configures: the members of the
/// object under `mcpServers`. A document without that object is an error
/// that names the file.
pub open spec fn servers_of_config(data: Json, path: Seq<char>) -> Result<
    (Seq<(Seq<char>, MCPLocalServerCommandView)>, Seq<(Seq<char>, MCPRemoteServerConfigView)>),
    NahErrorView,
> {
    match data.child("mcpServers"@) {
        Some(Json::Object(members)) => servers_of_members(members@),
        _ => Err(io_error("Invalid mcp server config file "@ + path, None)),
    }
}

fn bad_server_error(key: &str) -> (e: NahError)
    ensures
        e@ == bad_server(key@),
{
    let message = concat("invalid server command for tool ", key);
    NahError::invalid_value(message.as_str(), None)
}

/// Reads the servers that a configuration document configures.
pub fn load_mcp_servers(data: &Json, path: &str) -> (r: Result<
    (StringMap<MCPLocalServerCommand>, StringMap<MCPRemoteServerConfig>),
    NahError,
>)
    ensures
        match servers_of_config(*data, path@) {
            Ok((locals, remotes)) => r matches Ok(found) && entry_views(found.0.entries())
                == locals && entry_views(found.1.entries()) == remotes,
            Err(e) => r matches Err(x) && x@ == e,
        },
{
    let members = match data.get("mcpServers") {
        Some(Json::Object(members)) => members,
        _ => {
            let message = concat("Invalid mcp server config file ", path);
            return Err(NahError::io_error(message.as_str(), None));
        },
    };
    let mut locals: StringMap<MCPLocalServerCommand> = StringMap::new();
    let mut remotes: StringMap<MCPRemoteServerConfig> = StringMap::new();
    let mut i: usize = 0;
    assert(members@.take(0) =~= Seq::empty());
    assert(entry_views(locals.entries()) =~= Seq::empty());
    assert(entry_views(remotes.entries()) =~= Seq::empty());
    while i < members.len()
        invariant
            i <= members.len(),
            servers_of_config(*data, path@) == servers_of_members(members@),
            servers_of_members(members@.take(i as int)) == Ok::<_, NahErrorView>(
                (entry_views(locals.entries()), entry_views(remotes.entries())),
            ),
        decreases members.len() - i,
    {
        let key = members[i].0.as_str();
        let value = &members[i].1;
        proof {
            assert(members@.take(i + 1).drop_last() =~= members@.take(i as int));
        }
        if value.get("command").is_some() {
            match MCPLocalServerCommand::from_json(value) {
                Some(c) => {
                    proof {
                        lemma_with_entry_views(locals.entries(), key@, c);
                    }
                    locals.insert(key.to_owned(), c);
                },
                None => {
                    proof {
                        lemma_servers_fail(members@, i + 1);
                    }
                    return Err(bad_server_error(key));
                },
            }
        } else if value.get("url").is_some() {
            match MCPRemoteServerConfig::from_json(value) {
                Some(c) => {
                    proof {
                        lemma_with_entry_views(remotes.entries(), key@, c);
                    }
                    remotes.insert(key.to_owned(), c);
                },
                None => {
                    proof {
                        lemma_servers_fail(members@, i + 1);
                    }
                    return Err(bad_server_error(key));
                },
            }
        } else {
            proof {
                lemma_servers_fail(members@, i + 1);
            }
            return Err(bad_server_error(key));
        }
        i = i + 1;
    }
    assert(members@.take(members.len() as int) =~= members@);
    Ok((locals, remotes))
}

pub ghost struct ModelConfigView {
    pub base_url: Seq<char>,
    pub model: Seq<char>,
    pub auth_token: Option<Seq<char>>,
    pub extra_params: Option<JsonView>,
    pub system_prompt: Option<Seq<char>>,
}

impl View for ModelConfig {
    type V = ModelConfigView;

    open spec fn view(&self) -> ModelConfigView {
        ModelConfigView {
            base_url: self.base_url@,
            model: self.model@,
            auth_token: opt_text(self.auth_token),
            extra_params: match self.extra_params {
                Some(j) => Some(j@),
                None => None,
            },
            system_prompt: opt_text(self.system_prompt),
        }
    }
}

/// The model configuration that a JSON value is: an object with texts under
/// `baseUrl` and `model`; `authToken` and `systemPrompt`, where present, are
/// texts, and `extraParams` may be any value.
pub open spec fn model_of_json(j: JsonView) -> Option<ModelConfigView> {
    match (text_field(j, "baseUrl"@), text_field(j, "model"@)) {
        (Field::Present(base_url), Field::Present(model)) => {
            if text_field(j, "authToken"@).is_valid() && text_field(j, "systemPrompt"@).is_valid() {
                Some(
                    ModelConfigView {
                        base_url,
                        model,
                        auth_token: text_field(j, "authToken"@).value(),
                        extra_params: value_field(j, "extraParams"@),
                        system_prompt: text_field(j, "systemPrompt"@).value(),
                    },
                )
            } else {
                None
            }
        },
        _ => None,
    }
}

impl ModelConfig {
    /// Reads a model configuration from a JSON value.
    pub fn from_json(j: &Json) -> (r: Option<ModelConfig>)
        ensures
            r is Some <==> model_of_json(j@) is Some,
            r matches Some(c) ==> model_of_json(j@) == Some(c@),
    {
        let base_url = match j.text_field("baseUrl") {
            Field::Present(t) => t,
            _ => {
                return None;
            },
        };
        let model = match j.text_field("model") {
            Field::Present(t) => t,
            _ => {
                return None;
            },
        };
        let auth_token = match j.text_field("authToken") {
            Field::Missing => None,
            Field::Present(t) => Some(t),
            Field::Invalid => {
                return None;
            },
        };
        let system_prompt = match j.text_field("systemPrompt") {
            Field::Missing => None,
            Field::Present(t) => Some(t),
            Field::Invalid => {
                return None;
            },
        };
        let extra_params = j.value_field("extraParams");
        Some(ModelConfig { base_url, model, auth_token, extra_params, system_prompt })
    }
}

/// The whole configuration.
#[derive(Debug)]
pub struct NahConfig {
    pub mcp_servers: StringMap<MCPLocalServerCommand>,
    pub mcp_remote_servers: StringMap<MCPRemoteServerConfig>,
    pub model: Option<ModelConfig>,
}

/// The model that a configuration document configures: what stands under
/// `model`, where that is a well-formed model configuration.
pub open spec fn model_of_config(data: JsonView) -> Option<ModelConfigView> {
    match member(data, "model"@) {
        Some(m) => model_of_json(m),
        None => None,
    }
}

/// Reads the configuration from a document. A model that is malformed is
/// left out; a server that is malformed fails the whole.
pub fn config_from_json(data: &Json, path: &str) -> (r: Result<NahConfig, NahError>)
    ensures
        match servers_of_config(*data, path@) {
            Ok((locals, remotes)) => r matches Ok(c) && entry_views(c.mcp_servers.entries())
                == locals && entry_views(c.mcp_remote_servers.entries()) == remotes && (match c.model {
                Some(m) => Some(m@),
                None => None,
            }) == model_of_config(data@),
            Err(e) => r matches Err(x) && x@ == e,
        },
{
    let (mcp_servers, mcp_remote_servers) = match load_mcp_servers(data, path) {
        Ok(found) => found,
        Err(e) => {
            return Err(e);
        },
    };
    let model = match data.get("model") {
        Some(m) => ModelConfig::from_json(m),
        None => None,
    };
    Ok(NahConfig { mcp_servers, mcp_remote_servers, model })
}

/// Reads the configuration from the text of the file at `path`. A text that
/// is not JSON is an error that names the file.
pub fn load_config(text: &str, path: &str) -> (r: Result<NahConfig, NahError>)
    ensures
        json_parse(text@) is None ==> (r matches Err(e) && e@.code == 1 && e@.message == io_error(
            "Invalid mcp server config file "@ + path@,
            None,
        ).message && e@.source is Some),
        json_parse(text@) is Some ==> exists|data: Json|
            data@ == json_parse(text@)->Some_0 && #[trigger] config_read(data, path@, r),
{
    match parse(text) {
        Ok(data) => {
            let r = config_from_json(&data, path);
            assert(config_read(data, path@, r));
            r
        },
        Err(cause) => {
            let message = concat("Invalid mcp server config file ", path);
            Err(NahError::io_error(message.as_str(), Some(cause.message)))
        },
    }
}

/// Whether `r` is what reading the configuration from the document `data`
/// comes to.
pub open spec fn config_read(data: Json, path: Seq<char>, r: Result<NahConfig, NahError>) -> bool {
    match servers_of_config(data, path) {
        Ok((locals, remotes)) => r matches Ok(c) && entry_views(c.mcp_servers.entries()) == locals
            && entry_views(c.mcp_remote_servers.entries()) == remotes && (match c.model {
            Some(m) => Some(m@),
            None => None,
        }) == model_of_config(data@),
        Err(e) => r matches Err(x) && x@ == e,
    }
}

} // verus!
