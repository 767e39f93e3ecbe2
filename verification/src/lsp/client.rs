//! A session with one language server.
//!
//! [`LspClient`] holds what a session knows: which requests wait for an answer, which
//! documents are open, which diagnostics the server has published, and which features it
//! advertises. Its methods take what has arrived and hand back what is to be sent; reading,
//! writing and waiting are the caller's work. `T` is what the caller waits with.

use crate::config;
use crate::config::ServerConfig;
use crate::json;
use crate::json::{Json, JsonTree};
use crate::lsp::conv;
use crate::lsp::conv::{uri_from_path, uri_to_path, ConvError};
use crate::lsp::messages;
use crate::lsp::reply;
use crate::lsp::reply::{
    decode_capabilities, decode_configuration, decode_diagnostics, Provider, PublishedDiagnostics,
    PublishedView, RenameProvider, ServerCapabilities,
};
use crate::lsp::transport;
use crate::lsp::transport::{write_message, Incoming, IncomingView, RpcError, RpcErrorView};
use crate::lsp::types;
use crate::lsp::types::{Diagnostic, DiagnosticView, Position};
use crate::paths;
use crate::paths::file_name_of;
use crate::strings;
use crate::strings::{push_decimal, same_text};
use std::collections::HashMap;
use std::path::PathBuf;
use std::time::Duration;
use vstd::hash_map::StringHashMap;
use vstd::prelude::*;

verus! {

broadcast use vstd::std_specs::hash::group_hash_axioms;

/// A live session for one pair of a workspace root and a language.
#[verifier::reject_recursive_types(T)]
pub struct LspClient<T> {
    root: String,
    root_path: PathBuf,
    cfg: ServerConfig,
    next_id: i64,
    pending: HashMap<i64, T>,
    diagnostics: StringHashMap<Vec<Diagnostic>>,
    caps: Option<ServerCapabilities>,
    open_docs: StringHashMap<i32>,
    log: Vec<String>,
}

/// What a session knows.
#[verifier::ext_equal]
#[verifier::reject_recursive_types(T)]
pub struct ClientView<T> {
    /// The workspace root, as a URI and as a path.
    pub root: Seq<char>,
    pub root_path: Seq<u8>,
    pub config: ServerConfig,
    /// The id of the next request.
    pub next_id: i64,
    /// Who waits for the answer to which request.
    pub pending: Map<i64, T>,
    /// The diagnostics that were published last for a document.
    pub diagnostics: Map<Seq<char>, Seq<DiagnosticView>>,
    /// The features that the server advertises, once it has said so.
    pub caps: Option<ServerCapabilities>,
    /// The version of each open document.
    pub open_docs: Map<Seq<char>, i32>,
    /// The lines that the server has written to its error stream.
    pub log: Seq<Seq<char>>,
}

impl<T> View for LspClient<T> {
    type V = ClientView<T>;

    closed spec fn view(&self) -> ClientView<T> {
        ClientView {
            root: self.root@,
            root_path: paths::path_bytes(self.root_path),
            config: self.cfg,
            next_id: self.next_id,
            pending: self.pending@,
            diagnostics: self.diagnostics@.map_values(
                |list: Vec<Diagnostic>| types::views(list@),
            ),
            caps: self.caps,
            open_docs: self.open_docs@,
            log: strings::texts(self.log@),
        }
    }
}

/// A session that has just begun.
pub open spec fn begun<T>(cfg: ServerConfig, root: Seq<char>, root_path: Seq<u8>) -> ClientView<
    T,
> {
    ClientView {
        root,
        root_path,
        config: cfg,
        next_id: 1,
        pending: Map::empty(),
        diagnostics: Map::empty(),
        caps: None,
        open_docs: Map::empty(),
        log: Seq::empty(),
    }
}

/// The ids of the waiting requests are ones that were handed out.
pub open spec fn ids_handed_out<T>(client: ClientView<T>) -> bool {
    forall|id: i64| #[trigger] client.pending.contains_key(id) ==> 1 <= id < client.next_id
}

// ---- requests ----

/// A request to send.
#[derive(Debug)]
pub struct Outgoing {
    pub id: i64,
    pub frame: Vec<u8>,
}

/// The frame of a request.
pub open spec fn request_frame(id: i64, method: Seq<char>, params: JsonTree) -> Seq<u8> {
    transport::frame(
        json::json_text(messages::request_message(id as int, method, params)),
    )
}

/// The frame of a notification.
pub open spec fn notification_frame(method: Seq<char>, params: JsonTree) -> Seq<u8> {
    transport::frame(json::json_text(messages::notification_message(method, params)))
}

/// A session in which `waiter` waits for the answer to one more request.
pub open spec fn requested<T>(client: ClientView<T>, waiter: T) -> ClientView<T> {
    ClientView {
        next_id: client.next_id.wrapping_add(1),
        pending: client.pending.insert(client.next_id, waiter),
        ..client
    }
}

/// `out` is the request that a session sends next.
pub open spec fn is_request<T>(
    out: Outgoing,
    client: ClientView<T>,
    method: Seq<char>,
    params: JsonTree,
) -> bool {
    out.id == client.next_id && out.frame@ == request_frame(client.next_id, method, params)
}

/// Read at the front of a stream, `frame` gives `msg` and leaves the rest.
pub open spec fn is_read_as(frame: Seq<u8>, msg: IncomingView) -> bool {
    forall|rest: Seq<u8>, eof: bool| #[trigger]
        transport::message_at(frame + rest, eof) == (transport::ReadView::Message {
            incoming: msg,
            rest,
        })
}

/// A message that carries `carried` is read back as it was written: what it carries holds no
/// fraction, and nests one level less deep than the reader goes.
pub open spec fn is_carried(carried: JsonTree) -> bool {
    json::exact_within(carried, (json::nesting_limit() - 1) as nat)
}

/// What became of a request.
pub enum RequestEvent {
    Answered(Result<Json, RpcError>),
    /// Nobody will answer any more.
    Dropped,
    TimedOut,
}

/// Why a request has no result.
#[derive(Debug)]
pub enum RequestError {
    Rpc(RpcError),
    Dropped { method: String },
    TimedOut { method: String, seconds: u64 },
}

/// The content of a [`RequestError`].
#[verifier::ext_equal]
pub enum RequestErrorView {
    Rpc(RpcErrorView),
    Dropped { method: Seq<char> },
    TimedOut { method: Seq<char>, seconds: u64 },
}

impl View for RequestError {
    type V = RequestErrorView;

    open spec fn view(&self) -> RequestErrorView {
        match self {
            RequestError::Rpc(error) => RequestErrorView::Rpc(error@),
            RequestError::Dropped { method } => RequestErrorView::Dropped { method: method@ },
            RequestError::TimedOut { method, seconds } => RequestErrorView::TimedOut {
                method: method@,
                seconds: *seconds,
            },
        }
    }
}

/// A span of whole seconds as it is shown.
pub open spec fn seconds_text(seconds: u64) -> Seq<char> {
    if seconds == 0 {
        "0ns"@
    } else {
        strings::decimal(seconds as nat) + "s"@
    }
}

/// The text of an error.
pub open spec fn request_error_text(error: RequestErrorView) -> Seq<char> {
    match error {
        RequestErrorView::Rpc(error) => transport::rpc_error_text(error),
        RequestErrorView::Dropped { method } => "request `"@ + method
            + "` dropped without a response"@,
        RequestErrorView::TimedOut { method, seconds } => "request `"@ + method
            + "` timed out after "@ + seconds_text(seconds),
    }
}

impl RequestError {
    /// The text of this error.
    pub fn message(&self) -> (r: String)
        ensures
            r@ == request_error_text(self@),
    {
        match self {
            RequestError::Rpc(error) => error.message_text(),
            RequestError::Dropped { method } => {
                let mut out = String::new();
                out.push_str("request `");
                out.push_str(method.as_str());
                out.push_str("` dropped without a response");
                assert(out@ =~= request_error_text(self@));
                out
            },
            RequestError::TimedOut { method, seconds } => {
                let mut out = String::new();
                out.push_str("request `");
                out.push_str(method.as_str());
                out.push_str("` timed out after ");
                if *seconds == 0 {
                    out.push_str("0ns");
                } else {
                    push_decimal(&mut out, *seconds);
                    out.push_str("s");
                }
                assert(out@ =~= request_error_text(self@));
                out
            },
        }
    }
}

/// What a waiting request gets: an error counts before a result, and no result is `null`.
pub open spec fn answer(result: Option<JsonTree>, error: Option<RpcErrorView>) -> Result<
    JsonTree,
    RpcErrorView,
> {
    match (result, error) {
        (_, Some(error)) => Err(error),
        (Some(value), None) => Ok(value),
        (None, None) => Ok(JsonTree::Null),
    }
}

/// The content of an answer.
pub open spec fn answer_view(r: Result<Json, RpcError>) -> Result<JsonTree, RpcErrorView> {
    match r {
        Ok(value) => Ok(value@),
        Err(error) => Err(error@),
    }
}

/// What a request comes to.
pub open spec fn outcome(method: Seq<char>, seconds: u64, event: RequestEvent) -> Result<
    JsonTree,
    RequestErrorView,
> {
    match event {
        RequestEvent::Answered(Ok(value)) => Ok(value@),
        RequestEvent::Answered(Err(error)) => Err(RequestErrorView::Rpc(error@)),
        RequestEvent::Dropped => Err(RequestErrorView::Dropped { method }),
        RequestEvent::TimedOut => Err(RequestErrorView::TimedOut { method, seconds }),
    }
}

/// A session after a request has come to an end: one that timed out is forgotten.
pub open spec fn concluded<T>(client: ClientView<T>, id: i64, event: RequestEvent) -> ClientView<T> {
    match event {
        RequestEvent::TimedOut => ClientView { pending: client.pending.remove(id), ..client },
        _ => client,
    }
}

// ---- requests from the server ----

/// The result of a server's request, given how many configuration items it asks for; `None`
/// where the client does not handle the request.
pub open spec fn server_result(method: Seq<char>, items: Option<usize>) -> Option<JsonTree> {
    if method == "workspace/configuration"@ {
        let n: nat = match items {
            Some(n) => n as nat,
            None => 0,
        };
        Some(JsonTree::Array(Seq::new(n, |i: int| JsonTree::Null)))
    } else if method == "client/registerCapability"@ || method == "client/unregisterCapability"@
        || method == "window/workDoneProgress/create"@ {
        Some(JsonTree::Null)
    } else {
        None
    }
}

/// The reply to a server's request, given how many configuration items it asks for.
pub open spec fn server_reply(id: JsonTree, method: Seq<char>, items: Option<usize>) -> JsonTree {
    match server_result(method, items) {
        Some(result) => messages::result_message(id, result),
        None => messages::error_message(
            id,
            -32601,
            "lspranto does not handle server request `"@ + method + "`"@,
        ),
    }
}

/// The reply to a server's request, given how many configuration items it asks for.
pub fn reply_to_request(id: Json, method: &str, items: Option<usize>) -> (r: Json)
    ensures
        r@ == server_reply(id@, method@, items),
{
    if same_text(method, "workspace/configuration") {
        let n: usize = match items {
            Some(n) => n,
            None => 0,
        };
        messages::result_reply(id, Json::nulls(n))
    } else if same_text(method, "client/registerCapability") || same_text(
        method,
        "client/unregisterCapability",
    ) || same_text(method, "window/workDoneProgress/create") {
        messages::result_reply(id, Json::Null)
    } else {
        let mut text = String::new();
        text.push_str("lspranto does not handle server request `");
        text.push_str(method);
        text.push_str("`");
        assert(text@ =~= "lspranto does not handle server request `"@ + method@ + "`"@);
        messages::error_reply(id, -32601, text.as_str())
    }
}

/// The frame of the reply to a server's request.
pub fn handle_server_request(id: Json, method: &str, params: &Json) -> (r: Vec<u8>)
    ensures
        r@ == transport::frame(
            json::json_text(server_reply(id@, method@, reply::items_given(params@))),
        ),
{
    let items: Option<usize> = if same_text(method, "workspace/configuration") {
        decode_configuration(params)
    } else {
        None
    };
    let message = reply_to_request(id, method, items);
    assert(message@ == server_reply(id@, method@, reply::items_given(params@)));
    write_message(&message)
}

// ---- incoming messages ----

/// What is to be done about a message that has arrived.
#[verifier::reject_recursive_types(T)]
pub enum Dispatched<T> {
    /// Hand the answer to who waits for it.
    Deliver { waiter: T, response: Result<Json, RpcError> },
    /// Nobody waits for an answer with this id.
    UnknownResponse { id: i64 },
    /// Diagnostics have been stored.
    Stored,
    /// Diagnostics were malformed, and nothing has changed.
    MalformedDiagnostics,
    /// The notification is of no interest.
    Ignored,
    /// Send this frame, the reply to a request.
    Reply { frame: Vec<u8> },
}

/// The content of a [`Dispatched`].
#[verifier::ext_equal]
#[verifier::reject_recursive_types(T)]
pub enum DispatchedView<T> {
    Deliver { waiter: T, response: Result<JsonTree, RpcErrorView> },
    UnknownResponse { id: int },
    Stored,
    MalformedDiagnostics,
    Ignored,
    Reply { frame: Seq<u8> },
}

impl<T> View for Dispatched<T> {
    type V = DispatchedView<T>;

    open spec fn view(&self) -> DispatchedView<T> {
        match *self {
            Dispatched::Deliver { waiter, response } => DispatchedView::Deliver {
                waiter,
                response: answer_view(response),
            },
            Dispatched::UnknownResponse { id } => DispatchedView::UnknownResponse { id: id as int },
            Dispatched::Stored => DispatchedView::Stored,
            Dispatched::MalformedDiagnostics => DispatchedView::MalformedDiagnostics,
            Dispatched::Ignored => DispatchedView::Ignored,
            Dispatched::Reply { frame } => DispatchedView::Reply { frame: frame@ },
        }
    }
}

/// A session in which these diagnostics are the last that were published for their document.
pub open spec fn published<T>(client: ClientView<T>, p: PublishedView) -> ClientView<T> {
    ClientView { diagnostics: client.diagnostics.insert(p.uri, p.diagnostics), ..client }
}

/// What a message does to a session, and what is to be done about it.
pub open spec fn dispatched<T>(client: ClientView<T>, msg: IncomingView) -> (
    ClientView<T>,
    DispatchedView<T>,
) {
    match msg {
        IncomingView::Response { id, result, error } => if client.pending.contains_key(id as i64) {
            (
                ClientView { pending: client.pending.remove(id as i64), ..client },
                DispatchedView::Deliver {
                    waiter: client.pending[id as i64],
                    response: answer(result, error),
                },
            )
        } else {
            (client, DispatchedView::UnknownResponse { id })
        },
        IncomingView::Notification { method, params } => if method
            == "textDocument/publishDiagnostics"@ {
            match reply::diagnostics_given(params) {
                Some(p) => (published(client, p), DispatchedView::Stored),
                None => (client, DispatchedView::MalformedDiagnostics),
            }
        } else {
            (client, DispatchedView::Ignored)
        },
        IncomingView::Request { id, method, params } => (
            client,
            DispatchedView::Reply {
                frame: transport::frame(
                    json::json_text(server_reply(id, method, reply::items_given(params))),
                ),
            },
        ),
    }
}

// ---- documents ----

/// What is to be done about a document.
#[derive(Debug)]
pub enum DocumentStep {
    /// Nothing.
    Skip,
    /// Read the file at `path`, and send its text.
    Read { path: PathBuf },
    Failed(ConvError),
}

/// The content of a [`DocumentStep`].
#[verifier::ext_equal]
pub enum DocumentStepView {
    Skip,
    Read { path: Seq<u8> },
    Failed(conv::ConvErrorView),
}

impl View for DocumentStep {
    type V = DocumentStepView;

    open spec fn view(&self) -> DocumentStepView {
        match self {
            DocumentStep::Skip => DocumentStepView::Skip,
            DocumentStep::Read { path } => DocumentStepView::Read {
                path: paths::path_bytes(*path),
            },
            DocumentStep::Failed(error) => DocumentStepView::Failed(error@),
        }
    }
}

/// The document at `uri` is read, where the URI stands for a path.
pub open spec fn read_step(uri: Seq<char>) -> DocumentStepView {
    match conv::uri_path(uri) {
        Ok(path) => DocumentStepView::Read { path },
        Err(error) => DocumentStepView::Failed(error),
    }
}

/// What is to be done to have a document open.
pub open spec fn open_step<T>(client: ClientView<T>, uri: Seq<char>) -> DocumentStepView {
    if client.open_docs.contains_key(uri) {
        DocumentStepView::Skip
    } else {
        read_step(uri)
    }
}

/// What is to be done about a document that has changed on disk.
pub open spec fn sync_step<T>(client: ClientView<T>, uri: Seq<char>) -> DocumentStepView {
    if client.open_docs.contains_key(uri) {
        read_step(uri)
    } else {
        DocumentStepView::Skip
    }
}

/// A session in which a document is open in a version.
pub open spec fn holding<T>(client: ClientView<T>, uri: Seq<char>, version: i32) -> ClientView<T> {
    ClientView { open_docs: client.open_docs.insert(uri, version), ..client }
}

fn read_document(uri: &str) -> (r: DocumentStep)
    ensures
        r@ == read_step(uri@),
{
    match uri_to_path(uri) {
        Ok(path) => DocumentStep::Read { path },
        Err(error) => DocumentStep::Failed(error),
    }
}

// ---- capabilities ----

/// How `initialize` goes on.
#[derive(Debug)]
pub enum InitStep {
    /// The server has been initialized before.
    Ready(ServerCapabilities),
    /// Send this request, and hand the answer to [`LspClient::initialized`].
    Request(Outgoing),
}

/// The name of a workspace folder: the last name of its path.
pub open spec fn folder_name(root_path: Seq<u8>) -> Seq<char> {
    match paths::file_name(root_path) {
        Some(name) => paths::lossy_text(name),
        None => "workspace"@,
    }
}

/// The parameters with which a session initializes its server.
pub open spec fn initialize_params<T>(client: ClientView<T>, process_id: u32) -> JsonTree {
    messages::initialize_params_tree(
        process_id as int,
        client.root,
        folder_name(client.root_path),
        transport::tree_of(client.config.initialization_options),
    )
}

/// A session that knows the server's capabilities; what it knew before counts.
pub open spec fn knowing<T>(client: ClientView<T>, caps: ServerCapabilities) -> ClientView<T> {
    match client.caps {
        Some(_) => client,
        None => ClientView { caps: Some(caps), ..client },
    }
}

/// The features that a session may use.
pub enum Feature {
    Hover,
    Definition,
    References,
    Completion,
    DocumentSymbol,
    WorkspaceSymbol,
    Rename,
}

/// What a server says of a feature.
pub open spec fn said_of(caps: ServerCapabilities, feature: Feature) -> Option<Provider> {
    match feature {
        Feature::Hover => caps.hover_provider,
        Feature::Definition => caps.definition_provider,
        Feature::References => caps.references_provider,
        Feature::Completion => caps.completion_provider,
        Feature::DocumentSymbol => caps.document_symbol_provider,
        Feature::WorkspaceSymbol => caps.workspace_symbol_provider,
        Feature::Rename => match caps.rename_provider {
            Some(RenameProvider::Simple(on)) => Some(Provider::Simple(on)),
            Some(RenameProvider::Options { .. }) => Some(Provider::Options),
            None => None,
        },
    }
}

/// What is said of a feature is that it is there.
pub open spec fn is_offered(provider: Option<Provider>) -> bool {
    provider == Some(Provider::Simple(true)) || provider == Some(Provider::Options)
}

/// A server advertises a feature.
pub open spec fn advertises(caps: ServerCapabilities, feature: Feature) -> bool {
    is_offered(said_of(caps, feature))
}

fn offered(provider: Option<Provider>) -> (r: bool)
    ensures
        r == is_offered(provider),
{
    match provider {
        Some(Provider::Simple(on)) => on,
        Some(Provider::Options) => true,
        None => false,
    }
}

/// A feature may be used: the server advertises it, or has not said yet.
pub open spec fn supports(caps: Option<ServerCapabilities>, feature: Feature) -> bool {
    match caps {
        Some(caps) => advertises(caps, feature),
        None => true,
    }
}

/// A rename may be checked beforehand: the server says so.
pub open spec fn prepares_rename(caps: Option<ServerCapabilities>) -> bool {
    match caps {
        Some(caps) => match caps.rename_provider {
            Some(RenameProvider::Simple(on)) => on,
            Some(RenameProvider::Options { prepare_provider }) => prepare_provider == Some(true),
            None => false,
        },
        None => false,
    }
}

/// The last `n` elements of a list, or all of them where there are fewer.
pub open spec fn last_of<A>(list: Seq<A>, n: nat) -> Seq<A> {
    if n >= list.len() {
        list
    } else {
        list.skip(list.len() - n)
    }
}

impl<T> LspClient<T> {
    /// A session with the server `cfg` in the workspace at `root_path`.
    pub fn spawn(cfg: ServerConfig, root_path: PathBuf) -> (r: Result<Self, ConvError>)
        ensures
            match r {
                Ok(client) => conv::path_uri(paths::path_bytes(root_path)) == Ok::<
                    Seq<char>,
                    conv::ConvErrorView,
                >(client@.root) && client@ == begun::<T>(cfg, client@.root, paths::path_bytes(root_path)),
                Err(error) => conv::path_uri(paths::path_bytes(root_path)) == Err::<
                    Seq<char>,
                    conv::ConvErrorView,
                >(error@),
            },
    {
        let root = match uri_from_path(&root_path) {
            Ok(root) => root,
            Err(error) => {
                return Err(error);
            },
        };
        let client = LspClient {
            root,
            root_path,
            cfg,
            next_id: 1,
            pending: HashMap::new(),
            diagnostics: StringHashMap::new(),
            caps: None,
            open_docs: StringHashMap::new(),
            log: Vec::new(),
        };
        assert(client@ =~= begun::<T>(cfg, root@, paths::path_bytes(root_path)));
        Ok(client)
    }

    /// The workspace root as a URI.
    pub fn root(&self) -> (r: &str)
        ensures
            r@ == self@.root,
    {
        self.root.as_str()
    }

    /// The workspace root as a path.
    pub fn root_path(&self) -> (r: &PathBuf)
        ensures
            paths::path_bytes(*r) == self@.root_path,
    {
        &self.root_path
    }

    /// The configuration of the server.
    pub fn config(&self) -> (r: &ServerConfig)
        ensures
            *r == self@.config,
    {
        &self.cfg
    }

    /// The language that the server speaks.
    pub fn language_id(&self) -> (r: &str)
        ensures
            r@ == self@.config.language_id@,
    {
        self.cfg.language_id.as_str()
    }

    /// How long a request may take.
    pub fn timeout(&self) -> (r: Duration)
        ensures
            config::nanoseconds(r) == self@.config.seconds() as nat * 1_000_000_000,
    {
        self.cfg.timeout()
    }

    /// The features that the server advertises, once it has said so.
    pub fn capabilities(&self) -> (r: Option<ServerCapabilities>)
        ensures
            r == self@.caps,
    {
        self.caps
    }

    // ---- plumbing ----

    /// Prepares a request: `waiter` is to get the answer.
    pub fn request_raw(&mut self, method: &str, params: Json, waiter: T) -> (r: Outgoing)
        ensures
            is_request(r, old(self)@, method@, params@),
            final(self)@ == requested(old(self)@, waiter),
            is_carried(params@) ==> is_read_as(
                r.frame@,
                IncomingView::Request {
                    id: JsonTree::Int(r.id as int),
                    method: method@,
                    params: params@,
                },
            ),
            ids_handed_out(old(self)@) ==> !old(self)@.pending.contains_key(r.id),
            ids_handed_out(old(self)@) && 1 <= old(self)@.next_id < i64::MAX ==> ids_handed_out(
                final(self)@,
            ),
    {
        let id: i64 = self.next_id;
        self.next_id = id.wrapping_add(1);
        let _ = self.pending.insert(id, waiter);
        let ghost carried = params@;
        let frame = write_message(&messages::request(id, method, params));
        assert(self@ =~= requested(old(self)@, waiter));
        proof {
            messages::law_request_is_read(id as int, method@, carried);
            if is_carried(carried) {
                messages::law_message_depth(JsonTree::Null, id as int, method@, carried, 126);
            }
        }
        Outgoing { id, frame }
    }

    /// What the request `id` comes to.
    pub fn conclude(&mut self, id: i64, method: &str, event: RequestEvent) -> (r: Result<
        Json,
        RequestError,
    >)
        ensures
            (match r {
                Ok(value) => Ok(value@),
                Err(error) => Err(error@),
            }) == outcome(method@, old(self)@.config.seconds(), event),
            final(self)@ == concluded(old(self)@, id, event),
            ids_handed_out(old(self)@) ==> ids_handed_out(final(self)@),
    {
        match event {
            RequestEvent::Answered(Ok(value)) => Ok(value),
            RequestEvent::Answered(Err(error)) => Err(RequestError::Rpc(error)),
            RequestEvent::Dropped => Err(RequestError::Dropped { method: method.to_string() }),
            RequestEvent::TimedOut => {
                let _ = self.pending.remove(&id);
                assert(self@ =~= concluded(old(self)@, id, event));
                Err(
                    RequestError::TimedOut {
                        method: method.to_string(),
                        seconds: self.cfg.timeout_seconds(),
                    },
                )
            },
        }
    }

    /// The frame of a notification.
    pub fn notify(&self, method: &str, params: Json) -> (r: Vec<u8>)
        ensures
            r@ == notification_frame(method@, params@),
            is_carried(params@) ==> is_read_as(
                r@,
                IncomingView::Notification { method: method@, params: params@ },
            ),
    {
        proof {
            messages::law_notification_is_read(method@, params@);
            if is_carried(params@) {
                messages::law_message_depth(JsonTree::Null, 0, method@, params@, 126);
            }
        }
        write_message(&messages::notification(method, params))
    }

    /// Takes in a message from the server.
    pub fn dispatch(&mut self, msg: Incoming) -> (r: Dispatched<T>)
        ensures
            (final(self)@, r@) == dispatched(old(self)@, msg@),
            ids_handed_out(old(self)@) ==> ids_handed_out(final(self)@),
    {
        match msg {
            Incoming::Response { id, result, error } => match self.pending.remove(&id) {
                Some(waiter) => {
                    assert(self@ =~= (ClientView {
                        pending: old(self)@.pending.remove(id),
                        ..old(self)@
                    }));
                    let response = match (result, error) {
                        (_, Some(error)) => Err(error),
                        (Some(value), None) => Ok(value),
                        (None, None) => Ok(Json::Null),
                    };
                    Dispatched::Deliver { waiter, response }
                },
                None => {
                    assert(self@ =~= old(self)@);
                    Dispatched::UnknownResponse { id }
                },
            },
            Incoming::Notification { method, params } => {
                if same_text(method.as_str(), "textDocument/publishDiagnostics") {
                    self.store_diagnostics(decode_diagnostics(&params))
                } else {
                    Dispatched::Ignored
                }
            },
            Incoming::Request { id, method, params } => Dispatched::Reply {
                frame: handle_server_request(id, method.as_str(), &params),
            },
        }
    }

    /// Stores diagnostics that a server has published, unless they were malformed.
    pub fn store_diagnostics(&mut self, decoded: Option<PublishedDiagnostics>) -> (r: Dispatched<T>)
        ensures
            match decoded {
                Some(p) => r@ == DispatchedView::<T>::Stored && final(self)@ == published(
                    old(self)@,
                    p@,
                ),
                None => r@ == DispatchedView::<T>::MalformedDiagnostics && final(self)@ == old(
                    self,
                )@,
            },
    {
        match decoded {
            Some(p) => {
                let ghost view = p@;
                self.diagnostics.insert(p.uri, p.diagnostics);
                assert(self@.diagnostics =~= old(self)@.diagnostics.insert(
                    view.uri,
                    view.diagnostics,
                ));
                assert(self@ =~= published(old(self)@, view));
                Dispatched::Stored
            },
            None => Dispatched::MalformedDiagnostics,
        }
    }

    /// Gives up on all waiting requests: hands out who waits, and the error that each is to
    /// get.
    pub fn fail_all(&mut self, reason: &str) -> (r: (HashMap<i64, T>, RpcError))
        ensures
            r.0@ == old(self)@.pending,
            r.1@ == (RpcErrorView { code: -32000, message: reason@, data: None }),
            final(self)@ == (ClientView { pending: Map::empty(), ..old(self)@ }),
            ids_handed_out(final(self)@),
    {
        let mut waiting: HashMap<i64, T> = HashMap::new();
        std::mem::swap(&mut waiting, &mut self.pending);
        assert(self@ =~= (ClientView { pending: Map::empty(), ..old(self)@ }));
        (waiting, RpcError { code: -32000, message: reason.to_string(), data: None })
    }

    // ---- initialization ----

    /// Begins to initialize the server, unless that has been done.
    pub fn initialize(&mut self, process_id: u32, waiter: T) -> (r: InitStep)
        ensures
            match old(self)@.caps {
                Some(caps) => r == InitStep::Ready(caps) && final(self)@ == old(self)@,
                None => (r matches InitStep::Request(out) && is_request(
                    out,
                    old(self)@,
                    "initialize"@,
                    initialize_params(old(self)@, process_id),
                )) && final(self)@ == requested(old(self)@, waiter),
            },
    {
        if let Some(caps) = self.caps {
            return InitStep::Ready(caps);
        }
        let name = match file_name_of(&self.root_path) {
            Some(name) => name,
            None => "workspace".to_string(),
        };
        let options = match &self.cfg.initialization_options {
            Some(options) => Some(options.clone()),
            None => None,
        };
        let params = messages::initialize_params(
            process_id,
            self.root.as_str(),
            name.as_str(),
            options,
        );
        assert(params@ == initialize_params(self@, process_id));
        InitStep::Request(self.request_raw("initialize", params, waiter))
    }

    /// Takes in the answer to `initialize`: the capabilities that count from now on, and the
    /// frame to send.
    pub fn initialized(&mut self, value: &Json) -> (r: Result<
        (ServerCapabilities, Vec<u8>),
        String,
    >)
        ensures
            match reply::initialize_response(value@) {
                Ok(caps) => (r matches Ok(done) && Some(done.0) == final(self)@.caps && done.1@
                    == notification_frame("initialized"@, JsonTree::object())) && final(self)@
                    == knowing(old(self)@, caps),
                Err(text) => (r matches Err(e) && e@ == text) && final(self)@ == old(self)@,
            },
    {
        match decode_capabilities(value) {
            Ok(caps) => {
                let known = self.record_capabilities(caps);
                let frame = self.notify("initialized", Json::object());
                Ok((known, frame))
            },
            Err(text) => Err(text),
        }
    }

    /// Notes the capabilities of the server, once; returns the ones that count.
    pub fn record_capabilities(&mut self, caps: ServerCapabilities) -> (r: ServerCapabilities)
        ensures
            final(self)@ == knowing(old(self)@, caps),
            final(self)@.caps == Some(r),
    {
        match self.caps {
            Some(known) => known,
            None => {
                self.caps = Some(caps);
                assert(self@ =~= knowing(old(self)@, caps));
                caps
            },
        }
    }

    // ---- capability gates ----

    pub fn supports_hover(&self) -> (r: bool)
        ensures
            r == supports(self@.caps, Feature::Hover),
    {
        match self.caps {
            Some(caps) => offered(caps.hover_provider),
            None => true,
        }
    }

    pub fn supports_definition(&self) -> (r: bool)
        ensures
            r == supports(self@.caps, Feature::Definition),
    {
        match self.caps {
            Some(caps) => offered(caps.definition_provider),
            None => true,
        }
    }

    pub fn supports_references(&self) -> (r: bool)
        ensures
            r == supports(self@.caps, Feature::References),
    {
        match self.caps {
            Some(caps) => offered(caps.references_provider),
            None => true,
        }
    }

    pub fn supports_completion(&self) -> (r: bool)
        ensures
            r == supports(self@.caps, Feature::Completion),
    {
        match self.caps {
            Some(caps) => offered(caps.completion_provider),
            None => true,
        }
    }

    pub fn supports_document_symbol(&self) -> (r: bool)
        ensures
            r == supports(self@.caps, Feature::DocumentSymbol),
    {
        match self.caps {
            Some(caps) => offered(caps.document_symbol_provider),
            None => true,
        }
    }

    pub fn supports_workspace_symbol(&self) -> (r: bool)
        ensures
            r == supports(self@.caps, Feature::WorkspaceSymbol),
    {
        match self.caps {
            Some(caps) => offered(caps.workspace_symbol_provider),
            None => true,
        }
    }

    pub fn supports_rename(&self) -> (r: bool)
        ensures
            r == supports(self@.caps, Feature::Rename),
    {
        match self.caps {
            Some(caps) => match caps.rename_provider {
                Some(RenameProvider::Simple(on)) => on,
                Some(RenameProvider::Options { .. }) => true,
                None => false,
            },
            None => true,
        }
    }

    /// Whether a rename can be checked beforehand.
    pub fn supports_prepare_rename(&self) -> (r: bool)
        ensures
            r == prepares_rename(self@.caps),
    {
        match self.caps {
            Some(caps) => match caps.rename_provider {
                Some(RenameProvider::Simple(on)) => on,
                Some(RenameProvider::Options { prepare_provider }) => match prepare_provider {
                    Some(on) => on,
                    None => false,
                },
                None => false,
            },
            None => false,
        }
    }

    // ---- typed requests ----

    pub fn hover(&mut self, uri: &str, pos: Position, waiter: T) -> (r: Outgoing)
        ensures
            is_request(
                r,
                old(self)@,
                "textDocument/hover"@,
                messages::position_params_tree(uri@, pos),
            ),
            final(self)@ == requested(old(self)@, waiter),
    {
        self.request_raw("textDocument/hover", messages::pos_params(uri, pos), waiter)
    }

    pub fn definition(&mut self, uri: &str, pos: Position, waiter: T) -> (r: Outgoing)
        ensures
            is_request(
                r,
                old(self)@,
                "textDocument/definition"@,
                messages::position_params_tree(uri@, pos),
            ),
            final(self)@ == requested(old(self)@, waiter),
    {
        self.request_raw("textDocument/definition", messages::pos_params(uri, pos), waiter)
    }

    pub fn references(
        &mut self,
        uri: &str,
        pos: Position,
        include_declaration: bool,
        waiter: T,
    ) -> (r: Outgoing)
        ensures
            is_request(
                r,
                old(self)@,
                "textDocument/references"@,
                messages::reference_params_tree(uri@, pos, include_declaration),
            ),
            final(self)@ == requested(old(self)@, waiter),
    {
        self.request_raw(
            "textDocument/references",
            messages::reference_params(uri, pos, include_declaration),
            waiter,
        )
    }

    pub fn completion(&mut self, uri: &str, pos: Position, waiter: T) -> (r: Outgoing)
        ensures
            is_request(
                r,
                old(self)@,
                "textDocument/completion"@,
                messages::position_params_tree(uri@, pos),
            ),
            final(self)@ == requested(old(self)@, waiter),
    {
        self.request_raw("textDocument/completion", messages::pos_params(uri, pos), waiter)
    }

    pub fn document_symbols(&mut self, uri: &str, waiter: T) -> (r: Outgoing)
        ensures
            is_request(
                r,
                old(self)@,
                "textDocument/documentSymbol"@,
                messages::document_params_tree(uri@),
            ),
            final(self)@ == requested(old(self)@, waiter),
    {
        self.request_raw("textDocument/documentSymbol", messages::document_params(uri), waiter)
    }

    /// The answer is used as raw JSON, because its shape changed across LSP versions.
    pub fn workspace_symbols(&mut self, query: &str, waiter: T) -> (r: Outgoing)
        ensures
            is_request(r, old(self)@, "workspace/symbol"@, messages::query_params_tree(query@)),
            final(self)@ == requested(old(self)@, waiter),
    {
        self.request_raw("workspace/symbol", messages::query_params(query), waiter)
    }

    /// The answer is used as raw JSON, because its shape varies.
    pub fn prepare_rename(&mut self, uri: &str, pos: Position, waiter: T) -> (r: Outgoing)
        ensures
            is_request(
                r,
                old(self)@,
                "textDocument/prepareRename"@,
                messages::position_params_tree(uri@, pos),
            ),
            final(self)@ == requested(old(self)@, waiter),
    {
        self.request_raw("textDocument/prepareRename", messages::pos_params(uri, pos), waiter)
    }

    pub fn rename(&mut self, uri: &str, pos: Position, new_name: &str, waiter: T) -> (r: Outgoing)
        ensures
            is_request(
                r,
                old(self)@,
                "textDocument/rename"@,
                messages::rename_params_tree(uri@, pos, new_name@),
            ),
            final(self)@ == requested(old(self)@, waiter),
    {
        self.request_raw("textDocument/rename", messages::rename_params(uri, pos, new_name), waiter)
    }

    /// Asks the server to shut down; [`LspClient::exit`] follows the answer.
    pub fn shutdown(&mut self, waiter: T) -> (r: Outgoing)
        ensures
            is_request(r, old(self)@, "shutdown"@, JsonTree::Null),
            final(self)@ == requested(old(self)@, waiter),
    {
        self.request_raw("shutdown", Json::Null, waiter)
    }

    /// The frame that tells the server to exit.
    pub fn exit(&self) -> (r: Vec<u8>)
        ensures
            r@ == notification_frame("exit"@, JsonTree::Null),
    {
        self.notify("exit", Json::Null)
    }

    // ---- documents ----

    /// The diagnostics that were published last for a document.
    pub fn diagnostics(&self, uri: &str) -> (r: Vec<Diagnostic>)
        ensures
            types::views(r@) == (if self@.diagnostics.contains_key(uri@) {
                self@.diagnostics[uri@]
            } else {
                Seq::empty()
            }),
    {
        match self.diagnostics.get(uri) {
            Some(list) => {
                let mut out: Vec<Diagnostic> = Vec::new();
                let mut i: usize = 0;
                while i < list.len()
                    invariant
                        i <= list@.len(),
                        types::views(out@) == types::views(list@).take(i as int),
                    decreases list.len() - i,
                {
                    let copy = list[i].clone();
                    assert(types::views(out@.push(copy)) == types::views(out@).push(copy@));
                    out.push(copy);
                    i = i + 1;
                }
                assert(types::views(list@).take(i as int) == types::views(list@));
                out
            },
            None => {
                let out: Vec<Diagnostic> = Vec::new();
                assert(types::views(out@) == Seq::<DiagnosticView>::empty());
                out
            },
        }
    }

    /// What is to be done to have a document open: it is opened once per session, with the
    /// text on disk.
    pub fn ensure_open(&self, uri: &str) -> (r: DocumentStep)
        ensures
            r@ == open_step(self@, uri@),
    {
        if self.open_docs.contains_key(uri) {
            return DocumentStep::Skip;
        }
        read_document(uri)
    }

    /// The frame that opens a document.
    pub fn did_open(&self, uri: &str, text: &str) -> (r: Vec<u8>)
        ensures
            r@ == notification_frame(
                "textDocument/didOpen"@,
                messages::did_open_tree(uri@, self@.config.language_id@, 1, text@),
            ),
    {
        self.notify(
            "textDocument/didOpen",
            messages::did_open_params(uri, self.cfg.language_id.as_str(), 1, text),
        )
    }

    /// Notes that a document has been opened.
    pub fn mark_open(&mut self, uri: &str)
        ensures
            final(self)@ == holding(old(self)@, uri@, 1),
    {
        self.open_docs.insert(uri.to_string(), 1);
        assert(self@ =~= holding(old(self)@, uri@, 1));
    }

    /// What is to be done about a document that has changed on disk: an open one is sent
    /// anew.
    pub fn sync_changed(&self, uri: &str) -> (r: DocumentStep)
        ensures
            r@ == sync_step(self@, uri@),
    {
        if !self.open_docs.contains_key(uri) {
            return DocumentStep::Skip;
        }
        read_document(uri)
    }

    /// The frame that sends an open document anew, under its next version.
    pub fn did_change(&mut self, uri: &str, text: &str) -> (r: Option<Vec<u8>>)
        ensures
            if old(self)@.open_docs.contains_key(uri@) {
                let version = old(self)@.open_docs[uri@].wrapping_add(1);
                (r matches Some(frame) && frame@ == notification_frame(
                    "textDocument/didChange"@,
                    messages::did_change_tree(uri@, version as int, text@),
                )) && final(self)@ == holding(old(self)@, uri@, version)
            } else {
                r is None && final(self)@ == old(self)@
            },
    {
        let version: i32 = match self.open_docs.get(uri) {
            Some(version) => version.wrapping_add(1),
            None => {
                return None;
            },
        };
        self.open_docs.insert(uri.to_string(), version);
        assert(self@ =~= holding(old(self)@, uri@, version));
        Some(
            self.notify(
                "textDocument/didChange",
                messages::did_change_params(uri, version, text),
            ),
        )
    }

    // ---- the server's error stream ----

    /// Notes a line that the server has written to its error stream.
    pub fn log_line(&mut self, line: String)
        ensures
            final(self)@ == (ClientView { log: old(self)@.log.push(line@), ..old(self)@ }),
    {
        self.log.push(line);
        assert(self@.log =~= old(self)@.log.push(line@));
        assert(self@ =~= (ClientView { log: old(self)@.log.push(line@), ..old(self)@ }));
    }

    /// The last `n` lines that the server has written to its error stream.
    pub fn stderr_tail(&self, n: usize) -> (r: Vec<String>)
        ensures
            strings::texts(r@) == last_of(self@.log, n as nat),
    {
        let start: usize = if n >= self.log.len() {
            0
        } else {
            self.log.len() - n
        };
        let mut out: Vec<String> = Vec::new();
        let mut i: usize = start;
        while i < self.log.len()
            invariant
                start <= i <= self.log@.len(),
                strings::texts(out@) == strings::texts(self.log@).subrange(start as int, i as int),
            decreases self.log.len() - i,
        {
            let line = self.log[i].clone();
            assert(strings::texts(out@.push(line)) == strings::texts(out@).push(line@));
            out.push(line);
            i = i + 1;
        }
        assert(strings::texts(out@) == last_of(self@.log, n as nat));
        out
    }
}

// ---- laws ----

/// The answer to a request reaches who waits for it, and nobody else waits less: after it,
/// the same requests wait as before the request was made.
pub proof fn law_answer_reaches_its_request<T>(
    client: ClientView<T>,
    waiter: T,
    result: Option<JsonTree>,
    error: Option<RpcErrorView>,
)
    requires
        ids_handed_out(client),
    ensures
        ({
            let id = client.next_id as int;
            let (after, done) = dispatched(
                requested(client, waiter),
                IncomingView::Response { id, result, error },
            );
            done == (DispatchedView::Deliver { waiter, response: answer(result, error) })
                && after.pending == client.pending
        }),
{
    assert(!client.pending.contains_key(client.next_id));
    assert(client.pending.insert(client.next_id, waiter).remove(client.next_id) =~= client.pending);
}

/// A result that a server writes as the answer to a request is delivered to who waits for it,
/// and what follows it in the stream is left.
pub proof fn law_written_answer_is_delivered<T>(
    client: ClientView<T>,
    waiter: T,
    result: JsonTree,
    stream: Seq<u8>,
    rest: Seq<u8>,
    eof: bool,
)
    requires
        ids_handed_out(client),
        transport::message_at(stream, eof) == transport::body_message(
            Ok(messages::result_message(JsonTree::Int(client.next_id as int), result)),
            rest,
        ),
    ensures
        ({
            let msg = IncomingView::Response {
                id: client.next_id as int,
                result: Some(result),
                error: None,
            };
            transport::message_at(stream, eof) == (transport::ReadView::Message {
                incoming: msg,
                rest,
            }) && dispatched(requested(client, waiter), msg).1 == (DispatchedView::Deliver {
                waiter,
                response: Ok(result),
            })
        }),
{
    messages::law_answer_is_read(client.next_id, result, 0, Seq::empty());
    law_answer_reaches_its_request(client, waiter, Some(result), None);
}

/// A request is answered once: a further response with its id is for nobody.
pub proof fn law_answered_once<T>(
    client: ClientView<T>,
    id: i64,
    result: Option<JsonTree>,
    error: Option<RpcErrorView>,
)
    ensures
        ({
            let msg = IncomingView::Response { id: id as int, result, error };
            let after = dispatched(client, msg).0;
            dispatched(after, msg) == (after, DispatchedView::<T>::UnknownResponse {
                id: id as int,
            })
        }),
{
}

/// A response touches no request but the one with its id, and no message changes which
/// documents are open or what the server advertises.
pub proof fn law_dispatch_frame<T>(client: ClientView<T>, msg: IncomingView, other: i64)
    ensures
        ({
            let after = dispatched(client, msg).0;
            &&& after.open_docs == client.open_docs
            &&& after.caps == client.caps
            &&& after.next_id == client.next_id
            &&& (client.pending.contains_key(other) && !(msg matches IncomingView::Response {
                id,
                ..
            } && id as i64 == other)) ==> after.pending.contains_key(other)
                && after.pending[other] == client.pending[other]
        }),
{
}

/// Ids are not handed out twice: a new request has an id that no waiting one has, as long
/// as the counter has not come round.
pub proof fn law_ids_differ<T>(client: ClientView<T>, waiter: T)
    requires
        ids_handed_out(client),
        1 <= client.next_id < i64::MAX,
    ensures
        !client.pending.contains_key(client.next_id),
        ids_handed_out(requested(client, waiter)),
        requested(client, waiter).next_id > client.next_id,
{
}

/// What a server advertises first counts for good.
pub proof fn law_capabilities_are_final<T>(
    client: ClientView<T>,
    first: ServerCapabilities,
    second: ServerCapabilities,
)
    ensures
        knowing(knowing(client, first), second) == knowing(client, first),
{
}

/// A feature that a server does not name, or names as one that it does not have, may not be
/// used; one that it says it has, or says how it has, may be.
pub proof fn law_gates(caps: ServerCapabilities, feature: Feature)
    ensures
        match said_of(caps, feature) {
            None => !supports(Some(caps), feature),
            Some(Provider::Simple(on)) => supports(Some(caps), feature) == on,
            Some(Provider::Options) => supports(Some(caps), feature),
        },
{
}

/// Until a server has said what it can do, every feature may be used.
pub proof fn law_gates_open_before_initialization(feature: Feature)
    ensures
        supports(None, feature),
{
}

/// The diagnostics of a document are the ones that were published last for it; publishing
/// leaves the other documents alone.
pub proof fn law_diagnostics_are_the_latest<T>(
    client: ClientView<T>,
    p: PublishedView,
    other: Seq<char>,
)
    ensures
        published(client, p).diagnostics[p.uri] == p.diagnostics,
        other != p.uri ==> published(client, p).diagnostics.contains_key(other)
            == client.diagnostics.contains_key(other),
        other != p.uri && client.diagnostics.contains_key(other) ==> published(
            client,
            p,
        ).diagnostics[other] == client.diagnostics[other],
{
}

/// A document is opened once per session, and is sent anew only when it is open.
pub proof fn law_opened_once<T>(client: ClientView<T>, uri: Seq<char>, version: i32, other: Seq<char>)
    ensures
        open_step(holding(client, uri, version), uri) == DocumentStepView::Skip,
        sync_step(holding(client, uri, version), uri) == read_step(uri),
        !client.open_docs.contains_key(uri) ==> sync_step(client, uri) == DocumentStepView::Skip,
        other != uri ==> open_step(holding(client, uri, version), other) == open_step(
            client,
            other,
        ),
{
}

/// Every request of the server gets a reply with its own id: a result where the client
/// handles the request, and an error otherwise.
pub proof fn law_server_requests_are_answered(
    id: JsonTree,
    method: Seq<char>,
    items: Option<usize>,
)
    ensures
        json::tree_field(server_reply(id, method, items), "id"@) == Some(id),
        (json::tree_field(server_reply(id, method, items), "result"@) is Some) == (server_result(
            method,
            items,
        ) is Some),
        (json::tree_field(server_reply(id, method, items), "error"@) is Some) == (server_result(
            method,
            items,
        ) is None),
{
    messages::lemma_field_names();
}

/// After giving up, no request waits any more: each response that still arrives is for
/// nobody.
pub proof fn law_nobody_waits_after_failure<T>(
    client: ClientView<T>,
    id: int,
    result: Option<JsonTree>,
    error: Option<RpcErrorView>,
)
    ensures
        ({
            let given_up = ClientView { pending: Map::empty(), ..client };
            dispatched(given_up, IncomingView::Response { id, result, error }).1
                == DispatchedView::<T>::UnknownResponse { id }
        }),
{
}

/// A session begins with its root and its configuration, with the first id, and with nothing
/// else.
pub proof fn law_session_begins<T>(cfg: ServerConfig, root: Seq<char>, root_path: Seq<u8>)
    ensures
        ({
            let client = begun::<T>(cfg, root, root_path);
            &&& client.root == root
            &&& client.root_path == root_path
            &&& client.config == cfg
            &&& client.next_id == 1
            &&& client.pending == Map::<i64, T>::empty()
            &&& client.diagnostics == Map::<Seq<char>, Seq<DiagnosticView>>::empty()
            &&& client.caps is None
            &&& client.open_docs == Map::<Seq<char>, i32>::empty()
            &&& client.log == Seq::<Seq<char>>::empty()
            &&& ids_handed_out(client)
        }),
{
}

/// What is sent is the frame of the message with its method, its parameters and, for a request,
/// the id that comes next.
pub proof fn law_sent_frames<T>(
    out: Outgoing,
    client: ClientView<T>,
    method: Seq<char>,
    params: JsonTree,
)
    ensures
        is_request(out, client, method, params) <==> out.id == client.next_id && out.frame@
            == transport::frame(
            json::json_text(
                JsonTree::Object(
                    map![
                        "jsonrpc"@ => JsonTree::Text("2.0"@),
                        "id"@ => JsonTree::Int(client.next_id as int),
                        "method"@ => JsonTree::Text(method),
                        "params"@ => params,
                    ],
                ),
            ),
        ),
        notification_frame(method, params) == transport::frame(
            json::json_text(
                JsonTree::Object(
                    map![
                        "jsonrpc"@ => JsonTree::Text("2.0"@),
                        "method"@ => JsonTree::Text(method),
                        "params"@ => params,
                    ],
                ),
            ),
        ),
{
}

/// A request has its waiter wait under the next id, and changes nothing else of the session.
pub proof fn law_request_waits<T>(client: ClientView<T>, waiter: T)
    ensures
        ({
            let after = requested(client, waiter);
            &&& after.pending == client.pending.insert(client.next_id, waiter)
            &&& client.next_id < i64::MAX ==> after.next_id == client.next_id + 1
            &&& after == (ClientView {
                pending: after.pending,
                next_id: after.next_id,
                ..client
            })
        }),
{
}

/// A response hands its error, or else its result, or else null, to who waits under its id,
/// who then waits no more; nothing else of the session changes.
pub proof fn law_response_is_handed_over<T>(
    client: ClientView<T>,
    id: i64,
    value: JsonTree,
    result: Option<JsonTree>,
    error: RpcErrorView,
)
    ensures
        client.pending.contains_key(id) ==> {
            let after = ClientView { pending: client.pending.remove(id), ..client };
            let waiter = client.pending[id];
            &&& dispatched(
                client,
                IncomingView::Response { id: id as int, result, error: Some(error) },
            ) == (after, DispatchedView::Deliver { waiter, response: Err(error) })
            &&& dispatched(
                client,
                IncomingView::Response { id: id as int, result: Some(value), error: None },
            ) == (after, DispatchedView::Deliver { waiter, response: Ok(value) })
            &&& dispatched(
                client,
                IncomingView::Response { id: id as int, result: None, error: None },
            ) == (after, DispatchedView::Deliver { waiter, response: Ok(JsonTree::Null) })
        },
        !client.pending.contains_key(id) ==> dispatched(
            client,
            IncomingView::Response { id: id as int, result, error: Some(error) },
        ) == (client, DispatchedView::<T>::UnknownResponse { id: id as int }),
{
}

/// Published diagnostics are stored for their document, and only they change the session; a
/// malformed publication and every other notification change nothing.
pub proof fn law_notifications<T>(
    client: ClientView<T>,
    method: Seq<char>,
    params: JsonTree,
    p: PublishedView,
)
    ensures
        ({
            let publish = dispatched(
                client,
                IncomingView::Notification {
                    method: "textDocument/publishDiagnostics"@,
                    params,
                },
            );
            &&& reply::diagnostics_given(params) == Some(p) ==> publish == (
                ClientView {
                    diagnostics: client.diagnostics.insert(p.uri, p.diagnostics),
                    ..client
                },
                DispatchedView::<T>::Stored,
            )
            &&& reply::diagnostics_given(params) is None ==> publish == (
                client,
                DispatchedView::<T>::MalformedDiagnostics,
            )
        }),
        method != "textDocument/publishDiagnostics"@ ==> dispatched(
            client,
            IncomingView::Notification { method, params },
        ) == (client, DispatchedView::<T>::Ignored),
{
}

/// A request of the server is replied to by a frame with its id, and changes nothing of the
/// session. A question for the configuration gets as many nulls as items were asked for, the
/// other requests that are handled get null, and every other one gets an error that names it.
pub proof fn law_server_replies<T>(
    client: ClientView<T>,
    id: JsonTree,
    method: Seq<char>,
    params: JsonTree,
    nulls: Seq<JsonTree>,
)
    requires
        nulls.len() == match reply::items_given(params) {
            Some(n) => n as nat,
            None => 0,
        },
        forall|i: int| 0 <= i < nulls.len() ==> #[trigger] nulls[i] is Null,
    ensures
        ({
            let sent = dispatched(client, IncomingView::Request { id, method, params });
            let framed = |message: JsonTree|
                sent == (
                    client,
                    DispatchedView::<T>::Reply {
                        frame: transport::frame(json::json_text(message)),
                    },
                );
            &&& method == "workspace/configuration"@ ==> framed(
                JsonTree::Object(
                    map![
                        "jsonrpc"@ => JsonTree::Text("2.0"@),
                        "id"@ => id,
                        "result"@ => JsonTree::Array(nulls),
                    ],
                ),
            )
            &&& method == "client/registerCapability"@ || method
                == "client/unregisterCapability"@ || method
                == "window/workDoneProgress/create"@ ==> framed(
                JsonTree::Object(
                    map![
                        "jsonrpc"@ => JsonTree::Text("2.0"@),
                        "id"@ => id,
                        "result"@ => JsonTree::Null,
                    ],
                ),
            )
            &&& method != "workspace/configuration"@ && method != "client/registerCapability"@
                && method != "client/unregisterCapability"@ && method
                != "window/workDoneProgress/create"@ ==> framed(
                JsonTree::Object(
                    map![
                        "jsonrpc"@ => JsonTree::Text("2.0"@),
                        "id"@ => id,
                        "error"@ => JsonTree::Object(
                            map![
                                "code"@ => JsonTree::Int(-32601),
                                "message"@ => JsonTree::Text(
                                    "lspranto does not handle server request `"@ + method + "`"@,
                                ),
                            ],
                        ),
                    ],
                ),
            )
        }),
{
    reveal_strlit("workspace/configuration");
    reveal_strlit("client/registerCapability");
    reveal_strlit("client/unregisterCapability");
    reveal_strlit("window/workDoneProgress/create");
    assert("workspace/configuration"@[1] == 'o');
    assert("client/registerCapability"@[1] == 'l');
    assert("client/unregisterCapability"@[1] == 'l');
    assert("window/workDoneProgress/create"@[1] == 'i');
    assert(Seq::new(nulls.len(), |i: int| JsonTree::Null) =~= nulls);
}

/// A request comes to the value or the error of its answer, or to an error that names its
/// method where it was dropped or took longer than it may. Only one that timed out is
/// forgotten, and nothing else of the session changes.
pub proof fn law_request_outcomes<T>(
    client: ClientView<T>,
    id: i64,
    method: Seq<char>,
    seconds: u64,
    value: Json,
    error: RpcError,
)
    ensures
        outcome(method, seconds, RequestEvent::Answered(Ok(value))) == Ok::<_, RequestErrorView>(
            value@,
        ),
        outcome(method, seconds, RequestEvent::Answered(Err(error))) == Err::<JsonTree, _>(
            RequestErrorView::Rpc(error@),
        ),
        outcome(method, seconds, RequestEvent::Dropped) == Err::<JsonTree, _>(
            RequestErrorView::Dropped { method },
        ),
        outcome(method, seconds, RequestEvent::TimedOut) == Err::<JsonTree, _>(
            RequestErrorView::TimedOut { method, seconds },
        ),
        concluded(client, id, RequestEvent::TimedOut) == (ClientView {
            pending: client.pending.remove(id),
            ..client
        }),
        concluded(client, id, RequestEvent::Answered(Ok(value))) == client,
        concluded(client, id, RequestEvent::Answered(Err(error))) == client,
        concluded(client, id, RequestEvent::Dropped) == client,
{
}

/// The text of an error says what the server said, or names the request and what became of it.
pub proof fn law_request_error_texts(error: RpcErrorView, method: Seq<char>, seconds: u64)
    ensures
        request_error_text(RequestErrorView::Rpc(error)) == "JSON-RPC error "@
            + strings::decimal_int(error.code) + ": "@ + error.message,
        request_error_text(RequestErrorView::Dropped { method }) == "request `"@ + method
            + "` dropped without a response"@,
        seconds > 0 ==> request_error_text(RequestErrorView::TimedOut { method, seconds })
            == "request `"@ + method + "` timed out after "@ + (strings::decimal(seconds as nat)
            + "s"@),
        request_error_text(RequestErrorView::TimedOut { method, seconds: 0 }) == "request `"@
            + method + "` timed out after "@ + "0ns"@,
{
}

/// A document that is not open is read to open it, and one that is open is read to send it
/// anew; it is the file that its URI names, and a URI that names none is an error.
pub proof fn law_document_steps<T>(
    client: ClientView<T>,
    uri: Seq<char>,
    path: Seq<u8>,
    error: conv::ConvErrorView,
)
    ensures
        ({
            let open = client.open_docs.contains_key(uri);
            let named = conv::uri_path(uri) == Ok::<_, conv::ConvErrorView>(path);
            let unnamed = conv::uri_path(uri) == Err::<Seq<u8>, _>(error);
            &&& open ==> open_step(client, uri) == DocumentStepView::Skip
            &&& !open && named ==> open_step(client, uri) == (DocumentStepView::Read { path })
            &&& !open && unnamed ==> open_step(client, uri) == DocumentStepView::Failed(error)
            &&& !open ==> sync_step(client, uri) == DocumentStepView::Skip
            &&& open && named ==> sync_step(client, uri) == (DocumentStepView::Read { path })
            &&& open && unnamed ==> sync_step(client, uri) == DocumentStepView::Failed(error)
        }),
{
}

/// Noting the version of a document, or what the server can do, changes nothing else of the
/// session.
pub proof fn law_noting_changes_nothing_else<T>(
    client: ClientView<T>,
    uri: Seq<char>,
    version: i32,
    caps: ServerCapabilities,
)
    ensures
        holding(client, uri, version) == (ClientView {
            open_docs: client.open_docs.insert(uri, version),
            ..client
        }),
        client.caps is None ==> knowing(client, caps) == (ClientView {
            caps: Some(caps),
            ..client
        }),
        client.caps is Some ==> knowing(client, caps) == client,
{
}

/// A server is initialized with the root of the session, named by the last name of its path,
/// and with the configured options.
pub proof fn law_session_params<T>(
    client: ClientView<T>,
    process_id: u32,
    name: Seq<u8>,
    options: Json,
)
    ensures
        paths::file_name(client.root_path) == Some(name) ==> folder_name(client.root_path)
            == paths::lossy_text(name),
        paths::file_name(client.root_path) is None ==> folder_name(client.root_path)
            == "workspace"@,
        client.config.initialization_options == Some(options) ==> initialize_params(
            client,
            process_id,
        ) == messages::initialize_params_tree(
            process_id as int,
            client.root,
            folder_name(client.root_path),
            Some(options@),
        ),
        client.config.initialization_options is None ==> initialize_params(client, process_id)
            == messages::initialize_params_tree(
            process_id as int,
            client.root,
            folder_name(client.root_path),
            None,
        ),
{
}

/// Each feature is gated by what the server says of that feature: it is there where the server
/// says so, or says how. A rename may be checked beforehand only where the server says that it
/// renames, or that it checks.
pub proof fn law_each_gate(caps: ServerCapabilities, prepare: Option<bool>, on: bool)
    ensures
        ({
            let there = |provider: Option<Provider>|
                provider == Some(Provider::Simple(true)) || provider == Some(Provider::Options);
            &&& supports(Some(caps), Feature::Hover) == there(caps.hover_provider)
            &&& supports(Some(caps), Feature::Definition) == there(caps.definition_provider)
            &&& supports(Some(caps), Feature::References) == there(caps.references_provider)
            &&& supports(Some(caps), Feature::Completion) == there(caps.completion_provider)
            &&& supports(Some(caps), Feature::DocumentSymbol) == there(
                caps.document_symbol_provider,
            )
            &&& supports(Some(caps), Feature::WorkspaceSymbol) == there(
                caps.workspace_symbol_provider,
            )
        }),
        caps.rename_provider is None ==> !supports(Some(caps), Feature::Rename)
            && !prepares_rename(Some(caps)),
        caps.rename_provider == Some(RenameProvider::Simple(on)) ==> supports(
            Some(caps),
            Feature::Rename,
        ) == on && prepares_rename(Some(caps)) == on,
        caps.rename_provider == Some(RenameProvider::Options { prepare_provider: prepare })
            ==> supports(Some(caps), Feature::Rename) && prepares_rename(Some(caps)) == (prepare
            == Some(true)),
        !prepares_rename(None),
{
}

/// The last lines of a list are its end, in its order, and all of it where it has no more.
pub proof fn law_last_of<A>(list: Seq<A>, n: nat, i: int)
    ensures
        n >= list.len() ==> last_of(list, n) == list,
        n < list.len() ==> last_of(list, n).len() == n,
        n < list.len() && 0 <= i < n ==> last_of(list, n)[i] == list[list.len() - n + i],
{
}

/// A hover asks for the given position of the given document.
pub proof fn law_hover_request<T>(
    session: &mut LspClient<T>,
    uri: &str,
    pos: Position,
    waiter: T,
    out: Outgoing,
)
    requires
        call_ensures(LspClient::<T>::hover, (session, uri, pos, waiter), out),
    ensures
        is_request(
            out,
            old(session)@,
            "textDocument/hover"@,
            JsonTree::Object(
                map![
                    "textDocument"@ => JsonTree::Object(map!["uri"@ => JsonTree::Text(uri@)]),
                    "position"@ => JsonTree::Object(
                        map![
                            "line"@ => JsonTree::Int(pos.line as int),
                            "character"@ => JsonTree::Int(pos.character as int),
                        ],
                    ),
                ],
            ),
        ),
        final(session)@ == requested(old(session)@, waiter),
{
}

/// A definition is asked for at the given position of the given document.
pub proof fn law_definition_request<T>(
    session: &mut LspClient<T>,
    uri: &str,
    pos: Position,
    waiter: T,
    out: Outgoing,
)
    requires
        call_ensures(LspClient::<T>::definition, (session, uri, pos, waiter), out),
    ensures
        is_request(
            out,
            old(session)@,
            "textDocument/definition"@,
            JsonTree::Object(
                map![
                    "textDocument"@ => JsonTree::Object(map!["uri"@ => JsonTree::Text(uri@)]),
                    "position"@ => JsonTree::Object(
                        map![
                            "line"@ => JsonTree::Int(pos.line as int),
                            "character"@ => JsonTree::Int(pos.character as int),
                        ],
                    ),
                ],
            ),
        ),
        final(session)@ == requested(old(session)@, waiter),
{
}

/// References are asked for at the given position of the given document, with the declaration
/// or without.
pub proof fn law_references_request<T>(
    session: &mut LspClient<T>,
    uri: &str,
    pos: Position,
    include_declaration: bool,
    waiter: T,
    out: Outgoing,
)
    requires
        call_ensures(LspClient::<T>::references, (session, uri, pos, include_declaration, waiter), out),
    ensures
        is_request(
            out,
            old(session)@,
            "textDocument/references"@,
            JsonTree::Object(
                map![
                    "textDocument"@ => JsonTree::Object(map!["uri"@ => JsonTree::Text(uri@)]),
                    "position"@ => JsonTree::Object(
                        map![
                            "line"@ => JsonTree::Int(pos.line as int),
                            "character"@ => JsonTree::Int(pos.character as int),
                        ],
                    ),
                    "context"@ => JsonTree::Object(
                        map!["includeDeclaration"@ => JsonTree::Bool(include_declaration)],
                    ),
                ],
            ),
        ),
        final(session)@ == requested(old(session)@, waiter),
{
}

/// Completions are asked for at the given position of the given document.
pub proof fn law_completion_request<T>(
    session: &mut LspClient<T>,
    uri: &str,
    pos: Position,
    waiter: T,
    out: Outgoing,
)
    requires
        call_ensures(LspClient::<T>::completion, (session, uri, pos, waiter), out),
    ensures
        is_request(
            out,
            old(session)@,
            "textDocument/completion"@,
            JsonTree::Object(
                map![
                    "textDocument"@ => JsonTree::Object(map!["uri"@ => JsonTree::Text(uri@)]),
                    "position"@ => JsonTree::Object(
                        map![
                            "line"@ => JsonTree::Int(pos.line as int),
                            "character"@ => JsonTree::Int(pos.character as int),
                        ],
                    ),
                ],
            ),
        ),
        final(session)@ == requested(old(session)@, waiter),
{
}

/// The symbols of the given document are asked for.
pub proof fn law_document_symbols_request<T>(
    session: &mut LspClient<T>,
    uri: &str,
    waiter: T,
    out: Outgoing,
)
    requires
        call_ensures(LspClient::<T>::document_symbols, (session, uri, waiter), out),
    ensures
        is_request(
            out,
            old(session)@,
            "textDocument/documentSymbol"@,
            JsonTree::Object(
                map!["textDocument"@ => JsonTree::Object(map!["uri"@ => JsonTree::Text(uri@)])],
            ),
        ),
        final(session)@ == requested(old(session)@, waiter),
{
}

/// The symbols that match the given query are asked for.
pub proof fn law_workspace_symbols_request<T>(
    session: &mut LspClient<T>,
    query: &str,
    waiter: T,
    out: Outgoing,
)
    requires
        call_ensures(LspClient::<T>::workspace_symbols, (session, query, waiter), out),
    ensures
        is_request(
            out,
            old(session)@,
            "workspace/symbol"@,
            JsonTree::Object(map!["query"@ => JsonTree::Text(query@)]),
        ),
        final(session)@ == requested(old(session)@, waiter),
{
}

/// Whether the symbol at the given position can be renamed is asked.
pub proof fn law_prepare_rename_request<T>(
    session: &mut LspClient<T>,
    uri: &str,
    pos: Position,
    waiter: T,
    out: Outgoing,
)
    requires
        call_ensures(LspClient::<T>::prepare_rename, (session, uri, pos, waiter), out),
    ensures
        is_request(
            out,
            old(session)@,
            "textDocument/prepareRename"@,
            JsonTree::Object(
                map![
                    "textDocument"@ => JsonTree::Object(map!["uri"@ => JsonTree::Text(uri@)]),
                    "position"@ => JsonTree::Object(
                        map![
                            "line"@ => JsonTree::Int(pos.line as int),
                            "character"@ => JsonTree::Int(pos.character as int),
                        ],
                    ),
                ],
            ),
        ),
        final(session)@ == requested(old(session)@, waiter),
{
}

/// A rename is asked for at the given position, with the given new name.
pub proof fn law_rename_request<T>(
    session: &mut LspClient<T>,
    uri: &str,
    pos: Position,
    new_name: &str,
    waiter: T,
    out: Outgoing,
)
    requires
        call_ensures(LspClient::<T>::rename, (session, uri, pos, new_name, waiter), out),
    ensures
        is_request(
            out,
            old(session)@,
            "textDocument/rename"@,
            JsonTree::Object(
                map![
                    "textDocument"@ => JsonTree::Object(map!["uri"@ => JsonTree::Text(uri@)]),
                    "position"@ => JsonTree::Object(
                        map![
                            "line"@ => JsonTree::Int(pos.line as int),
                            "character"@ => JsonTree::Int(pos.character as int),
                        ],
                    ),
                    "newName"@ => JsonTree::Text(new_name@),
                ],
            ),
        ),
        final(session)@ == requested(old(session)@, waiter),
{
}

/// A server is asked to shut down without parameters.
pub proof fn law_shutdown_request<T>(
    session: &mut LspClient<T>,
    waiter: T,
    out: Outgoing,
)
    requires
        call_ensures(LspClient::<T>::shutdown, (session, waiter), out),
    ensures
        is_request(
            out,
            old(session)@,
            "shutdown"@,
            JsonTree::Null,
        ),
        final(session)@ == requested(old(session)@, waiter),
{
}

/// A server is initialized once: it is asked for its capabilities with the parameters of the
/// session where they are not known, and nothing is sent where they are.
pub proof fn law_initialization<T>(
    session: &mut LspClient<T>,
    process_id: u32,
    waiter: T,
    step: InitStep,
    caps: ServerCapabilities,
)
    requires
        call_ensures(LspClient::<T>::initialize, (session, process_id, waiter), step),
    ensures
        old(session)@.caps == Some(caps) ==> step == InitStep::Ready(caps) && final(session)@
            == old(session)@,
        old(session)@.caps is None ==> {
            &&& step is Request
            &&& is_request(
                step->Request_0,
                old(session)@,
                "initialize"@,
                initialize_params(old(session)@, process_id),
            )
            &&& final(session)@ == requested(old(session)@, waiter)
        },
{
}

/// What the server says of its features is noted, and it is told that it is initialized; a
/// response that cannot be read is refused, and changes nothing.
pub proof fn law_initialized<T>(
    session: &mut LspClient<T>,
    value: &Json,
    caps: ServerCapabilities,
    text: Seq<char>,
    done: Result<(ServerCapabilities, Vec<u8>), String>,
)
    requires
        call_ensures(LspClient::<T>::initialized, (session, value), done),
        old(session)@.caps is None,
    ensures
        reply::initialize_response(value@) == Ok::<_, Seq<char>>(caps) ==> {
            &&& done is Ok
            &&& done->Ok_0.0 == caps
            &&& done->Ok_0.1@ == notification_frame(
                "initialized"@,
                JsonTree::Object(Map::empty()),
            )
            &&& final(session)@.caps == Some(caps)
        },
        reply::initialize_response(value@) == Err::<ServerCapabilities, _>(text) ==> {
            &&& done is Err
            &&& done->Err_0@ == text
            &&& final(session)@ == old(session)@
        },
{
}

/// Giving up hands out everyone who waits, with one error for all of them.
pub proof fn law_giving_up<T>(
    session: &mut LspClient<T>,
    reason: &str,
    given: (HashMap<i64, T>, RpcError),
)
    requires
        call_ensures(LspClient::<T>::fail_all, (session, reason), given),
    ensures
        given.0@ == old(session)@.pending,
        given.1.code == -32000,
        given.1.message@ == reason@,
        given.1.data is None,
        final(session)@ == (ClientView { pending: Map::empty(), ..old(session)@ }),
{
}

/// A document is opened with the language of the session, in its first version; it is sent
/// anew only where it is open, under the version that follows its last one.
pub proof fn law_document_versions<T>(
    session: &mut LspClient<T>,
    opening: LspClient<T>,
    uri: &str,
    text: &str,
    opened: Vec<u8>,
    sent: Option<Vec<u8>>,
)
    requires
        call_ensures(LspClient::<T>::did_open, (&opening, uri, text), opened),
        call_ensures(LspClient::<T>::did_change, (session, uri, text), sent),
    ensures
        opened@ == notification_frame(
            "textDocument/didOpen"@,
            messages::did_open_tree(uri@, opening@.config.language_id@, 1, text@),
        ),
        !old(session)@.open_docs.contains_key(uri@) ==> sent is None && final(session)@ == old(
            session,
        )@,
        old(session)@.open_docs.contains_key(uri@) && old(session)@.open_docs[uri@] < i32::MAX
            ==> {
            let version: int = old(session)@.open_docs[uri@] + 1;
            &&& sent is Some
            &&& sent->Some_0@ == notification_frame(
                "textDocument/didChange"@,
                messages::did_change_tree(uri@, version, text@),
            )
            &&& final(session)@ == (ClientView {
                open_docs: old(session)@.open_docs.insert(uri@, version as i32),
                ..old(session)@
            })
        },
{
}

/// A document that has just been opened is noted in its first version.
pub proof fn law_opened_document<T>(session: &mut LspClient<T>, uri: &str, done: ())
    requires
        call_ensures(LspClient::<T>::mark_open, (session, uri), done),
    ensures
        final(session)@ == (ClientView {
            open_docs: old(session)@.open_docs.insert(uri@, 1),
            ..old(session)@
        }),
{
}

/// The diagnostics of a document are those published last for it, and none where none were.
pub proof fn law_stored_diagnostics<T>(session: LspClient<T>, uri: &str, list: Vec<Diagnostic>)
    requires
        call_ensures(LspClient::<T>::diagnostics, (&session, uri), list),
    ensures
        session@.diagnostics.contains_key(uri@) ==> types::views(list@)
            == session@.diagnostics[uri@],
        !session@.diagnostics.contains_key(uri@) ==> list@.len() == 0,
{
    if !session@.diagnostics.contains_key(uri@) {
        assert(types::views(list@).len() == 0);
    }
}

/// A line of the server's error stream is kept behind those before it, and the last lines are
/// handed out in their order.
pub proof fn law_error_stream<T>(
    session: &mut LspClient<T>,
    line: String,
    done: (),
    reader: LspClient<T>,
    n: usize,
    tail: Vec<String>,
)
    requires
        call_ensures(LspClient::<T>::log_line, (session, line), done),
        call_ensures(LspClient::<T>::stderr_tail, (&reader, n), tail),
    ensures
        final(session)@ == (ClientView { log: old(session)@.log.push(line@), ..old(session)@ }),
        n >= reader@.log.len() ==> strings::texts(tail@) == reader@.log,
        n < reader@.log.len() ==> strings::texts(tail@) == reader@.log.skip(
            reader@.log.len() - n,
        ),
{
}

/// Each gate asks for its own feature.
pub proof fn law_gates_of_a_session<T>(session: LspClient<T>, open: Seq<bool>)
    requires
        call_ensures(LspClient::<T>::supports_hover, (&session,), open[0]),
        call_ensures(LspClient::<T>::supports_definition, (&session,), open[1]),
        call_ensures(LspClient::<T>::supports_references, (&session,), open[2]),
        call_ensures(LspClient::<T>::supports_completion, (&session,), open[3]),
        call_ensures(LspClient::<T>::supports_document_symbol, (&session,), open[4]),
        call_ensures(LspClient::<T>::supports_workspace_symbol, (&session,), open[5]),
        call_ensures(LspClient::<T>::supports_rename, (&session,), open[6]),
        call_ensures(LspClient::<T>::supports_prepare_rename, (&session,), open[7]),
    ensures
        open[0] == supports(session@.caps, Feature::Hover),
        open[1] == supports(session@.caps, Feature::Definition),
        open[2] == supports(session@.caps, Feature::References),
        open[3] == supports(session@.caps, Feature::Completion),
        open[4] == supports(session@.caps, Feature::DocumentSymbol),
        open[5] == supports(session@.caps, Feature::WorkspaceSymbol),
        open[6] == supports(session@.caps, Feature::Rename),
        open[7] == prepares_rename(session@.caps),
{
}

/// A server is told to exit without parameters.
pub proof fn law_exit_frame<T>(session: LspClient<T>, frame: Vec<u8>)
    requires
        call_ensures(LspClient::<T>::exit, (&session,), frame),
    ensures
        frame@ == notification_frame("exit"@, JsonTree::Null),
{
}

/// What is to be done about a message is handed out as it is.
pub proof fn law_dispatched_view<T>(
    waiter: T,
    value: Json,
    error: RpcError,
    id: i64,
    frame: Vec<u8>,
)
    ensures
        (Dispatched::Deliver { waiter, response: Ok(value) })@ == (DispatchedView::Deliver {
            waiter,
            response: Ok(value@),
        }),
        (Dispatched::Deliver { waiter, response: Err(error) })@ == (DispatchedView::Deliver {
            waiter,
            response: Err(error@),
        }),
        (Dispatched::<T>::UnknownResponse { id })@ == (DispatchedView::<T>::UnknownResponse {
            id: id as int,
        }),
        Dispatched::<T>::Stored@ == DispatchedView::<T>::Stored,
        Dispatched::<T>::MalformedDiagnostics@ == DispatchedView::<T>::MalformedDiagnostics,
        Dispatched::<T>::Ignored@ == DispatchedView::<T>::Ignored,
        (Dispatched::<T>::Reply { frame })@ == (DispatchedView::<T>::Reply { frame: frame@ }),
{
}

/// A step, and an error of a request, hold what they are made of.
pub proof fn law_step_and_error_views(
    path: PathBuf,
    conv_error: ConvError,
    rpc_error: RpcError,
    method: String,
    seconds: u64,
)
    ensures
        DocumentStep::Skip@ == DocumentStepView::Skip,
        (DocumentStep::Read { path })@ == (DocumentStepView::Read {
            path: paths::path_bytes(path),
        }),
        DocumentStep::Failed(conv_error)@ == DocumentStepView::Failed(conv_error@),
        RequestError::Rpc(rpc_error)@ == RequestErrorView::Rpc(rpc_error@),
        (RequestError::Dropped { method })@ == (RequestErrorView::Dropped { method: method@ }),
        (RequestError::TimedOut { method, seconds })@ == (RequestErrorView::TimedOut {
            method: method@,
            seconds,
        }),
{
}

} // verus!
