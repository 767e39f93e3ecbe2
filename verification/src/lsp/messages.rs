//! The messages that a client sends, as JSON values.

use crate::json;
use crate::json::{Json, JsonTree};
use crate::lsp::transport;
use crate::lsp::transport::IncomingView;
use crate::lsp::types::Position;
use vstd::prelude::*;

verus! {

// ---- envelopes ----

/// The fields that every message begins with.
pub open spec fn envelope() -> JsonTree {
    JsonTree::object().with("jsonrpc"@, JsonTree::Text("2.0"@))
}

/// A request with an integer id.
pub open spec fn request_message(id: int, method: Seq<char>, params: JsonTree) -> JsonTree {
    envelope().with("id"@, JsonTree::Int(id)).with("method"@, JsonTree::Text(method)).with(
        "params"@,
        params,
    )
}

/// A notification.
pub open spec fn notification_message(method: Seq<char>, params: JsonTree) -> JsonTree {
    envelope().with("method"@, JsonTree::Text(method)).with("params"@, params)
}

/// The answer to a request that succeeded.
pub open spec fn result_message(id: JsonTree, result: JsonTree) -> JsonTree {
    envelope().with("id"@, id).with("result"@, result)
}

/// The answer to a request that failed.
pub open spec fn error_message(id: JsonTree, code: int, message: Seq<char>) -> JsonTree {
    envelope().with("id"@, id).with(
        "error"@,
        JsonTree::object().with("code"@, JsonTree::Int(code)).with(
            "message"@,
            JsonTree::Text(message),
        ),
    )
}

fn start() -> (r: Json)
    ensures
        r@ == envelope(),
{
    Json::object().with("jsonrpc", Json::Text("2.0".to_string()))
}

/// A request with an integer id.
pub fn request(id: i64, method: &str, params: Json) -> (r: Json)
    ensures
        r@ == request_message(id as int, method@, params@),
{
    start().with("id", Json::Int(id)).with("method", Json::Text(method.to_string())).with(
        "params",
        params,
    )
}

/// A notification.
pub fn notification(method: &str, params: Json) -> (r: Json)
    ensures
        r@ == notification_message(method@, params@),
{
    start().with("method", Json::Text(method.to_string())).with("params", params)
}

/// The answer to a request that succeeded.
pub fn result_reply(id: Json, result: Json) -> (r: Json)
    ensures
        r@ == result_message(id@, result@),
{
    start().with("id", id).with("result", result)
}

/// The answer to a request that failed.
pub fn error_reply(id: Json, code: i64, message: &str) -> (r: Json)
    ensures
        r@ == error_message(id@, code as int, message@),
{
    start().with("id", id).with(
        "error",
        Json::object().with("code", Json::Int(code)).with(
            "message",
            Json::Text(message.to_string()),
        ),
    )
}

// ---- parameters ----

/// A position in a document.
pub open spec fn position_tree(pos: Position) -> JsonTree {
    JsonTree::object().with("line"@, JsonTree::Int(pos.line as int)).with(
        "character"@,
        JsonTree::Int(pos.character as int),
    )
}

/// A document.
pub open spec fn document_tree(uri: Seq<char>) -> JsonTree {
    JsonTree::object().with("uri"@, JsonTree::Text(uri))
}

/// The parameters of a request about a document.
pub open spec fn document_params_tree(uri: Seq<char>) -> JsonTree {
    JsonTree::object().with("textDocument"@, document_tree(uri))
}

/// The parameters of a request about a position in a document.
pub open spec fn position_params_tree(uri: Seq<char>, pos: Position) -> JsonTree {
    document_params_tree(uri).with("position"@, position_tree(pos))
}

/// The parameters of `textDocument/references`.
pub open spec fn reference_params_tree(
    uri: Seq<char>,
    pos: Position,
    include_declaration: bool,
) -> JsonTree {
    position_params_tree(uri, pos).with(
        "context"@,
        JsonTree::object().with("includeDeclaration"@, JsonTree::Bool(include_declaration)),
    )
}

/// The parameters of `textDocument/rename`.
pub open spec fn rename_params_tree(uri: Seq<char>, pos: Position, new_name: Seq<char>) -> JsonTree {
    position_params_tree(uri, pos).with("newName"@, JsonTree::Text(new_name))
}

/// The parameters of `workspace/symbol`.
pub open spec fn query_params_tree(query: Seq<char>) -> JsonTree {
    JsonTree::object().with("query"@, JsonTree::Text(query))
}

/// The parameters of `textDocument/didOpen`.
pub open spec fn did_open_tree(
    uri: Seq<char>,
    language_id: Seq<char>,
    version: int,
    text: Seq<char>,
) -> JsonTree {
    JsonTree::object().with(
        "textDocument"@,
        document_tree(uri).with("languageId"@, JsonTree::Text(language_id)).with(
            "version"@,
            JsonTree::Int(version),
        ).with("text"@, JsonTree::Text(text)),
    )
}

/// The parameters of `textDocument/didChange` for a document that is sent as a whole.
pub open spec fn did_change_tree(uri: Seq<char>, version: int, text: Seq<char>) -> JsonTree {
    JsonTree::object().with(
        "textDocument"@,
        document_tree(uri).with("version"@, JsonTree::Int(version)),
    ).with(
        "contentChanges"@,
        JsonTree::Array(seq![JsonTree::object().with("text"@, JsonTree::Text(text))]),
    )
}

/// What the client can do: it answers requests for its configuration.
pub open spec fn client_capabilities_tree() -> JsonTree {
    JsonTree::object().with(
        "workspace"@,
        JsonTree::object().with("configuration"@, JsonTree::Bool(true)),
    ).with("textDocument"@, JsonTree::object())
}

/// The parameters of `initialize`, for the workspace folder `root` called `name`.
pub open spec fn initialize_params_tree(
    process_id: int,
    root: Seq<char>,
    name: Seq<char>,
    options: Option<JsonTree>,
) -> JsonTree {
    let params = JsonTree::object().with("processId"@, JsonTree::Int(process_id)).with(
        "rootUri"@,
        JsonTree::Text(root),
    ).with("capabilities"@, client_capabilities_tree()).with(
        "workspaceFolders"@,
        JsonTree::Array(seq![document_tree(root).with("name"@, JsonTree::Text(name))]),
    );
    match options {
        Some(options) => params.with("initializationOptions"@, options),
        None => params,
    }
}

fn position_json(pos: Position) -> (r: Json)
    ensures
        r@ == position_tree(pos),
{
    Json::object().with("line", Json::UInt(pos.line as u64)).with(
        "character",
        Json::UInt(pos.character as u64),
    )
}

fn document_json(uri: &str) -> (r: Json)
    ensures
        r@ == document_tree(uri@),
{
    Json::object().with("uri", Json::Text(uri.to_string()))
}

/// The parameters of a request about a document.
pub fn document_params(uri: &str) -> (r: Json)
    ensures
        r@ == document_params_tree(uri@),
{
    Json::object().with("textDocument", document_json(uri))
}

/// The parameters of a request about a position in a document.
pub fn pos_params(uri: &str, pos: Position) -> (r: Json)
    ensures
        r@ == position_params_tree(uri@, pos),
{
    document_params(uri).with("position", position_json(pos))
}

/// The parameters of `textDocument/references`.
pub fn reference_params(uri: &str, pos: Position, include_declaration: bool) -> (r: Json)
    ensures
        r@ == reference_params_tree(uri@, pos, include_declaration),
{
    pos_params(uri, pos).with(
        "context",
        Json::object().with("includeDeclaration", Json::Bool(include_declaration)),
    )
}

/// The parameters of `textDocument/rename`.
pub fn rename_params(uri: &str, pos: Position, new_name: &str) -> (r: Json)
    ensures
        r@ == rename_params_tree(uri@, pos, new_name@),
{
    pos_params(uri, pos).with("newName", Json::Text(new_name.to_string()))
}

/// The parameters of `workspace/symbol`.
pub fn query_params(query: &str) -> (r: Json)
    ensures
        r@ == query_params_tree(query@),
{
    Json::object().with("query", Json::Text(query.to_string()))
}

/// The parameters of `textDocument/didOpen`.
pub fn did_open_params(uri: &str, language_id: &str, version: i32, text: &str) -> (r: Json)
    ensures
        r@ == did_open_tree(uri@, language_id@, version as int, text@),
{
    Json::object().with(
        "textDocument",
        document_json(uri).with("languageId", Json::Text(language_id.to_string())).with(
            "version",
            Json::Int(version as i64),
        ).with("text", Json::Text(text.to_string())),
    )
}

/// The parameters of `textDocument/didChange` for a document that is sent as a whole.
pub fn did_change_params(uri: &str, version: i32, text: &str) -> (r: Json)
    ensures
        r@ == did_change_tree(uri@, version as int, text@),
{
    Json::object().with(
        "textDocument",
        document_json(uri).with("version", Json::Int(version as i64)),
    ).with(
        "contentChanges",
        Json::array_of_one(Json::object().with("text", Json::Text(text.to_string()))),
    )
}

/// What the client can do.
pub fn client_capabilities() -> (r: Json)
    ensures
        r@ == client_capabilities_tree(),
{
    Json::object().with(
        "workspace",
        Json::object().with("configuration", Json::Bool(true)),
    ).with("textDocument", Json::object())
}

/// The parameters of `initialize`.
pub fn initialize_params(process_id: u32, root: &str, name: &str, options: Option<Json>) -> (r: Json)
    ensures
        r@ == initialize_params_tree(
            process_id as int,
            root@,
            name@,
            transport::tree_of(options),
        ),
{
    let params = Json::object().with("processId", Json::UInt(process_id as u64)).with(
        "rootUri",
        Json::Text(root.to_string()),
    ).with("capabilities", client_capabilities()).with(
        "workspaceFolders",
        Json::array_of_one(document_json(root).with("name", Json::Text(name.to_string()))),
    );
    match options {
        Some(options) => params.with("initializationOptions", options),
        None => params,
    }
}

// ---- laws ----

/// The fields of messages differ.
pub proof fn lemma_field_names()
    ensures
        "jsonrpc"@ != "id"@,
        "jsonrpc"@ != "method"@,
        "jsonrpc"@ != "params"@,
        "jsonrpc"@ != "result"@,
        "jsonrpc"@ != "error"@,
        "id"@ != "method"@,
        "id"@ != "params"@,
        "id"@ != "result"@,
        "id"@ != "error"@,
        "method"@ != "params"@,
        "method"@ != "result"@,
        "method"@ != "error"@,
        "result"@ != "error"@,
        "code"@ != "message"@,
        "code"@ != "data"@,
        "message"@ != "data"@,
{
    reveal_strlit("jsonrpc");
    reveal_strlit("id");
    reveal_strlit("method");
    reveal_strlit("params");
    reveal_strlit("result");
    reveal_strlit("error");
    reveal_strlit("code");
    reveal_strlit("message");
    reveal_strlit("data");
    assert("jsonrpc"@[0] == 'j');
    assert("id"@[0] == 'i');
    assert("method"@[0] == 'm');
    assert("method"@[1] == 'e');
    assert("message"@[2] == 's');
    assert("params"@[0] == 'p');
    assert("result"@[0] == 'r');
    assert("error"@[0] == 'e');
    assert("code"@[0] == 'c');
    assert("data"@[0] == 'd');
    assert("message"@[0] == 'm');
}

/// A request is read as the request that it is.
pub proof fn law_request_is_read(id: int, method: Seq<char>, params: JsonTree)
    ensures
        transport::incoming_of(request_message(id, method, params)) == Ok::<
            IncomingView,
            transport::TransportErrorView,
        >(IncomingView::Request { id: JsonTree::Int(id), method, params }),
{
    lemma_field_names();
}

/// A notification is read as the notification that it is.
pub proof fn law_notification_is_read(method: Seq<char>, params: JsonTree)
    ensures
        transport::incoming_of(notification_message(method, params)) == Ok::<
            IncomingView,
            transport::TransportErrorView,
        >(IncomingView::Notification { method, params }),
{
    lemma_field_names();
}

/// An answer to a request of ours is read as that answer, under the request's id.
pub proof fn law_answer_is_read(id: i64, result: JsonTree, code: i64, message: Seq<char>)
    ensures
        transport::incoming_of(result_message(JsonTree::Int(id as int), result)) == Ok::<
            IncomingView,
            transport::TransportErrorView,
        >(IncomingView::Response { id: id as int, result: Some(result), error: None }),
        transport::incoming_of(error_message(JsonTree::Int(id as int), code as int, message))
            == Ok::<IncomingView, transport::TransportErrorView>(
            IncomingView::Response {
                id: id as int,
                result: None,
                error: Some(
                    transport::RpcErrorView { code: code as int, message, data: None },
                ),
            },
        ),
{
    lemma_field_names();
}

proof fn lemma_object_depth(depth: nat)
    ensures
        json::exact_within(JsonTree::object(), depth + 1),
{
}

/// A field is one level deeper than the object that gets it.
proof fn lemma_field_depth(tree: JsonTree, key: Seq<char>, value: JsonTree, depth: nat)
    requires
        tree is Object,
        json::exact_within(tree, depth + 1),
        json::exact_within(value, depth),
    ensures
        tree.with(key, value) is Object,
        json::exact_within(tree.with(key, value), depth + 1),
{
    let fields = tree->Object_0;
    let more = fields.insert(key, value);
    assert forall|k: Seq<char>| more.contains_key(k) implies json::exact_within(
        #[trigger] more[k],
        depth,
    ) by {
        if k != key {
            assert(more[k] == fields[k]);
        }
    }
}

/// A message is one level deeper than what it carries, so that a message whose parameters
/// or result the reader takes with a level to spare is read back as it was written.
pub proof fn law_message_depth(id: JsonTree, number: int, method: Seq<char>, carried: JsonTree, depth: nat)
    requires
        depth > 0,
        json::exact_within(carried, depth),
        json::exact_within(id, depth),
    ensures
        json::exact_within(request_message(number, method, carried), depth + 1),
        json::exact_within(notification_message(method, carried), depth + 1),
        json::exact_within(result_message(id, carried), depth + 1),
        json::exact_within(error_message(id, number, method), depth + 1),
{
    let inner = (depth - 1) as nat;
    let text = JsonTree::Text(method);
    lemma_object_depth(depth);
    lemma_object_depth(inner);
    lemma_field_depth(JsonTree::object(), "jsonrpc"@, JsonTree::Text("2.0"@), depth);
    let number = JsonTree::Int(number);
    let start = envelope();
    lemma_field_depth(start, "id"@, number, depth);
    lemma_field_depth(start.with("id"@, number), "method"@, text, depth);
    lemma_field_depth(
        start.with("id"@, number).with("method"@, text),
        "params"@,
        carried,
        depth,
    );
    lemma_field_depth(start, "method"@, text, depth);
    lemma_field_depth(start.with("method"@, text), "params"@, carried, depth);
    lemma_field_depth(start, "id"@, id, depth);
    lemma_field_depth(start.with("id"@, id), "result"@, carried, depth);
    lemma_field_depth(JsonTree::object(), "code"@, number, inner);
    lemma_field_depth(JsonTree::object().with("code"@, number), "message"@, text, inner);
    lemma_field_depth(
        start.with("id"@, id),
        "error"@,
        JsonTree::object().with("code"@, number).with("message"@, text),
        depth,
    );
}

/// A message says which version of the protocol it is in and has its own fields, and no others.
pub proof fn law_message_fields(
    number: int,
    id: JsonTree,
    method: Seq<char>,
    params: JsonTree,
    result: JsonTree,
    code: int,
    message: Seq<char>,
)
    ensures
        request_message(number, method, params) == JsonTree::Object(
            map![
                "jsonrpc"@ => JsonTree::Text("2.0"@),
                "id"@ => JsonTree::Int(number),
                "method"@ => JsonTree::Text(method),
                "params"@ => params,
            ],
        ),
        notification_message(method, params) == JsonTree::Object(
            map![
                "jsonrpc"@ => JsonTree::Text("2.0"@),
                "method"@ => JsonTree::Text(method),
                "params"@ => params,
            ],
        ),
        result_message(id, result) == JsonTree::Object(
            map![
                "jsonrpc"@ => JsonTree::Text("2.0"@),
                "id"@ => id,
                "result"@ => result,
            ],
        ),
        error_message(id, code, message) == JsonTree::Object(
            map![
                "jsonrpc"@ => JsonTree::Text("2.0"@),
                "id"@ => id,
                "error"@ => JsonTree::Object(
                    map![
                        "code"@ => JsonTree::Int(code),
                        "message"@ => JsonTree::Text(message),
                    ],
                ),
            ],
        ),
{
}

/// The parameters of a request name its document, its position and what else it asks with.
pub proof fn law_request_params(
    uri: Seq<char>,
    pos: Position,
    include_declaration: bool,
    new_name: Seq<char>,
    query: Seq<char>,
    document: JsonTree,
    position: JsonTree,
)
    requires
        document == JsonTree::Object(map!["uri"@ => JsonTree::Text(uri)]),
        position == JsonTree::Object(
            map![
                "line"@ => JsonTree::Int(pos.line as int),
                "character"@ => JsonTree::Int(pos.character as int),
            ],
        ),
    ensures
        document_params_tree(uri) == JsonTree::Object(map!["textDocument"@ => document]),
        position_params_tree(uri, pos) == JsonTree::Object(
            map!["textDocument"@ => document, "position"@ => position],
        ),
        reference_params_tree(uri, pos, include_declaration) == JsonTree::Object(
            map![
                "textDocument"@ => document,
                "position"@ => position,
                "context"@ => JsonTree::Object(
                    map!["includeDeclaration"@ => JsonTree::Bool(include_declaration)],
                ),
            ],
        ),
        rename_params_tree(uri, pos, new_name) == JsonTree::Object(
            map![
                "textDocument"@ => document,
                "position"@ => position,
                "newName"@ => JsonTree::Text(new_name),
            ],
        ),
        query_params_tree(query) == JsonTree::Object(map!["query"@ => JsonTree::Text(query)]),
{
}

/// A document is opened with its language, its version and its text, and changed with its
/// version and its whole new text.
pub proof fn law_document_notifications(
    uri: Seq<char>,
    language_id: Seq<char>,
    version: int,
    text: Seq<char>,
)
    ensures
        did_open_tree(uri, language_id, version, text) == JsonTree::Object(
            map![
                "textDocument"@ => JsonTree::Object(
                    map![
                        "uri"@ => JsonTree::Text(uri),
                        "languageId"@ => JsonTree::Text(language_id),
                        "version"@ => JsonTree::Int(version),
                        "text"@ => JsonTree::Text(text),
                    ],
                ),
            ],
        ),
        did_change_tree(uri, version, text) == JsonTree::Object(
            map![
                "textDocument"@ => JsonTree::Object(
                    map![
                        "uri"@ => JsonTree::Text(uri),
                        "version"@ => JsonTree::Int(version),
                    ],
                ),
                "contentChanges"@ => JsonTree::Array(
                    seq![JsonTree::Object(map!["text"@ => JsonTree::Text(text)])],
                ),
            ],
        ),
{
}

/// A server is initialized with our process, the root, which is its one folder, what we can do,
/// and the configured options where there are some.
pub proof fn law_initialize_params(
    process_id: int,
    root: Seq<char>,
    name: Seq<char>,
    options: JsonTree,
    fields: Map<Seq<char>, JsonTree>,
)
    requires
        fields == map![
            "processId"@ => JsonTree::Int(process_id),
            "rootUri"@ => JsonTree::Text(root),
            "capabilities"@ => JsonTree::Object(
                map![
                    "workspace"@ => JsonTree::Object(
                        map!["configuration"@ => JsonTree::Bool(true)],
                    ),
                    "textDocument"@ => JsonTree::Object(Map::empty()),
                ],
            ),
            "workspaceFolders"@ => JsonTree::Array(
                seq![
                    JsonTree::Object(
                        map![
                            "uri"@ => JsonTree::Text(root),
                            "name"@ => JsonTree::Text(name),
                        ],
                    ),
                ],
            ),
        ],
    ensures
        initialize_params_tree(process_id, root, name, None) == JsonTree::Object(fields),
        initialize_params_tree(process_id, root, name, Some(options)) == JsonTree::Object(
            fields.insert("initializationOptions"@, options),
        ),
{
}

} // verus!
