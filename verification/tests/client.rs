use lspranto::config::ServerConfig;
use lspranto::json::Json;
use lspranto::lsp::client::{
    handle_server_request, reply_to_request, Dispatched, DocumentStep, InitStep, LspClient,
    Outgoing, RequestError, RequestEvent,
};
use lspranto::lsp::messages::{
    did_change_params, did_open_params, document_params, error_reply, initialize_params,
    notification, pos_params, query_params, reference_params, rename_params, request, result_reply,
};
use lspranto::lsp::reply::{PublishedDiagnostics, ServerCapabilities};
use lspranto::lsp::transport::{parse_incoming, write_message, Incoming, RpcError};
use lspranto::lsp::types::{Diagnostic, Position};
use std::collections::HashMap;
use std::path::PathBuf;
use std::time::Duration;

type Client = LspClient<&'static str>;

const URI: &str = "file:///w/a.rs";
const POS: Position = Position { line: 1, character: 2 };

fn config() -> ServerConfig {
    ServerConfig {
        language_id: "rust".to_string(),
        command: "rust-analyzer".to_string(),
        args: vec![],
        env: HashMap::new(),
        file_extensions: vec!["rs".to_string()],
        initialization_options: Some(Json::object().with("check", Json::Bool(false))),
        timeout_secs: Some(5),
    }
}

fn client() -> Client {
    match LspClient::spawn(config(), PathBuf::from("/w/project")) {
        Ok(client) => client,
        Err(error) => panic!("{error:?}"),
    }
}

fn json(text: &str) -> Json {
    Json::parse(text.as_bytes()).unwrap()
}

fn incoming(value: Json) -> Incoming {
    parse_incoming(value).unwrap()
}

fn is_request(out: &Outgoing, id: i64, method: &str, params: Json) {
    assert_eq!(out.id, id);
    assert_eq!(out.frame, write_message(&request(id, method, params)));
}

#[test]
fn a_session_begins_with_what_it_is_given() {
    let c = client();
    assert_eq!(c.root(), "file:///w/project");
    assert_eq!(c.root_path(), &PathBuf::from("/w/project"));
    assert_eq!(c.language_id(), "rust");
    assert_eq!(c.config().command, "rust-analyzer");
    assert_eq!(c.timeout(), Duration::from_secs(5));
    assert_eq!(c.capabilities(), None);
    let relative: Result<Client, _> = LspClient::spawn(config(), PathBuf::from("w"));
    assert_eq!(relative.err().unwrap().message(), "invalid file path w");
}

#[test]
fn requests_are_numbered_and_framed() {
    let mut c = client();
    is_request(&c.hover(URI, POS, "a"), 1, "textDocument/hover", pos_params(URI, POS));
    is_request(&c.definition(URI, POS, "a"), 2, "textDocument/definition", pos_params(URI, POS));
    is_request(
        &c.references(URI, POS, true, "a"),
        3,
        "textDocument/references",
        reference_params(URI, POS, true),
    );
    is_request(&c.completion(URI, POS, "a"), 4, "textDocument/completion", pos_params(URI, POS));
    is_request(&c.document_symbols(URI, "a"), 5, "textDocument/documentSymbol", document_params(URI));
    is_request(&c.workspace_symbols("q", "a"), 6, "workspace/symbol", query_params("q"));
    is_request(&c.prepare_rename(URI, POS, "a"), 7, "textDocument/prepareRename", pos_params(URI, POS));
    is_request(&c.rename(URI, POS, "n", "a"), 8, "textDocument/rename", rename_params(URI, POS, "n"));
    is_request(&c.shutdown("a"), 9, "shutdown", Json::Null);
    is_request(&c.request_raw("x/y", Json::Bool(true), "a"), 10, "x/y", Json::Bool(true));
    assert_eq!(c.exit(), write_message(&notification("exit", Json::Null)));
}

#[test]
fn answers_reach_who_waits() {
    let mut c = client();
    let first = c.hover(URI, POS, "first").id;
    let second = c.hover(URI, POS, "second").id;
    match c.dispatch(incoming(result_reply(Json::Int(second), Json::Bool(true)))) {
        Dispatched::Deliver { waiter, response } => {
            assert_eq!(waiter, "second");
            assert_eq!(response.unwrap(), Json::Bool(true));
        }
        _ => panic!("not delivered"),
    }
    match c.dispatch(incoming(result_reply(Json::Int(second), Json::Null))) {
        Dispatched::UnknownResponse { id } => assert_eq!(id, second),
        _ => panic!("delivered twice"),
    }
    match c.dispatch(incoming(error_reply(Json::Int(first), -1, "no"))) {
        Dispatched::Deliver { waiter, response } => {
            assert_eq!(waiter, "first");
            assert_eq!(response.unwrap_err().message, "no");
        }
        _ => panic!("not delivered"),
    }
}

#[test]
fn an_answer_without_a_result_is_null() {
    let mut c = client();
    let id = c.hover(URI, POS, "a").id;
    match c.dispatch(Incoming::Response { id, result: None, error: None }) {
        Dispatched::Deliver { response, .. } => assert_eq!(response.unwrap(), Json::Null),
        _ => panic!("not delivered"),
    }
    let id = c.hover(URI, POS, "a").id;
    let error = RpcError { code: 1, message: "no".to_string(), data: None };
    match c.dispatch(Incoming::Response { id, result: Some(Json::Null), error: Some(error) }) {
        Dispatched::Deliver { response, .. } => assert_eq!(response.unwrap_err().code, 1),
        _ => panic!("not delivered"),
    }
}

#[test]
fn requests_come_to_an_end() {
    let mut c = client();
    let id = c.hover(URI, POS, "a").id;
    let fine = c.conclude(id, "m", RequestEvent::Answered(Ok(Json::Int(3))));
    assert_eq!(fine.unwrap(), Json::Int(3));
    let error = RpcError { code: -32601, message: "gone".to_string(), data: None };
    let refused = c.conclude(id, "m", RequestEvent::Answered(Err(error))).unwrap_err();
    assert_eq!(refused.message(), "JSON-RPC error -32601: gone");
    let dropped = c.conclude(id, "m", RequestEvent::Dropped).unwrap_err();
    assert_eq!(dropped.message(), "request `m` dropped without a response");
    // The request still waits until it times out.
    let late = c.conclude(id, "m", RequestEvent::TimedOut).unwrap_err();
    assert_eq!(late.message(), "request `m` timed out after 5s");
    assert!(matches!(
        c.dispatch(incoming(result_reply(Json::Int(id), Json::Null))),
        Dispatched::UnknownResponse { .. }
    ));
}

#[test]
fn spans_are_shown_as_std_shows_them() {
    for seconds in [0u64, 1, 60, 3600, u64::MAX] {
        let error = RequestError::TimedOut { method: "m".to_string(), seconds };
        assert_eq!(
            error.message(),
            format!("request `m` timed out after {:?}", Duration::from_secs(seconds)),
        );
    }
}

#[test]
fn giving_up_answers_everyone() {
    let mut c = client();
    c.hover(URI, POS, "first");
    c.hover(URI, POS, "second");
    let (waiting, error) = c.fail_all("language server disconnected");
    let mut names: Vec<&str> = waiting.values().copied().collect();
    names.sort();
    assert_eq!(names, vec!["first", "second"]);
    assert_eq!((error.code, error.message.as_str(), error.data), (-32000, "language server disconnected", None));
    assert!(matches!(
        c.dispatch(incoming(result_reply(Json::Int(1), Json::Null))),
        Dispatched::UnknownResponse { id: 1 }
    ));
    assert!(c.fail_all("again").0.is_empty());
}

#[test]
fn a_server_is_initialized_once() {
    let mut c = client();
    match c.initialize(42, "init") {
        InitStep::Request(out) => is_request(
            &out,
            1,
            "initialize",
            initialize_params(
                42,
                "file:///w/project",
                "project",
                Some(Json::object().with("check", Json::Bool(false))),
            ),
        ),
        other => panic!("{other:?}"),
    }
    assert!(c.initialized(&Json::Null).is_err());
    assert_eq!(c.capabilities(), None);
    let (caps, frame) = c.initialized(&json("{\"capabilities\":{\"hoverProvider\":true}}")).unwrap();
    assert_eq!(frame, write_message(&notification("initialized", Json::object())));
    assert_eq!(c.capabilities(), Some(caps));
    // What was said first counts.
    let (again, _) = c.initialized(&json("{\"capabilities\":{}}")).unwrap();
    assert_eq!(again, caps);
    match c.initialize(42, "init") {
        InitStep::Ready(ready) => assert_eq!(ready, caps),
        other => panic!("{other:?}"),
    }
}

#[test]
fn a_root_without_a_name_is_a_workspace() {
    let mut c: Client = match LspClient::spawn(config(), PathBuf::from("/")) {
        Ok(client) => client,
        Err(error) => panic!("{error:?}"),
    };
    match c.initialize(1, "init") {
        InitStep::Request(out) => assert!(String::from_utf8(out.frame).unwrap().contains("\"name\":\"workspace\"")),
        other => panic!("{other:?}"),
    }
}

#[test]
fn features_are_gated() {
    let c = client();
    assert!(c.supports_hover() && c.supports_definition() && c.supports_references());
    assert!(c.supports_completion() && c.supports_document_symbol());
    assert!(c.supports_workspace_symbol() && c.supports_rename());
    assert!(!c.supports_prepare_rename());

    let with = |caps: &str| {
        let mut c = client();
        c.initialized(&json(&format!("{{\"capabilities\":{caps}}}"))).unwrap();
        c
    };
    let none = with("{}");
    assert!(!none.supports_hover() && !none.supports_definition() && !none.supports_references());
    assert!(!none.supports_completion() && !none.supports_document_symbol());
    assert!(!none.supports_workspace_symbol() && !none.supports_rename());
    assert!(!none.supports_prepare_rename());
    assert!(with("{\"hoverProvider\":true}").supports_hover());
    assert!(with("{\"definitionProvider\":true}").supports_definition());
    assert!(with("{\"referencesProvider\":true}").supports_references());
    assert!(with("{\"completionProvider\":{}}").supports_completion());
    assert!(with("{\"documentSymbolProvider\":true}").supports_document_symbol());
    assert!(with("{\"workspaceSymbolProvider\":true}").supports_workspace_symbol());
    assert!(with("{\"renameProvider\":true}").supports_rename());
    assert!(with("{\"hoverProvider\":{}}").supports_hover());
    assert!(with("{\"definitionProvider\":{}}").supports_definition());
    assert!(with("{\"renameProvider\":{}}").supports_rename());
    let none = with(
        "{\"hoverProvider\":false,\"definitionProvider\":false,\"referencesProvider\":false,\"documentSymbolProvider\":false,\"workspaceSymbolProvider\":false,\"renameProvider\":false}",
    );
    assert!(!none.supports_hover() && !none.supports_definition() && !none.supports_references());
    assert!(!none.supports_completion() && !none.supports_document_symbol());
    assert!(!none.supports_workspace_symbol() && !none.supports_rename());
    assert!(with("{\"renameProvider\":true}").supports_prepare_rename());
    assert!(!with("{\"renameProvider\":false}").supports_prepare_rename());
    assert!(!with("{\"renameProvider\":{}}").supports_prepare_rename());
    assert!(with("{\"renameProvider\":{\"prepareProvider\":true}}").supports_prepare_rename());
}

#[test]
fn the_latest_diagnostics_are_kept() {
    let mut c = client();
    let publish = |uri: &str, message: &str| {
        incoming(notification(
            "textDocument/publishDiagnostics",
            json(&format!(
                "{{\"uri\":\"{uri}\",\"diagnostics\":[{{\"range\":{{\"start\":{{\"line\":1,\"character\":2}},\"end\":{{\"line\":1,\"character\":3}}}},\"severity\":1,\"message\":\"{message}\"}}]}}"
            )),
        ))
    };
    assert!(c.diagnostics(URI).is_empty());
    assert!(matches!(c.dispatch(publish(URI, "old")), Dispatched::Stored));
    assert!(matches!(c.dispatch(publish("file:///w/b.rs", "other")), Dispatched::Stored));
    assert!(matches!(c.dispatch(publish(URI, "new")), Dispatched::Stored));
    assert!(matches!(
        c.dispatch(incoming(notification("textDocument/publishDiagnostics", Json::Null))),
        Dispatched::MalformedDiagnostics
    ));
    let list = c.diagnostics(URI);
    assert_eq!((list.len(), list[0].message.as_str()), (1, "new"));
    assert_eq!(list[0].severity.as_deref(), Some("Error"));
    assert_eq!(c.diagnostics("file:///w/b.rs")[0].message, "other");
    c.store_diagnostics(Some(PublishedDiagnostics { uri: URI.to_string(), diagnostics: vec![] }));
    assert!(c.diagnostics(URI).is_empty());
    let finding = Diagnostic { severity: None, start: POS, message: "x".to_string() };
    c.store_diagnostics(Some(PublishedDiagnostics { uri: URI.to_string(), diagnostics: vec![finding] }));
    c.store_diagnostics(None);
    assert_eq!(c.diagnostics(URI)[0].start, POS);
}

#[test]
fn other_notifications_are_ignored() {
    let mut c = client();
    assert!(matches!(
        c.dispatch(incoming(notification("window/logMessage", Json::Null))),
        Dispatched::Ignored
    ));
}

#[test]
fn requests_of_the_server_are_answered() {
    let text = |reply: Json| String::from_utf8(reply.encode()).unwrap();
    assert_eq!(
        text(reply_to_request(Json::Int(1), "workspace/configuration", Some(2))),
        "{\"id\":1,\"jsonrpc\":\"2.0\",\"result\":[null,null]}",
    );
    assert_eq!(
        text(reply_to_request(Json::Int(1), "workspace/configuration", None)),
        "{\"id\":1,\"jsonrpc\":\"2.0\",\"result\":[]}",
    );
    for method in ["client/registerCapability", "client/unregisterCapability", "window/workDoneProgress/create"] {
        assert_eq!(
            text(reply_to_request(Json::Text("x".to_string()), method, Some(2))),
            "{\"id\":\"x\",\"jsonrpc\":\"2.0\",\"result\":null}",
        );
    }
    assert_eq!(
        text(reply_to_request(Json::Null, "workspace/applyEdit", None)),
        "{\"error\":{\"code\":-32601,\"message\":\"lspranto does not handle server request `workspace/applyEdit`\"},\"id\":null,\"jsonrpc\":\"2.0\"}",
    );
    let params = json("{\"items\":[{},{},{}]}");
    assert_eq!(
        handle_server_request(Json::Int(9), "workspace/configuration", &params),
        write_message(&result_reply(Json::Int(9), Json::nulls(3))),
    );
    let mut c = client();
    match c.dispatch(incoming(request(9, "workspace/configuration", params))) {
        Dispatched::Reply { frame } => {
            assert_eq!(frame, write_message(&result_reply(Json::Int(9), Json::nulls(3))));
        }
        _ => panic!("no reply"),
    }
}

#[test]
fn documents_are_opened_once() {
    let mut c = client();
    match c.ensure_open(URI) {
        DocumentStep::Read { path } => assert_eq!(path, PathBuf::from("/w/a.rs")),
        other => panic!("{other:?}"),
    }
    assert!(matches!(c.sync_changed(URI), DocumentStep::Skip));
    assert!(c.did_change(URI, "x").is_none());
    assert_eq!(
        c.did_open(URI, "text"),
        write_message(&notification("textDocument/didOpen", did_open_params(URI, "rust", 1, "text"))),
    );
    c.mark_open(URI);
    assert!(matches!(c.ensure_open(URI), DocumentStep::Skip));
    assert!(matches!(c.ensure_open("file:///w/b.rs"), DocumentStep::Read { .. }));
    match c.ensure_open("untitled:x") {
        DocumentStep::Failed(error) => assert_eq!(error.message(), "not a file uri: untitled:x"),
        other => panic!("{other:?}"),
    }
}

#[test]
fn open_documents_are_sent_anew() {
    let mut c = client();
    c.mark_open(URI);
    assert!(matches!(c.sync_changed(URI), DocumentStep::Read { .. }));
    for version in [2, 3] {
        assert_eq!(
            c.did_change(URI, "new").unwrap(),
            write_message(&notification(
                "textDocument/didChange",
                did_change_params(URI, version, "new"),
            )),
        );
    }
}

#[test]
fn the_last_lines_of_the_log_are_shown() {
    let mut c = client();
    assert!(c.stderr_tail(3).is_empty());
    for i in 0..5 {
        c.log_line(format!("line {i}"));
    }
    assert_eq!(c.stderr_tail(2), vec!["line 3".to_string(), "line 4".to_string()]);
    assert_eq!(c.stderr_tail(9).len(), 5);
    assert!(c.stderr_tail(0).is_empty());
}

#[test]
fn capabilities_are_recorded_once() {
    let caps = |hover| ServerCapabilities {
        hover_provider: hover,
        definition_provider: None,
        references_provider: None,
        completion_provider: None,
        document_symbol_provider: None,
        workspace_symbol_provider: None,
        rename_provider: None,
    };
    let mut c = client();
    assert_eq!(c.record_capabilities(caps(None)), caps(None));
    assert_eq!(c.record_capabilities(caps(Some(lspranto::lsp::reply::Provider::Options))), caps(None));
    assert!(!c.supports_hover());
}
