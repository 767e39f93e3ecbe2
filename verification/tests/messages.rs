use lspranto::json::Json;
use lspranto::lsp::messages::{
    client_capabilities, did_change_params, did_open_params, document_params, error_reply,
    initialize_params, notification, pos_params, query_params, reference_params, rename_params,
    request, result_reply,
};
use lspranto::lsp::types::Position;

const URI: &str = "file:///w/a.rs";
const POS: Position = Position { line: 3, character: 14 };

fn uri() -> lsp_types::Uri {
    URI.parse().unwrap()
}

fn place() -> lsp_types::TextDocumentPositionParams {
    lsp_types::TextDocumentPositionParams {
        text_document: lsp_types::TextDocumentIdentifier { uri: uri() },
        position: lsp_types::Position { line: 3, character: 14 },
    }
}

fn text(json: &Json) -> String {
    String::from_utf8(json.encode()).unwrap()
}

#[test]
fn envelopes_have_their_fields() {
    assert_eq!(
        text(&request(1, "m", Json::Null)),
        "{\"id\":1,\"jsonrpc\":\"2.0\",\"method\":\"m\",\"params\":null}",
    );
    assert_eq!(
        text(&notification("m", Json::object())),
        "{\"jsonrpc\":\"2.0\",\"method\":\"m\",\"params\":{}}",
    );
    assert_eq!(
        text(&result_reply(Json::Text("x".to_string()), Json::Null)),
        "{\"id\":\"x\",\"jsonrpc\":\"2.0\",\"result\":null}",
    );
    assert_eq!(
        text(&error_reply(Json::Null, -1, "no")),
        "{\"error\":{\"code\":-1,\"message\":\"no\"},\"id\":null,\"jsonrpc\":\"2.0\"}",
    );
}

#[test]
fn position_params_are_those_of_lsp_types() {
    let value = pos_params(URI, POS).to_value();
    assert_eq!(value, serde_json::to_value(place()).unwrap());
    let hover = lsp_types::HoverParams {
        text_document_position_params: place(),
        work_done_progress_params: Default::default(),
    };
    assert_eq!(value, serde_json::to_value(hover).unwrap());
    let completion = lsp_types::CompletionParams {
        text_document_position: place(),
        work_done_progress_params: Default::default(),
        partial_result_params: Default::default(),
        context: None,
    };
    assert_eq!(value, serde_json::to_value(completion).unwrap());
}

#[test]
fn reference_params_are_those_of_lsp_types() {
    for include_declaration in [true, false] {
        let params = lsp_types::ReferenceParams {
            text_document_position: place(),
            work_done_progress_params: Default::default(),
            partial_result_params: Default::default(),
            context: lsp_types::ReferenceContext { include_declaration },
        };
        assert_eq!(
            reference_params(URI, POS, include_declaration).to_value(),
            serde_json::to_value(params).unwrap(),
        );
    }
}

#[test]
fn rename_params_are_those_of_lsp_types() {
    let params = lsp_types::RenameParams {
        text_document_position: place(),
        new_name: "new".to_string(),
        work_done_progress_params: Default::default(),
    };
    assert_eq!(rename_params(URI, POS, "new").to_value(), serde_json::to_value(params).unwrap());
}

#[test]
fn symbol_params_are_those_of_lsp_types() {
    let document = lsp_types::DocumentSymbolParams {
        text_document: lsp_types::TextDocumentIdentifier { uri: uri() },
        work_done_progress_params: Default::default(),
        partial_result_params: Default::default(),
    };
    assert_eq!(document_params(URI).to_value(), serde_json::to_value(document).unwrap());
    let workspace = lsp_types::WorkspaceSymbolParams {
        query: "q".to_string(),
        work_done_progress_params: Default::default(),
        partial_result_params: Default::default(),
    };
    assert_eq!(query_params("q").to_value(), serde_json::to_value(workspace).unwrap());
}

#[test]
fn document_notifications_are_those_of_lsp_types() {
    let open = lsp_types::DidOpenTextDocumentParams {
        text_document: lsp_types::TextDocumentItem {
            uri: uri(),
            language_id: "rust".to_string(),
            version: 1,
            text: "fn\n".to_string(),
        },
    };
    assert_eq!(
        did_open_params(URI, "rust", 1, "fn\n").to_value(),
        serde_json::to_value(open).unwrap(),
    );
    let change = lsp_types::DidChangeTextDocumentParams {
        text_document: lsp_types::VersionedTextDocumentIdentifier { uri: uri(), version: 2 },
        content_changes: vec![lsp_types::TextDocumentContentChangeEvent {
            range: None,
            range_length: None,
            text: "new".to_string(),
        }],
    };
    assert_eq!(did_change_params(URI, 2, "new").to_value(), serde_json::to_value(change).unwrap());
}

#[test]
#[allow(deprecated)]
fn initialize_params_are_those_of_lsp_types() {
    let capabilities = lsp_types::ClientCapabilities {
        workspace: Some(lsp_types::WorkspaceClientCapabilities {
            configuration: Some(true),
            ..Default::default()
        }),
        text_document: Some(lsp_types::TextDocumentClientCapabilities::default()),
        ..Default::default()
    };
    assert_eq!(client_capabilities().to_value(), serde_json::to_value(&capabilities).unwrap());
    for options in [None, Some(Json::object().with("x", Json::Bool(true))), Some(Json::Null)] {
        let params = lsp_types::InitializeParams {
            process_id: Some(42),
            root_uri: Some(uri()),
            workspace_folders: Some(vec![lsp_types::WorkspaceFolder {
                uri: uri(),
                name: "a.rs".to_string(),
            }]),
            capabilities: capabilities.clone(),
            initialization_options: options.as_ref().map(|o| o.to_value()),
            ..Default::default()
        };
        assert_eq!(
            initialize_params(42, URI, "a.rs", options).to_value(),
            serde_json::to_value(params).unwrap(),
        );
    }
}
