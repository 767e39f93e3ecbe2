use lspranto::config::ServerConfig;
use lspranto::json::Json;
use lspranto::lsp::client::{LspClient, Outgoing};
use lspranto::lsp::edit::{AppliedChange, AppliedKind, DiskAction, DiskReply, EditError};
use lspranto::lsp::messages::{
    document_params, pos_params, query_params, reference_params, rename_params, request,
};
use lspranto::lsp::transport::write_message;
use lspranto::lsp::types::{Diagnostic, Position};
use lspranto::mcp::server::{
    activate_reply, applied_reply, apply_failed_reply, changed_uris, completion_reply,
    deactivate_reply, definition_reply, diagnostics_reply, hover_reply, list_reply, logs_reply,
    lsp_completion, lsp_document_symbols, lsp_find_references, lsp_goto_definition, lsp_hover,
    lsp_raw_request, lsp_rename_symbol, lsp_workspace_symbols, raw_reply, references_reply,
    rename_plan, symbols_reply, workspace_symbols_reply, FileParam, PositionParam, RawRequestParam,
    ReferencesParam, RenameParam, RenamePlan, ServerLogsParam, ToolReply, ToolStep,
    WorkspacePathParam, WorkspaceSymbolParam,
};
use std::collections::HashMap;
use std::path::PathBuf;

const URI: &str = "file:///w/a.rs";
const POS: Position = Position { line: 1, character: 2 };

fn client(caps: Option<&str>) -> LspClient<()> {
    let config = ServerConfig {
        language_id: "rust".to_string(),
        command: "ra".to_string(),
        args: vec![],
        env: HashMap::new(),
        file_extensions: vec![],
        initialization_options: None,
        timeout_secs: None,
    };
    let mut client = match LspClient::spawn(config, PathBuf::from("/w")) {
        Ok(client) => client,
        Err(error) => panic!("{error:?}"),
    };
    if let Some(caps) = caps {
        client.initialized(&json(&format!("{{\"capabilities\":{caps}}}"))).unwrap();
    }
    client
}

fn json(text: &str) -> Json {
    Json::parse(text.as_bytes()).unwrap()
}

fn good(reply: ToolReply) -> String {
    match reply {
        ToolReply::Success(text) => text,
        ToolReply::Failure(text) => panic!("{text}"),
    }
}

fn bad(reply: ToolReply) -> String {
    match reply {
        ToolReply::Failure(text) => text,
        ToolReply::Success(text) => panic!("{text}"),
    }
}

fn refused(step: ToolStep) -> String {
    match step {
        ToolStep::Reply(reply) => bad(reply),
        ToolStep::Send(_) => panic!("sent"),
    }
}

fn sent(step: ToolStep) -> Outgoing {
    match step {
        ToolStep::Send(out) => out,
        ToolStep::Reply(reply) => panic!("{reply:?}"),
    }
}

fn is_request(out: &Outgoing, method: &str, params: Json) {
    assert_eq!(out.frame, write_message(&request(out.id, method, params)));
}

fn at() -> PositionParam {
    PositionParam { file_path: "/w/a.rs".to_string(), line: 1, character: 2 }
}

fn references(include_declaration: Option<bool>) -> ReferencesParam {
    ReferencesParam { file_path: "/w/a.rs".to_string(), line: 1, character: 2, include_declaration }
}

fn renaming(apply: Option<bool>) -> RenameParam {
    RenameParam {
        file_path: "/w/a.rs".to_string(),
        line: 1,
        character: 2,
        new_name: "new".to_string(),
        apply,
    }
}

fn query() -> WorkspaceSymbolParam {
    WorkspaceSymbolParam { file_path: "/w/a.rs".to_string(), query: "q".to_string() }
}

fn raw(params: Option<Json>) -> RawRequestParam {
    RawRequestParam { file_path: "/w/a.rs".to_string(), method: "x/y".to_string(), params }
}

#[test]
fn workspaces_are_reported() {
    let param = WorkspacePathParam { workspace_path: "/w".to_string() };
    assert_eq!(good(activate_reply(Ok(PathBuf::from(param.workspace_path)))), "activated: /w");
    assert_eq!(bad(activate_reply(Err("no such file".to_string()))), "activate failed: no such file");
    assert_eq!(good(list_reply(&vec![])), "No active workspaces.");
    assert_eq!(good(list_reply(&vec![PathBuf::from("/w"), PathBuf::from("/x")])), "- /w\n- /x");
    assert_eq!(good(deactivate_reply(Ok(true))), "deactivated.");
    assert_eq!(bad(deactivate_reply(Ok(false))), "workspace was not active.");
    assert_eq!(bad(deactivate_reply(Err("x".to_string()))), "deactivate failed: x");
}

#[test]
fn logs_are_reported() {
    let param = |lines| ServerLogsParam { workspace_path: "/w".to_string(), lines };
    assert_eq!(param(None).line_count(), 100);
    assert_eq!(param(Some(3)).line_count(), 3);
    assert_eq!(good(logs_reply(&vec![])), "No language servers running.");
    let logs = vec![
        ("rust".to_string(), vec!["a".to_string(), "b".to_string()]),
        ("python".to_string(), vec![]),
    ];
    assert_eq!(good(logs_reply(&logs)), "[rust]\na\nb\n\n[python]\n");
}

#[test]
fn tools_send_their_requests() {
    let mut c = client(None);
    is_request(&sent(lsp_hover(&mut c, URI, &at(), ())), "textDocument/hover", pos_params(URI, POS));
    is_request(
        &sent(lsp_goto_definition(&mut c, URI, &at(), ())),
        "textDocument/definition",
        pos_params(URI, POS),
    );
    for (given, includes) in [(None, true), (Some(true), true), (Some(false), false)] {
        is_request(
            &sent(lsp_find_references(&mut c, URI, &references(given), ())),
            "textDocument/references",
            reference_params(URI, POS, includes),
        );
    }
    is_request(
        &sent(lsp_completion(&mut c, URI, &at(), ())),
        "textDocument/completion",
        pos_params(URI, POS),
    );
    let file = FileParam { file_path: "/w/a.rs".to_string() };
    assert_eq!(file.file_path, "/w/a.rs");
    is_request(
        &sent(lsp_document_symbols(&mut c, URI, ())),
        "textDocument/documentSymbol",
        document_params(URI),
    );
    is_request(&sent(lsp_workspace_symbols(&mut c, &query(), ())), "workspace/symbol", query_params("q"));
    is_request(
        &sent(lsp_rename_symbol(&mut c, URI, &renaming(None), ())),
        "textDocument/rename",
        rename_params(URI, POS, "new"),
    );
    is_request(&lsp_raw_request(&mut c, &raw(None), ()), "x/y", Json::Null);
    is_request(&lsp_raw_request(&mut c, &raw(Some(Json::Int(1))), ()), "x/y", Json::Int(1));
}

#[test]
fn missing_features_are_refused_and_nothing_is_sent() {
    let mut c = client(Some("{}"));
    assert_eq!(refused(lsp_hover(&mut c, URI, &at(), ())), "server does not support hover");
    assert_eq!(
        refused(lsp_goto_definition(&mut c, URI, &at(), ())),
        "server does not support goto definition",
    );
    assert_eq!(
        refused(lsp_find_references(&mut c, URI, &references(None), ())),
        "server does not support references",
    );
    assert_eq!(refused(lsp_completion(&mut c, URI, &at(), ())), "server does not support completion");
    assert_eq!(
        refused(lsp_document_symbols(&mut c, URI, ())),
        "server does not support document symbols",
    );
    assert_eq!(
        refused(lsp_workspace_symbols(&mut c, &query(), ())),
        "server does not support workspace symbols",
    );
    assert_eq!(
        refused(lsp_rename_symbol(&mut c, URI, &renaming(None), ())),
        "server does not support rename",
    );
    assert_eq!(lsp_raw_request(&mut c, &raw(None), ()).id, 1);
}

#[test]
fn tools_answer_with_the_result() {
    let failed = || Err("gone".to_string());
    assert_eq!(good(hover_reply(Ok(json("{\"contents\":\"x\"}")))), "x");
    assert_eq!(good(hover_reply(Ok(Json::Null))), "No hover information.");
    assert_eq!(bad(hover_reply(failed())), "hover failed: gone");
    assert!(bad(hover_reply(Ok(Json::Int(1)))).starts_with("hover failed: "));
    assert_eq!(good(definition_reply(Ok(Json::Null))), "No definition found.");
    assert_eq!(bad(definition_reply(failed())), "definition failed: gone");
    assert_eq!(good(references_reply(Ok(Json::Null))), "No references found.");
    assert_eq!(bad(references_reply(failed())), "references failed: gone");
    assert_eq!(good(completion_reply(Ok(Json::Null))), "No completions.");
    assert_eq!(bad(completion_reply(failed())), "completion failed: gone");
    assert_eq!(good(symbols_reply(Ok(Json::Null))), "No document symbols.");
    assert_eq!(bad(symbols_reply(failed())), "document symbols failed: gone");
    assert_eq!(good(workspace_symbols_reply(Ok(json("[{\"name\":\"S\"}]")))), "- S ?:?");
    assert_eq!(bad(workspace_symbols_reply(failed())), "workspace symbols failed: gone");
    assert_eq!(good(raw_reply(&raw(None), Ok(json("{\"a\":1}")))), "{\n  \"a\": 1\n}");
    assert_eq!(bad(raw_reply(&raw(None), failed())), "x/y failed: gone");
    let finding = Diagnostic {
        severity: Some("Hint".to_string()),
        start: POS,
        message: "m".to_string(),
    };
    assert_eq!(good(diagnostics_reply(&vec![finding])), "- hint at 1:2: m");
}

const EDIT: &str = "{\"changes\":{\"file:///w/a.rs\":[{\"range\":{\"start\":{\"line\":0,\"character\":0},\"end\":{\"line\":0,\"character\":3}},\"newText\":\"new\"}]}}";

#[test]
fn a_rename_is_only_shown_by_default() {
    for apply in [None, Some(false)] {
        match rename_plan(&renaming(apply), Ok(json(EDIT))) {
            RenamePlan::Reply(reply) => {
                assert_eq!(good(reply), "/w/a.rs:\n  0:0-0:3 -> \"new\"\n");
            }
            RenamePlan::Apply { .. } => panic!("applied"),
        }
    }
    let replied = |result| match rename_plan(&renaming(Some(true)), result) {
        RenamePlan::Reply(reply) => bad(reply),
        RenamePlan::Apply { .. } => panic!("applied"),
    };
    assert_eq!(replied(Ok(Json::Null)), "no rename edits produced");
    assert_eq!(replied(Err("gone".to_string())), "rename failed: gone");
    assert!(replied(Ok(Json::Int(1))).starts_with("rename failed: "));
}

#[test]
fn a_rename_shows_document_changes() {
    let changes = "{\"documentChanges\":[{\"kind\":\"create\",\"uri\":\"file:///w/n\"}]}";
    match rename_plan(&renaming(None), Ok(json(changes))) {
        RenamePlan::Reply(reply) => assert_eq!(
            good(reply),
            "[\n  {\n    \"kind\": \"create\",\n    \"uri\": \"file:///w/n\"\n  }\n]",
        ),
        RenamePlan::Apply { .. } => panic!("applied"),
    }
}

#[test]
fn a_rename_is_applied_when_told_to() {
    match rename_plan(&renaming(Some(true)), Ok(json(EDIT))) {
        RenamePlan::Apply { mut run, action, shown } => {
            assert!(matches!(action, DiskAction::Read { path } if path == PathBuf::from("/w/a.rs")));
            match run.resume(DiskReply::Text("old text".to_string())) {
                DiskAction::Write { path, text } => {
                    assert_eq!((path.to_str().unwrap(), text.as_str()), ("/w/a.rs", "new text"));
                }
                other => panic!("{other:?}"),
            }
            assert!(matches!(run.resume(DiskReply::Done), DiskAction::Finish));
            assert_eq!(changed_uris(run.applied()), vec![URI.to_string()]);
            assert_eq!(
                good(applied_reply(run.applied(), &shown)),
                "Applied rename to 1 file(s) (/w/a.rs).\n\nProposed edits were:\n/w/a.rs:\n  0:0-0:3 -> \"new\"\n",
            );
        }
        RenamePlan::Reply(reply) => panic!("{reply:?}"),
    }
}

#[test]
fn changes_are_reported() {
    let change = |path: &str| AppliedChange { path: PathBuf::from(path), kind: AppliedKind::Modified };
    let applied = vec![change("/a"), change("relative"), change("/b c")];
    assert_eq!(
        good(applied_reply(&applied, "x")),
        "Applied rename to 3 file(s) (/a, relative, /b c).\n\nProposed edits were:\nx",
    );
    assert_eq!(changed_uris(&applied), vec!["file:///a".to_string(), "file:///b%20c".to_string()]);
    let error = EditError::AlreadyExists { path: PathBuf::from("/a") };
    assert_eq!(
        bad(apply_failed_reply(&error)),
        "applying rename edits failed: file /a already exists; set overwrite to replace",
    );
}
