use lspranto::json::Json;
use lspranto::lsp::reply::{
    decode_capabilities, decode_completion, decode_configuration, decode_definition,
    decode_diagnostics, decode_edit, decode_hover, decode_references, decode_symbols, Provider,
    RenameProvider,
};
use lspranto::lsp::types::{
    ChangeOperation, OrderedChanges, DocumentSymbolResponse, GotoDefinitionResponse, Hover,
    MarkedString, OneOf, Position, FileOperation,
};

fn json(text: &str) -> Json {
    Json::parse(text.as_bytes()).unwrap()
}

const RANGE: &str = "{\"start\":{\"line\":1,\"character\":2},\"end\":{\"line\":3,\"character\":4}}";

fn with_range(text: &str) -> Json {
    json(&text.replace("RANGE", RANGE))
}

#[test]
fn hovers_are_decoded() {
    assert!(decode_hover(&Json::Null).unwrap().is_none());
    match decode_hover(&json("{\"contents\":\"x\"}")).unwrap() {
        Some(Hover::Scalar(MarkedString::Plain(s))) => assert_eq!(s, "x"),
        other => panic!("{other:?}"),
    }
    match decode_hover(&json("{\"contents\":[\"x\",{\"language\":\"rust\",\"value\":\"fn\"}]}")).unwrap() {
        Some(Hover::Array(list)) => {
            assert_eq!(list.len(), 2);
            match &list[1] {
                MarkedString::LanguageString { language, value } => {
                    assert_eq!((language.as_str(), value.as_str()), ("rust", "fn"));
                }
                other => panic!("{other:?}"),
            }
        }
        other => panic!("{other:?}"),
    }
    match decode_hover(&json("{\"contents\":{\"kind\":\"markdown\",\"value\":\"# x\"}}")).unwrap() {
        Some(Hover::Markup(value)) => assert_eq!(value, "# x"),
        other => panic!("{other:?}"),
    }
    let expected = serde_json::from_str::<Option<lsp_types::Hover>>("{}").unwrap_err().to_string();
    let error = decode_hover(&json("{}")).unwrap_err();
    assert!(expected.starts_with(&error), "{error}");
}

#[test]
fn definitions_are_decoded() {
    assert!(decode_definition(&Json::Null).unwrap().is_none());
    match decode_definition(&with_range("{\"uri\":\"file:///a\",\"range\":RANGE}")).unwrap() {
        Some(GotoDefinitionResponse::Scalar(l)) => {
            assert_eq!(l.uri, "file:///a");
            assert_eq!(l.start, Position { line: 1, character: 2 });
        }
        other => panic!("{other:?}"),
    }
    match decode_definition(&with_range("[{\"uri\":\"file:///a\",\"range\":RANGE}]")).unwrap() {
        Some(GotoDefinitionResponse::Array(list)) => assert_eq!(list.len(), 1),
        other => panic!("{other:?}"),
    }
    let link = "[{\"targetUri\":\"file:///b\",\"targetRange\":RANGE,\"targetSelectionRange\":RANGE}]";
    match decode_definition(&with_range(link)).unwrap() {
        Some(GotoDefinitionResponse::Link(list)) => {
            assert_eq!(list[0].uri, "file:///b");
            assert_eq!(list[0].start, Position { line: 1, character: 2 });
        }
        other => panic!("{other:?}"),
    }
    assert!(decode_definition(&json("3")).is_err());
}

#[test]
fn references_are_decoded() {
    assert!(decode_references(&Json::Null).unwrap().is_none());
    let list = decode_references(&with_range("[{\"uri\":\"file:///a\",\"range\":RANGE}]")).unwrap().unwrap();
    assert_eq!((list.len(), list[0].uri.as_str()), (1, "file:///a"));
    assert!(decode_references(&json("[{}]")).is_err());
}

#[test]
fn completions_are_decoded() {
    assert!(decode_completion(&Json::Null).unwrap().is_none());
    let items = decode_completion(&json("[{\"label\":\"x\",\"kind\":3},{\"label\":\"y\"},{\"label\":\"z\",\"kind\":99}]"))
        .unwrap()
        .unwrap();
    let seen: Vec<(&str, Option<&str>)> =
        items.iter().map(|i| (i.label.as_str(), i.kind.as_deref())).collect();
    assert_eq!(
        seen,
        vec![("x", Some("Function")), ("y", None), ("z", Some("CompletionItemKind(99)"))],
    );
    let list = decode_completion(&json("{\"isIncomplete\":true,\"items\":[{\"label\":\"x\"}]}")).unwrap().unwrap();
    assert_eq!(list.len(), 1);
    assert!(decode_completion(&json("[1]")).is_err());
}

#[test]
fn symbols_are_decoded() {
    assert!(decode_symbols(&Json::Null).unwrap().is_none());
    let nested = "[{\"name\":\"S\",\"kind\":23,\"range\":RANGE,\"selectionRange\":RANGE,\"children\":[{\"name\":\"f\",\"kind\":8,\"range\":RANGE,\"selectionRange\":RANGE}]}]";
    match decode_symbols(&with_range(nested)).unwrap() {
        Some(DocumentSymbolResponse::Nested(list)) => {
            assert_eq!((list[0].name.as_str(), list[0].kind.as_str()), ("S", "Struct"));
            let children = list[0].children.as_ref().unwrap();
            assert_eq!((children[0].name.as_str(), children[0].kind.as_str()), ("f", "Field"));
            assert!(children[0].children.is_none());
            assert_eq!(children[0].start, Position { line: 1, character: 2 });
        }
        other => panic!("{other:?}"),
    }
    let flat = "[{\"name\":\"S\",\"kind\":5,\"location\":{\"uri\":\"file:///a\",\"range\":RANGE}}]";
    match decode_symbols(&with_range(flat)).unwrap() {
        Some(DocumentSymbolResponse::Flat(list)) => {
            assert_eq!((list[0].name.as_str(), list[0].kind.as_str()), ("S", "Class"));
            assert_eq!(list[0].place.uri, "file:///a");
        }
        other => panic!("{other:?}"),
    }
    assert!(decode_symbols(&json("{}")).is_err());
}

#[test]
fn published_diagnostics_are_decoded() {
    let params = "{\"uri\":\"file:///a\",\"diagnostics\":[{\"range\":RANGE,\"severity\":2,\"message\":\"m\"},{\"range\":RANGE,\"message\":\"n\"}]}";
    let published = decode_diagnostics(&with_range(params)).unwrap();
    assert_eq!(published.uri, "file:///a");
    assert_eq!(published.diagnostics[0].severity.as_deref(), Some("Warning"));
    assert_eq!(published.diagnostics[0].message, "m");
    assert_eq!(published.diagnostics[0].start, Position { line: 1, character: 2 });
    assert_eq!(published.diagnostics[1].severity, None);
    assert!(decode_diagnostics(&json("{\"uri\":\"file:///a\"}")).is_none());
    assert!(decode_diagnostics(&json("{\"uri\":\"a b\",\"diagnostics\":[]}")).is_none());
}

#[test]
fn configuration_items_are_counted() {
    assert_eq!(decode_configuration(&json("{\"items\":[{},{\"section\":\"x\"}]}")), Some(2));
    assert_eq!(decode_configuration(&json("{\"items\":[]}")), Some(0));
    assert_eq!(decode_configuration(&json("{}")), None);
}

#[test]
fn capabilities_are_decoded() {
    let caps = decode_capabilities(&json(
        "{\"capabilities\":{\"hoverProvider\":false,\"definitionProvider\":{},\"renameProvider\":{\"prepareProvider\":true}}}",
    ))
    .unwrap();
    assert_eq!(caps.hover_provider, Some(Provider::Simple(false)));
    assert_eq!(caps.definition_provider, Some(Provider::Options));
    assert_eq!(caps.references_provider, None);
    assert_eq!(caps.completion_provider, None);
    assert_eq!(caps.document_symbol_provider, None);
    assert_eq!(caps.workspace_symbol_provider, None);
    assert_eq!(caps.rename_provider, Some(RenameProvider::Options { prepare_provider: Some(true) }));
    let all = decode_capabilities(&json(
        "{\"capabilities\":{\"referencesProvider\":true,\"completionProvider\":{},\"documentSymbolProvider\":true,\"workspaceSymbolProvider\":true,\"renameProvider\":true}}",
    ))
    .unwrap();
    assert_eq!(all.hover_provider, None);
    assert_eq!(all.references_provider, Some(Provider::Simple(true)));
    assert_eq!(all.completion_provider, Some(Provider::Options));
    assert_eq!(all.document_symbol_provider, Some(Provider::Simple(true)));
    assert_eq!(all.workspace_symbol_provider, Some(Provider::Simple(true)));
    assert_eq!(all.rename_provider, Some(RenameProvider::Simple(true)));
    assert!(decode_capabilities(&json("{}")).unwrap_err().contains("capabilities"));
}

#[test]
fn workspace_edits_are_decoded() {
    assert!(decode_edit(&Json::Null).unwrap().is_none());
    let legacy = "{\"changes\":{\"file:///a\":[{\"range\":RANGE,\"newText\":\"x\"}],\"file:///b\":[]}}";
    let proposed = decode_edit(&with_range(legacy)).unwrap().unwrap();
    let mut changes = proposed.edit.changes.unwrap();
    changes.sort_by(|a, b| a.0.cmp(&b.0));
    assert_eq!((changes.len(), changes[0].0.as_str(), changes[1].0.as_str()), (2, "file:///a", "file:///b"));
    assert_eq!(changes[0].1[0].new_text, "x");
    assert_eq!(changes[0].1[0].range.end, Position { line: 3, character: 4 });
    assert!(proposed.edit.document_changes.is_none());
    assert!(proposed.document_changes.is_none());
    assert!(decode_edit(&json("{\"changes\":3}")).is_err());
}

#[test]
fn document_changes_are_decoded_and_printed() {
    let edits = "{\"documentChanges\":[{\"textDocument\":{\"uri\":\"file:///a\",\"version\":null},\"edits\":[{\"range\":RANGE,\"newText\":\"x\"},{\"range\":RANGE,\"newText\":\"y\",\"annotationId\":\"n\"}]}]}";
    let proposed = decode_edit(&with_range(edits)).unwrap().unwrap();
    match proposed.edit.document_changes.unwrap() {
        OrderedChanges::Edits(list) => {
            assert_eq!(list[0].uri, "file:///a");
            assert!(matches!(&list[0].edits[0], OneOf::Left(e) if e.new_text == "x"));
        }
        other => panic!("{other:?}"),
    }
    let printed = proposed.document_changes.unwrap();
    assert!(printed.starts_with("[\n  {\n    \"textDocument\": {\n      \"uri\": \"file:///a\""), "{printed}");

    let operations = "{\"documentChanges\":[{\"kind\":\"create\",\"uri\":\"file:///a\",\"options\":{\"overwrite\":true}},{\"kind\":\"rename\",\"oldUri\":\"file:///a\",\"newUri\":\"file:///b\",\"options\":{\"ignoreIfExists\":true}},{\"kind\":\"delete\",\"uri\":\"file:///b\",\"options\":{\"ignoreIfNotExists\":true}},{\"textDocument\":{\"uri\":\"file:///c\",\"version\":3},\"edits\":[]}]}";
    let proposed = decode_edit(&json(operations)).unwrap().unwrap();
    match proposed.edit.document_changes.unwrap() {
        OrderedChanges::Operations(list) => {
            assert_eq!(list.len(), 4);
            assert!(matches!(&list[0], ChangeOperation::Op(FileOperation::Create(c))
                if c.uri == "file:///a" && c.options.unwrap().overwrite == Some(true)));
            assert!(matches!(&list[1], ChangeOperation::Op(FileOperation::Rename(r))
                if r.old_uri == "file:///a" && r.new_uri == "file:///b"
                    && r.options.unwrap().ignore_if_exists == Some(true)));
            assert!(matches!(&list[2], ChangeOperation::Op(FileOperation::Delete(d))
                if d.uri == "file:///b" && d.options.unwrap().ignore_if_not_exists == Some(true)));
            assert!(matches!(&list[3], ChangeOperation::Edit(e) if e.uri == "file:///c"));
        }
        other => panic!("{other:?}"),
    }
}
