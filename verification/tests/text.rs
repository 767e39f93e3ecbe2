use lspranto::json::Json;
use lspranto::lsp::types::{
    CompletionItem, Diagnostic, DocumentSymbolResponse, GotoDefinitionResponse, Hover, Place,
    MarkedString, Position, Range, Symbol, FlatSymbol, TextEdit, WorkspaceEdit,
};
use lspranto::text::{
    format_completion, format_definition, format_diagnostics, format_document_symbols, format_hover,
    format_locations, format_prepare_rename, format_references, format_workspace_edit,
    format_workspace_symbols, join, location_line, short_from_str, uri_to_path,
};

fn range(line: u32, character: u32) -> Range {
    Range { start: Position { line, character }, end: Position { line: line + 1, character: 0 } }
}

fn location(path: &str, line: u32, character: u32) -> Place {
    Place { uri: format!("file://{path}"), start: Position { line, character } }
}

fn json(text: &str) -> Json {
    Json::parse(text.as_bytes()).unwrap()
}

#[test]
fn parts_are_joined() {
    assert_eq!(join(&vec![], ", "), "");
    assert_eq!(join(&vec!["a".to_string()], ", "), "a");
    assert_eq!(join(&vec!["a".to_string(), String::new(), "b".to_string()], ", "), "a, , b");
}

#[test]
fn names_are_shortened() {
    assert_eq!(short_from_str("file:///a/b.rs"), "b.rs");
    assert_eq!(short_from_str("b.rs"), "b.rs");
    assert_eq!(short_from_str("a/"), "");
    assert_eq!(short_from_str(""), "");
}

#[test]
fn locations_are_0_based() {
    assert_eq!(location_line(&location("/a%20b.rs", 0, 7)), "/a b.rs:0:7");
    assert_eq!(uri_to_path("untitled:x"), "untitled:x");
}

#[test]
fn hovers_are_shown() {
    assert_eq!(format_hover(None), "No hover information.");
    assert_eq!(format_hover(Some(Hover::Scalar(MarkedString::Plain("x".to_string())))), "x");
    assert_eq!(
        format_hover(Some(Hover::Array(vec![
            MarkedString::LanguageString { language: "rust".to_string(), value: "fn f()".to_string() },
            MarkedString::Plain("docs".to_string()),
        ]))),
        "```rust\nfn f()\n```\n\ndocs",
    );
    assert_eq!(format_hover(Some(Hover::Array(vec![]))), "");
    assert_eq!(format_hover(Some(Hover::Markup("# x".to_string()))), "# x");
}

#[test]
fn definitions_are_shown() {
    assert_eq!(format_definition(None), "No definition found.");
    assert_eq!(
        format_definition(Some(GotoDefinitionResponse::Scalar(location("/a", 1, 2)))),
        "- /a:1:2",
    );
    assert_eq!(
        format_definition(Some(GotoDefinitionResponse::Array(vec![
            location("/a", 1, 2),
            location("/b", 3, 4),
        ]))),
        "- /a:1:2\n- /b:3:4",
    );
    assert_eq!(
        format_definition(Some(GotoDefinitionResponse::Array(vec![]))),
        "No locations found.",
    );
    assert_eq!(
        format_definition(Some(GotoDefinitionResponse::Link(vec![location("/c", 5, 6)]))),
        "- /c:5:6",
    );
    assert_eq!(format_definition(Some(GotoDefinitionResponse::Link(vec![]))), "");
}

#[test]
fn references_are_shown() {
    assert_eq!(format_references(None), "No references found.");
    assert_eq!(format_references(Some(vec![])), "No locations found.");
    assert_eq!(format_references(Some(vec![location("/a", 0, 0)])), "- /a:0:0");
    assert_eq!(format_locations(&vec![location("/a", 0, 0)]), "- /a:0:0");
}

#[test]
fn completions_are_shown() {
    assert_eq!(format_completion(None), "No completions.");
    assert_eq!(format_completion(Some(vec![])), "No completions.");
    assert_eq!(
        format_completion(Some(vec![
            CompletionItem { label: "push".to_string(), kind: Some("Method".to_string()) },
            CompletionItem { label: "x".to_string(), kind: None },
        ])),
        "- push (Method)\n- x",
    );
}

#[test]
fn symbols_are_shown_as_a_tree() {
    let leaf = |name: &str, line: u32| Symbol {
        name: name.to_string(),
        kind: "Field".to_string(),
        start: Position { line, character: 4 },
        children: None,
    };
    let tree = Symbol {
        name: "S".to_string(),
        kind: "Struct".to_string(),
        start: Position { line: 0, character: 7 },
        children: Some(vec![
            leaf("a", 1),
            Symbol { children: Some(vec![leaf("c", 3)]), ..leaf("b", 2) },
        ]),
    };
    assert_eq!(
        format_document_symbols(Some(DocumentSymbolResponse::Nested(vec![tree, leaf("d", 9)]))),
        "- S (Struct) [0:7]\n  - a (Field) [1:4]\n  - b (Field) [2:4]\n    - c (Field) [3:4]\n- d (Field) [9:4]\n",
    );
    assert_eq!(format_document_symbols(None), "No document symbols.");
    assert_eq!(
        format_document_symbols(Some(DocumentSymbolResponse::Nested(vec![]))),
        "No document symbols.",
    );
}

#[test]
fn symbols_are_shown_as_a_list() {
    assert_eq!(
        format_document_symbols(Some(DocumentSymbolResponse::Flat(vec![]))),
        "No symbols found.",
    );
    assert_eq!(
        format_document_symbols(Some(DocumentSymbolResponse::Flat(vec![FlatSymbol {
            name: "S".to_string(),
            kind: "Struct".to_string(),
            place: location("/a", 1, 2),
        }]))),
        "- S (Struct) @ /a:1:2",
    );
}

#[test]
fn found_symbols_are_shown() {
    for nothing in [None, Some(Json::Null), Some(json("[]")), Some(json("{}")), Some(json("3"))] {
        assert_eq!(format_workspace_symbols(nothing), "No workspace symbols.");
    }
    assert_eq!(
        format_workspace_symbols(Some(json(
            "[{\"name\":\"S\",\"kind\":23,\"location\":{\"uri\":\"file:///w/a.rs\",\"range\":{\"start\":{\"line\":4,\"character\":-1}}}},{},{\"name\":1,\"kind\":1.5,\"location\":{\"uri\":\"\"}}]"
        ))),
        "- S (kind 23) a.rs:4:-1\n- ? ?:?\n- ? ?:?",
    );
}

#[test]
fn diagnostics_are_shown() {
    assert_eq!(format_diagnostics(&vec![]), "No diagnostics.");
    let finding = |severity: Option<&str>, message: &str| Diagnostic {
        severity: severity.map(|s| s.to_string()),
        start: Position { line: 2, character: 5 },
        message: message.to_string(),
    };
    assert_eq!(
        format_diagnostics(&vec![
            finding(Some("Error"), "bad"),
            finding(None, "hm"),
            finding(Some("DiagnosticSeverity(9)"), "odd"),
        ]),
        "- error at 2:5: bad\n- info at 2:5: hm\n- diagnosticseverity(9) at 2:5: odd",
    );
}

#[test]
fn a_rename_may_be_possible() {
    assert_eq!(format_prepare_rename(None), "Rename is not supported at this position.");
    assert_eq!(format_prepare_rename(Some(Json::Null)), "Renamable here.");
    assert_eq!(
        format_prepare_rename(Some(json("{\"placeholder\":\"x\"}"))),
        "Renamable here. Current placeholder: `x`",
    );
}

#[test]
fn workspace_edits_are_shown() {
    assert_eq!(format_workspace_edit(None, "[]"), "No edits produced.");
    let none = WorkspaceEdit { changes: None, document_changes: None };
    assert_eq!(format_workspace_edit(Some(&none), ""), "No edits produced.");
    assert_eq!(format_workspace_edit(Some(&none), " \n"), "No edits produced.");
    assert_eq!(format_workspace_edit(Some(&none), "[\n  1\n]"), "[\n  1\n]");
    let edits = WorkspaceEdit {
        changes: Some(vec![(
            "file:///a.rs".to_string(),
            vec![TextEdit { range: range(1, 2), new_text: "n\"é\n".to_string() }],
        )]),
        document_changes: None,
    };
    assert_eq!(
        format_workspace_edit(Some(&edits), "ignored"),
        "/a.rs:\n  1:2-2:0 -> \"n\\\"é\\n\"\n",
    );
}
