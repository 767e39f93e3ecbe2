//! Decoding the responses of a language server.
//!
//! `lsp_types` says which JSON value is a response of which kind. Each decoder has two
//! parts: a trusted item that makes the `serde_json::from_value` call and moves the fields
//! that the library reads into types of its own, and a public function on [`Json`].

use crate::json;
use crate::json::{Json, JsonTree};
use crate::lsp::types;
use crate::lsp::types::{
    AnnotatedTextEdit, ChangeOperation, CompletionItem, CompletionItemView, CreateFile,
    CreateFileOptions, DefinitionView, DeleteFile, DeleteFileOptions, Diagnostic, DiagnosticView,
    DocumentEdit, DocumentEditView, DocumentSymbolResponse, DocumentSymbolsView, FileOperation,
    FlatSymbol, FlatSymbolView, GotoDefinitionResponse, Hover, HoverView, MarkedString, OneOf,
    OperationView, OrderedChanges, OrderedChangesView, Place, PlaceView, Position, Range,
    RenameFile, RenameFileOptions, Symbol, SymbolTree, TextEdit, WorkspaceEdit, WorkspaceEditView,
};
use crate::lsp::uris;
use crate::lsp::uris::{has_fitting_uris, Shape};
use crate::strings;
use vstd::prelude::*;

verus! {

/// What a decoded response holds; an error is a text.
pub open spec fn decoded<T: View>(r: Result<Option<T>, String>) -> Result<Option<T::V>, Seq<char>> {
    match r {
        Ok(Some(value)) => Ok(Some(value@)),
        Ok(None) => Ok(None),
        Err(text) => Err(text@),
    }
}

/// What a decoded list holds; an error is a text.
pub open spec fn decoded_list<T: View>(r: Result<Option<Vec<T>>, String>) -> Result<
    Option<Seq<T::V>>,
    Seq<char>,
> {
    match r {
        Ok(Some(list)) => Ok(Some(types::views(list@))),
        Ok(None) => Ok(None),
        Err(text) => Err(text@),
    }
}

/// What a decoder gives that cannot take a URI longer than [`uris::uri_limit`]. The room that
/// a text takes counts as its length there, so each of these decoders reads a fresh copy of
/// its value, whose texts take no more room than they need.
pub open spec fn where_uris_fit<V>(
    tree: JsonTree,
    shape: Shape,
    response: Result<Option<V>, Seq<char>>,
) -> Result<Option<V>, Seq<char>> {
    if uris::fits(tree, shape) {
        response
    } else {
        Err("uri too long"@)
    }
}

// ---- hover ----

/// What `lsp_types` reads from the response to `textDocument/hover`.
pub uninterp spec fn hover_response(tree: JsonTree) -> Result<Option<HoverView>, Seq<char>>;

/// `serde_json::from_value` at `Option<lsp_types::Hover>`: the contents, or the text of the
/// error. Which one depends on the value alone.
#[verifier::external_body]
fn hover_from_value(value: serde_json::Value) -> (r: Result<Option<Hover>, String>)
    ensures
        decoded(r) == hover_response(json::json_tree(value)),
{
    let marked = |m| match m {
        lsp_types::MarkedString::String(s) => MarkedString::Plain(s),
        lsp_types::MarkedString::LanguageString(l) => MarkedString::LanguageString { language: l.language, value: l.value },
    };
    let hover: Option<lsp_types::Hover> = serde_json::from_value(value).map_err(|e| e.to_string())?;
    Ok(hover.map(|h| match h.contents {
        lsp_types::HoverContents::Scalar(m) => Hover::Scalar(marked(m)),
        lsp_types::HoverContents::Array(list) => Hover::Array(list.into_iter().map(marked).collect()),
        lsp_types::HoverContents::Markup(m) => Hover::Markup(m.value),
    }))
}

/// Decodes the response to `textDocument/hover`.
pub fn decode_hover(value: &Json) -> (r: Result<Option<Hover>, String>)
    ensures
        decoded(r) == hover_response(value@),
{
    hover_from_value(value.to_value())
}

// ---- definition / references ----

/// `lsp_types::Location`: an outside type. What it holds is named by [`location`].
#[verifier::external_type_specification]
#[verifier::external_body]
pub struct ExLocation(lsp_types::Location);

/// `lsp_types::LocationLink`: an outside type. What it holds is named by [`link`].
#[verifier::external_type_specification]
#[verifier::external_body]
pub struct ExLocationLink(lsp_types::LocationLink);

/// The document of a location, and where its range starts.
pub uninterp spec fn location(location: lsp_types::Location) -> PlaceView;

/// The document that a link leads to, and where the symbol starts in it.
pub uninterp spec fn link(link: lsp_types::LocationLink) -> PlaceView;

/// What `lsp_types` reads from the response to `textDocument/definition`.
pub uninterp spec fn definition_response(tree: JsonTree) -> Result<
    Option<DefinitionView>,
    Seq<char>,
>;

/// What `lsp_types` reads from the response to `textDocument/references`.
pub uninterp spec fn references_response(tree: JsonTree) -> Result<
    Option<Seq<PlaceView>>,
    Seq<char>,
>;

/// A definition, each place as it came.
pub(crate) enum DefinitionNode {
    Scalar(lsp_types::Location),
    Array(Vec<lsp_types::Location>),
    Link(Vec<lsp_types::LocationLink>),
}

/// What each location of a list holds.
pub open spec fn locations(list: Seq<lsp_types::Location>) -> Seq<PlaceView> {
    Seq::new(list.len(), |i: int| location(list[i]))
}

/// What each link of a list holds.
pub open spec fn links(list: Seq<lsp_types::LocationLink>) -> Seq<PlaceView> {
    Seq::new(list.len(), |i: int| link(list[i]))
}

spec fn definition_view(node: DefinitionNode) -> DefinitionView {
    match node {
        DefinitionNode::Scalar(found) => DefinitionView::Scalar(location(found)),
        DefinitionNode::Array(list) => DefinitionView::Array(locations(list@)),
        DefinitionNode::Link(list) => DefinitionView::Link(links(list@)),
    }
}

/// The fields of `lsp_types::Location` that the library reads.
#[verifier::external_body]
fn place_of(found: lsp_types::Location) -> (r: Place)
    ensures
        r@ == location(found),
{
    let start = found.range.start;
    Place {
        uri: found.uri.as_str().to_string(),
        start: Position { line: start.line, character: start.character },
    }
}

/// The fields of `lsp_types::LocationLink` that the library reads.
#[verifier::external_body]
fn target_of(found: lsp_types::LocationLink) -> (r: Place)
    ensures
        r@ == link(found),
{
    let start = found.target_selection_range.start;
    Place {
        uri: found.target_uri.as_str().to_string(),
        start: Position { line: start.line, character: start.character },
    }
}

/// `serde_json::from_value` at `Option<lsp_types::GotoDefinitionResponse>`: the locations or
/// links, or the text of the error. Which one depends on the value alone. It panics on a
/// URI that is too long.
#[verifier::external_body]
fn definition_from_value(value: &serde_json::Value) -> (r: Result<Option<DefinitionNode>, String>)
    requires
        uris::fits(json::json_tree(*value), Shape::Definition),
    ensures
        (match r {
            Ok(Some(node)) => Ok(Some(definition_view(node))),
            Ok(None) => Ok(None),
            Err(text) => Err(text@),
        }) == definition_response(json::json_tree(*value)),
{
    let def: Option<lsp_types::GotoDefinitionResponse> = serde_json::from_value(value.clone()).map_err(|e| e.to_string())?;
    Ok(def.map(|d| match d {
        lsp_types::GotoDefinitionResponse::Scalar(l) => DefinitionNode::Scalar(l),
        lsp_types::GotoDefinitionResponse::Array(list) => DefinitionNode::Array(list),
        lsp_types::GotoDefinitionResponse::Link(list) => DefinitionNode::Link(list),
    }))
}

/// `serde_json::from_value` at `Option<Vec<lsp_types::Location>>`: the locations, or the text
/// of the error. Which one depends on the value alone. It panics on a URI that is too long.
#[verifier::external_body]
fn references_from_value(value: &serde_json::Value) -> (r: Result<
    Option<Vec<lsp_types::Location>>,
    String,
>)
    requires
        uris::fits(json::json_tree(*value), Shape::References),
    ensures
        (match r {
            Ok(Some(list)) => Ok(Some(locations(list@))),
            Ok(None) => Ok(None),
            Err(text) => Err(text@),
        }) == references_response(json::json_tree(*value)),
{
    serde_json::from_value(value.clone()).map_err(|e| e.to_string())
}

fn places_of(list: Vec<lsp_types::Location>) -> (r: Vec<Place>)
    ensures
        types::views(r@) == locations(list@),
{
    let ghost wanted = locations(list@);
    let mut out: Vec<Place> = Vec::new();
    for found in it: list
        invariant
            it.seq() == list@,
            wanted == locations(list@),
            types::views(out@) == wanted.take(it.index() as int),
    {
        let next = place_of(found);
        assert(types::views(out@.push(next)) == types::views(out@).push(next@));
        out.push(next);
    }
    assert(wanted.take(wanted.len() as int) == wanted);
    out
}

fn targets_of(list: Vec<lsp_types::LocationLink>) -> (r: Vec<Place>)
    ensures
        types::views(r@) == links(list@),
{
    let ghost wanted = links(list@);
    let mut out: Vec<Place> = Vec::new();
    for found in it: list
        invariant
            it.seq() == list@,
            wanted == links(list@),
            types::views(out@) == wanted.take(it.index() as int),
    {
        let next = target_of(found);
        assert(types::views(out@.push(next)) == types::views(out@).push(next@));
        out.push(next);
    }
    assert(wanted.take(wanted.len() as int) == wanted);
    out
}

/// Decodes the response to `textDocument/definition`.
pub fn decode_definition(value: &Json) -> (r: Result<Option<GotoDefinitionResponse>, String>)
    ensures
        decoded(r) == where_uris_fit(value@, Shape::Definition, definition_response(value@)),
{
    if !has_fitting_uris(value, Shape::Definition) {
        return Err("uri too long".to_string());
    }
    match definition_from_value(&value.to_value()) {
        Err(text) => Err(text),
        Ok(None) => Ok(None),
        Ok(Some(DefinitionNode::Scalar(found))) => Ok(
            Some(GotoDefinitionResponse::Scalar(place_of(found))),
        ),
        Ok(Some(DefinitionNode::Array(list))) => Ok(
            Some(GotoDefinitionResponse::Array(places_of(list))),
        ),
        Ok(Some(DefinitionNode::Link(list))) => Ok(
            Some(GotoDefinitionResponse::Link(targets_of(list))),
        ),
    }
}

/// Decodes the response to `textDocument/references`.
pub fn decode_references(value: &Json) -> (r: Result<Option<Vec<Place>>, String>)
    ensures
        decoded_list(r) == where_uris_fit(value@, Shape::References, references_response(value@)),
{
    if !has_fitting_uris(value, Shape::References) {
        return Err("uri too long".to_string());
    }
    match references_from_value(&value.to_value()) {
        Err(text) => Err(text),
        Ok(None) => Ok(None),
        Ok(Some(list)) => Ok(Some(places_of(list))),
    }
}

// ---- completion ----

/// What `lsp_types` reads from the response to `textDocument/completion`.
pub uninterp spec fn completion_response(tree: JsonTree) -> Result<
    Option<Seq<CompletionItemView>>,
    Seq<char>,
>;

/// `serde_json::from_value` at `Option<lsp_types::CompletionResponse>`: the items of the
/// array or of the list, each with the `Debug` text of its kind, or the text of the error.
/// Which one depends on the value alone.
#[verifier::external_body]
fn completion_from_value(value: serde_json::Value) -> (r: Result<
    Option<Vec<CompletionItem>>,
    String,
>)
    ensures
        decoded_list(r) == completion_response(json::json_tree(value)),
{
    let item = |i: lsp_types::CompletionItem| CompletionItem { label: i.label, kind: i.kind.map(|k| format!("{k:?}")) };
    let comp: Option<lsp_types::CompletionResponse> = serde_json::from_value(value).map_err(|e| e.to_string())?;
    Ok(comp.map(|c| match c {
        lsp_types::CompletionResponse::Array(items) => items.into_iter().map(item).collect(),
        lsp_types::CompletionResponse::List(list) => list.items.into_iter().map(item).collect(),
    }))
}

/// Decodes the response to `textDocument/completion`.
pub fn decode_completion(value: &Json) -> (r: Result<Option<Vec<CompletionItem>>, String>)
    ensures
        decoded_list(r) == completion_response(value@),
{
    completion_from_value(value.to_value())
}

// ---- symbols ----

/// `lsp_types::DocumentSymbol`: an outside type. What a symbol holds is named by
/// [`symbol_tree`].
#[verifier::external_type_specification]
#[verifier::external_body]
pub struct ExDocumentSymbol(lsp_types::DocumentSymbol);

/// `lsp_types::SymbolInformation`: an outside type. What a symbol holds is named by
/// [`flat_symbol`].
#[verifier::external_type_specification]
#[verifier::external_body]
pub struct ExSymbolInformation(lsp_types::SymbolInformation);

/// What a symbol holds, with the `Debug` text of its kind.
pub uninterp spec fn symbol_tree(symbol: lsp_types::DocumentSymbol) -> SymbolTree;

/// What `lsp_types` reads from the response to `textDocument/documentSymbol`.
pub uninterp spec fn symbols_response(tree: JsonTree) -> Result<
    Option<DocumentSymbolsView>,
    Seq<char>,
>;

/// What a symbol of a workspace holds, with the `Debug` text of its kind.
pub uninterp spec fn flat_symbol(symbol: lsp_types::SymbolInformation) -> FlatSymbolView;

/// One level of a symbol.
pub(crate) struct SymbolNode {
    name: String,
    kind: String,
    start: Position,
    children: Option<Vec<lsp_types::DocumentSymbol>>,
}

/// A symbol of a workspace, its place as it came.
pub(crate) struct FlatNode {
    name: String,
    kind: String,
    place: lsp_types::Location,
}

/// The symbols of a document, as they came.
pub(crate) enum SymbolNodes {
    Flat(Vec<lsp_types::SymbolInformation>),
    Nested(Vec<lsp_types::DocumentSymbol>),
}

/// What each symbol of a document holds.
pub open spec fn symbol_trees(list: Seq<lsp_types::DocumentSymbol>) -> Seq<SymbolTree> {
    Seq::new(list.len(), |i: int| symbol_tree(list[i]))
}

/// What each symbol of a flat list holds.
pub open spec fn flat_symbols(list: Seq<lsp_types::SymbolInformation>) -> Seq<FlatSymbolView> {
    Seq::new(list.len(), |i: int| flat_symbol(list[i]))
}

spec fn node_tree(node: SymbolNode) -> SymbolTree {
    SymbolTree {
        name: node.name@,
        kind: node.kind@,
        start: node.start,
        children: match node.children {
            Some(list) => Some(symbol_trees(list@)),
            None => None,
        },
    }
}

spec fn nodes_view(nodes: SymbolNodes) -> DocumentSymbolsView {
    match nodes {
        SymbolNodes::Flat(list) => DocumentSymbolsView::Flat(flat_symbols(list@)),
        SymbolNodes::Nested(list) => DocumentSymbolsView::Nested(symbol_trees(list@)),
    }
}

/// The fields of `lsp_types::DocumentSymbol` that the library reads, one level deep, with the
/// `Debug` text of the kind.
#[verifier::external_body]
fn symbol_node(symbol: lsp_types::DocumentSymbol) -> (r: SymbolNode)
    ensures
        node_tree(r) == symbol_tree(symbol),
{
    let start = symbol.selection_range.start;
    SymbolNode {
        name: symbol.name,
        kind: format!("{:?}", symbol.kind),
        start: Position { line: start.line, character: start.character },
        children: symbol.children,
    }
}

/// The fields of `lsp_types::SymbolInformation` that the library reads, with the `Debug` text
/// of the kind.
#[verifier::external_body]
fn flat_node(symbol: lsp_types::SymbolInformation) -> (r: FlatNode)
    ensures
        flat_symbol(symbol) == (FlatSymbolView {
            name: r.name@,
            kind: r.kind@,
            place: location(r.place),
        }),
{
    FlatNode { name: symbol.name, kind: format!("{:?}", symbol.kind), place: symbol.location }
}

/// `serde_json::from_value` at `Option<lsp_types::DocumentSymbolResponse>`: the symbols, or
/// the text of the error. Which one depends on the value alone. It panics on a URI that is
/// too long.
#[verifier::external_body]
fn symbols_from_value(value: &serde_json::Value) -> (r: Result<Option<SymbolNodes>, String>)
    requires
        uris::fits(json::json_tree(*value), Shape::Symbols),
    ensures
        (match r {
            Ok(Some(nodes)) => Ok(Some(nodes_view(nodes))),
            Ok(None) => Ok(None),
            Err(text) => Err(text@),
        }) == symbols_response(json::json_tree(*value)),
{
    let syms: Option<lsp_types::DocumentSymbolResponse> = serde_json::from_value(value.clone()).map_err(|e| e.to_string())?;
    Ok(syms.map(|s| match s {
        lsp_types::DocumentSymbolResponse::Flat(list) => SymbolNodes::Flat(list),
        lsp_types::DocumentSymbolResponse::Nested(list) => SymbolNodes::Nested(list),
    }))
}

proof fn lemma_symbols_push(list: Seq<Symbol>, symbol: Symbol)
    ensures
        types::symbol_views(list.push(symbol)) == types::symbol_views(list).push(symbol@),
{
    assert forall|i: int| 0 <= i <= list.len() implies types::symbol_views(list.push(symbol))[i]
        == #[trigger] types::symbol_views(list).push(symbol@)[i] by {
        if i < list.len() {
            assert(list.push(symbol)[i] == list[i]);
        }
    }
    assert(types::symbol_views(list.push(symbol)) =~= types::symbol_views(list).push(symbol@));
}

fn symbol_of(symbol: lsp_types::DocumentSymbol) -> (r: Symbol)
    ensures
        r@ == symbol_tree(symbol),
    decreases symbol_tree(symbol),
{
    let ghost tree = symbol_tree(symbol);
    let node = symbol_node(symbol);
    let children = match node.children {
        None => None,
        Some(list) => {
            let ghost trees = symbol_trees(list@);
            let mut out: Vec<Symbol> = Vec::new();
            for child in it: list
                invariant
                    it.seq() == list@,
                    trees == symbol_trees(list@),
                    tree == symbol_tree(symbol),
                    tree.children == Some(trees),
                    types::symbol_views(out@) == trees.take(it.index() as int),
            {
                let ghost k = it.index() as int;
                assert(trees[k] == symbol_tree(child));
                let ghost inner = tree.children->Some_0;
                assert(decreases_to!(tree => tree.children));
                assert(decreases_to!(tree => inner[k]));
                let next = symbol_of(child);
                proof {
                    lemma_symbols_push(out@, next);
                }
                out.push(next);
            }
            assert(trees.take(trees.len() as int) == trees);
            Some(out)
        },
    };
    Symbol {
        name: node.name,
        kind: node.kind,
        start: node.start,
        children,
    }
}

/// Decodes the response to `textDocument/documentSymbol`.
pub fn decode_symbols(value: &Json) -> (r: Result<Option<DocumentSymbolResponse>, String>)
    ensures
        decoded(r) == where_uris_fit(value@, Shape::Symbols, symbols_response(value@)),
{
    if !has_fitting_uris(value, Shape::Symbols) {
        return Err("uri too long".to_string());
    }
    match symbols_from_value(&value.to_value()) {
        Err(text) => Err(text),
        Ok(None) => Ok(None),
        Ok(Some(SymbolNodes::Flat(list))) => {
            let ghost wanted = flat_symbols(list@);
            let mut out: Vec<FlatSymbol> = Vec::new();
            for symbol in it: list
                invariant
                    it.seq() == list@,
                    wanted == flat_symbols(list@),
                    types::views(out@) == wanted.take(it.index() as int),
            {
                let node = flat_node(symbol);
                let next = FlatSymbol {
                    name: node.name,
                    kind: node.kind,
                    place: place_of(node.place),
                };
                assert(types::views(out@.push(next)) == types::views(out@).push(next@));
                out.push(next);
            }
            assert(wanted.take(wanted.len() as int) == wanted);
            Ok(Some(DocumentSymbolResponse::Flat(out)))
        },
        Ok(Some(SymbolNodes::Nested(list))) => {
            let ghost trees = symbol_trees(list@);
            let mut out: Vec<Symbol> = Vec::new();
            for symbol in it: list
                invariant
                    it.seq() == list@,
                    trees == symbol_trees(list@),
                    types::symbol_views(out@) == trees.take(it.index() as int),
            {
                let ghost k = it.index() as int;
                assert(trees[k] == symbol_tree(symbol));
                let next = symbol_of(symbol);
                proof {
                    lemma_symbols_push(out@, next);
                }
                out.push(next);
            }
            assert(trees.take(trees.len() as int) == trees);
            Ok(Some(DocumentSymbolResponse::Nested(out)))
        },
    }
}

// ---- diagnostics and configuration ----

/// The diagnostics that a server has published for a document.
#[derive(Debug)]
pub struct PublishedDiagnostics {
    pub uri: String,
    pub diagnostics: Vec<Diagnostic>,
}

#[verifier::ext_equal]
pub struct PublishedView {
    pub uri: Seq<char>,
    pub diagnostics: Seq<DiagnosticView>,
}

impl View for PublishedDiagnostics {
    type V = PublishedView;

    open spec fn view(&self) -> PublishedView {
        PublishedView { uri: self.uri@, diagnostics: types::views(self.diagnostics@) }
    }
}

/// What `lsp_types` reads from the parameters of `textDocument/publishDiagnostics`: `None`
/// where they are malformed.
pub uninterp spec fn published_diagnostics(tree: JsonTree) -> Option<PublishedView>;

/// `serde_json::from_value` at `lsp_types::PublishDiagnosticsParams`: the document and its
/// diagnostics, each with the `Debug` text of its severity, or nothing where it fails. Which
/// one depends on the value alone. It panics on a URI that is too long.
#[verifier::external_body]
fn diagnostics_from_value(value: &serde_json::Value) -> (r: Option<PublishedDiagnostics>)
    requires
        uris::fits(json::json_tree(*value), Shape::Diagnostics),
    ensures
        (match r {
            Some(published) => Some(published@),
            None => None,
        }) == published_diagnostics(json::json_tree(*value)),
{
    let at = |p: lsp_types::Position| Position { line: p.line, character: p.character };
    let finding = |d: lsp_types::Diagnostic| Diagnostic {
        severity: d.severity.map(|s| format!("{s:?}")),
        start: at(d.range.start),
        message: d.message,
    };
    let published: lsp_types::PublishDiagnosticsParams = serde_json::from_value(value.clone()).ok()?;
    let diagnostics = published.diagnostics.into_iter().map(finding).collect();
    Some(PublishedDiagnostics { uri: published.uri.as_str().to_string(), diagnostics })
}

/// The diagnostics that parameters give: none where a URI is too long.
pub open spec fn diagnostics_given(tree: JsonTree) -> Option<PublishedView> {
    if uris::fits(tree, Shape::Diagnostics) {
        published_diagnostics(tree)
    } else {
        None
    }
}

/// Decodes the parameters of `textDocument/publishDiagnostics`.
pub fn decode_diagnostics(value: &Json) -> (r: Option<PublishedDiagnostics>)
    ensures
        (match r {
            Some(published) => Some(published@),
            None => None,
        }) == diagnostics_given(value@),
{
    if !has_fitting_uris(value, Shape::Diagnostics) {
        return None;
    }
    diagnostics_from_value(&value.to_value())
}

/// How many items `lsp_types` reads from the parameters of `workspace/configuration`: `None`
/// where they are malformed.
pub uninterp spec fn configuration_items(tree: JsonTree) -> Option<usize>;

/// `serde_json::from_value` at `lsp_types::ConfigurationParams`: the number of its items, or
/// nothing where it fails. Which one depends on the value alone. It panics on a URI that is
/// too long.
#[verifier::external_body]
fn configuration_from_value(value: &serde_json::Value) -> (r: Option<usize>)
    requires
        uris::fits(json::json_tree(*value), Shape::Configuration),
    ensures
        r == configuration_items(json::json_tree(*value)),
{
    let params: lsp_types::ConfigurationParams = serde_json::from_value(value.clone()).ok()?;
    Some(params.items.len())
}

/// The number of items that parameters ask for: none where a URI is too long.
pub open spec fn items_given(tree: JsonTree) -> Option<usize> {
    if uris::fits(tree, Shape::Configuration) {
        configuration_items(tree)
    } else {
        None
    }
}

/// Decodes the parameters of `workspace/configuration`: the number of items asked for.
pub fn decode_configuration(value: &Json) -> (r: Option<usize>)
    ensures
        r == items_given(value@),
{
    if !has_fitting_uris(value, Shape::Configuration) {
        return None;
    }
    configuration_from_value(&value.to_value())
}

// ---- capabilities ----

/// `lsp_types::InitializeResult`: an outside type. What it advertises is named by
/// [`advertised`].
#[verifier::external_type_specification]
#[verifier::external_body]
pub struct ExInitializeResult(lsp_types::InitializeResult);

/// What a server says of a feature: that it has it or not, or how it has it.
#[derive(Debug, Clone, Copy, PartialEq, Eq, Structural)]
pub enum Provider {
    Simple(bool),
    Options,
}

/// What a server says of renaming.
#[derive(Debug, Clone, Copy, PartialEq, Eq, Structural)]
pub enum RenameProvider {
    Simple(bool),
    Options { prepare_provider: Option<bool> },
}

/// What a server says of its features, as far as the library reads it.
#[derive(Debug, Clone, Copy, PartialEq, Eq, Structural)]
pub struct ServerCapabilities {
    pub hover_provider: Option<Provider>,
    pub definition_provider: Option<Provider>,
    pub references_provider: Option<Provider>,
    pub completion_provider: Option<Provider>,
    pub document_symbol_provider: Option<Provider>,
    pub workspace_symbol_provider: Option<Provider>,
    pub rename_provider: Option<RenameProvider>,
}

/// What the capabilities in the result of `initialize` hold.
pub uninterp spec fn advertised(result: lsp_types::InitializeResult) -> ServerCapabilities;

/// What `lsp_types` reads from the response to `initialize`; an error is a text.
pub uninterp spec fn initialize_response(tree: JsonTree) -> Result<ServerCapabilities, Seq<char>>;

/// `serde_json::from_value` at `lsp_types::InitializeResult`: what the server advertises, or
/// the text of the error. Which one depends on the value alone.
#[verifier::external_body]
fn initialize_from_value(value: serde_json::Value) -> (r: Result<
    lsp_types::InitializeResult,
    String,
>)
    ensures
        (match r {
            Ok(result) => Ok(advertised(result)),
            Err(text) => Err(text@),
        }) == initialize_response(json::json_tree(value)),
{
    serde_json::from_value(value).map_err(|e| e.to_string())
}

/// The fields of `lsp_types::ServerCapabilities` on features at a position: hover, definition
/// and references, each with its variant.
#[verifier::external_body]
fn position_features(result: &lsp_types::InitializeResult) -> (r: (
    Option<Provider>,
    Option<Provider>,
    Option<Provider>,
))
    ensures
        r.0 == advertised(*result).hover_provider,
        r.1 == advertised(*result).definition_provider,
        r.2 == advertised(*result).references_provider,
{
    let caps = &result.capabilities;
    (caps.hover_provider.as_ref().map(|p| match p {
        lsp_types::HoverProviderCapability::Simple(on) => Provider::Simple(*on),
        lsp_types::HoverProviderCapability::Options(_) => Provider::Options,
    }), caps.definition_provider.as_ref().map(|p| match p {
        lsp_types::OneOf::Left(on) => Provider::Simple(*on),
        lsp_types::OneOf::Right(_) => Provider::Options,
    }), caps.references_provider.as_ref().map(|p| match p {
        lsp_types::OneOf::Left(on) => Provider::Simple(*on),
        lsp_types::OneOf::Right(_) => Provider::Options,
    }))
}

/// The fields of `lsp_types::ServerCapabilities` on the symbols of a document and of a
/// workspace, each with its variant, and on completion, which has options only.
#[verifier::external_body]
fn symbol_features(result: &lsp_types::InitializeResult) -> (r: (
    Option<Provider>,
    Option<Provider>,
    Option<Provider>,
))
    ensures
        r.0 == advertised(*result).document_symbol_provider,
        r.1 == advertised(*result).workspace_symbol_provider,
        r.2 == advertised(*result).completion_provider,
{
    let caps = &result.capabilities;
    (caps.document_symbol_provider.as_ref().map(|p| match p {
        lsp_types::OneOf::Left(on) => Provider::Simple(*on),
        lsp_types::OneOf::Right(_) => Provider::Options,
    }), caps.workspace_symbol_provider.as_ref().map(|p| match p {
        lsp_types::OneOf::Left(on) => Provider::Simple(*on),
        lsp_types::OneOf::Right(_) => Provider::Options,
    }), caps.completion_provider.as_ref().map(|_| Provider::Options))
}

/// The field of `lsp_types::ServerCapabilities` on renaming, with its variant.
#[verifier::external_body]
fn rename_feature(result: &lsp_types::InitializeResult) -> (r: Option<RenameProvider>)
    ensures
        r == advertised(*result).rename_provider,
{
    result.capabilities.rename_provider.as_ref().map(|p| match p {
        lsp_types::OneOf::Left(on) => RenameProvider::Simple(*on),
        lsp_types::OneOf::Right(o) => RenameProvider::Options { prepare_provider: o.prepare_provider },
    })
}

/// Decodes the response to `initialize`.
pub fn decode_capabilities(value: &Json) -> (r: Result<ServerCapabilities, String>)
    ensures
        (match r {
            Ok(caps) => Ok(caps),
            Err(text) => Err(text@),
        }) == initialize_response(value@),
{
    match initialize_from_value(value.to_value()) {
        Err(text) => Err(text),
        Ok(result) => {
            let (hover_provider, definition_provider, references_provider) = position_features(
                &result,
            );
            let (document_symbol_provider, workspace_symbol_provider, completion_provider) =
                symbol_features(&result);
            Ok(
                ServerCapabilities {
                    hover_provider,
                    definition_provider,
                    references_provider,
                    completion_provider,
                    document_symbol_provider,
                    workspace_symbol_provider,
                    rename_provider: rename_feature(&result),
                },
            )
        },
    }
}

// ---- workspace edits ----

/// `lsp_types::TextDocumentEdit`: an outside type. What it holds is named by
/// [`document_edit`].
#[verifier::external_type_specification]
#[verifier::external_body]
pub struct ExTextDocumentEdit(lsp_types::TextDocumentEdit);

/// `lsp_types::ResourceOp`: an outside type. What it holds is named by [`file_operation`].
#[verifier::external_type_specification]
#[verifier::external_body]
pub struct ExResourceOp(lsp_types::ResourceOp);

/// `lsp_types::DocumentChangeOperation`: an outside type. What it holds is named by
/// [`change_operation`].
#[verifier::external_type_specification]
#[verifier::external_body]
pub struct ExDocumentChangeOperation(lsp_types::DocumentChangeOperation);

/// `lsp_types::DocumentChanges`: an outside type. What it holds is named by
/// [`ordered_changes`], and the text that stands for it by [`printed_changes`].
#[verifier::external_type_specification]
#[verifier::external_body]
pub struct ExDocumentChanges(lsp_types::DocumentChanges);

/// What the edits of one document hold.
pub uninterp spec fn document_edit(edit: lsp_types::TextDocumentEdit) -> DocumentEditView;

/// What a change to files as such holds.
pub uninterp spec fn file_operation(op: lsp_types::ResourceOp) -> OperationView;

/// What an operation holds.
pub uninterp spec fn change_operation(op: lsp_types::DocumentChangeOperation) -> OperationView;

/// What document changes hold.
pub uninterp spec fn ordered_changes(changes: lsp_types::DocumentChanges) -> OrderedChangesView;

/// The indented text that `serde_json` prints for document changes: `None` where it fails.
pub uninterp spec fn printed_changes(changes: lsp_types::DocumentChanges) -> Option<Seq<char>>;

/// A workspace edit, and the indented JSON text of its document changes.
#[derive(Debug)]
pub struct ProposedEdit {
    pub edit: WorkspaceEdit,
    pub document_changes: Option<String>,
}

#[verifier::ext_equal]
pub struct ProposedView {
    pub edit: WorkspaceEditView,
    pub document_changes: Option<Seq<char>>,
}

impl View for ProposedEdit {
    type V = ProposedView;

    open spec fn view(&self) -> ProposedView {
        ProposedView {
            edit: self.edit@,
            document_changes: strings::optional_text(self.document_changes),
        }
    }
}

/// What `lsp_types` reads from the response to `textDocument/rename`, together with the text
/// that `serde_json` prints for its document changes.
pub uninterp spec fn rename_response(tree: JsonTree) -> Result<Option<ProposedView>, Seq<char>>;

/// Document changes, as they came.
pub(crate) enum ChangeNodes {
    Edits(Vec<lsp_types::TextDocumentEdit>),
    Operations(Vec<lsp_types::DocumentChangeOperation>),
}

/// One operation, as it came.
pub(crate) enum OperationNode {
    Edit(lsp_types::TextDocumentEdit),
    Op(lsp_types::ResourceOp),
}

/// A workspace edit, its document changes as they came.
pub(crate) struct EditNode {
    changes: Option<Vec<(String, Vec<TextEdit>)>>,
    document_changes: Option<lsp_types::DocumentChanges>,
}

/// What the edits of each document hold.
pub open spec fn document_edits(list: Seq<lsp_types::TextDocumentEdit>) -> Seq<DocumentEditView> {
    Seq::new(list.len(), |i: int| document_edit(list[i]))
}

/// What each operation of a list holds.
pub open spec fn change_operations(list: Seq<lsp_types::DocumentChangeOperation>) -> Seq<OperationView> {
    Seq::new(list.len(), |i: int| change_operation(list[i]))
}

spec fn change_nodes_view(nodes: ChangeNodes) -> OrderedChangesView {
    match nodes {
        ChangeNodes::Edits(list) => OrderedChangesView::Edits(document_edits(list@)),
        ChangeNodes::Operations(list) => OrderedChangesView::Operations(change_operations(list@)),
    }
}

spec fn operation_node_view(node: OperationNode) -> OperationView {
    match node {
        OperationNode::Edit(edit) => OperationView::Edit(document_edit(edit)),
        OperationNode::Op(op) => file_operation(op),
    }
}

spec fn edit_node_view(node: EditNode) -> ProposedView {
    ProposedView {
        edit: WorkspaceEditView {
            changes: match node.changes {
                Some(list) => Some(types::changes_map(list@)),
                None => None,
            },
            document_changes: match node.document_changes {
                Some(changes) => Some(ordered_changes(changes)),
                None => None,
            },
        },
        document_changes: match node.document_changes {
            Some(changes) => printed_changes(changes),
            None => None,
        },
    }
}

/// `serde_json::from_value` at `Option<lsp_types::WorkspaceEdit>`: the edit, or the text of the
/// error. Which one depends on the value alone; the order in which the edits per document are
/// listed is that of a hash map, and nothing is said of it. No document is listed twice. It
/// panics on a URI that is too long.
#[verifier::external_body]
fn edit_from_value(value: &serde_json::Value) -> (r: Result<Option<EditNode>, String>)
    requires
        uris::fits(json::json_tree(*value), Shape::WorkspaceEdit),
    ensures
        (match r {
            Ok(Some(node)) => Ok(Some(edit_node_view(node))),
            Ok(None) => Ok(None),
            Err(text) => Err(text@),
        }) == rename_response(json::json_tree(*value)),
        r matches Ok(Some(node)) ==> (node.changes matches Some(list) ==> listed_once(list@)),
{
    let at = |p: lsp_types::Position| Position { line: p.line, character: p.character };
    let edit = |e: lsp_types::TextEdit| TextEdit { range: Range { start: at(e.range.start), end: at(e.range.end) }, new_text: e.new_text };
    let found: Option<lsp_types::WorkspaceEdit> = serde_json::from_value(value.clone()).map_err(|e| e.to_string())?;
    Ok(found.map(|w| EditNode {
        changes: w.changes.map(|m| m.into_iter().map(|(uri, edits)| (uri.as_str().to_string(), edits.into_iter().map(edit).collect())).collect()),
        document_changes: w.document_changes,
    }))
}

/// `serde_json::to_string_pretty` on `lsp_types::DocumentChanges`. What it prints depends on
/// the changes alone.
#[verifier::external_body]
fn changes_to_string_pretty(changes: &lsp_types::DocumentChanges) -> (r: Result<
    String,
    serde_json::Error,
>)
    ensures
        printed_changes(*changes) == (match r {
            Ok(text) => Some(text@),
            Err(_) => None,
        }),
{
    serde_json::to_string_pretty(changes)
}

/// The variants of `lsp_types::DocumentChanges`.
#[verifier::external_body]
fn change_nodes(changes: lsp_types::DocumentChanges) -> (r: ChangeNodes)
    ensures
        change_nodes_view(r) == ordered_changes(changes),
{
    match changes {
        lsp_types::DocumentChanges::Edits(list) => ChangeNodes::Edits(list),
        lsp_types::DocumentChanges::Operations(list) => ChangeNodes::Operations(list),
    }
}

/// The variants of `lsp_types::DocumentChangeOperation`.
#[verifier::external_body]
fn operation_node(op: lsp_types::DocumentChangeOperation) -> (r: OperationNode)
    ensures
        operation_node_view(r) == change_operation(op),
{
    match op {
        lsp_types::DocumentChangeOperation::Edit(edit) => OperationNode::Edit(edit),
        lsp_types::DocumentChangeOperation::Op(op) => OperationNode::Op(op),
    }
}

/// The variants of `lsp_types::ResourceOp`, with the fields that the library reads.
#[verifier::external_body]
fn file_operation_of(op: lsp_types::ResourceOp) -> (r: FileOperation)
    ensures
        ChangeOperation::Op(r)@ == file_operation(op),
{
    match op {
        lsp_types::ResourceOp::Create(c) => FileOperation::Create(CreateFile {
            uri: c.uri.as_str().to_string(),
            options: c.options.map(|o| CreateFileOptions { overwrite: o.overwrite, ignore_if_exists: o.ignore_if_exists }),
        }),
        lsp_types::ResourceOp::Rename(n) => FileOperation::Rename(RenameFile {
            old_uri: n.old_uri.as_str().to_string(), new_uri: n.new_uri.as_str().to_string(),
            options: n.options.map(|o| RenameFileOptions { overwrite: o.overwrite, ignore_if_exists: o.ignore_if_exists }),
        }),
        lsp_types::ResourceOp::Delete(d) => FileOperation::Delete(DeleteFile {
            uri: d.uri.as_str().to_string(),
            options: d.options.map(|o| DeleteFileOptions { recursive: o.recursive, ignore_if_not_exists: o.ignore_if_not_exists }),
        }),
    }
}

/// No document is listed twice.
pub open spec fn listed_once(list: Seq<(String, Vec<TextEdit>)>) -> bool {
    forall|i: int, j: int| 0 <= i < j < list.len() ==> list[i].0@ != list[j].0@
}

/// The fields of `lsp_types::TextDocumentEdit` that the library reads.
#[verifier::external_body]
fn document_edit_of(edit: lsp_types::TextDocumentEdit) -> (r: DocumentEdit)
    ensures
        r@ == document_edit(edit),
{
    let at = |p: lsp_types::Position| Position { line: p.line, character: p.character };
    let plain = |e: lsp_types::TextEdit| TextEdit { range: Range { start: at(e.range.start), end: at(e.range.end) }, new_text: e.new_text };
    let edits = edit.edits.into_iter().map(|e| match e {
        lsp_types::OneOf::Left(e) => OneOf::Left(plain(e)),
        lsp_types::OneOf::Right(a) => OneOf::Right(AnnotatedTextEdit { text_edit: plain(a.text_edit), annotation_id: a.annotation_id }),
    }).collect();
    DocumentEdit { uri: edit.text_document.uri.as_str().to_string(), edits }
}

fn operation_of(op: lsp_types::DocumentChangeOperation) -> (r: ChangeOperation)
    ensures
        r@ == change_operation(op),
{
    match operation_node(op) {
        OperationNode::Edit(edit) => ChangeOperation::Edit(document_edit_of(edit)),
        OperationNode::Op(op) => ChangeOperation::Op(file_operation_of(op)),
    }
}

fn changes_of(changes: lsp_types::DocumentChanges) -> (r: OrderedChanges)
    ensures
        r@ == ordered_changes(changes),
{
    match change_nodes(changes) {
        ChangeNodes::Edits(list) => {
            let ghost wanted = document_edits(list@);
            let mut out: Vec<DocumentEdit> = Vec::new();
            for edit in it: list
                invariant
                    it.seq() == list@,
                    wanted == document_edits(list@),
                    types::views(out@) == wanted.take(it.index() as int),
            {
                let next = document_edit_of(edit);
                assert(types::views(out@.push(next)) == types::views(out@).push(next@));
                out.push(next);
            }
            assert(wanted.take(wanted.len() as int) == wanted);
            OrderedChanges::Edits(out)
        },
        ChangeNodes::Operations(list) => {
            let ghost wanted = change_operations(list@);
            let mut out: Vec<ChangeOperation> = Vec::new();
            for op in it: list
                invariant
                    it.seq() == list@,
                    wanted == change_operations(list@),
                    types::views(out@) == wanted.take(it.index() as int),
            {
                let next = operation_of(op);
                assert(types::views(out@.push(next)) == types::views(out@).push(next@));
                out.push(next);
            }
            assert(wanted.take(wanted.len() as int) == wanted);
            OrderedChanges::Operations(out)
        },
    }
}

/// Decodes the response to `textDocument/rename`.
pub fn decode_edit(value: &Json) -> (r: Result<Option<ProposedEdit>, String>)
    ensures
        decoded(r) == where_uris_fit(value@, Shape::WorkspaceEdit, rename_response(value@)),
        r matches Ok(Some(proposed)) ==> (proposed.edit.changes matches Some(list) ==> listed_once(
            list@,
        )),
{
    if !has_fitting_uris(value, Shape::WorkspaceEdit) {
        return Err("uri too long".to_string());
    }
    match edit_from_value(&value.to_value()) {
        Err(text) => Err(text),
        Ok(None) => Ok(None),
        Ok(Some(node)) => {
            let printed = match &node.document_changes {
                Some(changes) => match changes_to_string_pretty(changes) {
                    Ok(text) => Some(text),
                    Err(_) => None,
                },
                None => None,
            };
            let document_changes = match node.document_changes {
                Some(changes) => Some(changes_of(changes)),
                None => None,
            };
            Ok(
                Some(
                    ProposedEdit {
                        edit: WorkspaceEdit { changes: node.changes, document_changes },
                        document_changes: printed,
                    },
                ),
            )
        },
    }
}

// ---- laws ----

/// Of a list as it came, every element is taken over, in the order of the list.
pub proof fn law_lists_are_taken_over(
    places: Seq<lsp_types::Location>,
    targets: Seq<lsp_types::LocationLink>,
    symbols: Seq<lsp_types::DocumentSymbol>,
    flat: Seq<lsp_types::SymbolInformation>,
    edits: Seq<lsp_types::TextDocumentEdit>,
    operations: Seq<lsp_types::DocumentChangeOperation>,
    i: int,
)
    ensures
        locations(places).len() == places.len(),
        0 <= i < places.len() ==> locations(places)[i] == location(places[i]),
        links(targets).len() == targets.len(),
        0 <= i < targets.len() ==> links(targets)[i] == link(targets[i]),
        symbol_trees(symbols).len() == symbols.len(),
        0 <= i < symbols.len() ==> symbol_trees(symbols)[i] == symbol_tree(symbols[i]),
        flat_symbols(flat).len() == flat.len(),
        0 <= i < flat.len() ==> flat_symbols(flat)[i] == flat_symbol(flat[i]),
        document_edits(edits).len() == edits.len(),
        0 <= i < edits.len() ==> document_edits(edits)[i] == document_edit(edits[i]),
        change_operations(operations).len() == operations.len(),
        0 <= i < operations.len() ==> change_operations(operations)[i] == change_operation(
            operations[i],
        ),
{
}

/// A response whose URIs are short enough is what `lsp_types` reads from it, and any other one
/// is refused.
pub proof fn law_long_uris_are_refused<V>(
    tree: JsonTree,
    shape: Shape,
    response: Result<Option<V>, Seq<char>>,
)
    ensures
        uris::fits(tree, shape) ==> where_uris_fit(tree, shape, response) == response,
        !uris::fits(tree, shape) ==> where_uris_fit(tree, shape, response) == Err::<Option<V>, _>(
            "uri too long"@,
        ),
        uris::fits(tree, Shape::Diagnostics) ==> diagnostics_given(tree) == published_diagnostics(
            tree,
        ),
        !uris::fits(tree, Shape::Diagnostics) ==> diagnostics_given(tree) is None,
        uris::fits(tree, Shape::Configuration) ==> items_given(tree) == configuration_items(tree),
        !uris::fits(tree, Shape::Configuration) ==> items_given(tree) is None,
{
}

/// What is decoded is handed out as it is: a value, a list with each of its elements, nothing,
/// or the text of an error.
pub proof fn law_decoded<T: View>(value: T, list: Vec<T>, text: String, i: int)
    ensures
        decoded(Ok::<Option<T>, String>(Some(value))) == Ok::<_, Seq<char>>(Some(value@)),
        decoded(Ok::<Option<T>, String>(None)) == Ok::<_, Seq<char>>(None::<T::V>),
        decoded(Err::<Option<T>, String>(text)) == Err::<Option<T::V>, _>(text@),
        decoded_list(Ok::<Option<Vec<T>>, String>(None)) == Ok::<_, Seq<char>>(None::<Seq<T::V>>),
        decoded_list(Err::<Option<Vec<T>>, String>(text)) == Err::<Option<Seq<T::V>>, _>(text@),
        decoded_list(Ok::<Option<Vec<T>>, String>(Some(list))) is Ok,
        decoded_list(Ok::<Option<Vec<T>>, String>(Some(list)))->Ok_0 is Some,
        ({
            let shown = decoded_list(Ok::<Option<Vec<T>>, String>(Some(list)))->Ok_0->Some_0;
            shown.len() == list@.len() && (0 <= i < list@.len() ==> shown[i] == list@[i]@)
        }),
{
}

/// Where no document is listed twice, no two places have the same URI.
pub proof fn law_listed_once(list: Seq<(String, Vec<TextEdit>)>, i: int, j: int)
    ensures
        listed_once(list) && 0 <= i < list.len() && 0 <= j < list.len() && i != j
            ==> list[i].0@ != list[j].0@,
{
    if listed_once(list) && 0 <= i < list.len() && 0 <= j < list.len() && i != j {
        if i < j {
            assert(list[i].0@ != list[j].0@);
        } else {
            assert(list[j].0@ != list[i].0@);
        }
    }
}

} // verus!
