//! The `lsp_*` tools: what each asks of a language server, and what it answers.

use crate::json;
use crate::json::{Json, JsonTree};
use crate::lsp::client;
use crate::lsp::client::{ClientView, Feature, LspClient, Outgoing};
use crate::lsp::conv;
use crate::lsp::conv::uri_from_path;
use crate::lsp::edit;
use crate::lsp::edit::{apply_to_disk, AppliedChange, ChangeView, DiskAction, DiskRun, EditError};
use crate::lsp::messages;
use crate::lsp::reply;
use crate::lsp::reply::{
    decode_completion, decode_definition, decode_edit, decode_hover, decode_references,
    decode_symbols, ProposedEdit,
};
use crate::lsp::types;
use crate::lsp::types::{
    CompletionItem, CompletionItemView, DefinitionView, Diagnostic, DocumentSymbolResponse,
    DocumentSymbolsView, GotoDefinitionResponse, Hover, HoverView, Place, PlaceView, Position,
};
use crate::lsp::uris::Shape;
use crate::paths;
use crate::paths::display;
use crate::strings;
use crate::strings::push_decimal;
use crate::text;
use crate::text::{
    format_completion, format_definition, format_diagnostics, format_document_symbols, format_hover,
    format_references, format_workspace_edit, format_workspace_symbols, join,
};
use std::path::PathBuf;
use vstd::prelude::*;

verus! {

// ---------------- tool parameters ----------------

/// A workspace directory, by its absolute path.
#[derive(Debug)]
pub struct WorkspacePathParam {
    pub workspace_path: String,
}

/// A file, by its absolute path.
#[derive(Debug)]
pub struct FileParam {
    pub file_path: String,
}

/// A 0-based position in a file; the character counts UTF-16 code units.
#[derive(Debug)]
pub struct PositionParam {
    pub file_path: String,
    pub line: u32,
    pub character: u32,
}

/// A position, and whether the declaration counts as a reference (it does by default).
#[derive(Debug)]
pub struct ReferencesParam {
    pub file_path: String,
    pub line: u32,
    pub character: u32,
    pub include_declaration: Option<bool>,
}

/// A position, the new name of the symbol there, and whether to write the edits to disk (by
/// default they are only shown).
#[derive(Debug)]
pub struct RenameParam {
    pub file_path: String,
    pub line: u32,
    pub character: u32,
    pub new_name: String,
    pub apply: Option<bool>,
}

/// A query for symbols; the file anchors the workspace and the language.
#[derive(Debug)]
pub struct WorkspaceSymbolParam {
    pub file_path: String,
    pub query: String,
}

/// Any LSP request; the file anchors the workspace and the language.
#[derive(Debug)]
pub struct RawRequestParam {
    pub file_path: String,
    pub method: String,
    pub params: Option<Json>,
}

/// A workspace directory, and how many lines of each log to show.
#[derive(Debug)]
pub struct ServerLogsParam {
    pub workspace_path: String,
    pub lines: Option<usize>,
}

impl PositionParam {
    /// The position in the file.
    pub fn position(&self) -> (r: Position)
        ensures
            r == (Position { line: self.line, character: self.character }),
    {
        Position { line: self.line, character: self.character }
    }
}

impl ReferencesParam {
    /// The position in the file.
    pub fn position(&self) -> (r: Position)
        ensures
            r == (Position { line: self.line, character: self.character }),
    {
        Position { line: self.line, character: self.character }
    }

    /// Whether the declaration counts as a reference.
    pub open spec fn includes_declaration(&self) -> bool {
        self.include_declaration != Some(false)
    }
}

impl RenameParam {
    /// The position in the file.
    pub fn position(&self) -> (r: Position)
        ensures
            r == (Position { line: self.line, character: self.character }),
    {
        Position { line: self.line, character: self.character }
    }

    /// Whether the edits are to be written to disk.
    pub fn applies(&self) -> (r: bool)
        ensures
            r == (self.apply == Some(true)),
    {
        match self.apply {
            Some(apply) => apply,
            None => false,
        }
    }
}

impl ServerLogsParam {
    /// How many lines of each log to show: a hundred by default.
    pub fn line_count(&self) -> (r: usize)
        ensures
            r == (match self.lines {
                Some(lines) => lines,
                None => 100,
            }),
    {
        match self.lines {
            Some(lines) => lines,
            None => 100,
        }
    }
}

// ---------------- replies ----------------

/// What a tool answers.
#[derive(Debug)]
pub enum ToolReply {
    Success(String),
    Failure(String),
}

/// The content of a [`ToolReply`].
#[verifier::ext_equal]
pub enum ReplyView {
    Success(Seq<char>),
    Failure(Seq<char>),
}

impl View for ToolReply {
    type V = ReplyView;

    open spec fn view(&self) -> ReplyView {
        match self {
            ToolReply::Success(text) => ReplyView::Success(text@),
            ToolReply::Failure(text) => ReplyView::Failure(text@),
        }
    }
}

/// A text, or a text that says what is wrong.
pub open spec fn result_view(r: Result<Json, String>) -> Result<JsonTree, Seq<char>> {
    match r {
        Ok(value) => Ok(value@),
        Err(text) => Err(text@),
    }
}

/// The failure of `what`, for a reason.
pub open spec fn failed(what: Seq<char>, reason: Seq<char>) -> ReplyView {
    ReplyView::Failure(what + " failed: "@ + reason)
}

fn failure(what: &str, reason: &str) -> (r: ToolReply)
    ensures
        r@ == failed(what@, reason@),
{
    let mut out = String::new();
    out.push_str(what);
    out.push_str(" failed: ");
    out.push_str(reason);
    assert(out@ =~= what@ + " failed: "@ + reason@);
    ToolReply::Failure(out)
}

fn success(text: &str) -> (r: ToolReply)
    ensures
        r@ == ReplyView::Success(text@),
{
    ToolReply::Success(text.to_string())
}

// ---------------- workspaces ----------------

/// Answers `lsp_activate_workspace`: the resolved path, or why there is none.
pub fn activate_reply(result: Result<PathBuf, String>) -> (r: ToolReply)
    ensures
        r@ == (match result {
            Ok(path) => ReplyView::Success(
                "activated: "@ + paths::shown(paths::path_bytes(path)),
            ),
            Err(reason) => failed("activate"@, reason@),
        }),
{
    match result {
        Ok(path) => {
            let mut out = String::new();
            out.push_str("activated: ");
            out.push_str(display(&path).as_str());
            assert(out@ =~= "activated: "@ + paths::shown(paths::path_bytes(path)));
            ToolReply::Success(out)
        },
        Err(reason) => failure("activate", reason.as_str()),
    }
}

/// The text of a list of workspaces.
pub open spec fn workspaces_text(workspaces: Seq<Seq<u8>>) -> Seq<char> {
    if workspaces.len() == 0 {
        "No active workspaces."@
    } else {
        text::joined(
            Seq::new(workspaces.len(), |i: int| "- "@ + paths::shown(workspaces[i])),
            "\n"@,
        )
    }
}

/// Answers `lsp_list_workspaces`.
pub fn list_reply(workspaces: &Vec<PathBuf>) -> (r: ToolReply)
    ensures
        r@ == ReplyView::Success(workspaces_text(paths::paths_bytes(workspaces@))),
{
    if workspaces.len() == 0 {
        return success("No active workspaces.");
    }
    let ghost all = paths::paths_bytes(workspaces@);
    let ghost wanted = Seq::new(all.len(), |i: int| "- "@ + paths::shown(all[i]));
    let mut lines: Vec<String> = Vec::new();
    let mut i: usize = 0;
    while i < workspaces.len()
        invariant
            i <= workspaces@.len(),
            all == paths::paths_bytes(workspaces@),
            wanted == Seq::new(all.len(), |i: int| "- "@ + paths::shown(all[i])),
            strings::texts(lines@) == wanted.take(i as int),
        decreases workspaces.len() - i,
    {
        let mut line = String::new();
        line.push_str("- ");
        line.push_str(display(&workspaces[i]).as_str());
        assert(line@ =~= wanted[i as int]);
        assert(strings::texts(lines@.push(line)) == strings::texts(lines@).push(line@));
        lines.push(line);
        i = i + 1;
    }
    assert(wanted.take(i as int) == wanted);
    ToolReply::Success(join(&lines, "\n"))
}

/// Answers `lsp_deactivate_workspace`, given whether the workspace was active.
pub fn deactivate_reply(result: Result<bool, String>) -> (r: ToolReply)
    ensures
        r@ == (match result {
            Ok(true) => ReplyView::Success("deactivated."@),
            Ok(false) => ReplyView::Failure("workspace was not active."@),
            Err(reason) => failed("deactivate"@, reason@),
        }),
{
    match result {
        Ok(active) => if active {
            success("deactivated.")
        } else {
            ToolReply::Failure("workspace was not active.".to_string())
        },
        Err(reason) => failure("deactivate", reason.as_str()),
    }
}

/// The text of the log of one server.
pub open spec fn log_text(language_id: Seq<char>, lines: Seq<Seq<char>>) -> Seq<char> {
    "["@ + language_id + "]\n"@ + text::joined(lines, "\n"@)
}

/// The text of the logs of a workspace.
pub open spec fn logs_text(logs: Seq<(String, Vec<String>)>) -> Seq<char> {
    if logs.len() == 0 {
        "No language servers running."@
    } else {
        text::joined(
            Seq::new(
                logs.len(),
                |i: int| log_text(logs[i].0@, strings::texts(logs[i].1@)),
            ),
            "\n\n"@,
        )
    }
}

/// Answers `lsp_get_server_logs`, given the language and the last lines of each server.
pub fn logs_reply(logs: &Vec<(String, Vec<String>)>) -> (r: ToolReply)
    ensures
        r@ == ReplyView::Success(logs_text(logs@)),
{
    if logs.len() == 0 {
        return success("No language servers running.");
    }
    let ghost wanted = Seq::new(
        logs@.len(),
        |i: int| log_text(logs@[i].0@, strings::texts(logs@[i].1@)),
    );
    let mut parts: Vec<String> = Vec::new();
    let mut i: usize = 0;
    while i < logs.len()
        invariant
            i <= logs@.len(),
            wanted == Seq::new(
                logs@.len(),
                |i: int| log_text(logs@[i].0@, strings::texts(logs@[i].1@)),
            ),
            strings::texts(parts@) == wanted.take(i as int),
        decreases logs.len() - i,
    {
        let mut part = String::new();
        part.push_str("[");
        part.push_str(logs[i].0.as_str());
        part.push_str("]\n");
        part.push_str(join(&logs[i].1, "\n").as_str());
        assert(part@ =~= wanted[i as int]);
        assert(strings::texts(parts@.push(part)) == strings::texts(parts@).push(part@));
        parts.push(part);
        i = i + 1;
    }
    assert(wanted.take(i as int) == wanted);
    ToolReply::Success(join(&parts, "\n\n"))
}

// ---------------- requests ----------------

/// What a tool does first.
#[derive(Debug)]
pub enum ToolStep {
    /// Send this request, and answer with its result.
    Send(Outgoing),
    /// Answer at once.
    Reply(ToolReply),
}

/// The text that says that a feature is missing.
pub open spec fn refusal(feature: Feature) -> Seq<char> {
    match feature {
        Feature::Hover => "server does not support hover"@,
        Feature::Definition => "server does not support goto definition"@,
        Feature::References => "server does not support references"@,
        Feature::Completion => "server does not support completion"@,
        Feature::DocumentSymbol => "server does not support document symbols"@,
        Feature::WorkspaceSymbol => "server does not support workspace symbols"@,
        Feature::Rename => "server does not support rename"@,
    }
}

/// A tool that needs a feature: it sends its request where the feature may be used, and is
/// answered with a clean error otherwise, with nothing sent and nothing changed.
pub open spec fn gated<T>(
    step: ToolStep,
    before: ClientView<T>,
    after: ClientView<T>,
    feature: Feature,
    method: Seq<char>,
    params: JsonTree,
    waiter: T,
) -> bool {
    if client::supports(before.caps, feature) {
        (step matches ToolStep::Send(out) && client::is_request(out, before, method, params))
            && after == client::requested(before, waiter)
    } else {
        (step matches ToolStep::Reply(reply) && reply@ == ReplyView::Failure(refusal(feature)))
            && after == before
    }
}

fn refuse(text: &str) -> (r: ToolStep)
    ensures
        r matches ToolStep::Reply(reply) && reply@ == ReplyView::Failure(text@),
{
    ToolStep::Reply(ToolReply::Failure(text.to_string()))
}

/// Begins `lsp_hover`.
pub fn lsp_hover<T>(session: &mut LspClient<T>, uri: &str, p: &PositionParam, waiter: T) -> (r: ToolStep)
    ensures
        gated(
            r,
            old(session)@,
            final(session)@,
            Feature::Hover,
            "textDocument/hover"@,
            messages::position_params_tree(
                uri@,
                Position { line: p.line, character: p.character },
            ),
            waiter,
        ),
{
    if !session.supports_hover() {
        return refuse("server does not support hover");
    }
    ToolStep::Send(session.hover(uri, p.position(), waiter))
}

/// Begins `lsp_goto_definition`.
pub fn lsp_goto_definition<T>(
    session: &mut LspClient<T>,
    uri: &str,
    p: &PositionParam,
    waiter: T,
) -> (r: ToolStep)
    ensures
        gated(
            r,
            old(session)@,
            final(session)@,
            Feature::Definition,
            "textDocument/definition"@,
            messages::position_params_tree(
                uri@,
                Position { line: p.line, character: p.character },
            ),
            waiter,
        ),
{
    if !session.supports_definition() {
        return refuse("server does not support goto definition");
    }
    ToolStep::Send(session.definition(uri, p.position(), waiter))
}

/// Begins `lsp_find_references`.
pub fn lsp_find_references<T>(
    session: &mut LspClient<T>,
    uri: &str,
    p: &ReferencesParam,
    waiter: T,
) -> (r: ToolStep)
    ensures
        gated(
            r,
            old(session)@,
            final(session)@,
            Feature::References,
            "textDocument/references"@,
            messages::reference_params_tree(
                uri@,
                Position { line: p.line, character: p.character },
                p.includes_declaration(),
            ),
            waiter,
        ),
{
    if !session.supports_references() {
        return refuse("server does not support references");
    }
    let includes: bool = match p.include_declaration {
        Some(includes) => includes,
        None => true,
    };
    ToolStep::Send(session.references(uri, p.position(), includes, waiter))
}

/// Begins `lsp_completion`.
pub fn lsp_completion<T>(
    session: &mut LspClient<T>,
    uri: &str,
    p: &PositionParam,
    waiter: T,
) -> (r: ToolStep)
    ensures
        gated(
            r,
            old(session)@,
            final(session)@,
            Feature::Completion,
            "textDocument/completion"@,
            messages::position_params_tree(
                uri@,
                Position { line: p.line, character: p.character },
            ),
            waiter,
        ),
{
    if !session.supports_completion() {
        return refuse("server does not support completion");
    }
    ToolStep::Send(session.completion(uri, p.position(), waiter))
}

/// Begins `lsp_document_symbols`.
pub fn lsp_document_symbols<T>(session: &mut LspClient<T>, uri: &str, waiter: T) -> (r: ToolStep)
    ensures
        gated(
            r,
            old(session)@,
            final(session)@,
            Feature::DocumentSymbol,
            "textDocument/documentSymbol"@,
            messages::document_params_tree(uri@),
            waiter,
        ),
{
    if !session.supports_document_symbol() {
        return refuse("server does not support document symbols");
    }
    ToolStep::Send(session.document_symbols(uri, waiter))
}

/// Begins `lsp_workspace_symbols`.
pub fn lsp_workspace_symbols<T>(
    session: &mut LspClient<T>,
    p: &WorkspaceSymbolParam,
    waiter: T,
) -> (r: ToolStep)
    ensures
        gated(
            r,
            old(session)@,
            final(session)@,
            Feature::WorkspaceSymbol,
            "workspace/symbol"@,
            messages::query_params_tree(p.query@),
            waiter,
        ),
{
    if !session.supports_workspace_symbol() {
        return refuse("server does not support workspace symbols");
    }
    ToolStep::Send(session.workspace_symbols(p.query.as_str(), waiter))
}

/// Begins `lsp_rename_symbol`.
pub fn lsp_rename_symbol<T>(
    session: &mut LspClient<T>,
    uri: &str,
    p: &RenameParam,
    waiter: T,
) -> (r: ToolStep)
    ensures
        gated(
            r,
            old(session)@,
            final(session)@,
            Feature::Rename,
            "textDocument/rename"@,
            messages::rename_params_tree(
                uri@,
                Position { line: p.line, character: p.character },
                p.new_name@,
            ),
            waiter,
        ),
{
    if !session.supports_rename() {
        return refuse("server does not support rename");
    }
    ToolStep::Send(session.rename(uri, p.position(), p.new_name.as_str(), waiter))
}

/// The parameters of a raw request: `null` where none are given.
pub open spec fn raw_params(params: Option<Json>) -> JsonTree {
    match params {
        Some(params) => params@,
        None => JsonTree::Null,
    }
}

/// Begins `lsp_raw_request`, which needs no feature: the server refuses what it does not
/// know.
pub fn lsp_raw_request<T>(session: &mut LspClient<T>, p: &RawRequestParam, waiter: T) -> (r: Outgoing)
    ensures
        client::is_request(r, old(session)@, p.method@, raw_params(p.params)),
        final(session)@ == client::requested(old(session)@, waiter),
{
    let params = match &p.params {
        Some(params) => params.clone(),
        None => Json::Null,
    };
    session.request_raw(p.method.as_str(), params, waiter)
}

// ---------------- answers ----------------

/// What `what` answers, given the text to show or the reason of its failure.
pub open spec fn answered(what: Seq<char>, result: Result<Seq<char>, Seq<char>>) -> ReplyView {
    match result {
        Ok(text) => ReplyView::Success(text),
        Err(reason) => failed(what, reason),
    }
}

/// The text to show for a hover.
pub open spec fn hover_shown(decoded: Result<Option<HoverView>, Seq<char>>) -> Result<
    Seq<char>,
    Seq<char>,
> {
    match decoded {
        Ok(hover) => Ok(text::hover_text(hover)),
        Err(reason) => Err(reason),
    }
}

/// The text to show for a definition.
pub open spec fn definition_shown(decoded: Result<Option<DefinitionView>, Seq<char>>) -> Result<
    Seq<char>,
    Seq<char>,
> {
    match decoded {
        Ok(def) => Ok(text::definition_text(def)),
        Err(reason) => Err(reason),
    }
}

/// The text to show for references.
pub open spec fn references_shown(decoded: Result<Option<Seq<PlaceView>>, Seq<char>>) -> Result<
    Seq<char>,
    Seq<char>,
> {
    match decoded {
        Ok(refs) => Ok(text::references_text(refs)),
        Err(reason) => Err(reason),
    }
}

/// The text to show for completions.
pub open spec fn completion_shown(
    decoded: Result<Option<Seq<CompletionItemView>>, Seq<char>>,
) -> Result<Seq<char>, Seq<char>> {
    match decoded {
        Ok(comp) => Ok(text::completion_text(comp)),
        Err(reason) => Err(reason),
    }
}

/// The text to show for the symbols of a document.
pub open spec fn symbols_shown(decoded: Result<Option<DocumentSymbolsView>, Seq<char>>) -> Result<
    Seq<char>,
    Seq<char>,
> {
    match decoded {
        Ok(syms) => Ok(text::document_symbols_text(syms)),
        Err(reason) => Err(reason),
    }
}

/// Answers `lsp_hover`, given the decoded response.
pub fn hover_answer(decoded: Result<Option<Hover>, String>) -> (r: ToolReply)
    ensures
        r@ == answered("hover"@, hover_shown(reply::decoded(decoded))),
{
    match decoded {
        Ok(hover) => ToolReply::Success(format_hover(hover)),
        Err(reason) => failure("hover", reason.as_str()),
    }
}

/// Answers `lsp_hover`, given the result of its request.
pub fn hover_reply(result: Result<Json, String>) -> (r: ToolReply)
    ensures
        r@ == (match result_view(result) {
            Ok(tree) => answered("hover"@, hover_shown(reply::hover_response(tree))),
            Err(reason) => failed("hover"@, reason),
        }),
{
    match result {
        Ok(value) => hover_answer(decode_hover(&value)),
        Err(reason) => failure("hover", reason.as_str()),
    }
}

/// Answers `lsp_goto_definition`, given the decoded response.
pub fn definition_answer(decoded: Result<Option<GotoDefinitionResponse>, String>) -> (r: ToolReply)
    ensures
        r@ == answered("definition"@, definition_shown(reply::decoded(decoded))),
{
    match decoded {
        Ok(def) => ToolReply::Success(format_definition(def)),
        Err(reason) => failure("definition", reason.as_str()),
    }
}

/// Answers `lsp_goto_definition`, given the result of its request.
pub fn definition_reply(result: Result<Json, String>) -> (r: ToolReply)
    ensures
        r@ == (match result_view(result) {
            Ok(tree) => answered(
                "definition"@,
                definition_shown(
                    reply::where_uris_fit(tree, Shape::Definition, reply::definition_response(tree)),
                ),
            ),
            Err(reason) => failed("definition"@, reason),
        }),
{
    match result {
        Ok(value) => definition_answer(decode_definition(&value)),
        Err(reason) => failure("definition", reason.as_str()),
    }
}

/// Answers `lsp_find_references`, given the decoded response.
pub fn references_answer(decoded: Result<Option<Vec<Place>>, String>) -> (r: ToolReply)
    ensures
        r@ == answered("references"@, references_shown(reply::decoded_list(decoded))),
{
    match decoded {
        Ok(refs) => ToolReply::Success(format_references(refs)),
        Err(reason) => failure("references", reason.as_str()),
    }
}

/// Answers `lsp_find_references`, given the result of its request.
pub fn references_reply(result: Result<Json, String>) -> (r: ToolReply)
    ensures
        r@ == (match result_view(result) {
            Ok(tree) => answered(
                "references"@,
                references_shown(
                    reply::where_uris_fit(tree, Shape::References, reply::references_response(tree)),
                ),
            ),
            Err(reason) => failed("references"@, reason),
        }),
{
    match result {
        Ok(value) => references_answer(decode_references(&value)),
        Err(reason) => failure("references", reason.as_str()),
    }
}

/// Answers `lsp_completion`, given the decoded response.
pub fn completion_answer(decoded: Result<Option<Vec<CompletionItem>>, String>) -> (r: ToolReply)
    ensures
        r@ == answered("completion"@, completion_shown(reply::decoded_list(decoded))),
{
    match decoded {
        Ok(comp) => ToolReply::Success(format_completion(comp)),
        Err(reason) => failure("completion", reason.as_str()),
    }
}

/// Answers `lsp_completion`, given the result of its request.
pub fn completion_reply(result: Result<Json, String>) -> (r: ToolReply)
    ensures
        r@ == (match result_view(result) {
            Ok(tree) => answered("completion"@, completion_shown(reply::completion_response(tree))),
            Err(reason) => failed("completion"@, reason),
        }),
{
    match result {
        Ok(value) => completion_answer(decode_completion(&value)),
        Err(reason) => failure("completion", reason.as_str()),
    }
}

/// Answers `lsp_diagnostics`.
pub fn diagnostics_reply(diags: &Vec<Diagnostic>) -> (r: ToolReply)
    ensures
        r@ == ReplyView::Success(text::diagnostics_text(types::views(diags@))),
{
    ToolReply::Success(format_diagnostics(diags))
}

/// Answers `lsp_document_symbols`, given the decoded response.
pub fn symbols_answer(decoded: Result<Option<DocumentSymbolResponse>, String>) -> (r: ToolReply)
    ensures
        r@ == answered("document symbols"@, symbols_shown(reply::decoded(decoded))),
{
    match decoded {
        Ok(syms) => ToolReply::Success(format_document_symbols(syms)),
        Err(reason) => failure("document symbols", reason.as_str()),
    }
}

/// Answers `lsp_document_symbols`, given the result of its request.
pub fn symbols_reply(result: Result<Json, String>) -> (r: ToolReply)
    ensures
        r@ == (match result_view(result) {
            Ok(tree) => answered(
                "document symbols"@,
                symbols_shown(
                    reply::where_uris_fit(tree, Shape::Symbols, reply::symbols_response(tree)),
                ),
            ),
            Err(reason) => failed("document symbols"@, reason),
        }),
{
    match result {
        Ok(value) => symbols_answer(decode_symbols(&value)),
        Err(reason) => failure("document symbols", reason.as_str()),
    }
}

/// Answers `lsp_workspace_symbols`, given the result of its request.
pub fn workspace_symbols_reply(result: Result<Json, String>) -> (r: ToolReply)
    ensures
        r@ == (match result_view(result) {
            Ok(tree) => ReplyView::Success(text::found_symbols_text(Some(tree))),
            Err(reason) => failed("workspace symbols"@, reason),
        }),
{
    match result {
        Ok(value) => ToolReply::Success(format_workspace_symbols(Some(value))),
        Err(reason) => failure("workspace symbols", reason.as_str()),
    }
}

/// Answers `lsp_raw_request`, given the result of its request.
pub fn raw_reply(p: &RawRequestParam, result: Result<Json, String>) -> (r: ToolReply)
    ensures
        r@ == (match result_view(result) {
            Ok(tree) => ReplyView::Success(json::json_pretty_text(tree)),
            Err(reason) => failed(p.method@, reason),
        }),
{
    match result {
        Ok(value) => ToolReply::Success(value.pretty()),
        Err(reason) => failure(p.method.as_str(), reason.as_str()),
    }
}

// ---------------- rename ----------------

/// How `lsp_rename_symbol` goes on once it has the response.
pub enum RenamePlan {
    /// Answer at once: nothing is written.
    Reply(ToolReply),
    /// Write the edits to disk, with this run and beginning with this action; `shown` is the
    /// text of the edits.
    Apply { run: DiskRun, action: DiskAction, shown: String },
}

/// The text of a proposed edit.
pub open spec fn proposal_text(proposed: ProposedEdit) -> Seq<char> {
    text::workspace_edit_text(
        Some(&proposed.edit),
        match proposed.document_changes {
            Some(printed) => printed@,
            None => Seq::empty(),
        },
    )
}

/// A run that has just begun to apply a proposed edit.
pub open spec fn begins(run: DiskRun, action: DiskAction, proposed: ProposedEdit) -> bool {
    edit::run_wf(run@) && (run@, action@) == edit::begun(
        edit::RunView {
            steps: edit::edit_steps(proposed.edit),
            next: 0,
            phase: edit::PhaseView::Over,
            applied: Seq::empty(),
        },
    )
}

/// `plan` is how to go on with a proposed edit.
pub open spec fn is_plan(plan: RenamePlan, proposed: ProposedEdit, applies: bool) -> bool {
    if applies {
        plan matches RenamePlan::Apply { run, action, shown } && begins(run, action, proposed)
            && shown@ == proposal_text(proposed)
    } else {
        plan matches RenamePlan::Reply(reply) && reply@ == ReplyView::Success(
            proposal_text(proposed),
        )
    }
}

/// Goes on with `lsp_rename_symbol`, given the decoded response.
pub fn plan_rename(p: &RenameParam, decoded: Result<Option<ProposedEdit>, String>) -> (r: RenamePlan)
    ensures
        match decoded {
            Ok(Some(proposed)) => is_plan(r, proposed, p.apply == Some(true)),
            Ok(None) => r matches RenamePlan::Reply(reply) && reply@ == ReplyView::Failure(
                "no rename edits produced"@,
            ),
            Err(reason) => r matches RenamePlan::Reply(reply) && reply@ == failed(
                "rename"@,
                reason@,
            ),
        },
{
    match decoded {
        Ok(Some(proposed)) => {
            let printed = match &proposed.document_changes {
                Some(printed) => printed.clone(),
                None => String::new(),
            };
            let shown = format_workspace_edit(Some(&proposed.edit), printed.as_str());
            assert(shown@ == proposal_text(proposed));
            if p.applies() {
                let (run, action) = apply_to_disk(proposed.edit);
                RenamePlan::Apply { run, action, shown }
            } else {
                RenamePlan::Reply(ToolReply::Success(shown))
            }
        },
        Ok(None) => RenamePlan::Reply(ToolReply::Failure("no rename edits produced".to_string())),
        Err(reason) => RenamePlan::Reply(failure("rename", reason.as_str())),
    }
}

/// Goes on with `lsp_rename_symbol`, given the result of its request.
pub fn rename_plan(p: &RenameParam, result: Result<Json, String>) -> (r: RenamePlan)
    ensures
        match result_view(result) {
            Ok(tree) => match reply::where_uris_fit(tree, Shape::WorkspaceEdit, reply::rename_response(tree)) {
                Ok(Some(view)) => exists|proposed: ProposedEdit|
                    #[trigger] proposed@ == view && is_plan(r, proposed, p.apply == Some(true))
                        && (proposed.edit.changes matches Some(list) ==> reply::listed_once(list@)),
                Ok(None) => r matches RenamePlan::Reply(reply) && reply@ == ReplyView::Failure(
                    "no rename edits produced"@,
                ),
                Err(reason) => r matches RenamePlan::Reply(reply) && reply@ == failed(
                    "rename"@,
                    reason,
                ),
            },
            Err(reason) => r matches RenamePlan::Reply(reply) && reply@ == failed(
                "rename"@,
                reason,
            ),
        },
{
    match result {
        Ok(value) => {
            let decoded = decode_edit(&value);
            plan_rename(p, decoded)
        },
        Err(reason) => RenamePlan::Reply(failure("rename", reason.as_str())),
    }
}

/// The paths of the files that were changed, as they are shown.
pub open spec fn changed_paths(applied: Seq<ChangeView>) -> Seq<Seq<char>> {
    Seq::new(applied.len(), |i: int| paths::shown(applied[i].path))
}

/// The text that says what was changed.
pub open spec fn applied_text(applied: Seq<ChangeView>, shown: Seq<char>) -> Seq<char> {
    "Applied rename to "@ + strings::decimal(applied.len()) + " file(s) ("@ + text::joined(
        changed_paths(applied),
        ", "@,
    ) + ").\n\nProposed edits were:\n"@ + shown
}

/// Answers `lsp_rename_symbol` after the edits have been written to disk.
pub fn applied_reply(applied: &Vec<AppliedChange>, shown: &str) -> (r: ToolReply)
    ensures
        r@ == ReplyView::Success(applied_text(edit::changes_view(applied@), shown@)),
{
    let ghost wanted = changed_paths(edit::changes_view(applied@));
    let mut names: Vec<String> = Vec::new();
    let mut i: usize = 0;
    while i < applied.len()
        invariant
            i <= applied@.len(),
            wanted == changed_paths(edit::changes_view(applied@)),
            strings::texts(names@) == wanted.take(i as int),
        decreases applied.len() - i,
    {
        let name = display(&applied[i].path);
        assert(strings::texts(names@.push(name)) == strings::texts(names@).push(name@));
        names.push(name);
        i = i + 1;
    }
    assert(wanted.take(i as int) == wanted);
    let mut out = String::new();
    out.push_str("Applied rename to ");
    push_decimal(&mut out, applied.len() as u64);
    out.push_str(" file(s) (");
    out.push_str(join(&names, ", ").as_str());
    out.push_str(").\n\nProposed edits were:\n");
    out.push_str(shown);
    assert(out@ =~= applied_text(edit::changes_view(applied@), shown@));
    ToolReply::Success(out)
}

/// Answers `lsp_rename_symbol` where the edits could not be written to disk.
pub fn apply_failed_reply(error: &EditError) -> (r: ToolReply)
    ensures
        r@ == failed("applying rename edits"@, edit::edit_error_text(error@)),
{
    failure("applying rename edits", error.message().as_str())
}

/// The URIs of the changed files, as far as their paths have one.
pub open spec fn changed(applied: Seq<ChangeView>) -> Seq<Seq<char>>
    decreases applied.len(),
{
    if applied.len() == 0 {
        Seq::empty()
    } else {
        let before = changed(applied.drop_last());
        match conv::path_uri(applied.last().path) {
            Ok(uri) => before.push(uri),
            Err(_) => before,
        }
    }
}

/// The documents to look at again after a rename: each that the edits touched.
pub fn changed_uris(applied: &Vec<AppliedChange>) -> (r: Vec<String>)
    ensures
        strings::texts(r@) == changed(edit::changes_view(applied@)),
{
    let ghost all = edit::changes_view(applied@);
    let mut out: Vec<String> = Vec::new();
    let mut i: usize = 0;
    assert(all.take(0) == Seq::<ChangeView>::empty());
    assert(strings::texts(out@) == Seq::<Seq<char>>::empty());
    while i < applied.len()
        invariant
            i <= applied@.len(),
            all == edit::changes_view(applied@),
            strings::texts(out@) == changed(all.take(i as int)),
        decreases applied.len() - i,
    {
        assert(all.take(i + 1).drop_last() == all.take(i as int));
        assert(all.take(i + 1).last() == applied@[i as int]@);
        if let Ok(uri) = uri_from_path(&applied[i].path) {
            assert(strings::texts(out@.push(uri)) == strings::texts(out@).push(uri@));
            out.push(uri);
        }
        i = i + 1;
    }
    assert(all.take(i as int) == all);
    out
}

// ---------------- laws ----------------

/// A rename writes nothing to disk unless it is told to.
pub proof fn law_rename_is_a_dry_run(plan: RenamePlan, proposed: ProposedEdit, apply: Option<bool>)
    requires
        is_plan(plan, proposed, apply == Some(true)),
    ensures
        plan is Apply <==> apply == Some(true),
{
}

/// Every file that a rename has changed is looked at again, as far as its path has a URI.
pub proof fn law_every_change_is_looked_at(applied: Seq<ChangeView>, i: int)
    requires
        0 <= i < applied.len(),
        conv::path_uri(applied[i].path) is Ok,
    ensures
        changed(applied).contains(conv::path_uri(applied[i].path)->Ok_0),
    decreases applied.len(),
{
    let before = changed(applied.drop_last());
    let uri = conv::path_uri(applied[i].path)->Ok_0;
    if i < applied.len() - 1 {
        law_every_change_is_looked_at(applied.drop_last(), i);
        let k = choose|k: int| 0 <= k < before.len() && before[k] == uri;
        assert(changed(applied)[k] == uri);
    } else {
        assert(changed(applied)[before.len() as int] == uri);
    }
}

/// A tool whose feature the server does not advertise sends nothing and leaves the session as
/// it is.
pub proof fn law_missing_features_send_nothing<T>(
    step: ToolStep,
    before: ClientView<T>,
    after: ClientView<T>,
    feature: Feature,
    method: Seq<char>,
    params: JsonTree,
    waiter: T,
)
    requires
        gated(step, before, after, feature, method, params, waiter),
        before.caps is Some,
        !client::advertises(before.caps->Some_0, feature),
    ensures
        step is Reply,
        step->Reply_0@ == ReplyView::Failure(refusal(feature)),
        after == before,
{
}

/// A workspace that was activated is named by its resolved path; a failure gives its reason.
pub proof fn law_activate_reply(path: PathBuf, reason: String, done: ToolReply, refused: ToolReply)
    requires
        call_ensures(activate_reply, (Ok::<PathBuf, String>(path),), done),
        call_ensures(activate_reply, (Err::<PathBuf, String>(reason),), refused),
    ensures
        done@ == ReplyView::Success("activated: "@ + paths::shown(paths::path_bytes(path))),
        refused@ == ReplyView::Failure("activate"@ + " failed: "@ + reason@),
{
}

/// Deactivating succeeds where the workspace was active, and only there.
pub proof fn law_deactivate_reply(
    reason: String,
    done: ToolReply,
    absent: ToolReply,
    refused: ToolReply,
)
    requires
        call_ensures(deactivate_reply, (Ok::<bool, String>(true),), done),
        call_ensures(deactivate_reply, (Ok::<bool, String>(false),), absent),
        call_ensures(deactivate_reply, (Err::<bool, String>(reason),), refused),
    ensures
        done@ == ReplyView::Success("deactivated."@),
        absent@ == ReplyView::Failure("workspace was not active."@),
        refused@ == ReplyView::Failure("deactivate"@ + " failed: "@ + reason@),
{
}

/// Every workspace has its line, in the order of the list.
pub proof fn law_list_reply(workspaces: Vec<PathBuf>, lines: Seq<Seq<char>>, reply: ToolReply)
    requires
        call_ensures(list_reply, (&workspaces,), reply),
        lines.len() == workspaces@.len(),
        forall|i: int|
            0 <= i < lines.len() ==> #[trigger] lines[i] == "- "@ + paths::shown(
                paths::path_bytes(workspaces@[i]),
            ),
    ensures
        workspaces@.len() > 0 ==> reply@ == ReplyView::Success(text::joined(lines, "\n"@)),
        workspaces@.len() == 0 ==> reply@ == ReplyView::Success("No active workspaces."@),
{
    let all = paths::paths_bytes(workspaces@);
    assert(Seq::new(all.len(), |i: int| "- "@ + paths::shown(all[i])) =~= lines);
}

/// Every server has its part of the logs, in the order of the list: its language, and all of
/// its lines in their order.
pub proof fn law_logs_reply(
    logs: Vec<(String, Vec<String>)>,
    parts: Seq<Seq<char>>,
    lines: Seq<Seq<Seq<char>>>,
    reply: ToolReply,
)
    requires
        call_ensures(logs_reply, (&logs,), reply),
        parts.len() == lines.len() == logs@.len(),
        forall|i: int|
            0 <= i < lines.len() ==> (#[trigger] lines[i]).len() == logs@[i].1@.len() && forall|
                j: int,
            |
                0 <= j < lines[i].len() ==> #[trigger] lines[i][j] == logs@[i].1@[j]@,
        forall|i: int|
            0 <= i < parts.len() ==> #[trigger] parts[i] == "["@ + logs@[i].0@ + "]\n"@
                + text::joined(lines[i], "\n"@),
    ensures
        logs@.len() > 0 ==> reply@ == ReplyView::Success(text::joined(parts, "\n\n"@)),
        logs@.len() == 0 ==> reply@ == ReplyView::Success("No language servers running."@),
{
    let shown = Seq::new(
        logs@.len(),
        |i: int| log_text(logs@[i].0@, strings::texts(logs@[i].1@)),
    );
    assert forall|i: int| 0 <= i < shown.len() implies shown[i] == parts[i] by {
        assert(strings::texts(logs@[i].1@) =~= lines[i]);
    }
    assert(shown =~= parts);
}

/// A tool that needs a feature is refused where the server does not have it, with a text that
/// names the feature.
pub proof fn law_refusals()
    ensures
        refusal(Feature::Hover) == "server does not support hover"@,
        refusal(Feature::Definition) == "server does not support goto definition"@,
        refusal(Feature::References) == "server does not support references"@,
        refusal(Feature::Completion) == "server does not support completion"@,
        refusal(Feature::DocumentSymbol) == "server does not support document symbols"@,
        refusal(Feature::WorkspaceSymbol) == "server does not support workspace symbols"@,
        refusal(Feature::Rename) == "server does not support rename"@,
{
}

/// A tool whose feature may be used sends its request under the next id, and has its waiter
/// wait under it.
pub proof fn law_allowed_tools_send<T>(
    step: ToolStep,
    before: ClientView<T>,
    after: ClientView<T>,
    feature: Feature,
    method: Seq<char>,
    params: JsonTree,
    waiter: T,
)
    requires
        gated(step, before, after, feature, method, params, waiter),
        before.caps is None || client::advertises(before.caps->Some_0, feature),
    ensures
        step is Send,
        step->Send_0.id == before.next_id,
        step->Send_0.frame@ == client::request_frame(before.next_id, method, params),
        after.pending == before.pending.insert(before.next_id, waiter),
{
}

/// The declaration counts as a reference unless it is said not to.
pub proof fn law_declaration_counts(p: ReferencesParam)
    ensures
        p.includes_declaration() <==> p.include_declaration is None || p.include_declaration
            == Some(true),
{
    if let Some(includes) = p.include_declaration {
        assert(includes || !includes);
    }
}

/// The parameters of a raw request are those given, or null.
pub proof fn law_raw_params(params: Json)
    ensures
        raw_params(Some(params)) == params@,
        raw_params(None) == JsonTree::Null,
{
}

/// A response that could be decoded is answered with its text, each tool with the text of its
/// own kind.
pub proof fn law_decoded_answers(
    hover: Option<Hover>,
    definition: Option<GotoDefinitionResponse>,
    references: Option<Vec<Place>>,
    completion: Option<Vec<CompletionItem>>,
    symbols: Option<DocumentSymbolResponse>,
    replies: Seq<ToolReply>,
)
    requires
        call_ensures(hover_answer, (Ok::<Option<Hover>, String>(hover),), replies[0]),
        call_ensures(
            definition_answer,
            (Ok::<Option<GotoDefinitionResponse>, String>(definition),),
            replies[1],
        ),
        call_ensures(
            references_answer,
            (Ok::<Option<Vec<Place>>, String>(references),),
            replies[2],
        ),
        call_ensures(
            completion_answer,
            (Ok::<Option<Vec<CompletionItem>>, String>(completion),),
            replies[3],
        ),
        call_ensures(
            symbols_answer,
            (Ok::<Option<DocumentSymbolResponse>, String>(symbols),),
            replies[4],
        ),
    ensures
        replies[0]@ == ReplyView::Success(text::hover_text(text::optional_view(hover))),
        replies[1]@ == ReplyView::Success(text::definition_text(text::optional_view(definition))),
        replies[2]@ == ReplyView::Success(text::references_text(text::optional_views(references))),
        replies[3]@ == ReplyView::Success(text::completion_text(text::optional_views(completion))),
        replies[4]@ == ReplyView::Success(
            text::document_symbols_text(text::optional_view(symbols)),
        ),
{
}

/// A response that could not be decoded is answered with a failure that names the tool's
/// subject and the reason.
pub proof fn law_undecoded_answers(reason: String, replies: Seq<ToolReply>)
    requires
        call_ensures(hover_answer, (Err::<Option<Hover>, String>(reason),), replies[0]),
        call_ensures(
            definition_answer,
            (Err::<Option<GotoDefinitionResponse>, String>(reason),),
            replies[1],
        ),
        call_ensures(
            references_answer,
            (Err::<Option<Vec<Place>>, String>(reason),),
            replies[2],
        ),
        call_ensures(
            completion_answer,
            (Err::<Option<Vec<CompletionItem>>, String>(reason),),
            replies[3],
        ),
        call_ensures(
            symbols_answer,
            (Err::<Option<DocumentSymbolResponse>, String>(reason),),
            replies[4],
        ),
    ensures
        replies[0]@ == ReplyView::Failure("hover"@ + " failed: "@ + reason@),
        replies[1]@ == ReplyView::Failure("definition"@ + " failed: "@ + reason@),
        replies[2]@ == ReplyView::Failure("references"@ + " failed: "@ + reason@),
        replies[3]@ == ReplyView::Failure("completion"@ + " failed: "@ + reason@),
        replies[4]@ == ReplyView::Failure("document symbols"@ + " failed: "@ + reason@),
{
}

/// A request that failed is answered with a failure that names the tool's subject and the
/// reason.
pub proof fn law_failed_requests(p: RawRequestParam, reason: String, replies: Seq<ToolReply>)
    requires
        call_ensures(hover_reply, (Err::<Json, String>(reason),), replies[0]),
        call_ensures(definition_reply, (Err::<Json, String>(reason),), replies[1]),
        call_ensures(references_reply, (Err::<Json, String>(reason),), replies[2]),
        call_ensures(completion_reply, (Err::<Json, String>(reason),), replies[3]),
        call_ensures(symbols_reply, (Err::<Json, String>(reason),), replies[4]),
        call_ensures(workspace_symbols_reply, (Err::<Json, String>(reason),), replies[5]),
        call_ensures(raw_reply, (&p, Err::<Json, String>(reason)), replies[6]),
    ensures
        replies[0]@ == ReplyView::Failure("hover"@ + " failed: "@ + reason@),
        replies[1]@ == ReplyView::Failure("definition"@ + " failed: "@ + reason@),
        replies[2]@ == ReplyView::Failure("references"@ + " failed: "@ + reason@),
        replies[3]@ == ReplyView::Failure("completion"@ + " failed: "@ + reason@),
        replies[4]@ == ReplyView::Failure("document symbols"@ + " failed: "@ + reason@),
        replies[5]@ == ReplyView::Failure("workspace symbols"@ + " failed: "@ + reason@),
        replies[6]@ == ReplyView::Failure(p.method@ + " failed: "@ + reason@),
{
}

/// Found symbols, raw results and diagnostics are answered with their text.
pub proof fn law_plain_answers(
    p: RawRequestParam,
    value: Json,
    diags: Vec<Diagnostic>,
    replies: Seq<ToolReply>,
)
    requires
        call_ensures(workspace_symbols_reply, (Ok::<Json, String>(value),), replies[0]),
        call_ensures(raw_reply, (&p, Ok::<Json, String>(value)), replies[1]),
        call_ensures(diagnostics_reply, (&diags,), replies[2]),
    ensures
        replies[0]@ == ReplyView::Success(text::found_symbols_text(Some(value@))),
        replies[1]@ == ReplyView::Success(json::json_pretty_text(value@)),
        replies[2]@ == ReplyView::Success(text::diagnostics_text(types::views(diags@))),
{
}

/// A rename that proposes edits shows them, and where it is told to it begins a run of exactly
/// these edits; one that proposes none, and one that failed, says so.
pub proof fn law_plan_rename(
    p: RenameParam,
    proposed: ProposedEdit,
    reason: String,
    plan: RenamePlan,
    none: RenamePlan,
    refused: RenamePlan,
)
    requires
        call_ensures(
            plan_rename,
            (&p, Ok::<Option<ProposedEdit>, String>(Some(proposed))),
            plan,
        ),
        call_ensures(plan_rename, (&p, Ok::<Option<ProposedEdit>, String>(None)), none),
        call_ensures(plan_rename, (&p, Err::<Option<ProposedEdit>, String>(reason)), refused),
    ensures
        p.apply == Some(true) ==> {
            &&& plan is Apply
            &&& plan->Apply_run@.steps == edit::edit_steps(proposed.edit)
            &&& plan->Apply_run@.next == 0
            &&& plan->Apply_run@.applied.len() == 0
            &&& plan->Apply_shown@ == proposal_text(proposed)
        },
        p.apply != Some(true) ==> plan is Reply && plan->Reply_0@ == ReplyView::Success(
            proposal_text(proposed),
        ),
        none is Reply && none->Reply_0@ == ReplyView::Failure("no rename edits produced"@),
        refused is Reply && refused->Reply_0@ == ReplyView::Failure(
            "rename"@ + " failed: "@ + reason@,
        ),
{
}

/// The text of a proposed edit is that of its edits, with what is printed for its document
/// changes.
pub proof fn law_proposal_text(proposed: ProposedEdit, printed: String)
    ensures
        proposed.document_changes == Some(printed) ==> proposal_text(proposed)
            == text::workspace_edit_text(Some(&proposed.edit), printed@),
        proposed.document_changes is None ==> proposal_text(proposed) == text::workspace_edit_text(
            Some(&proposed.edit),
            Seq::empty(),
        ),
{
}

/// A rename that was applied says how many changes were made and names each changed path, in
/// the order of the changes, before the edits; one that could not be applied gives the error.
pub proof fn law_applied_reply(
    applied: Vec<AppliedChange>,
    names: Seq<Seq<char>>,
    shown: &str,
    error: EditError,
    reply: ToolReply,
    refused: ToolReply,
)
    requires
        call_ensures(applied_reply, (&applied, shown), reply),
        call_ensures(apply_failed_reply, (&error,), refused),
        names.len() == applied@.len(),
        forall|i: int|
            0 <= i < names.len() ==> #[trigger] names[i] == paths::shown(
                paths::path_bytes(applied@[i].path),
            ),
    ensures
        reply@ == ReplyView::Success(
            "Applied rename to "@ + strings::decimal(applied@.len()) + " file(s) ("@
                + text::joined(names, ", "@) + ").\n\nProposed edits were:\n"@ + shown@,
        ),
        refused@ == ReplyView::Failure(
            "applying rename edits"@ + " failed: "@ + edit::edit_error_text(error@),
        ),
{
    assert(changed_paths(edit::changes_view(applied@)) =~= names);
}

/// The URIs of the changed files are those of their paths, in the order of the changes; a path
/// without one is left out.
pub proof fn law_changed_uris(applied: Seq<ChangeView>, change: ChangeView, uri: Seq<char>)
    ensures
        changed(Seq::empty()) == Seq::<Seq<char>>::empty(),
        conv::path_uri(change.path) == Ok::<_, conv::ConvErrorView>(uri) ==> changed(
            applied.push(change),
        ) == changed(applied).push(uri),
        conv::path_uri(change.path) is Err ==> changed(applied.push(change)) == changed(applied),
{
    assert(applied.push(change).drop_last() =~= applied);
}

/// A reply holds its text, and whether it is a failure.
pub proof fn law_reply_view(text: String, tree: Json)
    ensures
        ToolReply::Success(text)@ == ReplyView::Success(text@),
        ToolReply::Failure(text)@ == ReplyView::Failure(text@),
        result_view(Ok(tree)) == Ok::<_, Seq<char>>(tree@),
        result_view(Err(text)) == Err::<JsonTree, _>(text@),
{
}

/// The hover tool asks for a hover at its position, where the server has hovers.
pub proof fn law_hover_tool<T>(
    session: &mut LspClient<T>,
    uri: &str,
    p: PositionParam,
    waiter: T,
    step: ToolStep,
)
    requires
        call_ensures(lsp_hover::<T>, (session, uri, &p, waiter), step),
    ensures
        client::supports(old(session)@.caps, Feature::Hover) ==> {
            &&& step is Send
            &&& client::is_request(
                step->Send_0,
                old(session)@,
                "textDocument/hover"@,
                messages::position_params_tree(
                    uri@,
                    Position { line: p.line, character: p.character },
                ),
            )
            &&& final(session)@ == client::requested(old(session)@, waiter)
        },
        !client::supports(old(session)@.caps, Feature::Hover) ==> {
            &&& step is Reply
            &&& step->Reply_0@ == ReplyView::Failure("server does not support hover"@)
            &&& final(session)@ == old(session)@
        },
{
}

/// The definition tool asks for the definition at its position, where the server has them.
pub proof fn law_definition_tool<T>(
    session: &mut LspClient<T>,
    uri: &str,
    p: PositionParam,
    waiter: T,
    step: ToolStep,
)
    requires
        call_ensures(lsp_goto_definition::<T>, (session, uri, &p, waiter), step),
    ensures
        client::supports(old(session)@.caps, Feature::Definition) ==> {
            &&& step is Send
            &&& client::is_request(
                step->Send_0,
                old(session)@,
                "textDocument/definition"@,
                messages::position_params_tree(
                    uri@,
                    Position { line: p.line, character: p.character },
                ),
            )
            &&& final(session)@ == client::requested(old(session)@, waiter)
        },
        !client::supports(old(session)@.caps, Feature::Definition) ==> {
            &&& step is Reply
            &&& step->Reply_0@ == ReplyView::Failure("server does not support goto definition"@)
            &&& final(session)@ == old(session)@
        },
{
}

/// The references tool asks for the references at its position, with the declaration unless it
/// is said not to, where the server has them.
pub proof fn law_references_tool<T>(
    session: &mut LspClient<T>,
    uri: &str,
    p: ReferencesParam,
    waiter: T,
    step: ToolStep,
)
    requires
        call_ensures(lsp_find_references::<T>, (session, uri, &p, waiter), step),
    ensures
        client::supports(old(session)@.caps, Feature::References) ==> {
            &&& step is Send
            &&& client::is_request(
                step->Send_0,
                old(session)@,
                "textDocument/references"@,
                messages::reference_params_tree(
                    uri@,
                    Position { line: p.line, character: p.character },
                    p.include_declaration != Some(false),
                ),
            )
            &&& final(session)@ == client::requested(old(session)@, waiter)
        },
        !client::supports(old(session)@.caps, Feature::References) ==> {
            &&& step is Reply
            &&& step->Reply_0@ == ReplyView::Failure("server does not support references"@)
            &&& final(session)@ == old(session)@
        },
{
}

/// The completion tool asks for the completions at its position, where the server has them.
pub proof fn law_completion_tool<T>(
    session: &mut LspClient<T>,
    uri: &str,
    p: PositionParam,
    waiter: T,
    step: ToolStep,
)
    requires
        call_ensures(lsp_completion::<T>, (session, uri, &p, waiter), step),
    ensures
        client::supports(old(session)@.caps, Feature::Completion) ==> {
            &&& step is Send
            &&& client::is_request(
                step->Send_0,
                old(session)@,
                "textDocument/completion"@,
                messages::position_params_tree(
                    uri@,
                    Position { line: p.line, character: p.character },
                ),
            )
            &&& final(session)@ == client::requested(old(session)@, waiter)
        },
        !client::supports(old(session)@.caps, Feature::Completion) ==> {
            &&& step is Reply
            &&& step->Reply_0@ == ReplyView::Failure("server does not support completion"@)
            &&& final(session)@ == old(session)@
        },
{
}

/// The symbols tool asks for the symbols of its document, where the server has them.
pub proof fn law_document_symbols_tool<T>(
    session: &mut LspClient<T>,
    uri: &str,
    waiter: T,
    step: ToolStep,
)
    requires
        call_ensures(lsp_document_symbols::<T>, (session, uri, waiter), step),
    ensures
        client::supports(old(session)@.caps, Feature::DocumentSymbol) ==> {
            &&& step is Send
            &&& client::is_request(
                step->Send_0,
                old(session)@,
                "textDocument/documentSymbol"@,
                messages::document_params_tree(uri@),
            )
            &&& final(session)@ == client::requested(old(session)@, waiter)
        },
        !client::supports(old(session)@.caps, Feature::DocumentSymbol) ==> {
            &&& step is Reply
            &&& step->Reply_0@ == ReplyView::Failure("server does not support document symbols"@)
            &&& final(session)@ == old(session)@
        },
{
}

/// The search tool asks for the symbols that match its query, where the server has them.
pub proof fn law_workspace_symbols_tool<T>(
    session: &mut LspClient<T>,
    p: WorkspaceSymbolParam,
    waiter: T,
    step: ToolStep,
)
    requires
        call_ensures(lsp_workspace_symbols::<T>, (session, &p, waiter), step),
    ensures
        client::supports(old(session)@.caps, Feature::WorkspaceSymbol) ==> {
            &&& step is Send
            &&& client::is_request(
                step->Send_0,
                old(session)@,
                "workspace/symbol"@,
                messages::query_params_tree(p.query@),
            )
            &&& final(session)@ == client::requested(old(session)@, waiter)
        },
        !client::supports(old(session)@.caps, Feature::WorkspaceSymbol) ==> {
            &&& step is Reply
            &&& step->Reply_0@ == ReplyView::Failure("server does not support workspace symbols"@)
            &&& final(session)@ == old(session)@
        },
{
}

/// The rename tool asks for the rename at its position with its new name, where the server
/// renames.
pub proof fn law_rename_tool<T>(
    session: &mut LspClient<T>,
    uri: &str,
    p: RenameParam,
    waiter: T,
    step: ToolStep,
)
    requires
        call_ensures(lsp_rename_symbol::<T>, (session, uri, &p, waiter), step),
    ensures
        client::supports(old(session)@.caps, Feature::Rename) ==> {
            &&& step is Send
            &&& client::is_request(
                step->Send_0,
                old(session)@,
                "textDocument/rename"@,
                messages::rename_params_tree(
                    uri@,
                    Position { line: p.line, character: p.character },
                    p.new_name@,
                ),
            )
            &&& final(session)@ == client::requested(old(session)@, waiter)
        },
        !client::supports(old(session)@.caps, Feature::Rename) ==> {
            &&& step is Reply
            &&& step->Reply_0@ == ReplyView::Failure("server does not support rename"@)
            &&& final(session)@ == old(session)@
        },
{
}

/// A raw request is sent as it is given, whatever the server advertises.
pub proof fn law_raw_tool<T>(
    session: &mut LspClient<T>,
    p: RawRequestParam,
    waiter: T,
    sent: Outgoing,
    params: Json,
)
    requires
        call_ensures(lsp_raw_request::<T>, (session, &p, waiter), sent),
    ensures
        p.params == Some(params) ==> client::is_request(sent, old(session)@, p.method@, params@),
        p.params is None ==> client::is_request(sent, old(session)@, p.method@, JsonTree::Null),
        final(session)@ == client::requested(old(session)@, waiter),
{
}

/// The parameters of a tool give their position, whether edits are to be written, and how many
/// lines of a log to show, a hundred by default.
pub proof fn law_parameters(
    p: PositionParam,
    references: ReferencesParam,
    rename: RenameParam,
    logs: ServerLogsParam,
    positions: Seq<Position>,
    applies: bool,
    count: usize,
    lines: usize,
)
    requires
        call_ensures(PositionParam::position, (&p,), positions[0]),
        call_ensures(ReferencesParam::position, (&references,), positions[1]),
        call_ensures(RenameParam::position, (&rename,), positions[2]),
        call_ensures(RenameParam::applies, (&rename,), applies),
        call_ensures(ServerLogsParam::line_count, (&logs,), count),
    ensures
        positions[0].line == p.line && positions[0].character == p.character,
        positions[1].line == references.line && positions[1].character == references.character,
        positions[2].line == rename.line && positions[2].character == rename.character,
        applies <==> rename.apply == Some(true),
        logs.lines == Some(lines) ==> count == lines,
        logs.lines is None ==> count == 100,
{
}

/// A rename whose request failed, or whose response proposes nothing or cannot be read, writes
/// nothing and says so.
pub proof fn law_rename_without_edits(
    p: RenameParam,
    value: Json,
    reason: String,
    unread: Seq<char>,
    plan: RenamePlan,
    refused: RenamePlan,
)
    requires
        call_ensures(rename_plan, (&p, Ok::<Json, String>(value)), plan),
        call_ensures(rename_plan, (&p, Err::<Json, String>(reason)), refused),
    ensures
        refused is Reply && refused->Reply_0@ == ReplyView::Failure(
            "rename"@ + " failed: "@ + reason@,
        ),
        ({
            let read = reply::where_uris_fit(
                value@,
                Shape::WorkspaceEdit,
                reply::rename_response(value@),
            );
            &&& read == Ok::<_, Seq<char>>(None::<reply::ProposedView>) ==> plan is Reply
                && plan->Reply_0@ == ReplyView::Failure("no rename edits produced"@)
            &&& read == Err::<Option<reply::ProposedView>, _>(unread) ==> plan is Reply
                && plan->Reply_0@ == ReplyView::Failure("rename"@ + " failed: "@ + unread)
            &&& read is Ok && read->Ok_0 is Some ==> (plan is Apply <==> p.apply == Some(true))
        }),
{
}

/// The documents to look at again are those of the changed files.
pub proof fn law_documents_to_look_at(applied: Vec<AppliedChange>, uris: Vec<String>)
    requires
        call_ensures(changed_uris, (&applied,), uris),
    ensures
        strings::texts(uris@) == changed(edit::changes_view(applied@)),
{
}

/// A response that is read as a hover is answered with its text, and one that cannot be read
/// with the reason.
pub proof fn law_hover_response(
    value: Json,
    shown: Option<HoverView>,
    reason: Seq<char>,
    reply: ToolReply,
)
    requires
        call_ensures(hover_reply, (Ok::<Json, String>(value),), reply),
    ensures
        ({
            let read = reply::hover_response(value@);
            &&& read == Ok::<_, Seq<char>>(shown) ==> reply@ == ReplyView::Success(
                text::hover_text(shown),
            )
            &&& read == Err::<Option<HoverView>, _>(reason) ==> reply@ == ReplyView::Failure(
                "hover"@ + " failed: "@ + reason,
            )
        }),
{
}

/// A response that is read as a definition is answered with its text, and one that cannot be read
/// with the reason.
pub proof fn law_definition_response(
    value: Json,
    shown: Option<DefinitionView>,
    reason: Seq<char>,
    reply: ToolReply,
)
    requires
        call_ensures(definition_reply, (Ok::<Json, String>(value),), reply),
    ensures
        ({
            let read = reply::where_uris_fit(
                value@,
                Shape::Definition,
                reply::definition_response(value@),
            );
            &&& read == Ok::<_, Seq<char>>(shown) ==> reply@ == ReplyView::Success(
                text::definition_text(shown),
            )
            &&& read == Err::<Option<DefinitionView>, _>(reason) ==> reply@ == ReplyView::Failure(
                "definition"@ + " failed: "@ + reason,
            )
        }),
{
}

/// A response that is read as a list of references is answered with its text, and one that cannot be read
/// with the reason.
pub proof fn law_references_response(
    value: Json,
    shown: Option<Seq<PlaceView>>,
    reason: Seq<char>,
    reply: ToolReply,
)
    requires
        call_ensures(references_reply, (Ok::<Json, String>(value),), reply),
    ensures
        ({
            let read = reply::where_uris_fit(
                value@,
                Shape::References,
                reply::references_response(value@),
            );
            &&& read == Ok::<_, Seq<char>>(shown) ==> reply@ == ReplyView::Success(
                text::references_text(shown),
            )
            &&& read == Err::<Option<Seq<PlaceView>>, _>(reason) ==> reply@ == ReplyView::Failure(
                "references"@ + " failed: "@ + reason,
            )
        }),
{
}

/// A response that is read as a list of completions is answered with its text, and one that cannot be read
/// with the reason.
pub proof fn law_completion_response(
    value: Json,
    shown: Option<Seq<CompletionItemView>>,
    reason: Seq<char>,
    reply: ToolReply,
)
    requires
        call_ensures(completion_reply, (Ok::<Json, String>(value),), reply),
    ensures
        ({
            let read = reply::completion_response(value@);
            &&& read == Ok::<_, Seq<char>>(shown) ==> reply@ == ReplyView::Success(
                text::completion_text(shown),
            )
            &&& read == Err::<Option<Seq<CompletionItemView>>, _>(reason) ==> reply@ == ReplyView::Failure(
                "completion"@ + " failed: "@ + reason,
            )
        }),
{
}

/// A response that is read as a list of symbols is answered with its text, and one that cannot be read
/// with the reason.
pub proof fn law_symbols_response(
    value: Json,
    shown: Option<DocumentSymbolsView>,
    reason: Seq<char>,
    reply: ToolReply,
)
    requires
        call_ensures(symbols_reply, (Ok::<Json, String>(value),), reply),
    ensures
        ({
            let read = reply::where_uris_fit(
                value@,
                Shape::Symbols,
                reply::symbols_response(value@),
            );
            &&& read == Ok::<_, Seq<char>>(shown) ==> reply@ == ReplyView::Success(
                text::document_symbols_text(shown),
            )
            &&& read == Err::<Option<DocumentSymbolsView>, _>(reason) ==> reply@ == ReplyView::Failure(
                "document symbols"@ + " failed: "@ + reason,
            )
        }),
{
}

} // verus!
