//! Rendering of LSP results into text for tool output.
//!
//! Where the shape of a response is unstable across LSP versions, the functions here take
//! raw JSON and read fields by name.

use crate::json;
use crate::json::{Json, JsonTree};
use crate::lsp::conv;
use crate::lsp::types;
use crate::lsp::types::{
    CompletionItem, CompletionItemView, DefinitionView, Diagnostic, DiagnosticView, Symbol,
    DocumentSymbolResponse, DocumentSymbolsView, GotoDefinitionResponse, Hover, HoverView, Place,
    PlaceView, MarkedString, MarkedStringView, Position, FlatSymbol,
    FlatSymbolView, SymbolTree, TextEdit, WorkspaceEdit,
};
use crate::strings;
use crate::strings::{chars_of, push_decimal, push_int, string_of, trimmed};
use vstd::prelude::*;

verus! {

// ---- building blocks ----

/// `parts`, with `separator` between each two.
pub open spec fn joined(parts: Seq<Seq<char>>, separator: Seq<char>) -> Seq<char>
    decreases parts.len(),
{
    if parts.len() == 0 {
        Seq::empty()
    } else if parts.len() == 1 {
        parts[0]
    } else {
        joined(parts.drop_last(), separator) + separator + parts.last()
    }
}

/// `parts`, with `separator` between each two.
pub fn join(parts: &Vec<String>, separator: &str) -> (r: String)
    ensures
        r@ == joined(strings::texts(parts@), separator@),
{
    let ghost all = strings::texts(parts@);
    let mut out = String::new();
    let mut i: usize = 0;
    while i < parts.len()
        invariant
            all == strings::texts(parts@),
            i <= parts@.len(),
            out@ == joined(all.take(i as int), separator@),
        decreases parts.len() - i,
    {
        if i > 0 {
            out.push_str(separator);
        }
        out.push_str(parts[i].as_str());
        assert(all.take(i + 1).drop_last() == all.take(i as int));
        assert(all.take(i + 1).last() == parts@[i as int]@);
        assert(out@ == joined(all.take(i + 1), separator@));
        i = i + 1;
    }
    assert(all.take(i as int) == all);
    out
}

proof fn lemma_texts_push(list: Seq<String>, s: String)
    ensures
        strings::texts(list.push(s)) == strings::texts(list).push(s@),
{
    assert(strings::texts(list.push(s)) =~= strings::texts(list).push(s@));
}

/// A position as `line:character`.
pub open spec fn position_text(pos: Position) -> Seq<char> {
    strings::decimal(pos.line as nat) + ":"@ + strings::decimal(pos.character as nat)
}

fn push_position(out: &mut String, pos: Position)
    ensures
        final(out)@ == old(out)@ + position_text(pos),
{
    push_decimal(out, pos.line as u64);
    out.push_str(":");
    push_decimal(out, pos.character as u64);
    assert(out@ =~= old(out)@ + position_text(pos));
}

/// The path that a URI stands for, or the URI itself where it stands for none.
pub fn uri_to_path(uri: &str) -> (r: String)
    ensures
        r@ == conv::uri_path_text(uri@),
{
    conv::uri_to_path_string(uri)
}

/// What follows the last `/` of a text, or all of it where it has none.
pub open spec fn after_last_slash(s: Seq<char>) -> Seq<char>
    decreases s.len(),
{
    if s.len() == 0 || s.last() == '/' {
        Seq::empty()
    } else {
        after_last_slash(s.drop_last()).push(s.last())
    }
}

/// What follows the last `/` of `s`.
pub fn short_from_str(s: &str) -> (r: String)
    ensures
        r@ == after_last_slash(s@),
{
    let chars = chars_of(s);
    let ghost all = s@;
    let n: usize = chars.len();
    let mut i: usize = n;
    assert(all.take(n as int) == all);
    assert(all.subrange(n as int, n as int) == Seq::<char>::empty());
    while i > 0 && chars[i - 1] != '/'
        invariant
            chars@ == all,
            n == all.len(),
            i <= n,
            after_last_slash(all) == after_last_slash(all.take(i as int)) + all.subrange(
                i as int,
                n as int,
            ),
        decreases i,
    {
        let ghost before = all.take(i as int);
        assert(before.drop_last() == all.take(i - 1));
        assert(after_last_slash(before) + all.subrange(i as int, n as int) == after_last_slash(
            all.take(i - 1),
        ) + all.subrange(i - 1, n as int));
        i = i - 1;
    }
    assert(after_last_slash(all.take(i as int)) == Seq::<char>::empty());
    let r = string_of(&chars, i, n);
    assert(r@ =~= after_last_slash(all));
    r
}

/// The short form of a text is its end, without a `/`, behind the last `/` where it has one.
pub proof fn law_short_form(s: Seq<char>)
    ensures
        after_last_slash(s).len() <= s.len(),
        after_last_slash(s) == s.skip(s.len() - after_last_slash(s).len()),
        !after_last_slash(s).contains('/'),
        after_last_slash(s).len() < s.len() ==> s[s.len() - after_last_slash(s).len() - 1] == '/',
    decreases s.len(),
{
    if s.len() > 0 && s.last() != '/' {
        let init = s.drop_last();
        law_short_form(init);
        let short = after_last_slash(init);
        assert(init.skip(init.len() - short.len()).push(s.last()) == s.skip(
            s.len() - after_last_slash(s).len(),
        ));
        assert forall|i: int| 0 <= i < short.len() + 1 implies after_last_slash(s)[i] != '/' by {
            if i < short.len() {
                assert(short.contains(short[i]));
            }
        }
    }
}

/// A location as `path:line:character`.
pub open spec fn location_text(location: PlaceView) -> Seq<char> {
    conv::uri_path_text(location.uri) + ":"@ + position_text(location.start)
}

/// A location as `path:line:character`.
pub fn location_line(loc: &Place) -> (r: String)
    ensures
        r@ == location_text(loc@),
{
    let mut out = uri_to_path(loc.uri.as_str());
    out.push_str(":");
    push_position(&mut out, loc.start);
    assert(out@ =~= location_text(loc@));
    out
}

// ---- hover ----

/// The text of a marked string: a language string stands in a code fence.
pub open spec fn marked_text(m: MarkedStringView) -> Seq<char> {
    match m {
        MarkedStringView::Plain(s) => s,
        MarkedStringView::LanguageString { language, value } => "```"@ + language + "\n"@ + value
            + "\n```"@,
    }
}

/// The text of a hover.
pub open spec fn hover_text(hover: Option<HoverView>) -> Seq<char> {
    match hover {
        None => "No hover information."@,
        Some(HoverView::Scalar(m)) => marked_text(m),
        Some(HoverView::Array(list)) => joined(
            Seq::new(list.len(), |i: int| marked_text(list[i])),
            "\n\n"@,
        ),
        Some(HoverView::Markup(value)) => value,
    }
}

/// What an optional value holds.
pub open spec fn optional_view<T: View>(value: Option<T>) -> Option<T::V> {
    match value {
        Some(value) => Some(value@),
        None => None,
    }
}

/// The text of a marked string.
pub fn marked_string(m: &MarkedString) -> (r: String)
    ensures
        r@ == marked_text(m@),
{
    match m {
        MarkedString::Plain(s) => s.clone(),
        MarkedString::LanguageString { language, value } => {
            let mut out = String::new();
            out.push_str("```");
            out.push_str(language.as_str());
            out.push_str("\n");
            out.push_str(value.as_str());
            out.push_str("\n```");
            assert(out@ =~= marked_text(m@));
            out
        },
    }
}

/// The text of a hover.
pub fn format_hover(hover: Option<Hover>) -> (r: String)
    ensures
        r@ == hover_text(optional_view(hover)),
{
    match hover {
        None => "No hover information.".to_string(),
        Some(Hover::Scalar(m)) => marked_string(&m),
        Some(Hover::Array(list)) => {
            let ghost wanted = Seq::new(list@.len(), |i: int| marked_text(types::views(list@)[i]));
            let mut parts: Vec<String> = Vec::new();
            let mut i: usize = 0;
            while i < list.len()
                invariant
                    i <= list@.len(),
                    wanted == Seq::new(
                        list@.len(),
                        |i: int| marked_text(types::views(list@)[i]),
                    ),
                    strings::texts(parts@) == wanted.take(i as int),
                decreases list.len() - i,
            {
                let part = marked_string(&list[i]);
                proof {
                    lemma_texts_push(parts@, part);
                }
                parts.push(part);
                i = i + 1;
            }
            assert(wanted.take(i as int) == wanted);
            join(&parts, "\n\n")
        },
        Some(Hover::Markup(value)) => value,
    }
}

// ---- definition / references ----

/// The lines of a list of locations.
pub open spec fn location_lines(list: Seq<PlaceView>) -> Seq<Seq<char>> {
    Seq::new(list.len(), |i: int| "- "@ + location_text(list[i]))
}

/// The text of a list of locations.
pub open spec fn locations_text(list: Seq<PlaceView>) -> Seq<char> {
    if list.len() == 0 {
        "No locations found."@
    } else {
        joined(location_lines(list), "\n"@)
    }
}

/// The text of a definition.
pub open spec fn definition_text(def: Option<DefinitionView>) -> Seq<char> {
    match def {
        None => "No definition found."@,
        Some(DefinitionView::Scalar(location)) => "- "@ + location_text(location),
        Some(DefinitionView::Array(list)) => locations_text(list),
        Some(DefinitionView::Link(list)) => joined(location_lines(list), "\n"@),
    }
}

/// The text of a list of references.
pub open spec fn references_text(refs: Option<Seq<PlaceView>>) -> Seq<char> {
    match refs {
        None => "No references found."@,
        Some(list) => locations_text(list),
    }
}

/// `line` as an item of a list.
fn item(line: &str) -> (r: String)
    ensures
        r@ == "- "@ + line@,
{
    let mut out = String::new();
    out.push_str("- ");
    out.push_str(line);
    assert(out@ =~= "- "@ + line@);
    out
}

/// The lines of a list of locations.
fn list_locations(locs: &Vec<Place>) -> (r: String)
    ensures
        r@ == joined(location_lines(types::views(locs@)), "\n"@),
{
    let ghost wanted = location_lines(types::views(locs@));
    let mut parts: Vec<String> = Vec::new();
    let mut i: usize = 0;
    while i < locs.len()
        invariant
            i <= locs@.len(),
            wanted == location_lines(types::views(locs@)),
            strings::texts(parts@) == wanted.take(i as int),
        decreases locs.len() - i,
    {
        let part = item(location_line(&locs[i]).as_str());
        proof {
            lemma_texts_push(parts@, part);
        }
        parts.push(part);
        i = i + 1;
    }
    assert(wanted.take(i as int) == wanted);
    join(&parts, "\n")
}

/// The text of a list of locations.
pub fn format_locations(locs: &Vec<Place>) -> (r: String)
    ensures
        r@ == locations_text(types::views(locs@)),
{
    if locs.len() == 0 {
        return "No locations found.".to_string();
    }
    list_locations(locs)
}

/// The text of a definition.
pub fn format_definition(def: Option<GotoDefinitionResponse>) -> (r: String)
    ensures
        r@ == definition_text(optional_view(def)),
{
    match def {
        None => "No definition found.".to_string(),
        Some(GotoDefinitionResponse::Scalar(loc)) => item(location_line(&loc).as_str()),
        Some(GotoDefinitionResponse::Array(locs)) => format_locations(&locs),
        Some(GotoDefinitionResponse::Link(links)) => list_locations(&links),
    }
}

/// What an optional list holds.
pub open spec fn optional_views<T: View>(list: Option<Vec<T>>) -> Option<Seq<T::V>> {
    match list {
        Some(list) => Some(types::views(list@)),
        None => None,
    }
}

/// The text of a list of references.
pub fn format_references(refs: Option<Vec<Place>>) -> (r: String)
    ensures
        r@ == references_text(optional_views(refs)),
{
    match refs {
        None => "No references found.".to_string(),
        Some(list) => format_locations(&list),
    }
}

// ---- completion ----

/// The line of a completion.
pub open spec fn completion_line(it: CompletionItemView) -> Seq<char> {
    match it.kind {
        Some(kind) => "- "@ + it.label + " ("@ + kind + ")"@,
        None => "- "@ + it.label,
    }
}

/// The text of a list of completions.
pub open spec fn completion_text(comp: Option<Seq<CompletionItemView>>) -> Seq<char> {
    match comp {
        None => "No completions."@,
        Some(list) => if list.len() == 0 {
            "No completions."@
        } else {
            joined(Seq::new(list.len(), |i: int| completion_line(list[i])), "\n"@)
        },
    }
}

fn completion_item_line(it: &CompletionItem) -> (r: String)
    ensures
        r@ == completion_line(it@),
{
    let mut out = String::new();
    out.push_str("- ");
    out.push_str(it.label.as_str());
    if let Some(kind) = &it.kind {
        out.push_str(" (");
        out.push_str(kind.as_str());
        out.push_str(")");
    }
    assert(out@ =~= completion_line(it@));
    out
}

/// The text of a list of completions.
pub fn format_completion(comp: Option<Vec<CompletionItem>>) -> (r: String)
    ensures
        r@ == completion_text(optional_views(comp)),
{
    let items = match comp {
        None => {
            return "No completions.".to_string();
        },
        Some(items) => items,
    };
    if items.len() == 0 {
        return "No completions.".to_string();
    }
    let ghost list = types::views(items@);
    let ghost wanted = Seq::new(list.len(), |i: int| completion_line(list[i]));
    let mut parts: Vec<String> = Vec::new();
    let mut i: usize = 0;
    while i < items.len()
        invariant
            i <= items@.len(),
            list == types::views(items@),
            wanted == Seq::new(list.len(), |i: int| completion_line(list[i])),
            strings::texts(parts@) == wanted.take(i as int),
        decreases items.len() - i,
    {
        let part = completion_item_line(&items[i]);
        proof {
            lemma_texts_push(parts@, part);
        }
        parts.push(part);
        i = i + 1;
    }
    assert(wanted.take(i as int) == wanted);
    join(&parts, "\n")
}

// ---- symbols ----

/// The lines of a symbol and of the symbols inside it, each level indented by two more
/// spaces.
pub open spec fn symbol_text(s: SymbolTree, indent: Seq<char>) -> Seq<char>
    decreases s, 0nat,
{
    let line = indent + "- "@ + s.name + " ("@ + s.kind + ") ["@ + position_text(
        s.start,
    ) + "]\n"@;
    match s.children {
        Some(children) => line + symbols_text(children, indent + "  "@),
        None => line,
    }
}

/// The lines of a list of symbols.
pub open spec fn symbols_text(list: Seq<SymbolTree>, indent: Seq<char>) -> Seq<char>
    decreases list, list.len(),
{
    if list.len() == 0 {
        Seq::empty()
    } else {
        symbols_text(list.drop_last(), indent) + symbol_text(list.last(), indent)
    }
}

/// The line of a symbol of a workspace.
pub open spec fn information_line(s: FlatSymbolView) -> Seq<char> {
    "- "@ + s.name + " ("@ + s.kind + ") @ "@ + location_text(s.place)
}

/// The text of a list of symbols of a workspace.
pub open spec fn information_text(list: Seq<FlatSymbolView>) -> Seq<char> {
    if list.len() == 0 {
        "No symbols found."@
    } else {
        joined(Seq::new(list.len(), |i: int| information_line(list[i])), "\n"@)
    }
}

/// The text of the symbols of a document.
pub open spec fn document_symbols_text(syms: Option<DocumentSymbolsView>) -> Seq<char> {
    match syms {
        None => "No document symbols."@,
        Some(DocumentSymbolsView::Nested(list)) => if list.len() == 0 {
            "No document symbols."@
        } else {
            symbols_text(list, Seq::empty())
        },
        Some(DocumentSymbolsView::Flat(list)) => information_text(list),
    }
}

/// Appends the lines of a symbol and of the symbols inside it.
pub fn render_doc_symbol(s: &Symbol, indent: &str, out: &mut String)
    ensures
        final(out)@ == old(out)@ + symbol_text(s@, indent@),
    decreases s,
{
    out.push_str(indent);
    out.push_str("- ");
    out.push_str(s.name.as_str());
    out.push_str(" (");
    out.push_str(s.kind.as_str());
    out.push_str(") [");
    push_position(out, s.start);
    out.push_str("]\n");
    let ghost line = indent@ + "- "@ + s.name@ + " ("@ + s.kind@ + ") ["@ + position_text(
        s.start,
    ) + "]\n"@;
    assert(out@ =~= old(out)@ + line);
    if let Some(children) = &s.children {
        let mut deeper = String::new();
        deeper.push_str(indent);
        deeper.push_str("  ");
        assert(deeper@ =~= indent@ + "  "@);
        let ghost trees = types::symbol_views(children@);
        let mut i: usize = 0;
        assert(trees.take(0) == Seq::<SymbolTree>::empty());
        assert(out@ =~= old(out)@ + line + symbols_text(trees.take(0), deeper@));
        while i < children.len()
            invariant
                s.children matches Some(v) && v == *children,
                trees == types::symbol_views(children@),
                i <= children@.len(),
                out@ == old(out)@ + line + symbols_text(trees.take(i as int), deeper@),
            decreases children.len() - i,
        {
            assert(decreases_to!(s => children@[i as int]));
            render_doc_symbol(&children[i], deeper.as_str(), out);
            let ghost upto = trees.take(i + 1);
            assert(upto.drop_last() == trees.take(i as int));
            assert(upto.last() == children@[i as int]@);
            assert(out@ =~= old(out)@ + line + symbols_text(upto, deeper@));
            i = i + 1;
        }
        assert(trees.take(i as int) == trees);
        assert(out@ =~= old(out)@ + symbol_text(s@, indent@));
    }
}

fn information_item_line(s: &FlatSymbol) -> (r: String)
    ensures
        r@ == information_line(s@),
{
    let mut out = String::new();
    out.push_str("- ");
    out.push_str(s.name.as_str());
    out.push_str(" (");
    out.push_str(s.kind.as_str());
    out.push_str(") @ ");
    out.push_str(location_line(&s.place).as_str());
    assert(out@ =~= information_line(s@));
    out
}

/// The text of a list of symbols of a workspace.
pub fn format_symbol_information(list: &Vec<FlatSymbol>) -> (r: String)
    ensures
        r@ == information_text(types::views(list@)),
{
    if list.len() == 0 {
        return "No symbols found.".to_string();
    }
    let ghost all = types::views(list@);
    let ghost wanted = Seq::new(all.len(), |i: int| information_line(all[i]));
    let mut parts: Vec<String> = Vec::new();
    let mut i: usize = 0;
    while i < list.len()
        invariant
            i <= list@.len(),
            all == types::views(list@),
            wanted == Seq::new(all.len(), |i: int| information_line(all[i])),
            strings::texts(parts@) == wanted.take(i as int),
        decreases list.len() - i,
    {
        let part = information_item_line(&list[i]);
        proof {
            lemma_texts_push(parts@, part);
        }
        parts.push(part);
        i = i + 1;
    }
    assert(wanted.take(i as int) == wanted);
    join(&parts, "\n")
}

/// The text of the symbols of a document.
pub fn format_document_symbols(syms: Option<DocumentSymbolResponse>) -> (r: String)
    ensures
        r@ == document_symbols_text(optional_view(syms)),
{
    match syms {
        None => "No document symbols.".to_string(),
        Some(DocumentSymbolResponse::Nested(list)) => {
            if list.len() == 0 {
                return "No document symbols.".to_string();
            }
            let ghost trees = types::symbol_views(list@);
            let ghost none = Seq::<char>::empty();
            let mut out = String::new();
            let mut i: usize = 0;
            assert(trees.take(0) == Seq::<SymbolTree>::empty());
            let empty = String::new();
            while i < list.len()
                invariant
                    i <= list@.len(),
                    trees == types::symbol_views(list@),
                    empty@ == none,
                    out@ == symbols_text(trees.take(i as int), none),
                decreases list.len() - i,
            {
                render_doc_symbol(&list[i], empty.as_str(), &mut out);
                let ghost upto = trees.take(i + 1);
                assert(upto.drop_last() == trees.take(i as int));
                assert(upto.last() == list@[i as int]@);
                i = i + 1;
            }
            assert(trees.take(i as int) == trees);
            out
        },
        Some(DocumentSymbolResponse::Flat(list)) => format_symbol_information(&list),
    }
}

/// The field `key` of a value, where there is a value and it has one.
pub open spec fn field_in(tree: Option<JsonTree>, key: Seq<char>) -> Option<JsonTree> {
    match tree {
        Some(tree) => json::tree_field(tree, key),
        None => None,
    }
}

/// The text of a value, where there is one and it is a string.
pub open spec fn text_in(tree: Option<JsonTree>) -> Option<Seq<char>> {
    match tree {
        Some(tree) => json::tree_text(tree),
        None => None,
    }
}

/// The number of a value, where there is one and it is an integer that fits in `i64`.
pub open spec fn int_in(tree: Option<JsonTree>) -> Option<int> {
    match tree {
        Some(tree) => json::tree_int(tree),
        None => None,
    }
}

/// A number in decimal, or a question mark where there is none.
pub open spec fn number_text(number: Option<int>) -> Seq<char> {
    match number {
        Some(number) => strings::decimal_int(number),
        None => "?"@,
    }
}

/// The line of a symbol that a search has found. What the server left out shows as a
/// question mark, or not at all.
pub open spec fn found_symbol_line(it: JsonTree) -> Seq<char> {
    let name = match text_in(json::tree_field(it, "name"@)) {
        Some(name) => name,
        None => "?"@,
    };
    let kind = match int_in(json::tree_field(it, "kind"@)) {
        Some(kind) => " (kind "@ + strings::decimal_int(kind) + ")"@,
        None => Seq::empty(),
    };
    let location = json::tree_field(it, "location"@);
    let start = field_in(field_in(location, "range"@), "start"@);
    let file = match text_in(field_in(location, "uri"@)) {
        Some(uri) => if uri.len() == 0 {
            Seq::empty()
        } else {
            after_last_slash(uri) + ":"@
        },
        None => Seq::empty(),
    };
    "- "@ + name + kind + " "@ + file + number_text(int_in(field_in(start, "line"@))) + ":"@
        + number_text(int_in(field_in(start, "character"@)))
}

/// The text of the symbols that a search has found.
pub open spec fn found_symbols_text(v: Option<JsonTree>) -> Seq<char> {
    match v {
        Some(JsonTree::Array(list)) => if list.len() == 0 {
            "No workspace symbols."@
        } else {
            joined(Seq::new(list.len(), |i: int| found_symbol_line(list[i])), "\n"@)
        },
        _ => "No workspace symbols."@,
    }
}

/// What an optional value holds.
pub open spec fn tree_at(value: Option<&Json>) -> Option<JsonTree> {
    match value {
        Some(value) => Some(value@),
        None => None,
    }
}

fn get_in<'a>(value: Option<&'a Json>, key: &str) -> (r: Option<&'a Json>)
    ensures
        tree_at(r) == field_in(tree_at(value), key@),
{
    match value {
        Some(value) => value.get(key),
        None => None,
    }
}

fn push_number(out: &mut String, value: Option<&Json>)
    ensures
        final(out)@ == old(out)@ + number_text(int_in(tree_at(value))),
{
    let number = match value {
        Some(value) => value.as_i64(),
        None => None,
    };
    match number {
        Some(number) => {
            push_int(out, number);
        },
        None => {
            out.push_str("?");
        },
    }
}

fn found_symbol_item(it: &Json) -> (r: String)
    ensures
        r@ == found_symbol_line(it@),
{
    let mut out = String::new();
    out.push_str("- ");
    let name = match it.get("name") {
        Some(name) => name.as_str(),
        None => None,
    };
    match name {
        Some(name) => {
            out.push_str(name);
        },
        None => {
            out.push_str("?");
        },
    }
    let kind = match it.get("kind") {
        Some(kind) => kind.as_i64(),
        None => None,
    };
    if let Some(kind) = kind {
        out.push_str(" (kind ");
        push_int(&mut out, kind);
        out.push_str(")");
    }
    out.push_str(" ");
    let location = it.get("location");
    let uri = match get_in(location, "uri") {
        Some(uri) => uri.as_str(),
        None => None,
    };
    if let Some(uri) = uri {
        if !uri.is_empty() {
            out.push_str(short_from_str(uri).as_str());
            out.push_str(":");
        }
    }
    let start = get_in(get_in(location, "range"), "start");
    push_number(&mut out, get_in(start, "line"));
    out.push_str(":");
    push_number(&mut out, get_in(start, "character"));
    assert(out@ =~= found_symbol_line(it@));
    out
}

/// The text of the symbols that a search has found.
pub fn format_workspace_symbols(v: Option<Json>) -> (r: String)
    ensures
        r@ == found_symbols_text(optional_view(v)),
{
    let list = match v {
        Some(Json::Array(list)) => list,
        _ => {
            return "No workspace symbols.".to_string();
        },
    };
    if list.len() == 0 {
        return "No workspace symbols.".to_string();
    }
    let ghost trees = json::items_view(list@);
    let ghost wanted = Seq::new(trees.len(), |i: int| found_symbol_line(trees[i]));
    let mut parts: Vec<String> = Vec::new();
    let mut i: usize = 0;
    while i < list.len()
        invariant
            i <= list@.len(),
            trees == json::items_view(list@),
            wanted == Seq::new(trees.len(), |i: int| found_symbol_line(trees[i])),
            strings::texts(parts@) == wanted.take(i as int),
        decreases list.len() - i,
    {
        let part = found_symbol_item(&list[i]);
        assert(trees[i as int] == list@[i as int]@);
        proof {
            lemma_texts_push(parts@, part);
        }
        parts.push(part);
        i = i + 1;
    }
    assert(wanted.take(i as int) == wanted);
    join(&parts, "\n")
}

// ---- diagnostics ----

/// A text in lower case.
pub uninterp spec fn lowercase(text: Seq<char>) -> Seq<char>;

/// `str::to_lowercase`: the text in lower case, which depends on the text alone.
#[verifier::external_body]
fn lowercased(s: &str) -> (r: String)
    ensures
        r@ == lowercase(s@),
{
    s.to_lowercase()
}

/// The name of a severity as it is shown.
pub open spec fn severity_text(severity: Option<Seq<char>>) -> Seq<char> {
    match severity {
        Some(name) => lowercase(name),
        None => "info"@,
    }
}

/// The line of a diagnostic, given the name of its severity.
pub open spec fn diagnostic_line(severity: Seq<char>, d: DiagnosticView) -> Seq<char> {
    "- "@ + severity + " at "@ + position_text(d.start) + ": "@ + d.message
}

/// The text of a list of diagnostics.
pub open spec fn diagnostics_text(diags: Seq<DiagnosticView>) -> Seq<char> {
    if diags.len() == 0 {
        "No diagnostics."@
    } else {
        joined(
            Seq::new(
                diags.len(),
                |i: int| diagnostic_line(severity_text(diags[i].severity), diags[i]),
            ),
            "\n"@,
        )
    }
}

/// The line of a diagnostic, given the name of its severity.
pub fn diagnostic_item(severity: &str, d: &Diagnostic) -> (r: String)
    ensures
        r@ == diagnostic_line(severity@, d@),
{
    let mut out = String::new();
    out.push_str("- ");
    out.push_str(severity);
    out.push_str(" at ");
    push_position(&mut out, d.start);
    out.push_str(": ");
    out.push_str(d.message.as_str());
    assert(out@ =~= diagnostic_line(severity@, d@));
    out
}

/// The text of a list of diagnostics.
pub fn format_diagnostics(diags: &Vec<Diagnostic>) -> (r: String)
    ensures
        r@ == diagnostics_text(types::views(diags@)),
{
    if diags.len() == 0 {
        return "No diagnostics.".to_string();
    }
    let ghost all = types::views(diags@);
    let ghost wanted = Seq::new(
        all.len(),
        |i: int| diagnostic_line(severity_text(all[i].severity), all[i]),
    );
    let mut parts: Vec<String> = Vec::new();
    let mut i: usize = 0;
    while i < diags.len()
        invariant
            i <= diags@.len(),
            all == types::views(diags@),
            wanted == Seq::new(
                all.len(),
                |i: int| diagnostic_line(severity_text(all[i].severity), all[i]),
            ),
            strings::texts(parts@) == wanted.take(i as int),
        decreases diags.len() - i,
    {
        let severity = match &diags[i].severity {
            Some(name) => lowercased(name.as_str()),
            None => "info".to_string(),
        };
        let part = diagnostic_item(severity.as_str(), &diags[i]);
        assert(all[i as int] == diags@[i as int]@);
        proof {
            lemma_texts_push(parts@, part);
        }
        parts.push(part);
        i = i + 1;
    }
    assert(wanted.take(i as int) == wanted);
    join(&parts, "\n")
}

// ---- rename ----

/// The text of a `prepareRename` response.
pub open spec fn prepare_rename_text(v: Option<JsonTree>) -> Seq<char> {
    match v {
        None => "Rename is not supported at this position."@,
        Some(tree) => match text_in(json::tree_field(tree, "placeholder"@)) {
            Some(p) => "Renamable here. Current placeholder: `"@ + p + "`"@,
            None => "Renamable here."@,
        },
    }
}

/// The text of a `prepareRename` response.
pub fn format_prepare_rename(v: Option<Json>) -> (r: String)
    ensures
        r@ == prepare_rename_text(optional_view(v)),
{
    match v {
        None => "Rename is not supported at this position.".to_string(),
        Some(value) => {
            let placeholder = match value.get("placeholder") {
                Some(p) => p.as_str(),
                None => None,
            };
            match placeholder {
                Some(p) => {
                    let mut out = String::new();
                    out.push_str("Renamable here. Current placeholder: `");
                    out.push_str(p);
                    out.push_str("`");
                    assert(out@ =~= prepare_rename_text(Some(value@)));
                    out
                },
                None => "Renamable here.".to_string(),
            }
        },
    }
}

/// A text in double quotes, with escapes.
pub uninterp spec fn quoted_text(text: Seq<char>) -> Seq<char>;

/// `Debug` of `str`: the text in double quotes, with escapes. What comes out depends on
/// the text alone.
#[verifier::external_body]
fn quoted(s: &str) -> (r: String)
    ensures
        r@ == quoted_text(s@),
{
    format!("{:?}", s)
}

/// The line of a text edit, given its quoted text.
pub open spec fn edit_line(start: Position, end: Position, quoted: Seq<char>) -> Seq<char> {
    "  "@ + position_text(start) + "-"@ + position_text(end) + " -> "@ + quoted + "\n"@
}

/// The lines of a list of text edits.
pub open spec fn edits_text(edits: Seq<TextEdit>) -> Seq<char>
    decreases edits.len(),
{
    if edits.len() == 0 {
        Seq::empty()
    } else {
        let e = edits.last();
        edits_text(edits.drop_last()) + edit_line(
            e.range.start,
            e.range.end,
            quoted_text(e.new_text@),
        )
    }
}

/// The lines of the edits of several documents.
pub open spec fn changes_text(changes: Seq<(String, Vec<TextEdit>)>) -> Seq<char>
    decreases changes.len(),
{
    if changes.len() == 0 {
        Seq::empty()
    } else {
        let (uri, edits) = changes.last();
        changes_text(changes.drop_last()) + conv::uri_path_text(uri@) + ":\n"@ + edits_text(edits@)
    }
}

/// The lines of the edits per document of a workspace edit.
pub open spec fn edit_changes_text(edit: WorkspaceEdit) -> Seq<char> {
    match edit.changes {
        Some(changes) => changes_text(changes@),
        None => Seq::empty(),
    }
}

/// `text`, unless it is blank.
pub open spec fn unless_blank(text: Seq<char>) -> Seq<char> {
    if strings::trim(text).len() == 0 {
        "No edits produced."@
    } else {
        text
    }
}

/// The text of a workspace edit: the edits per document, or, where they give nothing to
/// show, the printed form of the document changes.
pub open spec fn workspace_edit_text(
    edit: Option<&WorkspaceEdit>,
    document_changes: Seq<char>,
) -> Seq<char> {
    match edit {
        None => "No edits produced."@,
        Some(edit) => {
            let out = edit_changes_text(*edit);
            if strings::trim(out).len() == 0 {
                unless_blank(out + document_changes)
            } else {
                out
            }
        },
    }
}

fn is_blank(s: &str) -> (r: bool)
    ensures
        r == (strings::trim(s@).len() == 0),
{
    let chars = chars_of(s);
    let (from, to) = trimmed(&chars, 0, chars.len());
    assert(chars@.subrange(0, chars@.len() as int) == s@);
    from == to
}

/// Appends the line of a text edit, given its quoted text.
pub fn push_edit_line(out: &mut String, start: Position, end: Position, quoted: &str)
    ensures
        final(out)@ == old(out)@ + edit_line(start, end, quoted@),
{
    out.push_str("  ");
    push_position(out, start);
    out.push_str("-");
    push_position(out, end);
    out.push_str(" -> ");
    out.push_str(quoted);
    out.push_str("\n");
    assert(out@ =~= old(out)@ + edit_line(start, end, quoted@));
}

fn push_edits(out: &mut String, edits: &Vec<TextEdit>)
    ensures
        final(out)@ == old(out)@ + edits_text(edits@),
{
    let ghost before = out@;
    let mut i: usize = 0;
    assert(edits@.take(0) == Seq::<TextEdit>::empty());
    assert(out@ =~= before + edits_text(edits@.take(0)));
    while i < edits.len()
        invariant
            i <= edits@.len(),
            out@ == before + edits_text(edits@.take(i as int)),
        decreases edits.len() - i,
    {
        let text = quoted(edits[i].new_text.as_str());
        push_edit_line(out, edits[i].range.start, edits[i].range.end, text.as_str());
        assert(edits@.take(i + 1).drop_last() == edits@.take(i as int));
        assert(out@ =~= before + edits_text(edits@.take(i + 1)));
        i = i + 1;
    }
    assert(edits@.take(i as int) == edits@);
}

/// The text of a workspace edit, given the printed form of its document changes (empty
/// where it has none).
pub fn format_workspace_edit(edit: Option<&WorkspaceEdit>, document_changes: &str) -> (r: String)
    ensures
        r@ == workspace_edit_text(edit, document_changes@),
{
    let edit = match edit {
        None => {
            return "No edits produced.".to_string();
        },
        Some(edit) => edit,
    };
    let mut out = String::new();
    if let Some(changes) = &edit.changes {
        let mut i: usize = 0;
        assert(changes@.take(0) == Seq::<(String, Vec<TextEdit>)>::empty());
        while i < changes.len()
            invariant
                i <= changes@.len(),
                out@ == changes_text(changes@.take(i as int)),
            decreases changes.len() - i,
        {
            out.push_str(uri_to_path(changes[i].0.as_str()).as_str());
            out.push_str(":\n");
            push_edits(&mut out, &changes[i].1);
            assert(changes@.take(i + 1).drop_last() == changes@.take(i as int));
            assert(out@ =~= changes_text(changes@.take(i + 1)));
            i = i + 1;
        }
        assert(changes@.take(i as int) == changes@);
    }
    assert(out@ =~= edit_changes_text(*edit));
    if is_blank(out.as_str()) {
        out.push_str(document_changes);
    }
    if is_blank(out.as_str()) {
        "No edits produced.".to_string()
    } else {
        out
    }
}

// ---- laws ----

/// Nothing joined is nothing, one part joined is that part, and one part more stands behind the
/// separator.
pub proof fn law_joined(parts: Seq<Seq<char>>, part: Seq<char>, separator: Seq<char>)
    ensures
        joined(Seq::empty(), separator) == Seq::<char>::empty(),
        joined(seq![part], separator) == part,
        parts.len() > 0 ==> joined(parts.push(part), separator) == joined(parts, separator)
            + separator + part,
{
    assert(parts.push(part).drop_last() =~= parts);
}

/// Each part of a joined text stands in it.
pub proof fn law_joined_holds_each_part(parts: Seq<Seq<char>>, separator: Seq<char>, i: int)
    requires
        0 <= i < parts.len(),
    ensures
        exists|from: int|
            0 <= from <= joined(parts, separator).len() - parts[i].len()
                && #[trigger] joined(parts, separator).subrange(from, from + parts[i].len())
                == parts[i],
    decreases parts.len(),
{
    let whole = joined(parts, separator);
    if parts.len() == 1 {
        let from: int = 0;
        assert(whole.subrange(from, from + parts[i].len()) =~= parts[i]);
    } else {
        let init = parts.drop_last();
        let before = joined(init, separator);
        if i == parts.len() - 1 {
            let from: int = before.len() as int + separator.len();
            assert(whole.subrange(from, from + parts[i].len()) =~= parts[i]);
        } else {
            law_joined_holds_each_part(init, separator, i);
            let from = choose|from: int|
                0 <= from <= before.len() - init[i].len() && #[trigger] before.subrange(
                    from,
                    from + init[i].len(),
                ) == init[i];
            assert(whole.subrange(from, from + parts[i].len()) =~= before.subrange(
                from,
                from + init[i].len(),
            ));
        }
    }
}

/// A location is shown as its path, its line and its character, with a colon between each two.
pub proof fn law_location(place: Place)
    ensures
        location_text(place@) == conv::uri_path_text(place.uri@) + ":"@ + strings::decimal(
            place.start.line as nat,
        ) + ":"@ + strings::decimal(place.start.character as nat),
{
    assert(location_text(place@) =~= conv::uri_path_text(place.uri@) + ":"@ + strings::decimal(
        place.start.line as nat,
    ) + ":"@ + strings::decimal(place.start.character as nat));
}

/// Every part of a hover is shown, with an empty line between each two; a part in a language
/// stands in a fence that names the language.
pub proof fn law_hover(list: Vec<MarkedString>, parts: Seq<Seq<char>>, value: String)
    requires
        parts.len() == list@.len(),
        forall|i: int|
            0 <= i < parts.len() ==> #[trigger] parts[i] == match list@[i] {
                MarkedString::Plain(s) => s@,
                MarkedString::LanguageString { language, value } => "```"@ + language@ + "\n"@
                    + value@ + "\n```"@,
            },
    ensures
        hover_text(optional_view(Some(Hover::Array(list)))) == joined(parts, "\n\n"@),
        list@.len() > 0 ==> hover_text(optional_view(Some(Hover::Scalar(list@[0])))) == parts[0],
        hover_text(optional_view(Some(Hover::Markup(value)))) == value@,
        hover_text(optional_view(None::<Hover>)) == "No hover information."@,
{
    let shown = types::views(list@);
    assert(Seq::new(shown.len(), |i: int| marked_text(shown[i])) =~= parts);
}

/// Every location of a list has its line, in the order of the list, and the line depends on
/// that location alone. References, and definitions in either form of a list, are shown so; a
/// single definition is the line of its location.
pub proof fn law_location_lists(list: Vec<Place>, lines: Seq<Seq<char>>)
    requires
        lines.len() == list@.len(),
        forall|i: int|
            0 <= i < lines.len() ==> #[trigger] lines[i] == "- "@ + conv::uri_path_text(
                list@[i].uri@,
            ) + ":"@ + strings::decimal(list@[i].start.line as nat) + ":"@ + strings::decimal(
                list@[i].start.character as nat,
            ),
    ensures
        list@.len() > 0 ==> {
            &&& references_text(optional_views(Some(list))) == joined(lines, "\n"@)
            &&& locations_text(types::views(list@)) == joined(lines, "\n"@)
            &&& definition_text(optional_view(Some(GotoDefinitionResponse::Array(list))))
                == joined(lines, "\n"@)
            &&& definition_text(optional_view(Some(GotoDefinitionResponse::Scalar(list@[0]))))
                == lines[0]
        },
        definition_text(optional_view(Some(GotoDefinitionResponse::Link(list)))) == joined(
            lines,
            "\n"@,
        ),
        list@.len() == 0 ==> {
            &&& references_text(optional_views(Some(list))) == "No locations found."@
            &&& locations_text(types::views(list@)) == "No locations found."@
            &&& definition_text(optional_view(Some(GotoDefinitionResponse::Array(list))))
                == "No locations found."@
        },
        references_text(optional_views(None::<Vec<Place>>)) == "No references found."@,
        definition_text(optional_view(None::<GotoDefinitionResponse>)) == "No definition found."@,
{
    let shown = types::views(list@);
    assert forall|i: int| 0 <= i < lines.len() implies location_lines(shown)[i] == lines[i] by {
        law_location(list@[i]);
        assert(location_lines(shown)[i] =~= lines[i]);
    }
    assert(location_lines(shown) =~= lines);
    if list@.len() > 0 {
        assert(location_lines(shown)[0] == lines[0]);
    }
}

/// Each reference of a list has its line in the text.
pub proof fn law_references_hold_each(list: Vec<Place>, i: int)
    requires
        0 <= i < list@.len(),
    ensures
        exists|before: Seq<char>, after: Seq<char>|
            references_text(optional_views(Some(list))) == #[trigger] (before + ("- "@
                + conv::uri_path_text(list@[i].uri@) + ":"@ + strings::decimal(
                list@[i].start.line as nat,
            ) + ":"@ + strings::decimal(list@[i].start.character as nat)) + after),
{
    let lines = Seq::new(
        list@.len(),
        |i: int|
            "- "@ + conv::uri_path_text(list@[i].uri@) + ":"@ + strings::decimal(
                list@[i].start.line as nat,
            ) + ":"@ + strings::decimal(list@[i].start.character as nat),
    );
    law_location_lists(list, lines);
    law_joined_holds_each_part(lines, "\n"@, i);
    let whole = joined(lines, "\n"@);
    let from = choose|from: int|
        0 <= from <= whole.len() - lines[i].len() && #[trigger] whole.subrange(
            from,
            from + lines[i].len(),
        ) == lines[i];
    let before = whole.take(from);
    let after = whole.skip(from + lines[i].len());
    assert(whole =~= before + lines[i] + after);
}

/// Every completion has its line, in the order of the list: its label, and its kind where it
/// has one.
pub proof fn law_completions(list: Vec<CompletionItem>, lines: Seq<Seq<char>>)
    requires
        lines.len() == list@.len(),
        forall|i: int|
            0 <= i < lines.len() ==> #[trigger] lines[i] == match list@[i].kind {
                Some(kind) => "- "@ + list@[i].label@ + " ("@ + kind@ + ")"@,
                None => "- "@ + list@[i].label@,
            },
    ensures
        list@.len() > 0 ==> completion_text(optional_views(Some(list))) == joined(lines, "\n"@),
        list@.len() == 0 ==> completion_text(optional_views(Some(list))) == "No completions."@,
        completion_text(optional_views(None::<Vec<CompletionItem>>)) == "No completions."@,
{
    let shown = types::views(list@);
    assert(Seq::new(shown.len(), |i: int| completion_line(shown[i])) =~= lines);
}

/// Every symbol of a flat list has its line, in the order of the list: its name, its kind and
/// its location.
pub proof fn law_flat_symbols(list: Vec<FlatSymbol>, lines: Seq<Seq<char>>)
    requires
        lines.len() == list@.len(),
        forall|i: int|
            0 <= i < lines.len() ==> #[trigger] lines[i] == "- "@ + list@[i].name@ + " ("@
                + list@[i].kind@ + ") @ "@ + conv::uri_path_text(list@[i].place.uri@) + ":"@
                + strings::decimal(list@[i].place.start.line as nat) + ":"@ + strings::decimal(
                list@[i].place.start.character as nat,
            ),
    ensures
        list@.len() > 0 ==> information_text(types::views(list@)) == joined(lines, "\n"@),
        list@.len() == 0 ==> information_text(types::views(list@)) == "No symbols found."@,
        document_symbols_text(optional_view(Some(DocumentSymbolResponse::Flat(list))))
            == information_text(types::views(list@)),
{
    let shown = types::views(list@);
    let lines_shown = Seq::new(shown.len(), |i: int| information_line(shown[i]));
    assert forall|i: int| 0 <= i < lines.len() implies lines_shown[i] == lines[i] by {
        law_location(list@[i].place);
        assert(lines_shown[i] =~= lines[i]);
    }
    assert(lines_shown =~= lines);
}

/// Each symbol of a flat list has its line in the text.
pub proof fn law_flat_symbols_hold_each(list: Vec<FlatSymbol>, i: int)
    requires
        0 <= i < list@.len(),
    ensures
        exists|before: Seq<char>, after: Seq<char>|
            information_text(types::views(list@)) == #[trigger] (before + ("- "@ + list@[i].name@
                + " ("@ + list@[i].kind@ + ") @ "@ + conv::uri_path_text(list@[i].place.uri@)
                + ":"@ + strings::decimal(list@[i].place.start.line as nat) + ":"@
                + strings::decimal(list@[i].place.start.character as nat)) + after),
{
    let lines = Seq::new(
        list@.len(),
        |i: int|
            "- "@ + list@[i].name@ + " ("@ + list@[i].kind@ + ") @ "@ + conv::uri_path_text(
                list@[i].place.uri@,
            ) + ":"@ + strings::decimal(list@[i].place.start.line as nat) + ":"@
                + strings::decimal(list@[i].place.start.character as nat),
    );
    law_flat_symbols(list, lines);
    law_joined_holds_each_part(lines, "\n"@, i);
    let whole = joined(lines, "\n"@);
    let from = choose|from: int|
        0 <= from <= whole.len() - lines[i].len() && #[trigger] whole.subrange(
            from,
            from + lines[i].len(),
        ) == lines[i];
    let before = whole.take(from);
    let after = whole.skip(from + lines[i].len());
    assert(whole =~= before + lines[i] + after);
}

/// A symbol of a tree has its line, and behind it stand the lines of the symbols inside it,
/// which are indented by two more spaces.
pub proof fn law_symbol_line(s: SymbolTree, inside: Seq<SymbolTree>, indent: Seq<char>)
    requires
        s.children == Some(inside) || s.children is None && inside.len() == 0,
    ensures
        symbol_text(s, indent) == indent + "- "@ + s.name + " ("@ + s.kind + ") ["@
            + strings::decimal(s.start.line as nat) + ":"@ + strings::decimal(
            s.start.character as nat,
        ) + "]\n"@ + symbols_text(inside, indent + "  "@),
{
    assert(symbol_text(s, indent) =~= indent + "- "@ + s.name + " ("@ + s.kind + ") ["@
        + strings::decimal(s.start.line as nat) + ":"@ + strings::decimal(
        s.start.character as nat,
    ) + "]\n"@ + symbols_text(inside, indent + "  "@));
}

/// The text of a list of symbols is the text of each, in the order of the list.
pub proof fn law_symbols_in_turn(list: Seq<SymbolTree>, s: SymbolTree, indent: Seq<char>)
    ensures
        symbols_text(Seq::empty(), indent) == Seq::<char>::empty(),
        symbols_text(list.push(s), indent) == symbols_text(list, indent) + symbol_text(s, indent),
{
    assert(list.push(s).drop_last() =~= list);
}

/// The symbols of a document are shown from the margin, or it is said that there are none.
pub proof fn law_document_symbols(list: Vec<Symbol>)
    ensures
        list@.len() > 0 ==> document_symbols_text(
            optional_view(Some(DocumentSymbolResponse::Nested(list))),
        ) == symbols_text(types::symbol_views(list@), ""@),
        list@.len() == 0 ==> document_symbols_text(
            optional_view(Some(DocumentSymbolResponse::Nested(list))),
        ) == "No document symbols."@,
        document_symbols_text(optional_view(None::<DocumentSymbolResponse>))
            == "No document symbols."@,
{
    reveal_strlit("");
    assert(""@ =~= Seq::<char>::empty());
}

/// Every found symbol has its line, in the order of the list.
pub proof fn law_found_symbols(list: Seq<JsonTree>, lines: Seq<Seq<char>>, other: JsonTree)
    requires
        lines.len() == list.len(),
        forall|i: int| 0 <= i < lines.len() ==> #[trigger] lines[i] == found_symbol_line(list[i]),
        !(other is Array),
    ensures
        list.len() > 0 ==> found_symbols_text(Some(JsonTree::Array(list))) == joined(lines, "\n"@),
        list.len() == 0 ==> found_symbols_text(Some(JsonTree::Array(list)))
            == "No workspace symbols."@,
        found_symbols_text(None) == "No workspace symbols."@,
        found_symbols_text(Some(other)) == "No workspace symbols."@,
{
    assert(Seq::new(list.len(), |i: int| found_symbol_line(list[i])) =~= lines);
}

/// The fields of a value, which has none where it is no object.
pub open spec fn fields_of(tree: Option<JsonTree>) -> Map<Seq<char>, JsonTree> {
    if tree is Some && tree->Some_0 is Object {
        tree->Some_0->Object_0
    } else {
        Map::empty()
    }
}

/// The line of a found symbol shows its name, its kind, the last part of its URI and its
/// position, each from the field of that name. A name or a number that is not there, or is no
/// text or no integer, shows as a question mark; a kind or a URI that is not there does not
/// show.
pub proof fn law_found_symbol_line(
    it: JsonTree,
    fields: Map<Seq<char>, JsonTree>,
    location: Map<Seq<char>, JsonTree>,
    range: Map<Seq<char>, JsonTree>,
    start: Map<Seq<char>, JsonTree>,
    name: Seq<char>,
    kind: Seq<char>,
    file: Seq<char>,
    line: Seq<char>,
    character: Seq<char>,
)
    requires
        fields == fields_of(Some(it)),
        location == if fields.contains_key("location"@) {
            fields_of(Some(fields["location"@]))
        } else {
            Map::empty()
        },
        range == if location.contains_key("range"@) {
            fields_of(Some(location["range"@]))
        } else {
            Map::empty()
        },
        start == if range.contains_key("start"@) {
            fields_of(Some(range["start"@]))
        } else {
            Map::empty()
        },
        name == if fields.contains_key("name"@) && fields["name"@] is Text {
            fields["name"@]->Text_0
        } else {
            "?"@
        },
        kind == if fields.contains_key("kind"@) && fields["kind"@] is Int && i64::MIN
            <= fields["kind"@]->Int_0 <= i64::MAX {
            " (kind "@ + strings::decimal_int(fields["kind"@]->Int_0) + ")"@
        } else {
            Seq::empty()
        },
        file == if location.contains_key("uri"@) && location["uri"@] is Text
            && location["uri"@]->Text_0.len() > 0 {
            after_last_slash(location["uri"@]->Text_0) + ":"@
        } else {
            Seq::empty()
        },
        line == if start.contains_key("line"@) && start["line"@] is Int && i64::MIN
            <= start["line"@]->Int_0 <= i64::MAX {
            strings::decimal_int(start["line"@]->Int_0)
        } else {
            "?"@
        },
        character == if start.contains_key("character"@) && start["character"@] is Int
            && i64::MIN <= start["character"@]->Int_0 <= i64::MAX {
            strings::decimal_int(start["character"@]->Int_0)
        } else {
            "?"@
        },
    ensures
        found_symbol_line(it) == "- "@ + name + kind + " "@ + file + line + ":"@ + character,
{
}

/// A found symbol of which the server says nothing shows question marks.
pub proof fn law_unknown_symbol(it: Map<Seq<char>, JsonTree>)
    requires
        !it.contains_key("name"@),
        !it.contains_key("kind"@),
        !it.contains_key("location"@),
    ensures
        found_symbol_line(JsonTree::Object(it)) == "- ? ?:?"@,
{
    reveal_strlit("- ? ?:?");
    reveal_strlit("- ");
    reveal_strlit("?");
    reveal_strlit(" ");
    reveal_strlit(":");
    let tree = JsonTree::Object(it);
    assert(json::tree_field(tree, "name"@) is None);
    assert(json::tree_field(tree, "kind"@) is None);
    assert(json::tree_field(tree, "location"@) is None);
    assert(found_symbol_line(tree) =~= "- ? ?:?"@);
}

/// Every diagnostic has its line, in the order of the list: its own severity, start and
/// message. One without a severity is an information.
pub proof fn law_diagnostics(list: Vec<Diagnostic>, lines: Seq<Seq<char>>)
    requires
        lines.len() == list@.len(),
        forall|i: int|
            0 <= i < lines.len() ==> #[trigger] lines[i] == "- "@ + match list@[i].severity {
                Some(severity) => lowercase(severity@),
                None => "info"@,
            } + " at "@ + strings::decimal(list@[i].start.line as nat) + ":"@ + strings::decimal(
                list@[i].start.character as nat,
            ) + ": "@ + list@[i].message@,
    ensures
        list@.len() > 0 ==> diagnostics_text(types::views(list@)) == joined(lines, "\n"@),
        list@.len() == 0 ==> diagnostics_text(types::views(list@)) == "No diagnostics."@,
{
    let shown = types::views(list@);
    let lines_shown = Seq::new(
        shown.len(),
        |i: int| diagnostic_line(severity_text(shown[i].severity), shown[i]),
    );
    assert forall|i: int| 0 <= i < lines.len() implies lines_shown[i] == lines[i] by {
        assert(lines_shown[i] =~= lines[i]);
    }
    assert(lines_shown =~= lines);
}

/// Whether a symbol can be renamed is said, with the placeholder where the server gives one.
pub proof fn law_prepare_rename(
    fields: Map<Seq<char>, JsonTree>,
    placeholder: Seq<char>,
    other: JsonTree,
)
    ensures
        !(other is Object) ==> prepare_rename_text(Some(other)) == "Renamable here."@,
        fields.contains_key("placeholder"@) && !(fields["placeholder"@] is Text)
            ==> prepare_rename_text(Some(JsonTree::Object(fields))) == "Renamable here."@,
        prepare_rename_text(None) == "Rename is not supported at this position."@,
        fields.contains_pair("placeholder"@, JsonTree::Text(placeholder)) ==> prepare_rename_text(
            Some(JsonTree::Object(fields)),
        ) == "Renamable here. Current placeholder: `"@ + placeholder + "`"@,
        !fields.contains_key("placeholder"@) ==> prepare_rename_text(
            Some(JsonTree::Object(fields)),
        ) == "Renamable here."@,
{
    let tree = JsonTree::Object(fields);
    if fields.contains_pair("placeholder"@, JsonTree::Text(placeholder)) {
        assert(json::tree_field(tree, "placeholder"@) == Some(JsonTree::Text(placeholder)));
    }
    if !fields.contains_key("placeholder"@) {
        assert(json::tree_field(tree, "placeholder"@) is None);
    }
}

/// Each edit of a document has its line, in the order of the edits: its start, its end and its
/// quoted text.
pub proof fn law_edit_lines(edits: Seq<TextEdit>, edit: TextEdit)
    ensures
        edits_text(Seq::empty()) == Seq::<char>::empty(),
        edits_text(edits.push(edit)) == edits_text(edits) + ("  "@ + strings::decimal(
            edit.range.start.line as nat,
        ) + ":"@ + strings::decimal(edit.range.start.character as nat) + "-"@ + strings::decimal(
            edit.range.end.line as nat,
        ) + ":"@ + strings::decimal(edit.range.end.character as nat) + " -> "@ + quoted_text(
            edit.new_text@,
        ) + "\n"@),
{
    assert(edits.push(edit).drop_last() =~= edits);
    assert(edits_text(edits.push(edit)) =~= edits_text(edits) + ("  "@ + strings::decimal(
        edit.range.start.line as nat,
    ) + ":"@ + strings::decimal(edit.range.start.character as nat) + "-"@ + strings::decimal(
        edit.range.end.line as nat,
    ) + ":"@ + strings::decimal(edit.range.end.character as nat) + " -> "@ + quoted_text(
        edit.new_text@,
    ) + "\n"@));
}

/// Each document of an edit is shown, in the order of the edit: its path, and behind it the
/// lines of its edits.
pub proof fn law_changed_documents(
    changes: Seq<(String, Vec<TextEdit>)>,
    uri: String,
    edits: Vec<TextEdit>,
)
    ensures
        changes_text(Seq::empty()) == Seq::<char>::empty(),
        changes_text(changes.push((uri, edits))) == changes_text(changes) + (conv::uri_path_text(
            uri@,
        ) + ":\n"@ + edits_text(edits@)),
{
    assert(changes.push((uri, edits)).drop_last() =~= changes);
    assert(changes_text(changes.push((uri, edits))) =~= changes_text(changes) + (
    conv::uri_path_text(uri@) + ":\n"@ + edits_text(edits@)));
}

/// An edit with edits per document shows these and not its document changes; one without shows
/// its document changes, where they have something to show.
pub proof fn law_workspace_edit(edit: WorkspaceEdit, document_changes: Seq<char>, i: int)
    ensures
        workspace_edit_text(None, document_changes) == "No edits produced."@,
        edit.changes is Some && edit.changes->Some_0@.len() > 0 ==> workspace_edit_text(
            Some(&edit),
            document_changes,
        ) == changes_text(edit.changes->Some_0@),
        edit.changes is None || edit.changes->Some_0@.len() == 0 ==> {
            &&& 0 <= i < document_changes.len() && !strings::is_space(document_changes[i])
                ==> workspace_edit_text(Some(&edit), document_changes) == document_changes
            &&& (forall|k: int|
                0 <= k < document_changes.len() ==> strings::is_space(
                    #[trigger] document_changes[k],
                )) ==> workspace_edit_text(Some(&edit), document_changes)
                == "No edits produced."@
        },
{
    strings::law_trim(document_changes);
    if edit.changes is Some && edit.changes->Some_0@.len() > 0 {
        let changes = edit.changes->Some_0@;
        let out = changes_text(changes);
        let (uri, edits) = changes.last();
        let before = changes_text(changes.drop_last()) + conv::uri_path_text(uri@);
        reveal_strlit(":\n");
        assert(out[before.len() as int] == ':');
        assert(!strings::is_space(':'));
        strings::law_trim(out);
    } else {
        strings::law_trim(Seq::empty());
        assert(edit_changes_text(edit) =~= Seq::empty());
        assert(Seq::<char>::empty() + document_changes =~= document_changes);
    }
}

/// Each function gives the text of what it is given.
pub proof fn law_formatting(
    hover: Option<Hover>,
    definition: Option<GotoDefinitionResponse>,
    references: Option<Vec<Place>>,
    places: Vec<Place>,
    completion: Option<Vec<CompletionItem>>,
    flat: Vec<FlatSymbol>,
    symbols: Option<DocumentSymbolResponse>,
    found: Option<Json>,
    diagnostics: Vec<Diagnostic>,
    shown: Seq<String>,
)
    requires
        call_ensures(format_hover, (hover,), shown[0]),
        call_ensures(format_definition, (definition,), shown[1]),
        call_ensures(format_references, (references,), shown[2]),
        call_ensures(format_locations, (&places,), shown[3]),
        call_ensures(format_completion, (completion,), shown[4]),
        call_ensures(format_symbol_information, (&flat,), shown[5]),
        call_ensures(format_document_symbols, (symbols,), shown[6]),
        call_ensures(format_workspace_symbols, (found,), shown[7]),
        call_ensures(format_diagnostics, (&diagnostics,), shown[8]),
        call_ensures(format_prepare_rename, (found,), shown[9]),
    ensures
        shown[0]@ == hover_text(optional_view(hover)),
        shown[1]@ == definition_text(optional_view(definition)),
        shown[2]@ == references_text(optional_views(references)),
        shown[3]@ == locations_text(types::views(places@)),
        shown[4]@ == completion_text(optional_views(completion)),
        shown[5]@ == information_text(types::views(flat@)),
        shown[6]@ == document_symbols_text(optional_view(symbols)),
        shown[7]@ == found_symbols_text(optional_view(found)),
        shown[8]@ == diagnostics_text(types::views(diagnostics@)),
        shown[9]@ == prepare_rename_text(optional_view(found)),
{
}

} // verus!
