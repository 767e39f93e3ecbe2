//! Where the messages of the protocol hold URIs.
//!
//! `lsp_types` cannot read a text as a URI that is longer than [`uri_limit`]: it panics. The
//! shapes here say which parts of a message it reads as URIs, so that a message can be tested
//! beforehand. A record is an object with named members, or an array with the members in their
//! order; the parts of a record that a shape does not speak of may hold any text.

use crate::encoding;
use crate::json;
use crate::json::{Json, JsonTree};
use vstd::prelude::*;

verus! {

/// The longest text, in bytes, that `lsp_types` can read as a URI.
pub open spec fn uri_limit() -> nat {
    0x7fff_ffff
}

/// The parts of messages that hold URIs.
#[derive(Debug, Clone, Copy)]
pub enum Shape {
    /// A URI.
    Uri,
    /// An object whose keys are URIs.
    Keys,
    /// `Location`, or the identifier of a document: a record that begins with a URI.
    Location,
    /// `LocationLink`.
    Link,
    /// `CodeDescription`.
    CodeDescription,
    /// `ConfigurationItem`.
    ConfigurationItem,
    /// `DiagnosticRelatedInformation`.
    RelatedInformation,
    /// `SymbolInformation`.
    SymbolInformation,
    /// `DocumentChangeOperation`: `TextDocumentEdit`, or `CreateFile`, `RenameFile` or
    /// `DeleteFile`, whose kind stands before the other members.
    Operation,
    /// `Diagnostic`.
    Diagnostic,
    /// The response to `textDocument/definition`: a location, or a list of locations or links.
    Definition,
    /// The response to `textDocument/references`.
    References,
    /// The response to `textDocument/documentSymbol`.
    Symbols,
    /// The parameters of `textDocument/publishDiagnostics`.
    Diagnostics,
    /// The parameters of `workspace/configuration`.
    Configuration,
    /// `WorkspaceEdit`, the response to `textDocument/rename`.
    WorkspaceEdit,
}

/// How deep the URIs of a shape stand.
pub open spec fn rank(shape: Shape) -> nat {
    match shape {
        Shape::Uri | Shape::Keys => 0,
        Shape::Location | Shape::Link | Shape::CodeDescription | Shape::ConfigurationItem => 1,
        Shape::RelatedInformation | Shape::SymbolInformation | Shape::Operation => 2,
        Shape::Diagnostic => 3,
        _ => 4,
    }
}

/// The member of a record, by its name in an object, or by its place in an array.
pub open spec fn member(tree: JsonTree, place: int, name: Seq<char>) -> Option<JsonTree> {
    match tree {
        JsonTree::Array(_) => json::tree_element(tree, place),
        _ => json::tree_field(tree, name),
    }
}

/// The URIs in the member of a record, where it is there, are short enough.
pub open spec fn member_fits(tree: JsonTree, place: int, name: Seq<char>, shape: Shape) -> bool
    decreases rank(shape), 2nat,
{
    match member(tree, place, name) {
        Some(part) => fits(part, shape),
        None => true,
    }
}

/// The URIs in the member of a record that is a list, where it is there, are short enough.
pub open spec fn members_fit(tree: JsonTree, place: int, name: Seq<char>, shape: Shape) -> bool
    decreases rank(shape), 2nat,
{
    match member(tree, place, name) {
        Some(part) => all_fit(part, shape),
        None => true,
    }
}

/// The URIs in the elements of a list are short enough.
pub open spec fn all_fit(tree: JsonTree, shape: Shape) -> bool
    decreases rank(shape), 1nat,
{
    tree is Array ==> forall|i: int|
        0 <= i < tree->Array_0.len() ==> fits(#[trigger] tree->Array_0[i], shape)
}

/// The URIs in a value of a shape are short enough.
pub open spec fn fits(tree: JsonTree, shape: Shape) -> bool
    decreases rank(shape), 0nat,
{
    match shape {
        Shape::Uri => tree matches JsonTree::Text(s) ==> encoding::byte_len(s) <= uri_limit(),
        Shape::Keys => json::keys_within(tree, uri_limit()),
        Shape::Location => member_fits(tree, 0, "uri"@, Shape::Uri),
        Shape::Link => member_fits(tree, 1, "targetUri"@, Shape::Uri),
        Shape::CodeDescription => member_fits(tree, 0, "href"@, Shape::Uri),
        Shape::ConfigurationItem => member_fits(tree, 0, "scopeUri"@, Shape::Uri),
        Shape::RelatedInformation => member_fits(tree, 0, "location"@, Shape::Location),
        Shape::SymbolInformation => member_fits(tree, 4, "location"@, Shape::Location),
        Shape::Operation => {
            &&& member_fits(tree, 0, "textDocument"@, Shape::Location)
            &&& member_fits(tree, 1, "uri"@, Shape::Uri)
            &&& member_fits(tree, 1, "oldUri"@, Shape::Uri)
            &&& member_fits(tree, 2, "newUri"@, Shape::Uri)
        },
        Shape::Diagnostic => {
            &&& member_fits(tree, 3, "codeDescription"@, Shape::CodeDescription)
            &&& members_fit(tree, 6, "relatedInformation"@, Shape::RelatedInformation)
        },
        Shape::Definition => {
            &&& fits(tree, Shape::Location)
            &&& all_fit(tree, Shape::Location)
            &&& all_fit(tree, Shape::Link)
        },
        Shape::References => all_fit(tree, Shape::Location),
        Shape::Symbols => all_fit(tree, Shape::SymbolInformation),
        Shape::Diagnostics => {
            &&& member_fits(tree, 0, "uri"@, Shape::Uri)
            &&& members_fit(tree, 1, "diagnostics"@, Shape::Diagnostic)
        },
        Shape::Configuration => members_fit(tree, 0, "items"@, Shape::ConfigurationItem),
        Shape::WorkspaceEdit => {
            &&& member_fits(tree, 0, "changes"@, Shape::Keys)
            &&& members_fit(tree, 1, "documentChanges"@, Shape::Operation)
        },
    }
}

fn find_member<'a>(value: &'a Json, place: usize, name: &str) -> (r: Option<&'a Json>)
    ensures
        r is Some == member(value@, place as int, name@) is Some,
        r matches Some(part) ==> member(value@, place as int, name@) == Some(part@),
{
    match value {
        Json::Array(_) => value.element(place),
        _ => value.get(name),
    }
}

fn has_fitting_member(value: &Json, place: usize, name: &str, shape: Shape) -> (r: bool)
    ensures
        r == member_fits(value@, place as int, name@, shape),
    decreases rank(shape), 2nat,
{
    match find_member(value, place, name) {
        Some(part) => has_fitting_uris(part, shape),
        None => true,
    }
}

fn has_fitting_members(value: &Json, place: usize, name: &str, shape: Shape) -> (r: bool)
    ensures
        r == members_fit(value@, place as int, name@, shape),
    decreases rank(shape), 2nat,
{
    match find_member(value, place, name) {
        Some(part) => have_fitting_uris(part, shape),
        None => true,
    }
}

fn have_fitting_uris(value: &Json, shape: Shape) -> (r: bool)
    ensures
        r == all_fit(value@, shape),
    decreases rank(shape), 1nat,
{
    match value {
        Json::Array(items) => {
            let mut i: usize = 0;
            while i < items.len()
                invariant
                    i <= items@.len(),
                    value@ == JsonTree::Array(json::items_view(items@)),
                    forall|j: int| 0 <= j < i ==> fits(#[trigger] json::items_view(items@)[j], shape),
                decreases items.len() - i,
            {
                assert(json::items_view(items@)[i as int] == items@[i as int]@);
                if !has_fitting_uris(&items[i], shape) {
                    assert(!fits(value@->Array_0[i as int], shape));
                    return false;
                }
                i = i + 1;
            }
            true
        },
        _ => true,
    }
}

/// Whether the URIs in a value of a shape are short enough.
pub fn has_fitting_uris(value: &Json, shape: Shape) -> (r: bool)
    ensures
        r == fits(value@, shape),
    decreases rank(shape), 0nat,
{
    match shape {
        Shape::Uri => match value {
            Json::Text(s) => s.as_str().as_bytes().len() <= 0x7fff_ffff,
            _ => true,
        },
        Shape::Keys => value.has_keys_within(0x7fff_ffff),
        Shape::Location => has_fitting_member(value, 0, "uri", Shape::Uri),
        Shape::Link => has_fitting_member(value, 1, "targetUri", Shape::Uri),
        Shape::CodeDescription => has_fitting_member(value, 0, "href", Shape::Uri),
        Shape::ConfigurationItem => has_fitting_member(value, 0, "scopeUri", Shape::Uri),
        Shape::RelatedInformation => has_fitting_member(value, 0, "location", Shape::Location),
        Shape::SymbolInformation => has_fitting_member(value, 4, "location", Shape::Location),
        Shape::Operation => {
            has_fitting_member(value, 0, "textDocument", Shape::Location) && has_fitting_member(
                value,
                1,
                "uri",
                Shape::Uri,
            ) && has_fitting_member(value, 1, "oldUri", Shape::Uri) && has_fitting_member(
                value,
                2,
                "newUri",
                Shape::Uri,
            )
        },
        Shape::Diagnostic => {
            has_fitting_member(value, 3, "codeDescription", Shape::CodeDescription)
                && has_fitting_members(value, 6, "relatedInformation", Shape::RelatedInformation)
        },
        Shape::Definition => {
            has_fitting_uris(value, Shape::Location) && have_fitting_uris(value, Shape::Location)
                && have_fitting_uris(value, Shape::Link)
        },
        Shape::References => have_fitting_uris(value, Shape::Location),
        Shape::Symbols => have_fitting_uris(value, Shape::SymbolInformation),
        Shape::Diagnostics => {
            has_fitting_member(value, 0, "uri", Shape::Uri) && has_fitting_members(
                value,
                1,
                "diagnostics",
                Shape::Diagnostic,
            )
        },
        Shape::Configuration => has_fitting_members(value, 0, "items", Shape::ConfigurationItem),
        Shape::WorkspaceEdit => {
            has_fitting_member(value, 0, "changes", Shape::Keys) && has_fitting_members(
                value,
                1,
                "documentChanges",
                Shape::Operation,
            )
        },
    }
}

// ---- laws ----

/// A text fits as a URI where it has at most as many bytes as a signed integer of 32 bits can
/// count, and so do keys; what is no text, and what is no object, holds no URI there.
pub proof fn law_uri_limit(
    text: Seq<char>,
    fields: Map<Seq<char>, JsonTree>,
    key: Seq<char>,
    other: JsonTree,
)
    ensures
        fits(JsonTree::Text(text), Shape::Uri) <==> encoding::byte_len(text) <= 0x7fff_ffff,
        !(other is Text) ==> fits(other, Shape::Uri),
        fits(JsonTree::Object(fields), Shape::Keys) && fields.contains_key(key)
            ==> encoding::byte_len(key) <= 0x7fff_ffff,
        (forall|k: Seq<char>| #[trigger]
            fields.contains_key(k) ==> encoding::byte_len(k) <= 0x7fff_ffff) ==> fits(
            JsonTree::Object(fields),
            Shape::Keys,
        ),
        !(other is Object) ==> fits(other, Shape::Keys),
{
    let object = JsonTree::Object(fields);
    assert(object->Object_0 == fields);
}

/// A member of a record is found by its name in an object and by its place in an array.
pub proof fn law_member(
    fields: Map<Seq<char>, JsonTree>,
    items: Seq<JsonTree>,
    other: JsonTree,
    place: int,
    name: Seq<char>,
)
    ensures
        member(JsonTree::Object(fields), place, name) == if fields.contains_key(name) {
            Some(fields[name])
        } else {
            None
        },
        member(JsonTree::Array(items), place, name) == if 0 <= place < items.len() {
            Some(items[place])
        } else {
            None
        },
        !(other is Object) && !(other is Array) ==> member(other, place, name) is None,
{
}

/// A member fits where it is not there, or is there and fits; a list fits where each of its
/// elements does, and what is no list holds none.
pub proof fn law_members_fit(
    tree: JsonTree,
    part: JsonTree,
    items: Seq<JsonTree>,
    place: int,
    name: Seq<char>,
    shape: Shape,
)
    ensures
        member(tree, place, name) == Some(part) ==> {
            &&& member_fits(tree, place, name, shape) == fits(part, shape)
            &&& members_fit(tree, place, name, shape) == all_fit(part, shape)
        },
        member(tree, place, name) is None ==> {
            &&& member_fits(tree, place, name, shape)
            &&& members_fit(tree, place, name, shape)
        },
        all_fit(JsonTree::Array(items), shape) <==> forall|i: int|
            0 <= i < items.len() ==> fits(#[trigger] items[i], shape),
        !(tree is Array) ==> all_fit(tree, shape),
{
    let list = JsonTree::Array(items);
    assert(list->Array_0 == items);
    if all_fit(list, shape) {
        assert forall|i: int| 0 <= i < items.len() implies fits(#[trigger] items[i], shape) by {
            assert(fits(list->Array_0[i], shape));
        }
    }
}

/// Which members of which records hold URIs.
pub proof fn law_places_of_uris(tree: JsonTree)
    ensures
        fits(tree, Shape::Location) == member_fits(tree, 0, "uri"@, Shape::Uri),
        fits(tree, Shape::Link) == member_fits(tree, 1, "targetUri"@, Shape::Uri),
        fits(tree, Shape::CodeDescription) == member_fits(tree, 0, "href"@, Shape::Uri),
        fits(tree, Shape::ConfigurationItem) == member_fits(tree, 0, "scopeUri"@, Shape::Uri),
        fits(tree, Shape::RelatedInformation) == member_fits(
            tree,
            0,
            "location"@,
            Shape::Location,
        ),
        fits(tree, Shape::SymbolInformation) == member_fits(tree, 4, "location"@, Shape::Location),
        fits(tree, Shape::Operation) == (member_fits(tree, 0, "textDocument"@, Shape::Location)
            && member_fits(tree, 1, "uri"@, Shape::Uri) && member_fits(
            tree,
            1,
            "oldUri"@,
            Shape::Uri,
        ) && member_fits(tree, 2, "newUri"@, Shape::Uri)),
        fits(tree, Shape::Diagnostic) == (member_fits(
            tree,
            3,
            "codeDescription"@,
            Shape::CodeDescription,
        ) && members_fit(tree, 6, "relatedInformation"@, Shape::RelatedInformation)),
        fits(tree, Shape::Definition) == (fits(tree, Shape::Location) && all_fit(
            tree,
            Shape::Location,
        ) && all_fit(tree, Shape::Link)),
        fits(tree, Shape::References) == all_fit(tree, Shape::Location),
        fits(tree, Shape::Symbols) == all_fit(tree, Shape::SymbolInformation),
        fits(tree, Shape::Diagnostics) == (member_fits(tree, 0, "uri"@, Shape::Uri)
            && members_fit(tree, 1, "diagnostics"@, Shape::Diagnostic)),
        fits(tree, Shape::Configuration) == members_fit(
            tree,
            0,
            "items"@,
            Shape::ConfigurationItem,
        ),
        fits(tree, Shape::WorkspaceEdit) == (member_fits(tree, 0, "changes"@, Shape::Keys)
            && members_fit(tree, 1, "documentChanges"@, Shape::Operation)),
{
}

} // verus!
