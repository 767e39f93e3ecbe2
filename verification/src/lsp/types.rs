//! The parts of the LSP data model that the library reads.

use crate::strings;
use vstd::prelude::*;

verus! {

/// A 0-based position: a line, and a UTF-16 code unit on it.
#[derive(Debug, Clone, Copy, PartialEq, Eq, Structural)]
pub struct Position {
    pub line: u32,
    pub character: u32,
}

/// A range between two positions, its end excluded.
#[derive(Debug, Clone, Copy, PartialEq, Eq, Structural)]
pub struct Range {
    pub start: Position,
    pub end: Position,
}

/// The replacement of a range of a document by a text.
#[derive(Debug)]
pub struct TextEdit {
    pub range: Range,
    pub new_text: String,
}

/// A text edit that a server has annotated.
#[derive(Debug)]
pub struct AnnotatedTextEdit {
    pub text_edit: TextEdit,
    pub annotation_id: String,
}

/// Either of two forms of an edit.
#[derive(Debug)]
pub enum OneOf {
    Left(TextEdit),
    Right(AnnotatedTextEdit),
}

/// The edits of one document.
#[derive(Debug)]
pub struct DocumentEdit {
    pub uri: String,
    pub edits: Vec<OneOf>,
}

#[derive(Debug, Clone, Copy, PartialEq, Eq, Structural)]
pub struct CreateFileOptions {
    pub overwrite: Option<bool>,
    pub ignore_if_exists: Option<bool>,
}

/// A request to create a file.
#[derive(Debug)]
pub struct CreateFile {
    pub uri: String,
    pub options: Option<CreateFileOptions>,
}

#[derive(Debug, Clone, Copy, PartialEq, Eq, Structural)]
pub struct RenameFileOptions {
    pub overwrite: Option<bool>,
    pub ignore_if_exists: Option<bool>,
}

/// A request to rename a file.
#[derive(Debug)]
pub struct RenameFile {
    pub old_uri: String,
    pub new_uri: String,
    pub options: Option<RenameFileOptions>,
}

#[derive(Debug, Clone, Copy, PartialEq, Eq, Structural)]
pub struct DeleteFileOptions {
    pub recursive: Option<bool>,
    pub ignore_if_not_exists: Option<bool>,
}

/// A request to delete a file.
#[derive(Debug)]
pub struct DeleteFile {
    pub uri: String,
    pub options: Option<DeleteFileOptions>,
}

/// A change to files as such.
#[derive(Debug)]
pub enum FileOperation {
    Create(CreateFile),
    Rename(RenameFile),
    Delete(DeleteFile),
}

/// One of a list of changes, made in their order.
#[derive(Debug)]
pub enum ChangeOperation {
    Edit(DocumentEdit),
    Op(FileOperation),
}

/// The changes of a workspace edit, in the form that keeps their order.
#[derive(Debug)]
pub enum OrderedChanges {
    Edits(Vec<DocumentEdit>),
    Operations(Vec<ChangeOperation>),
}

/// A change to the files of a workspace: edits per document, and changes in their order.
#[derive(Debug)]
pub struct WorkspaceEdit {
    pub changes: Option<Vec<(String, Vec<TextEdit>)>>,
    pub document_changes: Option<OrderedChanges>,
}

#[verifier::ext_equal]
pub struct TextEditView {
    pub range: Range,
    pub new_text: Seq<char>,
}

impl View for TextEdit {
    type V = TextEditView;

    open spec fn view(&self) -> TextEditView {
        TextEditView { range: self.range, new_text: self.new_text@ }
    }
}

#[verifier::ext_equal]
pub enum OneOfView {
    Left(TextEditView),
    Right { text_edit: TextEditView, annotation_id: Seq<char> },
}

impl View for OneOf {
    type V = OneOfView;

    open spec fn view(&self) -> OneOfView {
        match self {
            OneOf::Left(edit) => OneOfView::Left(edit@),
            OneOf::Right(annotated) => OneOfView::Right {
                text_edit: annotated.text_edit@,
                annotation_id: annotated.annotation_id@,
            },
        }
    }
}

#[verifier::ext_equal]
pub struct DocumentEditView {
    pub uri: Seq<char>,
    pub edits: Seq<OneOfView>,
}

impl View for DocumentEdit {
    type V = DocumentEditView;

    open spec fn view(&self) -> DocumentEditView {
        DocumentEditView { uri: self.uri@, edits: views(self.edits@) }
    }
}

/// What an operation on the list of changes holds.
#[verifier::ext_equal]
pub enum OperationView {
    Edit(DocumentEditView),
    Create { uri: Seq<char>, options: Option<CreateFileOptions> },
    Rename { old_uri: Seq<char>, new_uri: Seq<char>, options: Option<RenameFileOptions> },
    Delete { uri: Seq<char>, options: Option<DeleteFileOptions> },
}

impl View for ChangeOperation {
    type V = OperationView;

    open spec fn view(&self) -> OperationView {
        match self {
            ChangeOperation::Edit(edit) => OperationView::Edit(edit@),
            ChangeOperation::Op(FileOperation::Create(op)) => OperationView::Create {
                uri: op.uri@,
                options: op.options,
            },
            ChangeOperation::Op(FileOperation::Rename(op)) => OperationView::Rename {
                old_uri: op.old_uri@,
                new_uri: op.new_uri@,
                options: op.options,
            },
            ChangeOperation::Op(FileOperation::Delete(op)) => OperationView::Delete {
                uri: op.uri@,
                options: op.options,
            },
        }
    }
}

#[verifier::ext_equal]
pub enum OrderedChangesView {
    Edits(Seq<DocumentEditView>),
    Operations(Seq<OperationView>),
}

impl View for OrderedChanges {
    type V = OrderedChangesView;

    open spec fn view(&self) -> OrderedChangesView {
        match self {
            OrderedChanges::Edits(list) => OrderedChangesView::Edits(views(list@)),
            OrderedChanges::Operations(list) => OrderedChangesView::Operations(views(list@)),
        }
    }
}

/// The edits of each document, whatever the order in which the documents are listed.
pub open spec fn changes_map(list: Seq<(String, Vec<TextEdit>)>) -> Map<
    Seq<char>,
    Seq<TextEditView>,
>
    decreases list.len(),
{
    if list.len() == 0 {
        Map::empty()
    } else {
        changes_map(list.drop_last()).insert(list.last().0@, views(list.last().1@))
    }
}

#[verifier::ext_equal]
pub struct WorkspaceEditView {
    pub changes: Option<Map<Seq<char>, Seq<TextEditView>>>,
    pub document_changes: Option<OrderedChangesView>,
}

impl View for WorkspaceEdit {
    type V = WorkspaceEditView;

    open spec fn view(&self) -> WorkspaceEditView {
        WorkspaceEditView {
            changes: match self.changes {
                Some(list) => Some(changes_map(list@)),
                None => None,
            },
            document_changes: match self.document_changes {
                Some(changes) => Some(changes@),
                None => None,
            },
        }
    }
}

/// What each element of a list holds.
pub open spec fn views<T: View>(list: Seq<T>) -> Seq<T::V> {
    Seq::new(list.len(), |i: int| list[i]@)
}

/// A place in a document.
#[derive(Debug)]
pub struct Place {
    pub uri: String,
    pub start: Position,
}

#[verifier::ext_equal]
pub struct PlaceView {
    pub uri: Seq<char>,
    pub start: Position,
}

impl View for Place {
    type V = PlaceView;

    open spec fn view(&self) -> PlaceView {
        PlaceView { uri: self.uri@, start: self.start }
    }
}

/// A text to show, perhaps in the syntax of a language.
#[derive(Debug)]
pub enum MarkedString {
    Plain(String),
    LanguageString { language: String, value: String },
}

#[verifier::ext_equal]
pub enum MarkedStringView {
    Plain(Seq<char>),
    LanguageString { language: Seq<char>, value: Seq<char> },
}

impl View for MarkedString {
    type V = MarkedStringView;

    open spec fn view(&self) -> MarkedStringView {
        match self {
            MarkedString::Plain(s) => MarkedStringView::Plain(s@),
            MarkedString::LanguageString { language, value } => MarkedStringView::LanguageString {
                language: language@,
                value: value@,
            },
        }
    }
}

/// What a server says about a symbol.
#[derive(Debug)]
pub enum Hover {
    Scalar(MarkedString),
    Array(Vec<MarkedString>),
    Markup(String),
}

#[verifier::ext_equal]
pub enum HoverView {
    Scalar(MarkedStringView),
    Array(Seq<MarkedStringView>),
    Markup(Seq<char>),
}

impl View for Hover {
    type V = HoverView;

    open spec fn view(&self) -> HoverView {
        match self {
            Hover::Scalar(m) => HoverView::Scalar(m@),
            Hover::Array(list) => HoverView::Array(views(list@)),
            Hover::Markup(value) => HoverView::Markup(value@),
        }
    }
}

/// Where a symbol is defined.
#[derive(Debug)]
pub enum GotoDefinitionResponse {
    Scalar(Place),
    Array(Vec<Place>),
    Link(Vec<Place>),
}

#[verifier::ext_equal]
pub enum DefinitionView {
    Scalar(PlaceView),
    Array(Seq<PlaceView>),
    Link(Seq<PlaceView>),
}

impl View for GotoDefinitionResponse {
    type V = DefinitionView;

    open spec fn view(&self) -> DefinitionView {
        match self {
            GotoDefinitionResponse::Scalar(location) => DefinitionView::Scalar(location@),
            GotoDefinitionResponse::Array(list) => DefinitionView::Array(views(list@)),
            GotoDefinitionResponse::Link(list) => DefinitionView::Link(views(list@)),
        }
    }
}

/// A proposed completion, with the name of its kind.
#[derive(Debug)]
pub struct CompletionItem {
    pub label: String,
    pub kind: Option<String>,
}

#[verifier::ext_equal]
pub struct CompletionItemView {
    pub label: Seq<char>,
    pub kind: Option<Seq<char>>,
}

impl View for CompletionItem {
    type V = CompletionItemView;

    open spec fn view(&self) -> CompletionItemView {
        CompletionItemView { label: self.label@, kind: strings::optional_text(self.kind) }
    }
}

/// A symbol of a workspace, with the name of its kind.
#[derive(Debug)]
pub struct FlatSymbol {
    pub name: String,
    pub kind: String,
    pub place: Place,
}

#[verifier::ext_equal]
pub struct FlatSymbolView {
    pub name: Seq<char>,
    pub kind: Seq<char>,
    pub place: PlaceView,
}

impl View for FlatSymbol {
    type V = FlatSymbolView;

    open spec fn view(&self) -> FlatSymbolView {
        FlatSymbolView { name: self.name@, kind: self.kind@, place: self.place@ }
    }
}

/// A symbol of a document, with the name of its kind and the symbols inside it.
#[derive(Debug)]
pub struct Symbol {
    pub name: String,
    pub kind: String,
    pub start: Position,
    pub children: Option<Vec<Symbol>>,
}

#[verifier::ext_equal]
pub struct SymbolTree {
    pub name: Seq<char>,
    pub kind: Seq<char>,
    pub start: Position,
    pub children: Option<Seq<SymbolTree>>,
}

/// What each symbol of a list holds.
pub open spec fn symbol_views(list: Seq<Symbol>) -> Seq<SymbolTree>
    decreases list,
{
    Seq::new(
        list.len(),
        |i: int|
            if 0 <= i < list.len() {
                list[i].view()
            } else {
                arbitrary()
            },
    )
}

impl View for Symbol {
    type V = SymbolTree;

    open spec fn view(&self) -> SymbolTree
        decreases self,
    {
        SymbolTree {
            name: self.name@,
            kind: self.kind@,
            start: self.start,
            children: match self.children {
                Some(list) => Some(symbol_views(list@)),
                None => None,
            },
        }
    }
}

/// The symbols of a document, as a list or as a tree.
#[derive(Debug)]
pub enum DocumentSymbolResponse {
    Flat(Vec<FlatSymbol>),
    Nested(Vec<Symbol>),
}

#[verifier::ext_equal]
pub enum DocumentSymbolsView {
    Flat(Seq<FlatSymbolView>),
    Nested(Seq<SymbolTree>),
}

impl View for DocumentSymbolResponse {
    type V = DocumentSymbolsView;

    open spec fn view(&self) -> DocumentSymbolsView {
        match self {
            DocumentSymbolResponse::Flat(list) => DocumentSymbolsView::Flat(views(list@)),
            DocumentSymbolResponse::Nested(list) => DocumentSymbolsView::Nested(
                symbol_views(list@),
            ),
        }
    }
}

/// A finding of a server about a document, with the name of its severity.
#[derive(Debug)]
pub struct Diagnostic {
    pub severity: Option<String>,
    pub start: Position,
    pub message: String,
}

#[verifier::ext_equal]
pub struct DiagnosticView {
    pub severity: Option<Seq<char>>,
    pub start: Position,
    pub message: Seq<char>,
}

impl View for Diagnostic {
    type V = DiagnosticView;

    open spec fn view(&self) -> DiagnosticView {
        DiagnosticView {
            severity: strings::optional_text(self.severity),
            start: self.start,
            message: self.message@,
        }
    }
}

impl Clone for Diagnostic {
    fn clone(&self) -> (r: Self)
        ensures
            r@ == self@,
    {
        Diagnostic {
            severity: match &self.severity {
                Some(s) => Some(s.clone()),
                None => None,
            },
            start: self.start,
            message: self.message.clone(),
        }
    }
}

// ---- laws ----

/// What a list holds is what each of its elements holds, in the order of the list.
pub proof fn law_views<T: View>(list: Seq<T>, i: int)
    ensures
        views(list).len() == list.len(),
        0 <= i < list.len() ==> views(list)[i] == list[i]@,
{
}

/// A symbol holds its name, its kind and its start, and the symbols inside it in their order.
pub proof fn law_symbol(s: Symbol, inside: Vec<Symbol>, i: int)
    ensures
        s@.name == s.name@,
        s@.kind == s.kind@,
        s@.start == s.start,
        s.children is None ==> s@.children is None,
        s.children == Some(inside) ==> s@.children is Some && s@.children->Some_0.len()
            == inside@.len(),
        s.children == Some(inside) && 0 <= i < inside@.len() ==> s@.children->Some_0[i]
            == inside@[i]@,
        symbol_views(inside@).len() == inside@.len(),
        0 <= i < inside@.len() ==> symbol_views(inside@)[i] == inside@[i]@,
{
    if s.children == Some(inside) {
        assert(s@.children == Some(symbol_views(inside@)));
    }
}

/// Of the edits per document, those listed last for a document are the document's; the other
/// documents keep theirs.
pub proof fn law_changes_map(
    list: Seq<(String, Vec<TextEdit>)>,
    uri: String,
    edits: Vec<TextEdit>,
    other: Seq<char>,
)
    ensures
        changes_map(Seq::empty()) == Map::<Seq<char>, Seq<TextEditView>>::empty(),
        changes_map(list.push((uri, edits))).contains_pair(uri@, views(edits@)),
        other != uri@ ==> changes_map(list.push((uri, edits))).contains_key(other)
            == changes_map(list).contains_key(other),
        other != uri@ && changes_map(list).contains_key(other) ==> changes_map(
            list.push((uri, edits)),
        )[other] == changes_map(list)[other],
{
    assert(list.push((uri, edits)).drop_last() =~= list);
}

/// A workspace edit holds its edits per document and its changes in their order.
pub proof fn law_workspace_edit_view(
    edit: WorkspaceEdit,
    changes: Vec<(String, Vec<TextEdit>)>,
    edits: Vec<DocumentEdit>,
    operations: Vec<ChangeOperation>,
)
    ensures
        edit.changes is None ==> edit@.changes is None,
        edit.changes == Some(changes) ==> edit@.changes == Some(changes_map(changes@)),
        edit.document_changes is None ==> edit@.document_changes is None,
        edit.document_changes == Some(OrderedChanges::Edits(edits)) ==> edit@.document_changes
            == Some(OrderedChangesView::Edits(views(edits@))),
        edit.document_changes == Some(OrderedChanges::Operations(operations))
            ==> edit@.document_changes == Some(OrderedChangesView::Operations(views(operations@))),
{
}

} // verus!
