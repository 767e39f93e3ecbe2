//! Applying a workspace edit to files.
//!
//! A [`DiskRun`] decides; its caller has the disk. [`apply_to_disk`] begins a run and
//! says what to do first; the caller does it and hands the outcome to
//! [`DiskRun::resume`], which says what to do next, until the run is over.

use crate::lsp::conv;
use crate::lsp::conv::{uri_to_path, ConvError};
use crate::lsp::text_edit;
use crate::lsp::text_edit::try_text_edits;
use crate::lsp::types::{
    ChangeOperation, CreateFile, DeleteFile, DocumentEdit, FileOperation, OneOf, OrderedChanges,
    RenameFile, TextEdit, WorkspaceEdit,
};
use crate::paths;
use crate::paths::{bytes_of, display, parent_path};
use std::path::PathBuf;
use vstd::prelude::*;
use vstd::utf8::*;

verus! {

/// A change that was made on disk.
#[derive(Debug)]
pub struct AppliedChange {
    pub path: PathBuf,
    pub kind: AppliedKind,
}

/// The kind of a change that was made to a file.
#[derive(Debug, Clone)]
pub enum AppliedKind {
    Modified,
    Created,
    Renamed { from: PathBuf },
    Deleted,
}

/// The content of an [`AppliedChange`].
#[verifier::ext_equal]
pub struct ChangeView {
    pub path: Seq<u8>,
    pub kind: KindView,
}

/// The content of an [`AppliedKind`].
#[verifier::ext_equal]
pub enum KindView {
    Modified,
    Created,
    Renamed { from: Seq<u8> },
    Deleted,
}

impl View for AppliedChange {
    type V = ChangeView;

    open spec fn view(&self) -> ChangeView {
        ChangeView {
            path: paths::path_bytes(self.path),
            kind: match self.kind {
                AppliedKind::Modified => KindView::Modified,
                AppliedKind::Created => KindView::Created,
                AppliedKind::Renamed { from } => KindView::Renamed {
                    from: paths::path_bytes(from),
                },
                AppliedKind::Deleted => KindView::Deleted,
            },
        }
    }
}

/// The changes that a list holds.
pub open spec fn changes_view(list: Seq<AppliedChange>) -> Seq<ChangeView> {
    Seq::new(list.len(), |i: int| list[i]@)
}

/// Why a workspace edit could not be applied.
#[derive(Debug)]
pub enum EditError {
    /// A URI names no path.
    Conv(ConvError),
    Read { path: PathBuf, reason: String },
    Write { path: PathBuf, reason: String },
    /// The file to create is there already, and the request does not say what then.
    AlreadyExists { path: PathBuf },
    CreateDirectory { path: PathBuf, reason: String },
    Create { path: PathBuf, reason: String },
    /// The target of a renaming is there already, and the request does not say what then.
    RenameTargetExists { path: PathBuf },
    Rename { from: PathBuf, to: PathBuf, reason: String },
    /// The file to delete is not there, and the request does not say what then.
    DeleteTargetMissing { path: PathBuf },
    Delete { path: PathBuf, reason: String },
}

/// The content of an [`EditError`].
#[verifier::ext_equal]
pub enum EditErrorView {
    Conv(conv::ConvErrorView),
    Read { path: Seq<u8>, reason: Seq<char> },
    Write { path: Seq<u8>, reason: Seq<char> },
    AlreadyExists { path: Seq<u8> },
    CreateDirectory { path: Seq<u8>, reason: Seq<char> },
    Create { path: Seq<u8>, reason: Seq<char> },
    RenameTargetExists { path: Seq<u8> },
    Rename { from: Seq<u8>, to: Seq<u8>, reason: Seq<char> },
    DeleteTargetMissing { path: Seq<u8> },
    Delete { path: Seq<u8>, reason: Seq<char> },
}

impl View for EditError {
    type V = EditErrorView;

    open spec fn view(&self) -> EditErrorView {
        match self {
            EditError::Conv(error) => EditErrorView::Conv(error@),
            EditError::Read { path, reason } => EditErrorView::Read {
                path: paths::path_bytes(*path),
                reason: reason@,
            },
            EditError::Write { path, reason } => EditErrorView::Write {
                path: paths::path_bytes(*path),
                reason: reason@,
            },
            EditError::AlreadyExists { path } => EditErrorView::AlreadyExists {
                path: paths::path_bytes(*path),
            },
            EditError::CreateDirectory { path, reason } => EditErrorView::CreateDirectory {
                path: paths::path_bytes(*path),
                reason: reason@,
            },
            EditError::Create { path, reason } => EditErrorView::Create {
                path: paths::path_bytes(*path),
                reason: reason@,
            },
            EditError::RenameTargetExists { path } => EditErrorView::RenameTargetExists {
                path: paths::path_bytes(*path),
            },
            EditError::Rename { from, to, reason } => EditErrorView::Rename {
                from: paths::path_bytes(*from),
                to: paths::path_bytes(*to),
                reason: reason@,
            },
            EditError::DeleteTargetMissing { path } => EditErrorView::DeleteTargetMissing {
                path: paths::path_bytes(*path),
            },
            EditError::Delete { path, reason } => EditErrorView::Delete {
                path: paths::path_bytes(*path),
                reason: reason@,
            },
        }
    }
}

/// The text of an error.
pub open spec fn edit_error_text(error: EditErrorView) -> Seq<char> {
    match error {
        EditErrorView::Conv(error) => conv::conv_error_text(error),
        EditErrorView::Read { path, reason } => "failed to read "@ + paths::shown(path) + ": "@ + reason,
        EditErrorView::Write { path, reason } => "failed to write "@ + paths::shown(path) + ": "@ + reason,
        EditErrorView::AlreadyExists { path } => "file "@ + paths::shown(path)
            + " already exists; set overwrite to replace"@,
        EditErrorView::CreateDirectory { path, reason } => "failed to create directory "@ + paths::shown(path)
            + ": "@ + reason,
        EditErrorView::Create { path, reason } => "failed to create "@ + paths::shown(path) + ": "@ + reason,
        EditErrorView::RenameTargetExists { path } => "rename target "@ + paths::shown(path)
            + " already exists and overwrite is disabled"@,
        EditErrorView::Rename { from, to, reason } => "failed to rename "@ + paths::shown(
            from,
        ) + " to "@ + paths::shown(to) + ": "@ + reason,
        EditErrorView::DeleteTargetMissing { path } => "delete target "@ + paths::shown(path)
            + " does not exist and ignore_if_not_exists is disabled"@,
        EditErrorView::Delete { path, reason } => "failed to delete "@ + paths::shown(path) + ": "@ + reason,
    }
}

/// `verb` `path`: `reason`.
fn failure(verb: &str, path: &PathBuf, reason: &String) -> (r: String)
    ensures
        r@ == verb@ + paths::shown(paths::path_bytes(*path)) + ": "@ + reason@,
{
    let mut out = String::new();
    out.push_str(verb);
    out.push_str(display(path).as_str());
    out.push_str(": ");
    out.push_str(reason.as_str());
    assert(out@ =~= verb@ + paths::shown(paths::path_bytes(*path)) + ": "@ + reason@);
    out
}

fn refusal(before: &str, path: &PathBuf, after: &str) -> (r: String)
    ensures
        r@ == before@ + paths::shown(paths::path_bytes(*path)) + after@,
{
    let mut out = String::new();
    out.push_str(before);
    out.push_str(display(path).as_str());
    out.push_str(after);
    assert(out@ =~= before@ + paths::shown(paths::path_bytes(*path)) + after@);
    out
}

impl EditError {
    /// The text of this error.
    pub fn message(&self) -> (r: String)
        ensures
            r@ == edit_error_text(self@),
    {
        match self {
            EditError::Conv(error) => error.message(),
            EditError::Read { path, reason } => failure("failed to read ", path, reason),
            EditError::Write { path, reason } => failure("failed to write ", path, reason),
            EditError::AlreadyExists { path } => refusal(
                "file ",
                path,
                " already exists; set overwrite to replace",
            ),
            EditError::CreateDirectory { path, reason } => failure(
                "failed to create directory ",
                path,
                reason,
            ),
            EditError::Create { path, reason } => failure("failed to create ", path, reason),
            EditError::RenameTargetExists { path } => refusal(
                "rename target ",
                path,
                " already exists and overwrite is disabled",
            ),
            EditError::Rename { from, to, reason } => {
                let mut out = String::new();
                out.push_str("failed to rename ");
                out.push_str(display(from).as_str());
                out.push_str(" to ");
                out.push_str(display(to).as_str());
                out.push_str(": ");
                out.push_str(reason.as_str());
                assert(out@ =~= edit_error_text(self@));
                out
            },
            EditError::DeleteTargetMissing { path } => refusal(
                "delete target ",
                path,
                " does not exist and ignore_if_not_exists is disabled",
            ),
            EditError::Delete { path, reason } => failure("failed to delete ", path, reason),
        }
    }
}

/// Applies `edits` to `content`. The offsets of every edit are those in `content`; edits
/// are made from the end of the text to its start, so that these offsets stay valid.
pub fn apply_text_edits(content: String, edits: &[TextEdit]) -> (r: Result<String, EditError>)
    requires
        text_edit::edits_apply(content@, edits@),
    ensures
        r is Ok,
        encode_utf8(r->Ok_0@) == text_edit::edited_bytes(content@, edits@),
{
    match try_text_edits(&content, edits) {
        Some(text) => Ok(text),
        None => Ok(content),
    }
}

/// The plain edit in either form.
pub open spec fn plain_edit(one: OneOf) -> TextEdit {
    match one {
        OneOf::Left(edit) => edit,
        OneOf::Right(annotated) => annotated.text_edit,
    }
}

/// The plain edits in a list.
pub open spec fn plain_edits(list: Seq<OneOf>) -> Seq<TextEdit> {
    Seq::new(list.len(), |i: int| plain_edit(list[i]))
}

/// The plain edit in either form.
pub fn one_of_to_text_edit(one: OneOf) -> (r: TextEdit)
    ensures
        r == plain_edit(one),
{
    match one {
        OneOf::Left(edit) => edit,
        OneOf::Right(annotated) => annotated.text_edit,
    }
}

// ---- the steps of a workspace edit ----

/// One change that a workspace edit asks for.
#[derive(Debug)]
pub enum EditStep {
    Modify { uri: String, edits: Vec<TextEdit> },
    Create { uri: String, overwrite: bool, ignore_if_exists: bool },
    Rename { old_uri: String, new_uri: String, overwrite: bool, ignore_if_exists: bool },
    Delete { uri: String, ignore_if_not_exists: bool },
}

/// The content of an [`EditStep`].
#[verifier::ext_equal]
pub enum StepView {
    Modify { uri: Seq<char>, edits: Seq<TextEdit> },
    Create { uri: Seq<char>, overwrite: bool, ignore_if_exists: bool },
    Rename { old_uri: Seq<char>, new_uri: Seq<char>, overwrite: bool, ignore_if_exists: bool },
    Delete { uri: Seq<char>, ignore_if_not_exists: bool },
}

impl View for EditStep {
    type V = StepView;

    open spec fn view(&self) -> StepView {
        match *self {
            EditStep::Modify { uri, edits } => StepView::Modify { uri: uri@, edits: edits@ },
            EditStep::Create { uri, overwrite, ignore_if_exists } => StepView::Create {
                uri: uri@,
                overwrite,
                ignore_if_exists,
            },
            EditStep::Rename { old_uri, new_uri, overwrite, ignore_if_exists } => StepView::Rename {
                old_uri: old_uri@,
                new_uri: new_uri@,
                overwrite,
                ignore_if_exists,
            },
            EditStep::Delete { uri, ignore_if_not_exists } => StepView::Delete {
                uri: uri@,
                ignore_if_not_exists,
            },
        }
    }
}

/// The steps that a list holds.
pub open spec fn steps_view(list: Seq<EditStep>) -> Seq<StepView> {
    Seq::new(list.len(), |i: int| list[i]@)
}

/// An option that is off unless it is given and on.
pub open spec fn is_on(option: Option<bool>) -> bool {
    option == Some(true)
}

/// The step for the edits of one document.
pub open spec fn document_step(edit: DocumentEdit) -> StepView {
    StepView::Modify { uri: edit.uri@, edits: plain_edits(edit.edits@) }
}

/// The step for a change to files as such.
pub open spec fn resource_step(op: FileOperation) -> StepView {
    match op {
        FileOperation::Create(create) => StepView::Create {
            uri: create.uri@,
            overwrite: create.options is Some && is_on(create.options->Some_0.overwrite),
            ignore_if_exists: create.options is Some && is_on(
                create.options->Some_0.ignore_if_exists,
            ),
        },
        FileOperation::Rename(rename) => StepView::Rename {
            old_uri: rename.old_uri@,
            new_uri: rename.new_uri@,
            overwrite: rename.options is Some && is_on(rename.options->Some_0.overwrite),
            ignore_if_exists: rename.options is Some && is_on(
                rename.options->Some_0.ignore_if_exists,
            ),
        },
        FileOperation::Delete(delete) => StepView::Delete {
            uri: delete.uri@,
            ignore_if_not_exists: delete.options is Some && is_on(
                delete.options->Some_0.ignore_if_not_exists,
            ),
        },
    }
}

/// The step for one of a list of changes.
pub open spec fn operation_step(op: ChangeOperation) -> StepView {
    match op {
        ChangeOperation::Edit(edit) => document_step(edit),
        ChangeOperation::Op(op) => resource_step(op),
    }
}

/// The steps that a workspace edit asks for: the edits per document first, then the
/// changes in their order.
pub open spec fn edit_steps(edit: WorkspaceEdit) -> Seq<StepView> {
    (match edit.changes {
        Some(changes) => Seq::new(
            changes@.len(),
            |i: int| StepView::Modify { uri: changes@[i].0@, edits: changes@[i].1@ },
        ),
        None => Seq::empty(),
    }) + (match edit.document_changes {
        Some(OrderedChanges::Edits(edits)) => Seq::new(
            edits@.len(),
            |i: int| document_step(edits@[i]),
        ),
        Some(OrderedChanges::Operations(ops)) => Seq::new(
            ops@.len(),
            |i: int| operation_step(ops@[i]),
        ),
        None => Seq::empty(),
    })
}

fn option_on(option: Option<bool>) -> (r: bool)
    ensures
        r == is_on(option),
{
    match option {
        Some(on) => on,
        None => false,
    }
}

fn step_of_document(edit: DocumentEdit) -> (r: EditStep)
    ensures
        r@ == document_step(edit),
{
    let mut plain: Vec<TextEdit> = Vec::new();
    for one in it: edit.edits
        invariant
            it.seq() == edit.edits@,
            plain@ == plain_edits(edit.edits@).take(it.index() as int),
    {
        plain.push(one_of_to_text_edit(one));
    }
    assert(plain_edits(edit.edits@).take(edit.edits@.len() as int) == plain_edits(edit.edits@));
    EditStep::Modify { uri: edit.uri, edits: plain }
}

fn step_of_resource(op: FileOperation) -> (r: EditStep)
    ensures
        r@ == resource_step(op),
{
    match op {
        FileOperation::Create(create) => {
            let (overwrite, ignore_if_exists) = match create.options {
                Some(options) => (
                    option_on(options.overwrite),
                    option_on(options.ignore_if_exists),
                ),
                None => (false, false),
            };
            EditStep::Create { uri: create.uri, overwrite, ignore_if_exists }
        },
        FileOperation::Rename(rename) => {
            let (overwrite, ignore_if_exists) = match rename.options {
                Some(options) => (
                    option_on(options.overwrite),
                    option_on(options.ignore_if_exists),
                ),
                None => (false, false),
            };
            EditStep::Rename {
                old_uri: rename.old_uri,
                new_uri: rename.new_uri,
                overwrite,
                ignore_if_exists,
            }
        },
        FileOperation::Delete(delete) => {
            let ignore_if_not_exists = match delete.options {
                Some(options) => option_on(options.ignore_if_not_exists),
                None => false,
            };
            EditStep::Delete { uri: delete.uri, ignore_if_not_exists }
        },
    }
}

/// Appends step `k` of `all`.
fn push_step(
    steps: &mut Vec<EditStep>,
    step: EditStep,
    Ghost(all): Ghost<Seq<StepView>>,
    Ghost(k): Ghost<int>,
)
    requires
        0 <= k < all.len(),
        step@ == all[k],
        steps_view(old(steps)@) == all.take(k),
    ensures
        steps_view(final(steps)@) == all.take(k + 1),
{
    let ghost before = steps@;
    steps.push(step);
    assert(steps_view(steps@) =~= steps_view(before).push(step@));
    assert(all.take(k + 1) =~= all.take(k).push(all[k]));
}

/// The steps that a workspace edit asks for.
fn steps_of(edit: WorkspaceEdit) -> (r: Vec<EditStep>)
    ensures
        steps_view(r@) == edit_steps(edit),
{
    let ghost all = edit_steps(edit);
    let mut steps: Vec<EditStep> = Vec::new();
    if let Some(changes) = edit.changes {
        for (uri, edits) in it: changes
            invariant
                it.seq() == changes@,
                changes@.len() <= all.len(),
                forall|i: int|
                    0 <= i < changes@.len() ==> #[trigger] all[i] == (StepView::Modify {
                        uri: changes@[i].0@,
                        edits: changes@[i].1@,
                    }),
                steps_view(steps@) =~= all.take(it.index() as int),
        {
            let ghost k = it.index() as int;
            let step = EditStep::Modify { uri, edits };
            assert(all[k] == step@);
            push_step(&mut steps, step, Ghost(all), Ghost(k));
        }
    }
    let ghost offset = steps@.len() as int;
    match edit.document_changes {
        Some(OrderedChanges::Edits(list)) => {
            for text_edit in it: list
                invariant
                    it.seq() == list@,
                    all.len() == offset + list@.len(),
                    offset >= 0,
                    forall|i: int|
                        0 <= i < list@.len() ==> all[offset + i] == document_step(
                            #[trigger] list@[i],
                        ),
                    steps_view(steps@) =~= all.take(offset + it.index()),
            {
                let ghost k = it.index() as int;
                let step = step_of_document(text_edit);
                assert(all[offset + k] == document_step(list@[k]));
                push_step(&mut steps, step, Ghost(all), Ghost(offset + k));
            }
        },
        Some(OrderedChanges::Operations(list)) => {
            for op in it: list
                invariant
                    it.seq() == list@,
                    all.len() == offset + list@.len(),
                    offset >= 0,
                    forall|i: int|
                        0 <= i < list@.len() ==> all[offset + i] == operation_step(
                            #[trigger] list@[i],
                        ),
                    steps_view(steps@) =~= all.take(offset + it.index()),
            {
                let ghost k = it.index() as int;
                let step = match op {
                    ChangeOperation::Edit(text_edit) => step_of_document(text_edit),
                    ChangeOperation::Op(op) => step_of_resource(op),
                };
                assert(all[offset + k] == operation_step(list@[k]));
                push_step(&mut steps, step, Ghost(all), Ghost(offset + k));
            }
        },
        None => {},
    }
    assert(all.take(all.len() as int) == all);
    steps
}

// ---- the run ----

/// What the caller is to do next.
#[derive(Debug)]
pub enum DiskAction {
    /// Read the text of a file.
    Read { path: PathBuf },
    /// Write a file.
    Write { path: PathBuf, text: String },
    /// See whether there is something at a path.
    Probe { path: PathBuf },
    /// Create a directory and those above it.
    CreateDirectories { path: PathBuf },
    /// Write an empty file.
    CreateEmpty { path: PathBuf },
    /// Rename a file.
    Rename { from: PathBuf, to: PathBuf },
    /// Remove a file.
    Remove { path: PathBuf },
    /// Nothing: all is done; [`DiskRun::applied`] lists the changes.
    Finish,
    /// Nothing: the edit failed.
    Fail(EditError),
}

/// The content of a [`DiskAction`].
#[verifier::ext_equal]
pub enum ActionView {
    Read { path: Seq<u8> },
    Write { path: Seq<u8>, text: Seq<char> },
    Probe { path: Seq<u8> },
    CreateDirectories { path: Seq<u8> },
    CreateEmpty { path: Seq<u8> },
    Rename { from: Seq<u8>, to: Seq<u8> },
    Remove { path: Seq<u8> },
    Finish,
    Fail(EditErrorView),
}

impl View for DiskAction {
    type V = ActionView;

    open spec fn view(&self) -> ActionView {
        match self {
            DiskAction::Read { path } => ActionView::Read { path: paths::path_bytes(*path) },
            DiskAction::Write { path, text } => ActionView::Write {
                path: paths::path_bytes(*path),
                text: text@,
            },
            DiskAction::Probe { path } => ActionView::Probe { path: paths::path_bytes(*path) },
            DiskAction::CreateDirectories { path } => ActionView::CreateDirectories {
                path: paths::path_bytes(*path),
            },
            DiskAction::CreateEmpty { path } => ActionView::CreateEmpty {
                path: paths::path_bytes(*path),
            },
            DiskAction::Rename { from, to } => ActionView::Rename {
                from: paths::path_bytes(*from),
                to: paths::path_bytes(*to),
            },
            DiskAction::Remove { path } => ActionView::Remove { path: paths::path_bytes(*path) },
            DiskAction::Finish => ActionView::Finish,
            DiskAction::Fail(error) => ActionView::Fail(error@),
        }
    }
}

/// How an action came out.
#[derive(Debug)]
pub enum DiskReply {
    /// The text that was read.
    Text(String),
    /// Whether something was found.
    Found(bool),
    Done,
    /// The action failed, for this reason.
    Failed(String),
}

/// The content of a [`DiskReply`].
#[verifier::ext_equal]
pub enum ReplyView {
    Text(Seq<char>),
    Found(bool),
    Done,
    Failed(Seq<char>),
}

impl View for DiskReply {
    type V = ReplyView;

    open spec fn view(&self) -> ReplyView {
        match self {
            DiskReply::Text(text) => ReplyView::Text(text@),
            DiskReply::Found(found) => ReplyView::Found(*found),
            DiskReply::Done => ReplyView::Done,
            DiskReply::Failed(reason) => ReplyView::Failed(reason@),
        }
    }
}

/// What the run waits for.
#[derive(Debug)]
enum Phase {
    Reading { path: PathBuf },
    Writing { path: PathBuf },
    ProbingCreate { path: PathBuf, overwrite: bool, ignore_if_exists: bool },
    CreatingDirectories { path: PathBuf, directory: PathBuf },
    Creating { path: PathBuf },
    ProbingRename { from: PathBuf, to: PathBuf, overwrite: bool, ignore_if_exists: bool },
    Renaming { from: PathBuf, to: PathBuf },
    ProbingDelete { path: PathBuf, ignore_if_not_exists: bool },
    Removing { path: PathBuf },
    Over,
}

/// The content of the phase of a run.
#[verifier::ext_equal]
pub enum PhaseView {
    Reading { path: Seq<u8> },
    Writing { path: Seq<u8> },
    ProbingCreate { path: Seq<u8>, overwrite: bool, ignore_if_exists: bool },
    CreatingDirectories { path: Seq<u8>, directory: Seq<u8> },
    Creating { path: Seq<u8> },
    ProbingRename { from: Seq<u8>, to: Seq<u8>, overwrite: bool, ignore_if_exists: bool },
    Renaming { from: Seq<u8>, to: Seq<u8> },
    ProbingDelete { path: Seq<u8>, ignore_if_not_exists: bool },
    Removing { path: Seq<u8> },
    Over,
}

spec fn phase_view(phase: Phase) -> PhaseView {
    match phase {
        Phase::Reading { path } => PhaseView::Reading { path: paths::path_bytes(path) },
        Phase::Writing { path } => PhaseView::Writing { path: paths::path_bytes(path) },
        Phase::ProbingCreate { path, overwrite, ignore_if_exists } => PhaseView::ProbingCreate {
            path: paths::path_bytes(path),
            overwrite,
            ignore_if_exists,
        },
        Phase::CreatingDirectories { path, directory } => PhaseView::CreatingDirectories {
            path: paths::path_bytes(path),
            directory: paths::path_bytes(directory),
        },
        Phase::Creating { path } => PhaseView::Creating { path: paths::path_bytes(path) },
        Phase::ProbingRename { from, to, overwrite, ignore_if_exists } => PhaseView::ProbingRename {
            from: paths::path_bytes(from),
            to: paths::path_bytes(to),
            overwrite,
            ignore_if_exists,
        },
        Phase::Renaming { from, to } => PhaseView::Renaming {
            from: paths::path_bytes(from),
            to: paths::path_bytes(to),
        },
        Phase::ProbingDelete { path, ignore_if_not_exists } => PhaseView::ProbingDelete {
            path: paths::path_bytes(path),
            ignore_if_not_exists,
        },
        Phase::Removing { path } => PhaseView::Removing { path: paths::path_bytes(path) },
        Phase::Over => PhaseView::Over,
    }
}

/// A workspace edit that is being applied.
#[derive(Debug)]
pub struct DiskRun {
    steps: Vec<EditStep>,
    next: usize,
    phase: Phase,
    applied: Vec<AppliedChange>,
}

/// The content of a [`DiskRun`]: its steps, the one that is under way, what it waits for,
/// and the changes made so far.
#[verifier::ext_equal]
pub struct RunView {
    pub steps: Seq<StepView>,
    pub next: int,
    pub phase: PhaseView,
    pub applied: Seq<ChangeView>,
}

impl View for DiskRun {
    type V = RunView;

    closed spec fn view(&self) -> RunView {
        RunView {
            steps: steps_view(self.steps@),
            next: self.next as int,
            phase: phase_view(self.phase),
            applied: changes_view(self.applied@),
        }
    }
}

/// The run is at one of its steps, at one that edits a document where it reads or writes
/// one, or it is over.
pub open spec fn run_wf(run: RunView) -> bool {
    &&& 0 <= run.next <= run.steps.len()
    &&& run.phase !is Over ==> run.next < run.steps.len()
    &&& run.phase is Reading ==> run.steps[run.next] is Modify
}

/// The run ends with an error.
pub open spec fn failed(run: RunView, error: EditErrorView) -> (RunView, ActionView) {
    (RunView { phase: PhaseView::Over, ..run }, ActionView::Fail(error))
}

/// The run goes on in phase `phase`.
pub open spec fn goes_on(run: RunView, phase: PhaseView, action: ActionView) -> (
    RunView,
    ActionView,
) {
    (RunView { phase, ..run }, action)
}

/// The run begins the step that it is at.
pub open spec fn begun(run: RunView) -> (RunView, ActionView) {
    if run.next >= run.steps.len() {
        (RunView { phase: PhaseView::Over, ..run }, ActionView::Finish)
    } else {
        match run.steps[run.next] {
            StepView::Modify { uri, edits } => match conv::uri_path(uri) {
                Err(error) => failed(run, EditErrorView::Conv(error)),
                Ok(path) => goes_on(run, PhaseView::Reading { path }, ActionView::Read { path }),
            },
            StepView::Create { uri, overwrite, ignore_if_exists } => match conv::uri_path(uri) {
                Err(error) => failed(run, EditErrorView::Conv(error)),
                Ok(path) => goes_on(
                    run,
                    PhaseView::ProbingCreate { path, overwrite, ignore_if_exists },
                    ActionView::Probe { path },
                ),
            },
            StepView::Rename { old_uri, new_uri, overwrite, ignore_if_exists } => match (
                conv::uri_path(old_uri),
                conv::uri_path(new_uri),
            ) {
                (Err(error), _) => failed(run, EditErrorView::Conv(error)),
                (Ok(_), Err(error)) => failed(run, EditErrorView::Conv(error)),
                (Ok(from), Ok(to)) => goes_on(
                    run,
                    PhaseView::ProbingRename { from, to, overwrite, ignore_if_exists },
                    ActionView::Probe { path: to },
                ),
            },
            StepView::Delete { uri, ignore_if_not_exists } => match conv::uri_path(uri) {
                Err(error) => failed(run, EditErrorView::Conv(error)),
                Ok(path) => goes_on(
                    run,
                    PhaseView::ProbingDelete { path, ignore_if_not_exists },
                    ActionView::Probe { path },
                ),
            },
        }
    }
}

/// The run leaves its step undone and begins the next.
pub open spec fn skipped(run: RunView) -> (RunView, ActionView) {
    begun(RunView { next: run.next + 1, ..run })
}

/// The run has made a change and begins the next step.
pub open spec fn made(run: RunView, path: Seq<u8>, kind: KindView) -> (RunView, ActionView) {
    begun(
        RunView { next: run.next + 1, applied: run.applied.push(ChangeView { path, kind }), ..run },
    )
}

/// The run creates the file at `path`, after the directories above it.
pub open spec fn creates(run: RunView, path: Seq<u8>) -> (RunView, ActionView) {
    match paths::parent_of(path) {
        Some(directory) => if directory.len() > 0 {
            goes_on(
                run,
                PhaseView::CreatingDirectories { path, directory },
                ActionView::CreateDirectories { path: directory },
            )
        } else {
            goes_on(run, PhaseView::Creating { path }, ActionView::CreateEmpty { path })
        },
        None => goes_on(run, PhaseView::Creating { path }, ActionView::CreateEmpty { path }),
    }
}

/// The edits of the step that the run is at.
pub open spec fn current_edits(run: RunView) -> Seq<TextEdit> {
    run.steps[run.next]->Modify_edits
}

/// The reply is one to the action that the run waits for; a text that was read is one
/// that the edits can be applied to.
pub open spec fn expects(run: RunView, reply: ReplyView) -> bool {
    match run.phase {
        PhaseView::Reading { .. } => match reply {
            ReplyView::Text(text) => text_edit::edits_apply(text, current_edits(run)),
            ReplyView::Failed(_) => true,
            _ => false,
        },
        PhaseView::ProbingCreate { .. } => reply is Found,
        PhaseView::ProbingRename { .. } => reply is Found,
        PhaseView::ProbingDelete { .. } => reply is Found,
        PhaseView::Over => false,
        _ => reply is Done || reply is Failed,
    }
}

/// The run goes on after a reply.
pub open spec fn resumed(run: RunView, reply: ReplyView) -> (RunView, ActionView) {
    match run.phase {
        PhaseView::Reading { path } => match reply {
            ReplyView::Text(text) => goes_on(
                run,
                PhaseView::Writing { path },
                ActionView::Write {
                    path,
                    text: decode_utf8(text_edit::edited_bytes(text, current_edits(run))),
                },
            ),
            ReplyView::Failed(reason) => failed(run, EditErrorView::Read { path, reason }),
            _ => skipped(run),
        },
        PhaseView::Writing { path } => match reply {
            ReplyView::Failed(reason) => failed(run, EditErrorView::Write { path, reason }),
            _ => made(run, path, KindView::Modified),
        },
        PhaseView::ProbingCreate { path, overwrite, ignore_if_exists } => if reply
            == ReplyView::Found(false) || overwrite {
            creates(run, path)
        } else if ignore_if_exists {
            skipped(run)
        } else {
            failed(run, EditErrorView::AlreadyExists { path })
        },
        PhaseView::CreatingDirectories { path, directory } => match reply {
            ReplyView::Failed(reason) => failed(
                run,
                EditErrorView::CreateDirectory { path: directory, reason },
            ),
            _ => goes_on(run, PhaseView::Creating { path }, ActionView::CreateEmpty { path }),
        },
        PhaseView::Creating { path } => match reply {
            ReplyView::Failed(reason) => failed(run, EditErrorView::Create { path, reason }),
            _ => made(run, path, KindView::Created),
        },
        PhaseView::ProbingRename { from, to, overwrite, ignore_if_exists } => if reply
            == ReplyView::Found(false) || overwrite {
            goes_on(run, PhaseView::Renaming { from, to }, ActionView::Rename { from, to })
        } else if ignore_if_exists {
            skipped(run)
        } else {
            failed(run, EditErrorView::RenameTargetExists { path: to })
        },
        PhaseView::Renaming { from, to } => match reply {
            ReplyView::Failed(reason) => failed(run, EditErrorView::Rename { from, to, reason }),
            _ => made(run, to, KindView::Renamed { from }),
        },
        PhaseView::ProbingDelete { path, ignore_if_not_exists } => if reply == ReplyView::Found(
            true,
        ) {
            goes_on(run, PhaseView::Removing { path }, ActionView::Remove { path })
        } else if ignore_if_not_exists {
            skipped(run)
        } else {
            failed(run, EditErrorView::DeleteTargetMissing { path })
        },
        PhaseView::Removing { path } => match reply {
            ReplyView::Failed(reason) => failed(run, EditErrorView::Delete { path, reason }),
            _ => made(run, path, KindView::Deleted),
        },
        PhaseView::Over => (run, ActionView::Finish),
    }
}

/// Begins to apply a workspace edit: the run, and what to do first.
pub fn apply_to_disk(edit: WorkspaceEdit) -> (r: (DiskRun, DiskAction))
    ensures
        run_wf(r.0@),
        (r.0@, r.1@) == begun(
            RunView {
                steps: edit_steps(edit),
                next: 0,
                phase: PhaseView::Over,
                applied: Seq::empty(),
            },
        ),
{
    let steps = steps_of(edit);
    let mut run = DiskRun { steps, next: 0, phase: Phase::Over, applied: Vec::new() };
    assert(changes_view(run.applied@) =~= Seq::empty());
    let action = run.begin();
    (run, action)
}

impl DiskRun {
    fn fail(&mut self, error: EditError) -> (r: DiskAction)
        requires
            run_wf(old(self)@),
        ensures
            run_wf(final(self)@),
            (final(self)@, r@) == failed(old(self)@, error@),
    {
        self.phase = Phase::Over;
        DiskAction::Fail(error)
    }

    /// Begins the step that the run is at.
    fn begin(&mut self) -> (r: DiskAction)
        requires
            0 <= old(self)@.next <= old(self)@.steps.len(),
        ensures
            run_wf(final(self)@),
            (final(self)@, r@) == begun(old(self)@),
    {
        self.phase = Phase::Over;
        if self.next >= self.steps.len() {
            return DiskAction::Finish;
        }
        let ghost run = self@;
        assert(run.steps[run.next] == self.steps@[self.next as int]@);
        match &self.steps[self.next] {
            EditStep::Modify { uri, edits } => match uri_to_path(uri.as_str()) {
                Err(error) => DiskAction::Fail(EditError::Conv(error)),
                Ok(path) => {
                    self.phase = Phase::Reading { path: path.clone() };
                    DiskAction::Read { path }
                },
            },
            EditStep::Create { uri, overwrite, ignore_if_exists } => match uri_to_path(
                uri.as_str(),
            ) {
                Err(error) => DiskAction::Fail(EditError::Conv(error)),
                Ok(path) => {
                    self.phase = Phase::ProbingCreate {
                        path: path.clone(),
                        overwrite: *overwrite,
                        ignore_if_exists: *ignore_if_exists,
                    };
                    DiskAction::Probe { path }
                },
            },
            EditStep::Rename { old_uri, new_uri, overwrite, ignore_if_exists } => match uri_to_path(
                old_uri.as_str(),
            ) {
                Err(error) => DiskAction::Fail(EditError::Conv(error)),
                Ok(from) => match uri_to_path(new_uri.as_str()) {
                    Err(error) => DiskAction::Fail(EditError::Conv(error)),
                    Ok(to) => {
                        self.phase = Phase::ProbingRename {
                            from,
                            to: to.clone(),
                            overwrite: *overwrite,
                            ignore_if_exists: *ignore_if_exists,
                        };
                        DiskAction::Probe { path: to }
                    },
                },
            },
            EditStep::Delete { uri, ignore_if_not_exists } => match uri_to_path(uri.as_str()) {
                Err(error) => DiskAction::Fail(EditError::Conv(error)),
                Ok(path) => {
                    self.phase = Phase::ProbingDelete {
                        path: path.clone(),
                        ignore_if_not_exists: *ignore_if_not_exists,
                    };
                    DiskAction::Probe { path }
                },
            },
        }
    }

    /// Leaves the step undone and begins the next.
    fn skip(&mut self) -> (r: DiskAction)
        requires
            run_wf(old(self)@),
            old(self)@.next < old(self)@.steps.len(),
        ensures
            run_wf(final(self)@),
            (final(self)@, r@) == skipped(old(self)@),
    {
        assert(self.next < self.steps.len());
        self.next = self.next + 1;
        self.begin()
    }

    /// Notes a change and begins the next step.
    fn note(&mut self, change: AppliedChange) -> (r: DiskAction)
        requires
            run_wf(old(self)@),
            old(self)@.next < old(self)@.steps.len(),
        ensures
            run_wf(final(self)@),
            (final(self)@, r@) == made(old(self)@, change@.path, change@.kind),
    {
        let ghost before = self.applied@;
        self.applied.push(change);
        assert(changes_view(self.applied@) =~= changes_view(before).push(change@));
        assert(self.next < self.steps.len());
        self.next = self.next + 1;
        self.begin()
    }

    /// Creates the file at `path`, after the directories above it.
    fn create(&mut self, path: PathBuf) -> (r: DiskAction)
        requires
            run_wf(old(self)@),
            old(self)@.next < old(self)@.steps.len(),
        ensures
            run_wf(final(self)@),
            (final(self)@, r@) == creates(old(self)@, paths::path_bytes(path)),
    {
        if let Some(directory) = parent_path(&path) {
            if bytes_of(&directory).len() > 0 {
                self.phase = Phase::CreatingDirectories { path, directory: directory.clone() };
                return DiskAction::CreateDirectories { path: directory };
            }
        }
        self.phase = Phase::Creating { path: path.clone() };
        DiskAction::CreateEmpty { path }
    }

    /// Goes on after `reply`, which must be one to the last action. Says what to do next.
    pub fn resume(&mut self, reply: DiskReply) -> (r: DiskAction)
        requires
            run_wf(old(self)@),
            expects(old(self)@, reply@),
        ensures
            run_wf(final(self)@),
            (final(self)@, r@) == resumed(old(self)@, reply@),
    {
        let ghost run = self@;
        let mut phase = Phase::Over;
        std::mem::swap(&mut phase, &mut self.phase);
        match phase {
            Phase::Reading { path } => match reply {
                DiskReply::Text(text) => {
                    assert(run.steps[run.next] == self.steps@[self.next as int]@);
                    let edited = match &self.steps[self.next] {
                        EditStep::Modify { uri, edits } => try_text_edits(&text, edits.as_slice()),
                        _ => None,
                    };
                    match edited {
                        Some(text) => {
                            proof {
                                encode_utf8_decode_utf8(text@);
                            }
                            self.phase = Phase::Writing { path: path.clone() };
                            DiskAction::Write { path, text }
                        },
                        None => self.skip(),
                    }
                },
                DiskReply::Failed(reason) => self.fail(EditError::Read { path, reason }),
                _ => self.skip(),
            },
            Phase::Writing { path } => match reply {
                DiskReply::Failed(reason) => self.fail(EditError::Write { path, reason }),
                _ => self.note(AppliedChange { path, kind: AppliedKind::Modified }),
            },
            Phase::ProbingCreate { path, overwrite, ignore_if_exists } => {
                if matches!(reply, DiskReply::Found(false)) || overwrite {
                    self.create(path)
                } else if ignore_if_exists {
                    self.skip()
                } else {
                    self.fail(EditError::AlreadyExists { path })
                }
            },
            Phase::CreatingDirectories { path, directory } => match reply {
                DiskReply::Failed(reason) => self.fail(
                    EditError::CreateDirectory { path: directory, reason },
                ),
                _ => {
                    self.phase = Phase::Creating { path: path.clone() };
                    DiskAction::CreateEmpty { path }
                },
            },
            Phase::Creating { path } => match reply {
                DiskReply::Failed(reason) => self.fail(EditError::Create { path, reason }),
                _ => self.note(AppliedChange { path, kind: AppliedKind::Created }),
            },
            Phase::ProbingRename { from, to, overwrite, ignore_if_exists } => {
                if matches!(reply, DiskReply::Found(false)) || overwrite {
                    self.phase = Phase::Renaming { from: from.clone(), to: to.clone() };
                    DiskAction::Rename { from, to }
                } else if ignore_if_exists {
                    self.skip()
                } else {
                    self.fail(EditError::RenameTargetExists { path: to })
                }
            },
            Phase::Renaming { from, to } => match reply {
                DiskReply::Failed(reason) => self.fail(EditError::Rename { from, to, reason }),
                _ => self.note(AppliedChange { path: to, kind: AppliedKind::Renamed { from } }),
            },
            Phase::ProbingDelete { path, ignore_if_not_exists } => {
                if matches!(reply, DiskReply::Found(true)) {
                    self.phase = Phase::Removing { path: path.clone() };
                    DiskAction::Remove { path }
                } else if ignore_if_not_exists {
                    self.skip()
                } else {
                    self.fail(EditError::DeleteTargetMissing { path })
                }
            },
            Phase::Removing { path } => match reply {
                DiskReply::Failed(reason) => self.fail(EditError::Delete { path, reason }),
                _ => self.note(AppliedChange { path, kind: AppliedKind::Deleted }),
            },
            Phase::Over => DiskAction::Finish,
        }
    }

    /// Whether `reply` is one that the run can go on with.
    pub fn can_resume(&self, reply: &DiskReply) -> (r: bool)
        requires
            run_wf(self@),
        ensures
            r == expects(self@, reply@),
    {
        match &self.phase {
            Phase::Reading { path } => match reply {
                DiskReply::Text(text) => {
                    assert(self@.steps[self@.next] == self.steps@[self.next as int]@);
                    match &self.steps[self.next] {
                        EditStep::Modify { uri, edits } => try_text_edits(
                            text,
                            edits.as_slice(),
                        ).is_some(),
                        _ => false,
                    }
                },
                DiskReply::Failed(_) => true,
                _ => false,
            },
            Phase::ProbingCreate { .. } => matches!(reply, DiskReply::Found(_)),
            Phase::ProbingRename { .. } => matches!(reply, DiskReply::Found(_)),
            Phase::ProbingDelete { .. } => matches!(reply, DiskReply::Found(_)),
            Phase::Over => false,
            _ => matches!(reply, DiskReply::Done | DiskReply::Failed(_)),
        }
    }

    /// The changes made so far.
    pub fn applied(&self) -> (r: &Vec<AppliedChange>)
        ensures
            changes_view(r@) == self@.applied,
    {
        &self.applied
    }

    /// The changes made so far, at the end of the run.
    pub fn into_applied(self) -> (r: Vec<AppliedChange>)
        ensures
            changes_view(r@) == self@.applied,
    {
        self.applied
    }
}

// ---- what a run does to a disk ----

/// A disk on which every action succeeds that can: what stands at each path.
pub type Disk = Map<Seq<u8>, Seq<char>>;

/// What an action does to a disk, and the reply to it. An action that cannot be done
/// fails for the reason `why`.
pub open spec fn performed(disk: Disk, action: ActionView, why: Seq<char>) -> (Disk, ReplyView) {
    match action {
        ActionView::Read { path } => if disk.contains_key(path) {
            (disk, ReplyView::Text(disk[path]))
        } else {
            (disk, ReplyView::Failed(why))
        },
        ActionView::Write { path, text } => (disk.insert(path, text), ReplyView::Done),
        ActionView::Probe { path } => (disk, ReplyView::Found(disk.contains_key(path))),
        ActionView::CreateDirectories { .. } => (disk, ReplyView::Done),
        ActionView::CreateEmpty { path } => (disk.insert(path, Seq::empty()), ReplyView::Done),
        ActionView::Rename { from, to } => if disk.contains_key(from) {
            (disk.remove(from).insert(to, disk[from]), ReplyView::Done)
        } else {
            (disk, ReplyView::Failed(why))
        },
        ActionView::Remove { path } => (disk.remove(path), ReplyView::Done),
        _ => (disk, ReplyView::Done),
    }
}

/// The disk and the last action after at most `fuel` actions of a run. A run that cannot go
/// on with a reply stops there.
pub open spec fn driven(
    run: RunView,
    action: ActionView,
    disk: Disk,
    why: Seq<char>,
    fuel: nat,
) -> (Disk, RunView, ActionView)
    decreases fuel,
{
    if fuel == 0 || run.phase is Over {
        (disk, run, action)
    } else {
        let (after, reply) = performed(disk, action, why);
        let (next, then_do) = resumed(run, reply);
        if expects(run, reply) {
            driven(next, then_do, after, why, (fuel - 1) as nat)
        } else {
            (disk, run, action)
        }
    }
}

/// What becomes of one step.
pub enum Effect {
    /// A change is made, and the disk is as given.
    Made { disk: Disk, change: ChangeView },
    /// Nothing is done.
    Skipped,
    /// The edit fails, and the disk stays as it is.
    Failed { error: EditErrorView },
}

/// What a step does to a disk.
pub open spec fn step_effect(step: StepView, disk: Disk, why: Seq<char>) -> Effect {
    match step {
        StepView::Modify { uri, edits } => match conv::uri_path(uri) {
            Err(error) => Effect::Failed { error: EditErrorView::Conv(error) },
            Ok(path) => if disk.contains_key(path) {
                Effect::Made {
                    disk: disk.insert(
                        path,
                        decode_utf8(text_edit::edited_bytes(disk[path], edits)),
                    ),
                    change: ChangeView { path, kind: KindView::Modified },
                }
            } else {
                Effect::Failed { error: EditErrorView::Read { path, reason: why } }
            },
        },
        StepView::Create { uri, overwrite, ignore_if_exists } => match conv::uri_path(uri) {
            Err(error) => Effect::Failed { error: EditErrorView::Conv(error) },
            Ok(path) => if !disk.contains_key(path) || overwrite {
                Effect::Made {
                    disk: disk.insert(path, Seq::empty()),
                    change: ChangeView { path, kind: KindView::Created },
                }
            } else if ignore_if_exists {
                Effect::Skipped
            } else {
                Effect::Failed { error: EditErrorView::AlreadyExists { path } }
            },
        },
        StepView::Rename { old_uri, new_uri, overwrite, ignore_if_exists } => match (
            conv::uri_path(old_uri),
            conv::uri_path(new_uri),
        ) {
            (Err(error), _) => Effect::Failed { error: EditErrorView::Conv(error) },
            (Ok(_), Err(error)) => Effect::Failed { error: EditErrorView::Conv(error) },
            (Ok(from), Ok(to)) => if disk.contains_key(to) && !overwrite {
                if ignore_if_exists {
                    Effect::Skipped
                } else {
                    Effect::Failed { error: EditErrorView::RenameTargetExists { path: to } }
                }
            } else if disk.contains_key(from) {
                Effect::Made {
                    disk: disk.remove(from).insert(to, disk[from]),
                    change: ChangeView { path: to, kind: KindView::Renamed { from } },
                }
            } else {
                Effect::Failed { error: EditErrorView::Rename { from, to, reason: why } }
            },
        },
        StepView::Delete { uri, ignore_if_not_exists } => match conv::uri_path(uri) {
            Err(error) => Effect::Failed { error: EditErrorView::Conv(error) },
            Ok(path) => if disk.contains_key(path) {
                Effect::Made {
                    disk: disk.remove(path),
                    change: ChangeView { path, kind: KindView::Deleted },
                }
            } else if ignore_if_not_exists {
                Effect::Skipped
            } else {
                Effect::Failed { error: EditErrorView::DeleteTargetMissing { path } }
            },
        },
    }
}

/// What a list of steps does to a disk: the disk afterwards, the changes made, and the
/// error where one step failed.
pub open spec fn steps_effect(steps: Seq<StepView>, disk: Disk, why: Seq<char>) -> (
    Disk,
    Seq<ChangeView>,
    Option<EditErrorView>,
)
    decreases steps.len(),
{
    if steps.len() == 0 {
        (disk, Seq::empty(), None)
    } else {
        let rest = steps.drop_first();
        match step_effect(steps[0], disk, why) {
            Effect::Made { disk, change } => {
                let (after, changes, error) = steps_effect(rest, disk, why);
                (after, seq![change] + changes, error)
            },
            Effect::Skipped => steps_effect(rest, disk, why),
            Effect::Failed { error } => (disk, Seq::empty(), Some(error)),
        }
    }
}

/// The edits of a step can be applied to the text that it finds on a disk.
pub open spec fn step_fits(step: StepView, disk: Disk) -> bool {
    match step {
        StepView::Modify { uri, edits } => match conv::uri_path(uri) {
            Ok(path) => disk.contains_key(path) ==> text_edit::edits_apply(disk[path], edits),
            Err(_) => true,
        },
        _ => true,
    }
}

/// The edits of each step can be applied to the text that it finds, up to the first step that
/// fails.
pub open spec fn steps_fit(steps: Seq<StepView>, disk: Disk, why: Seq<char>) -> bool
    decreases steps.len(),
{
    steps.len() > 0 ==> {
        &&& step_fits(steps[0], disk)
        &&& match step_effect(steps[0], disk, why) {
            Effect::Made { disk, .. } => steps_fit(steps.drop_first(), disk, why),
            Effect::Skipped => steps_fit(steps.drop_first(), disk, why),
            Effect::Failed { .. } => true,
        }
    }
}

/// The last action of a run that ended with or without an error.
pub open spec fn ending(error: Option<EditErrorView>) -> ActionView {
    match error {
        Some(error) => ActionView::Fail(error),
        None => ActionView::Finish,
    }
}

/// How many actions a step takes that makes a change.
spec fn actions_of(step: StepView) -> nat {
    match step {
        StepView::Create { uri, .. } => match paths::parent_of(conv::uri_path(uri)->Ok_0) {
            Some(directory) => if directory.len() > 0 {
                3
            } else {
                2
            },
            None => 2,
        },
        _ => 2,
    }
}

/// One step of a run, done on a disk, has its effect and leaves the run at the next one.
spec fn step_is_driven(run: RunView, disk: Disk, why: Seq<char>, fuel: nat) -> bool {
    let (first, action) = begun(run);
    let end = driven(first, action, disk, why, fuel);
    let skip = RunView { next: run.next + 1, ..run };
    match step_effect(run.steps[run.next], disk, why) {
        Effect::Made { disk: after, change } => {
            let next = begun(RunView { applied: run.applied.push(change), ..skip });
            let left = (fuel - actions_of(run.steps[run.next])) as nat;
            end == driven(next.0, next.1, after, why, left)
        },
        Effect::Skipped => {
            let next = begun(skip);
            end == driven(next.0, next.1, disk, why, (fuel - 1) as nat)
        },
        Effect::Failed { error } => end == (
            disk,
            RunView { phase: PhaseView::Over, ..run },
            ActionView::Fail(error),
        ),
    }
}

proof fn lemma_over(run: RunView, action: ActionView, disk: Disk, why: Seq<char>, fuel: nat)
    requires
        run.phase is Over,
    ensures
        driven(run, action, disk, why, fuel) == (disk, run, action),
{
}

proof fn lemma_once(run: RunView, action: ActionView, disk: Disk, why: Seq<char>, fuel: nat)
    requires
        run.phase !is Over,
        fuel > 0,
        expects(run, performed(disk, action, why).1),
    ensures
        ({
            let (after, reply) = performed(disk, action, why);
            let (next, then_do) = resumed(run, reply);
            driven(run, action, disk, why, fuel) == driven(
                next,
                then_do,
                after,
                why,
                (fuel - 1) as nat,
            )
        }),
{
}

#[verifier::spinoff_prover]
proof fn lemma_modify_is_driven(run: RunView, disk: Disk, why: Seq<char>, fuel: nat)
    requires
        0 <= run.next < run.steps.len(),
        run.steps[run.next] is Modify,
        step_fits(run.steps[run.next], disk),
        fuel >= 4,
    ensures
        step_is_driven(run, disk, why, fuel),
{
    let (first, action) = begun(run);
    match conv::uri_path(run.steps[run.next]->Modify_uri) {
        Err(_) => {
            lemma_over(first, action, disk, why, fuel);
        },
        Ok(path) => {
            let (_, reply) = performed(disk, action, why);
            let (second, act) = resumed(first, reply);
            lemma_once(first, action, disk, why, fuel);
            if disk.contains_key(path) {
                assert(second.phase == (PhaseView::Writing { path }));
                lemma_once(second, act, disk, why, (fuel - 1) as nat);
            } else {
                lemma_over(second, act, disk, why, (fuel - 1) as nat);
            }
        },
    }
}

#[verifier::spinoff_prover]
proof fn lemma_create_is_driven(run: RunView, disk: Disk, why: Seq<char>, fuel: nat)
    requires
        0 <= run.next < run.steps.len(),
        run.steps[run.next] is Create,
        fuel >= 4,
    ensures
        step_is_driven(run, disk, why, fuel),
{
    let (first, action) = begun(run);
    let step = run.steps[run.next];
    match conv::uri_path(step->Create_uri) {
        Err(_) => {
            lemma_over(first, action, disk, why, fuel);
        },
        Ok(path) => {
            let (_, reply) = performed(disk, action, why);
            let (second, act) = resumed(first, reply);
            lemma_once(first, action, disk, why, fuel);
            if !disk.contains_key(path) || step->Create_overwrite {
                lemma_once(second, act, disk, why, (fuel - 1) as nat);
                if second.phase is CreatingDirectories {
                    let (third, then_do) = resumed(second, ReplyView::Done);
                    lemma_once(third, then_do, disk, why, (fuel - 2) as nat);
                }
            } else if !step->Create_ignore_if_exists {
                lemma_over(second, act, disk, why, (fuel - 1) as nat);
            }
        },
    }
}

#[verifier::spinoff_prover]
proof fn lemma_rename_is_driven(run: RunView, disk: Disk, why: Seq<char>, fuel: nat)
    requires
        0 <= run.next < run.steps.len(),
        run.steps[run.next] is Rename,
        fuel >= 4,
    ensures
        step_is_driven(run, disk, why, fuel),
{
    let (first, action) = begun(run);
    let step = run.steps[run.next];
    match (conv::uri_path(step->Rename_old_uri), conv::uri_path(step->Rename_new_uri)) {
        (Ok(from), Ok(to)) => {
            let (_, reply) = performed(disk, action, why);
            let (second, act) = resumed(first, reply);
            lemma_once(first, action, disk, why, fuel);
            if !disk.contains_key(to) || step->Rename_overwrite {
                lemma_once(second, act, disk, why, (fuel - 1) as nat);
                if !disk.contains_key(from) {
                    let (third, then_do) = resumed(second, ReplyView::Failed(why));
                    lemma_over(third, then_do, disk, why, (fuel - 2) as nat);
                }
            } else if !step->Rename_ignore_if_exists {
                lemma_over(second, act, disk, why, (fuel - 1) as nat);
            }
        },
        _ => {
            lemma_over(first, action, disk, why, fuel);
        },
    }
}

#[verifier::spinoff_prover]
proof fn lemma_delete_is_driven(run: RunView, disk: Disk, why: Seq<char>, fuel: nat)
    requires
        0 <= run.next < run.steps.len(),
        run.steps[run.next] is Delete,
        fuel >= 4,
    ensures
        step_is_driven(run, disk, why, fuel),
{
    let (first, action) = begun(run);
    let step = run.steps[run.next];
    match conv::uri_path(step->Delete_uri) {
        Err(_) => {
            lemma_over(first, action, disk, why, fuel);
        },
        Ok(path) => {
            let (_, reply) = performed(disk, action, why);
            let (second, act) = resumed(first, reply);
            lemma_once(first, action, disk, why, fuel);
            if disk.contains_key(path) {
                lemma_once(second, act, disk, why, (fuel - 1) as nat);
            } else if !step->Delete_ignore_if_not_exists {
                lemma_over(second, act, disk, why, (fuel - 1) as nat);
            }
        },
    }
}

/// A run whose actions are done on a disk, and whose edits can be applied to what it finds
/// there, ends within four actions per step. It does to the disk what its steps do one after
/// the other, up to the first that fails; it lists exactly the changes it made, and ends with
/// that failure.
#[verifier::spinoff_prover]
pub proof fn law_run_on_disk(run: RunView, disk: Disk, why: Seq<char>, fuel: nat)
    requires
        0 <= run.next <= run.steps.len(),
        steps_fit(run.steps.skip(run.next), disk, why),
        fuel >= 4 * (run.steps.len() - run.next),
    ensures
        ({
            let (first, action) = begun(run);
            let (after, last, end) = driven(first, action, disk, why, fuel);
            let (disk_after, changes, error) = steps_effect(run.steps.skip(run.next), disk, why);
            &&& after == disk_after
            &&& last.applied == run.applied + changes
            &&& last.phase is Over
            &&& end == ending(error)
        }),
    decreases run.steps.len() - run.next,
{
    let todo = run.steps.skip(run.next);
    if run.next < run.steps.len() {
        let step = run.steps[run.next];
        assert(todo[0] == step);
        assert(todo.drop_first() == run.steps.skip(run.next + 1));
        assert(step_is_driven(run, disk, why, fuel)) by {
            match step {
                StepView::Modify { .. } => lemma_modify_is_driven(run, disk, why, fuel),
                StepView::Create { .. } => lemma_create_is_driven(run, disk, why, fuel),
                StepView::Rename { .. } => lemma_rename_is_driven(run, disk, why, fuel),
                StepView::Delete { .. } => lemma_delete_is_driven(run, disk, why, fuel),
            }
        }
        let skip = RunView { next: run.next + 1, ..run };
        match step_effect(step, disk, why) {
            Effect::Made { disk: after, change } => {
                let next = RunView { applied: run.applied.push(change), ..skip };
                let (_, changes, _) = steps_effect(todo.drop_first(), after, why);
                assert(run.applied.push(change) + changes == run.applied + (seq![change] + changes));
                law_run_on_disk(next, after, why, (fuel - actions_of(step)) as nat);
            },
            Effect::Skipped => {
                law_run_on_disk(skip, disk, why, (fuel - 1) as nat);
            },
            Effect::Failed { .. } => {
                assert(run.applied + Seq::<ChangeView>::empty() == run.applied);
            },
        }
    } else {
        let (first, action) = begun(run);
        lemma_over(first, action, disk, why, fuel);
        assert(todo.len() == 0);
        assert(run.applied + Seq::<ChangeView>::empty() == run.applied);
    }
}

/// A list of steps acts as its first part and then, only if that did not fail, as its second:
/// the disk is the same, and the changes are those of the one and then those of the other.
/// Where the first part fails, what it did before stays, and nothing of the second is done.
pub proof fn law_steps_in_turn(
    first: Seq<StepView>,
    second: Seq<StepView>,
    disk: Disk,
    why: Seq<char>,
)
    ensures
        ({
            let (between, changes, error) = steps_effect(first, disk, why);
            let (after, more, later) = steps_effect(second, between, why);
            steps_effect(first + second, disk, why) == (match error {
                Some(_) => (between, changes, error),
                None => (after, changes + more, later),
            })
        }),
    decreases first.len(),
{
    if first.len() == 0 {
        assert(first + second == second);
        let (after, more, later) = steps_effect(second, disk, why);
        assert(Seq::<ChangeView>::empty() + more == more);
    } else {
        let all = first + second;
        let rest = first.drop_first();
        assert(all[0] == first[0]);
        assert(all.drop_first() == rest + second);
        match step_effect(first[0], disk, why) {
            Effect::Made { disk: made, change } => {
                law_steps_in_turn(rest, second, made, why);
                let (between, changes, error) = steps_effect(rest, made, why);
                let (after, more, later) = steps_effect(second, between, why);
                assert(seq![change] + (changes + more) == (seq![change] + changes) + more);
            },
            Effect::Skipped => {
                law_steps_in_turn(rest, second, disk, why);
            },
            Effect::Failed { .. } => {},
        }
    }
}

/// An edit with a list of operations acts as one with the first of them and then, only if
/// that did not fail, as one with the others.
pub proof fn law_operations_in_turn(
    edit: WorkspaceEdit,
    first: WorkspaceEdit,
    second: WorkspaceEdit,
    disk: Disk,
    why: Seq<char>,
)
    requires
        edit.changes is None && first.changes is None && second.changes is None,
        edit.document_changes is Some && edit.document_changes->Some_0 is Operations,
        first.document_changes is Some && first.document_changes->Some_0 is Operations,
        second.document_changes is Some && second.document_changes->Some_0 is Operations,
        edit.document_changes->Some_0->Operations_0@
            == first.document_changes->Some_0->Operations_0@
            + second.document_changes->Some_0->Operations_0@,
    ensures
        ({
            let (between, changes, error) = steps_effect(edit_steps(first), disk, why);
            let (after, more, later) = steps_effect(edit_steps(second), between, why);
            steps_effect(edit_steps(edit), disk, why) == (match error {
                Some(_) => (between, changes, error),
                None => (after, changes + more, later),
            })
        }),
{
    assert(edit_steps(edit) =~= edit_steps(first) + edit_steps(second));
    law_steps_in_turn(edit_steps(first), edit_steps(second), disk, why);
}

/// A step has a URI of the file or directory at `path`.
pub open spec fn step_names(step: StepView, path: Seq<u8>) -> bool {
    match step {
        StepView::Modify { uri, .. } => conv::uri_path(uri) == Ok::<_, conv::ConvErrorView>(path),
        StepView::Create { uri, .. } => conv::uri_path(uri) == Ok::<_, conv::ConvErrorView>(path),
        StepView::Rename { old_uri, new_uri, .. } => conv::uri_path(old_uri) == Ok::<
            _,
            conv::ConvErrorView,
        >(path) || conv::uri_path(new_uri) == Ok::<_, conv::ConvErrorView>(path),
        StepView::Delete { uri, .. } => conv::uri_path(uri) == Ok::<_, conv::ConvErrorView>(path),
    }
}

/// One of the steps has a URI of `path`.
pub open spec fn is_named(steps: Seq<StepView>, path: Seq<u8>) -> bool {
    exists|i: int| 0 <= i < steps.len() && step_names(#[trigger] steps[i], path)
}

/// A file is named by one of the steps, or lies under a path that is.
pub open spec fn is_reached(steps: Seq<StepView>, file: Seq<u8>) -> bool {
    exists|path: Seq<u8>| #[trigger] is_named(steps, path) && paths::contains_path(path, file)
}

/// A file that no URI of an edit names, and that lies under no path that one names, is as it
/// was, whether the edit fails or not.
pub proof fn law_other_files_stay(steps: Seq<StepView>, disk: Disk, why: Seq<char>, file: Seq<u8>)
    requires
        !is_reached(steps, file),
    ensures
        ({
            let after = steps_effect(steps, disk, why).0;
            &&& after.contains_key(file) == disk.contains_key(file)
            &&& disk.contains_key(file) ==> after[file] == disk[file]
        }),
    decreases steps.len(),
{
    if steps.len() > 0 {
        let rest = steps.drop_first();
        assert forall|path: Seq<u8>| #[trigger] is_named(rest, path) implies !paths::contains_path(
            path,
            file,
        ) by {
            let i = choose|i: int| 0 <= i < rest.len() && step_names(#[trigger] rest[i], path);
            assert(rest[i] == steps[i + 1]);
            assert(is_named(steps, path));
        }
        assert(!step_names(steps[0], file)) by {
            if step_names(steps[0], file) {
                assert(is_named(steps, file));
                assert(paths::components(file).is_prefix_of(paths::components(file)));
            }
        }
        match step_effect(steps[0], disk, why) {
            Effect::Made { disk: made, .. } => {
                law_other_files_stay(rest, made, why, file);
            },
            Effect::Skipped => {
                law_other_files_stay(rest, disk, why, file);
            },
            Effect::Failed { .. } => {},
        }
    }
}

/// An action is on paths that the steps name, or makes the directories above one.
pub open spec fn acts_within(action: ActionView, steps: Seq<StepView>) -> bool {
    match action {
        ActionView::Read { path } => is_named(steps, path),
        ActionView::Write { path, .. } => is_named(steps, path),
        ActionView::Probe { path } => is_named(steps, path),
        ActionView::CreateDirectories { path } => exists|file: Seq<u8>| #[trigger]
            is_named(steps, file) && paths::parent_of(file) == Some(path),
        ActionView::CreateEmpty { path } => is_named(steps, path),
        ActionView::Rename { from, to } => is_named(steps, from) && is_named(steps, to),
        ActionView::Remove { path } => is_named(steps, path),
        ActionView::Finish => true,
        ActionView::Fail(_) => true,
    }
}

/// What a run waits for is about paths that its steps name.
pub open spec fn waits_within(run: RunView) -> bool {
    match run.phase {
        PhaseView::Reading { path } => is_named(run.steps, path),
        PhaseView::Writing { path } => is_named(run.steps, path),
        PhaseView::ProbingCreate { path, .. } => is_named(run.steps, path),
        PhaseView::CreatingDirectories { path, .. } => is_named(run.steps, path),
        PhaseView::Creating { path } => is_named(run.steps, path),
        PhaseView::ProbingRename { from, to, .. } => is_named(run.steps, from) && is_named(
            run.steps,
            to,
        ),
        PhaseView::Renaming { from, to } => is_named(run.steps, from) && is_named(run.steps, to),
        PhaseView::ProbingDelete { path, .. } => is_named(run.steps, path),
        PhaseView::Removing { path } => is_named(run.steps, path),
        PhaseView::Over => true,
    }
}

proof fn lemma_begun_within(run: RunView)
    requires
        run.next >= 0,
    ensures
        begun(run).0.steps == run.steps,
        waits_within(begun(run).0),
        acts_within(begun(run).1, run.steps),
{
    if run.next < run.steps.len() {
        let step = run.steps[run.next];
        assert forall|path: Seq<u8>| #[trigger] step_names(step, path) implies is_named(
            run.steps,
            path,
        ) by {}
        match step {
            StepView::Rename { old_uri, new_uri, .. } => {
                if let (Ok(from), Ok(to)) = (conv::uri_path(old_uri), conv::uri_path(new_uri)) {
                    assert(step_names(step, from) && step_names(step, to));
                }
            },
            StepView::Modify { uri, .. } => {
                if let Ok(path) = conv::uri_path(uri) {
                    assert(step_names(step, path));
                }
            },
            StepView::Create { uri, .. } => {
                if let Ok(path) = conv::uri_path(uri) {
                    assert(step_names(step, path));
                }
            },
            StepView::Delete { uri, .. } => {
                if let Ok(path) = conv::uri_path(uri) {
                    assert(step_names(step, path));
                }
            },
        }
    }
}

/// Whatever the disk is like and however it replies, every action of a run is on paths that
/// the URIs of the edit name, but for making the directories above a file to create.
pub proof fn law_actions_stay_within(run: RunView, reply: ReplyView)
    requires
        run.next >= 0,
        waits_within(run),
    ensures
        begun(run).0.steps == run.steps,
        waits_within(begun(run).0),
        acts_within(begun(run).1, run.steps),
        resumed(run, reply).0.steps == run.steps,
        waits_within(resumed(run, reply).0),
        acts_within(resumed(run, reply).1, run.steps),
{
    lemma_begun_within(run);
    lemma_begun_within(RunView { next: run.next + 1, ..run });
    match run.phase {
        PhaseView::Writing { path } => {
            let change = ChangeView { path, kind: KindView::Modified };
            lemma_begun_within(
                RunView { next: run.next + 1, applied: run.applied.push(change), ..run },
            );
        },
        PhaseView::Creating { path } => {
            let change = ChangeView { path, kind: KindView::Created };
            lemma_begun_within(
                RunView { next: run.next + 1, applied: run.applied.push(change), ..run },
            );
        },
        PhaseView::Renaming { from, to } => {
            let change = ChangeView { path: to, kind: KindView::Renamed { from } };
            lemma_begun_within(
                RunView { next: run.next + 1, applied: run.applied.push(change), ..run },
            );
        },
        PhaseView::Removing { path } => {
            let change = ChangeView { path, kind: KindView::Deleted };
            lemma_begun_within(
                RunView { next: run.next + 1, applied: run.applied.push(change), ..run },
            );
        },
        _ => {},
    }
}

/// An edit without changes does nothing and succeeds with an empty list.
pub proof fn law_empty_edit(edit: WorkspaceEdit, disk: Disk, why: Seq<char>)
    requires
        edit.changes is None,
        edit.document_changes is None,
    ensures
        edit_steps(edit).len() == 0,
        steps_effect(edit_steps(edit), disk, why) == (disk, Seq::<ChangeView>::empty(), None::<
            EditErrorView,
        >),
        begun(
            RunView {
                steps: edit_steps(edit),
                next: 0,
                phase: PhaseView::Over,
                applied: Seq::empty(),
            },
        ) == (
            RunView {
                steps: edit_steps(edit),
                next: 0,
                phase: PhaseView::Over,
                applied: Seq::empty(),
            },
            ActionView::Finish,
        ),
{
}

/// The edits per document come first, one step for each entry, in the order of the entries.
/// Behind them stands one step for each of the changes in their order.
pub proof fn law_steps_of_an_edit(
    edit: WorkspaceEdit,
    changes: Vec<(String, Vec<TextEdit>)>,
    edits: Vec<DocumentEdit>,
    operations: Vec<ChangeOperation>,
    i: int,
)
    requires
        edit.changes == Some(changes) || edit.changes is None && changes@.len() == 0,
    ensures
        0 <= i < changes@.len() ==> edit_steps(edit).len() > i && edit_steps(edit)[i]
            == (StepView::Modify { uri: changes@[i].0@, edits: changes@[i].1@ }),
        edit.document_changes is None ==> edit_steps(edit).len() == changes@.len(),
        edit.document_changes == Some(OrderedChanges::Edits(edits)) ==> {
            &&& edit_steps(edit).len() == changes@.len() + edits@.len()
            &&& 0 <= i < edits@.len() ==> edit_steps(edit)[changes@.len() + i] == document_step(
                edits@[i],
            )
        },
        edit.document_changes == Some(OrderedChanges::Operations(operations)) ==> {
            &&& edit_steps(edit).len() == changes@.len() + operations@.len()
            &&& 0 <= i < operations@.len() ==> edit_steps(edit)[changes@.len() + i]
                == operation_step(operations@[i])
        },
{
}

/// The step of a document has the document's URI and every one of its edits, in their order and
/// without their annotations.
pub proof fn law_document_step(edit: DocumentEdit, plain: Seq<TextEdit>)
    requires
        plain.len() == edit.edits@.len(),
        forall|i: int|
            0 <= i < plain.len() ==> #[trigger] plain[i] == match edit.edits@[i] {
                OneOf::Left(edit) => edit,
                OneOf::Right(annotated) => annotated.text_edit,
            },
    ensures
        document_step(edit) == (StepView::Modify { uri: edit.uri@, edits: plain }),
        operation_step(ChangeOperation::Edit(edit)) == (StepView::Modify {
            uri: edit.uri@,
            edits: plain,
        }),
{
    assert(plain_edits(edit.edits@) =~= plain);
}

/// The step of a change to files has its URIs, and each option that is given and on.
pub proof fn law_file_step(create: CreateFile, rename: RenameFile, delete: DeleteFile)
    ensures
        ({
            let step = operation_step(ChangeOperation::Op(FileOperation::Create(create)));
            &&& step is Create
            &&& step->Create_uri == create.uri@
            &&& step->Create_overwrite == (create.options is Some
                && create.options->Some_0.overwrite == Some(true))
            &&& step->Create_ignore_if_exists == (create.options is Some
                && create.options->Some_0.ignore_if_exists == Some(true))
        }),
        ({
            let step = operation_step(ChangeOperation::Op(FileOperation::Rename(rename)));
            &&& step is Rename
            &&& step->Rename_old_uri == rename.old_uri@
            &&& step->Rename_new_uri == rename.new_uri@
            &&& step->Rename_overwrite == (rename.options is Some
                && rename.options->Some_0.overwrite == Some(true))
            &&& step->Rename_ignore_if_exists == (rename.options is Some
                && rename.options->Some_0.ignore_if_exists == Some(true))
        }),
        ({
            let step = operation_step(ChangeOperation::Op(FileOperation::Delete(delete)));
            &&& step is Delete
            &&& step->Delete_uri == delete.uri@
            &&& step->Delete_ignore_if_not_exists == (delete.options is Some
                && delete.options->Some_0.ignore_if_not_exists == Some(true))
        }),
{
}

/// The steps are those for the edits of the documents at `files`, of which no two are the same
/// and each is on the disk with a text that its edits can be applied to.
spec fn steps_edit_files(
    steps: Seq<StepView>,
    files: Seq<Seq<u8>>,
    edits: Seq<Seq<TextEdit>>,
    disk: Disk,
) -> bool {
    &&& steps.len() == files.len() == edits.len()
    &&& forall|k: int|
        0 <= k < steps.len() ==> {
            &&& (#[trigger] steps[k]) is Modify
            &&& conv::uri_path(steps[k]->Modify_uri) == Ok::<_, conv::ConvErrorView>(files[k])
            &&& steps[k]->Modify_edits == edits[k]
            &&& disk.contains_key(files[k])
            &&& text_edit::edits_apply(disk[files[k]], edits[k])
        }
    &&& forall|j: int, k: int|
        0 <= j < k < files.len() ==> #[trigger] files[j] != #[trigger] files[k]
}

proof fn lemma_files_are_edited(
    steps: Seq<StepView>,
    files: Seq<Seq<u8>>,
    edits: Seq<Seq<TextEdit>>,
    disk: Disk,
    why: Seq<char>,
)
    requires
        steps_edit_files(steps, files, edits, disk),
    ensures
        steps_fit(steps, disk, why),
        ({
            let (after, changes, error) = steps_effect(steps, disk, why);
            &&& error is None
            &&& changes.len() == steps.len()
            &&& forall|k: int|
                0 <= k < steps.len() ==> #[trigger] changes[k] == (ChangeView {
                    path: files[k],
                    kind: KindView::Modified,
                })
            &&& forall|k: int|
                0 <= k < steps.len() ==> after.contains_key(#[trigger] files[k])
                    && after[files[k]] == decode_utf8(
                    text_edit::edited_bytes(disk[files[k]], edits[k]),
                )
            &&& forall|file: Seq<u8>| #[trigger]
                after.contains_key(file) == disk.contains_key(file)
            &&& forall|file: Seq<u8>|
                !files.contains(file) && disk.contains_key(file) ==> #[trigger] after[file]
                    == disk[file]
        }),
    decreases steps.len(),
{
    if steps.len() > 0 {
        let rest = steps.drop_first();
        let other = files.drop_first();
        let later = edits.drop_first();
        assert(steps[0] is Modify);
        let edited = decode_utf8(text_edit::edited_bytes(disk[files[0]], edits[0]));
        let made = disk.insert(files[0], edited);
        let change = ChangeView { path: files[0], kind: KindView::Modified };
        assert(step_effect(steps[0], disk, why) == (Effect::Made { disk: made, change }));
        assert forall|k: int| 0 <= k < rest.len() implies {
            &&& (#[trigger] rest[k]) is Modify
            &&& conv::uri_path(rest[k]->Modify_uri) == Ok::<_, conv::ConvErrorView>(other[k])
            &&& rest[k]->Modify_edits == later[k]
            &&& made.contains_key(other[k])
            &&& text_edit::edits_apply(made[other[k]], later[k])
        } by {
            assert(rest[k] == steps[k + 1]);
            assert(other[k] == files[k + 1] && files[0] != files[k + 1]);
        }
        assert forall|j: int, k: int| 0 <= j < k < other.len() implies #[trigger] other[j]
            != #[trigger] other[k] by {
            assert(other[j] == files[j + 1] && other[k] == files[k + 1]);
        }
        lemma_files_are_edited(rest, other, later, made, why);
        let (after, changes, error) = steps_effect(rest, made, why);
        let all = seq![change] + changes;
        assert(steps_effect(steps, disk, why) == (after, all, error));
        assert forall|k: int| 0 <= k < steps.len() implies #[trigger] all[k] == (ChangeView {
            path: files[k],
            kind: KindView::Modified,
        }) by {
            if k > 0 {
                assert(changes[k - 1].path == other[k - 1]);
                assert(other[k - 1] == files[k]);
            }
        }
        assert(!other.contains(files[0])) by {
            if other.contains(files[0]) {
                let k = choose|k: int| 0 <= k < other.len() && other[k] == files[0];
                assert(files[k + 1] == files[0]);
            }
        }
        assert forall|k: int| 0 <= k < steps.len() implies after.contains_key(#[trigger] files[k])
            && after[files[k]] == decode_utf8(
            text_edit::edited_bytes(disk[files[k]], edits[k]),
        ) by {
            if k > 0 {
                assert(other[k - 1] == files[k]);
                assert(files[0] != files[k]);
            }
        }
        assert forall|file: Seq<u8>|
            !files.contains(file) && disk.contains_key(file) implies #[trigger] after[file]
            == disk[file] by {
            assert(file != files[0]);
            assert(!other.contains(file)) by {
                if other.contains(file) {
                    let k = choose|k: int| 0 <= k < other.len() && other[k] == file;
                    assert(files[k + 1] == file);
                }
            }
        }
    }
}

/// A run of an edit with entries per document, which name files that are there, finds every one
/// of them changed to its edited text, lists one change for each entry, in their order, and
/// leaves every other file as it was. Changes in their order, where the edit has some, are
/// made and listed behind these.
pub proof fn law_every_entry_is_applied(
    edit: WorkspaceEdit,
    changes: Vec<(String, Vec<TextEdit>)>,
    files: Seq<Seq<u8>>,
    disk: Disk,
    why: Seq<char>,
    fuel: nat,
    i: int,
)
    requires
        edit.changes == Some(changes),
        files.len() == changes@.len(),
        forall|k: int|
            0 <= k < files.len() ==> {
                &&& conv::uri_path(changes@[k].0@) == Ok::<_, conv::ConvErrorView>(
                    #[trigger] files[k],
                )
                &&& disk.contains_key(files[k])
                &&& text_edit::edits_apply(disk[files[k]], changes@[k].1@)
            },
        forall|j: int, k: int|
            0 <= j < k < files.len() ==> #[trigger] files[j] != #[trigger] files[k],
        edit.document_changes is Some ==> steps_fit(edit_steps(edit), disk, why),
        fuel >= 4 * edit_steps(edit).len(),
        0 <= i < files.len(),
    ensures
        ({
            let (first, action) = begun(
                RunView {
                    steps: edit_steps(edit),
                    next: 0,
                    phase: PhaseView::Over,
                    applied: Seq::empty(),
                },
            );
            let (after, last, end) = driven(first, action, disk, why, fuel);
            &&& last.applied.len() >= changes@.len()
            &&& last.applied[i] == (ChangeView { path: files[i], kind: KindView::Modified })
            &&& edit.document_changes is None ==> {
                &&& end == ActionView::Finish
                &&& last.applied.len() == changes@.len()
                &&& after.contains_key(files[i])
                &&& after[files[i]] == decode_utf8(
                    text_edit::edited_bytes(disk[files[i]], changes@[i].1@),
                )
                &&& forall|file: Seq<u8>| #[trigger]
                    after.contains_key(file) == disk.contains_key(file)
                &&& forall|file: Seq<u8>|
                    !files.contains(file) && disk.contains_key(file) ==> #[trigger] after[file]
                        == disk[file]
            }
        }),
{
    let steps = edit_steps(edit);
    let n = changes@.len() as int;
    let entries = steps.take(n);
    let others = steps.skip(n);
    let edits = Seq::new(changes@.len(), |k: int| changes@[k].1@);
    assert forall|k: int| 0 <= k < entries.len() implies {
        &&& (#[trigger] entries[k]) is Modify
        &&& conv::uri_path(entries[k]->Modify_uri) == Ok::<_, conv::ConvErrorView>(files[k])
        &&& entries[k]->Modify_edits == edits[k]
        &&& disk.contains_key(files[k])
        &&& text_edit::edits_apply(disk[files[k]], edits[k])
    } by {
        assert(entries[k] == steps[k]);
        assert(files[k] == files[k]);
    }
    lemma_files_are_edited(entries, files, edits, disk, why);
    assert(entries + others =~= steps);
    law_steps_in_turn(entries, others, disk, why);
    if edit.document_changes is None {
        assert(entries =~= steps);
        assert(others =~= Seq::<StepView>::empty());
    }
    let run = RunView {
        steps: steps,
        next: 0,
        phase: PhaseView::Over,
        applied: Seq::empty(),
    };
    assert(steps.skip(0) =~= steps);
    law_run_on_disk(run, disk, why, fuel);
    let (after, listed, error) = steps_effect(steps, disk, why);
    assert(Seq::<ChangeView>::empty() + listed =~= listed);
}

/// An edited file is replaced by its edited text, and one that cannot be read fails the edit.
pub proof fn law_effect_of_modifying(
    uri: Seq<char>,
    edits: Seq<TextEdit>,
    path: Seq<u8>,
    error: conv::ConvErrorView,
    disk: Disk,
    why: Seq<char>,
)
    ensures
        ({
            let effect = step_effect(StepView::Modify { uri, edits }, disk, why);
            &&& conv::uri_path(uri) == Ok::<_, conv::ConvErrorView>(path) && disk.contains_key(path)
                ==> effect == (Effect::Made {
                disk: disk.insert(path, decode_utf8(text_edit::edited_bytes(disk[path], edits))),
                change: ChangeView { path, kind: KindView::Modified },
            })
            &&& conv::uri_path(uri) == Ok::<_, conv::ConvErrorView>(path)
                && !disk.contains_key(path) ==> effect == (Effect::Failed {
                error: EditErrorView::Read { path, reason: why },
            })
            &&& conv::uri_path(uri) == Err::<Seq<u8>, _>(error) ==> effect == (Effect::Failed {
                error: EditErrorView::Conv(error),
            })
        }),
{
}

/// A created file is empty. One that is there is replaced only where the step overwrites, and
/// else left alone where the step ignores it, or fails the edit.
pub proof fn law_effect_of_creating(
    uri: Seq<char>,
    overwrite: bool,
    ignore_if_exists: bool,
    path: Seq<u8>,
    disk: Disk,
    why: Seq<char>,
)
    requires
        conv::uri_path(uri) == Ok::<_, conv::ConvErrorView>(path),
    ensures
        ({
            let effect = step_effect(
                StepView::Create { uri, overwrite, ignore_if_exists },
                disk,
                why,
            );
            &&& !disk.contains_key(path) || overwrite ==> effect == (Effect::Made {
                disk: disk.insert(path, Seq::empty()),
                change: ChangeView { path, kind: KindView::Created },
            })
            &&& disk.contains_key(path) && !overwrite && ignore_if_exists ==> effect
                == Effect::Skipped
            &&& disk.contains_key(path) && !overwrite && !ignore_if_exists ==> effect
                == (Effect::Failed { error: EditErrorView::AlreadyExists { path } })
        }),
{
}

/// A renamed file stands at its new path with its text, and no longer at its old one. A target
/// that is there is replaced only where the step overwrites, and else the step is left out
/// where it ignores the target, or fails the edit.
pub proof fn law_effect_of_renaming(
    old_uri: Seq<char>,
    new_uri: Seq<char>,
    overwrite: bool,
    ignore_if_exists: bool,
    from: Seq<u8>,
    to: Seq<u8>,
    disk: Disk,
    why: Seq<char>,
)
    requires
        conv::uri_path(old_uri) == Ok::<_, conv::ConvErrorView>(from),
        conv::uri_path(new_uri) == Ok::<_, conv::ConvErrorView>(to),
    ensures
        ({
            let effect = step_effect(
                StepView::Rename { old_uri, new_uri, overwrite, ignore_if_exists },
                disk,
                why,
            );
            let free = !disk.contains_key(to) || overwrite;
            &&& free && disk.contains_key(from) ==> effect == (Effect::Made {
                disk: disk.remove(from).insert(to, disk[from]),
                change: ChangeView { path: to, kind: KindView::Renamed { from } },
            })
            &&& free && !disk.contains_key(from) ==> effect == (Effect::Failed {
                error: EditErrorView::Rename { from, to, reason: why },
            })
            &&& !free && ignore_if_exists ==> effect == Effect::Skipped
            &&& !free && !ignore_if_exists ==> effect == (Effect::Failed {
                error: EditErrorView::RenameTargetExists { path: to },
            })
        }),
{
}

/// A deleted file is gone. One that is not there is left out where the step ignores that, or
/// fails the edit.
pub proof fn law_effect_of_deleting(
    uri: Seq<char>,
    ignore_if_not_exists: bool,
    path: Seq<u8>,
    disk: Disk,
    why: Seq<char>,
)
    requires
        conv::uri_path(uri) == Ok::<_, conv::ConvErrorView>(path),
    ensures
        ({
            let effect = step_effect(StepView::Delete { uri, ignore_if_not_exists }, disk, why);
            &&& disk.contains_key(path) ==> effect == (Effect::Made {
                disk: disk.remove(path),
                change: ChangeView { path, kind: KindView::Deleted },
            })
            &&& !disk.contains_key(path) && ignore_if_not_exists ==> effect == Effect::Skipped
            &&& !disk.contains_key(path) && !ignore_if_not_exists ==> effect == (Effect::Failed {
                error: EditErrorView::DeleteTargetMissing { path },
            })
        }),
{
}

/// A URI that names no path fails a step before anything is done for it.
pub proof fn law_unreadable_uri_fails(
    run: RunView,
    uri: Seq<char>,
    other: Seq<char>,
    path: Seq<u8>,
    edits: Seq<TextEdit>,
    overwrite: bool,
    ignore: bool,
    error: conv::ConvErrorView,
)
    requires
        0 <= run.next < run.steps.len(),
        conv::uri_path(uri) == Err::<Seq<u8>, _>(error),
        conv::uri_path(other) == Ok::<_, conv::ConvErrorView>(path),
        run.steps[run.next] == (StepView::Modify { uri, edits }) || run.steps[run.next] == (
        StepView::Create { uri, overwrite, ignore_if_exists: ignore }) || run.steps[run.next] == (
        StepView::Rename { old_uri: uri, new_uri: other, overwrite, ignore_if_exists: ignore })
            || run.steps[run.next] == (StepView::Rename {
            old_uri: other,
            new_uri: uri,
            overwrite,
            ignore_if_exists: ignore,
        }) || run.steps[run.next] == (StepView::Delete { uri, ignore_if_not_exists: ignore }),
    ensures
        begun(run).0.phase is Over,
        begun(run).0.applied == run.applied,
        begun(run).1 == ActionView::Fail(EditErrorView::Conv(error)),
{
}

/// An action that fails ends the run with an error that names the action, its path and the
/// reason. The changes made before stay listed, and no other is.
pub proof fn law_failed_action_ends_the_run(
    run: RunView,
    path: Seq<u8>,
    other: Seq<u8>,
    reason: Seq<char>,
)
    ensures
        ({
            let (after, action) = resumed(run, ReplyView::Failed(reason));
            let ends_with = |error: EditErrorView|
                after.phase is Over && after.applied == run.applied && action == ActionView::Fail(
                    error,
                );
            &&& run.phase == (PhaseView::Reading { path }) ==> ends_with(
                EditErrorView::Read { path, reason },
            )
            &&& run.phase == (PhaseView::Writing { path }) ==> ends_with(
                EditErrorView::Write { path, reason },
            )
            &&& run.phase == (PhaseView::CreatingDirectories { path: other, directory: path })
                ==> ends_with(EditErrorView::CreateDirectory { path, reason })
            &&& run.phase == (PhaseView::Creating { path }) ==> ends_with(
                EditErrorView::Create { path, reason },
            )
            &&& run.phase == (PhaseView::Renaming { from: other, to: path }) ==> ends_with(
                EditErrorView::Rename { from: other, to: path, reason },
            )
            &&& run.phase == (PhaseView::Removing { path }) ==> ends_with(
                EditErrorView::Delete { path, reason },
            )
        }),
{
}

/// A change that was made is listed behind those made before, and the run is at the next step.
pub proof fn law_made_change_is_listed(run: RunView, path: Seq<u8>, other: Seq<u8>)
    ensures
        ({
            let after = resumed(run, ReplyView::Done).0;
            let lists = |change: ChangeView|
                after.applied == run.applied.push(change) && after.next == run.next + 1
                    && after.steps == run.steps;
            &&& run.phase == (PhaseView::Writing { path }) ==> lists(
                ChangeView { path, kind: KindView::Modified },
            )
            &&& run.phase == (PhaseView::Creating { path }) ==> lists(
                ChangeView { path, kind: KindView::Created },
            )
            &&& run.phase == (PhaseView::Renaming { from: other, to: path }) ==> lists(
                ChangeView { path, kind: KindView::Renamed { from: other } },
            )
            &&& run.phase == (PhaseView::Removing { path }) ==> lists(
                ChangeView { path, kind: KindView::Deleted },
            )
        }),
{
}

/// The directories above a file to create are made first, where its path has some.
pub proof fn law_directories_come_first(
    run: RunView,
    path: Seq<u8>,
    directory: Seq<u8>,
    overwrite: bool,
    ignore_if_exists: bool,
)
    requires
        run.phase == (PhaseView::ProbingCreate { path, overwrite, ignore_if_exists }),
    ensures
        paths::parent_of(path) == Some(directory) && directory.len() > 0 ==> {
            let (making, first) = resumed(run, ReplyView::Found(false));
            &&& first == (ActionView::CreateDirectories { path: directory })
            &&& resumed(making, ReplyView::Done).1 == (ActionView::CreateEmpty { path })
        },
        paths::parent_of(path) is None || paths::parent_of(path) == Some(Seq::<u8>::empty())
            ==> resumed(run, ReplyView::Found(false)).1 == (ActionView::CreateEmpty { path }),
{
}

/// A reply is taken only where it answers the action that the run waits for.
pub proof fn law_replies_that_fit(run: RunView, text: Seq<char>, reason: Seq<char>, found: bool)
    ensures
        run.phase is Over ==> !expects(run, ReplyView::Done) && !expects(
            run,
            ReplyView::Found(found),
        ) && !expects(run, ReplyView::Text(text)) && !expects(run, ReplyView::Failed(reason)),
        run.phase is Reading ==> !expects(run, ReplyView::Done) && !expects(
            run,
            ReplyView::Found(found),
        ) && expects(run, ReplyView::Failed(reason)),
        run.phase is Reading && run.steps[run.next] is Modify ==> expects(
            run,
            ReplyView::Text(text),
        ) == text_edit::edits_apply(text, run.steps[run.next]->Modify_edits),
        run.phase is ProbingCreate || run.phase is ProbingRename || run.phase is ProbingDelete
            ==> expects(run, ReplyView::Found(found)) && !expects(run, ReplyView::Done)
            && !expects(run, ReplyView::Text(text)) && !expects(run, ReplyView::Failed(reason)),
        run.phase is Writing || run.phase is CreatingDirectories || run.phase is Creating
            || run.phase is Renaming || run.phase is Removing ==> expects(run, ReplyView::Done)
            && expects(run, ReplyView::Failed(reason)) && !expects(run, ReplyView::Text(text))
            && !expects(run, ReplyView::Found(found)),
{
}

/// The text of an error says what failed, on which path, and why.
pub proof fn law_error_texts(
    error: conv::ConvErrorView,
    path: Seq<u8>,
    other: Seq<u8>,
    reason: Seq<char>,
)
    ensures
        edit_error_text(EditErrorView::Conv(error)) == conv::conv_error_text(error),
        edit_error_text(EditErrorView::Read { path, reason }) == "failed to read "@ + paths::shown(
            path,
        ) + ": "@ + reason,
        edit_error_text(EditErrorView::Write { path, reason }) == "failed to write "@
            + paths::shown(path) + ": "@ + reason,
        edit_error_text(EditErrorView::AlreadyExists { path }) == "file "@ + paths::shown(path)
            + " already exists; set overwrite to replace"@,
        edit_error_text(EditErrorView::CreateDirectory { path, reason })
            == "failed to create directory "@ + paths::shown(path) + ": "@ + reason,
        edit_error_text(EditErrorView::Create { path, reason }) == "failed to create "@
            + paths::shown(path) + ": "@ + reason,
        edit_error_text(EditErrorView::RenameTargetExists { path }) == "rename target "@
            + paths::shown(path) + " already exists and overwrite is disabled"@,
        edit_error_text(EditErrorView::Rename { from: other, to: path, reason })
            == "failed to rename "@ + paths::shown(other) + " to "@ + paths::shown(path) + ": "@
            + reason,
        edit_error_text(EditErrorView::DeleteTargetMissing { path }) == "delete target "@
            + paths::shown(path) + " does not exist and ignore_if_not_exists is disabled"@,
        edit_error_text(EditErrorView::Delete { path, reason }) == "failed to delete "@
            + paths::shown(path) + ": "@ + reason,
{
}

/// A change is listed with its path and its kind.
pub proof fn law_change_view(change: AppliedChange, from: PathBuf, list: Seq<AppliedChange>, i: int)
    ensures
        change@.path == paths::path_bytes(change.path),
        change.kind is Modified <==> change@.kind is Modified,
        change.kind is Created <==> change@.kind is Created,
        change.kind is Deleted <==> change@.kind is Deleted,
        change.kind == (AppliedKind::Renamed { from }) ==> change@.kind == (KindView::Renamed {
            from: paths::path_bytes(from),
        }),
        changes_view(list).len() == list.len(),
        0 <= i < list.len() ==> changes_view(list)[i] == list[i]@,
{
}

/// A run begins at the first step of its edit, with no change made.
pub proof fn law_run_begins(edit: WorkspaceEdit, run: DiskRun, action: DiskAction)
    requires
        call_ensures(apply_to_disk, (edit,), (run, action)),
    ensures
        run_wf(run@),
        run@.steps == edit_steps(edit),
        run@.next == 0,
        run@.applied == Seq::<ChangeView>::empty(),
        edit_steps(edit).len() == 0 ==> action@ == ActionView::Finish && run@.phase is Over,
{
}

/// A run that begins at a step reads the file to edit, or sees whether the file to create, the
/// target of a renaming or the file to delete is there.
pub proof fn law_first_action(run: RunView, uri: Seq<char>, other: Seq<char>, path: Seq<u8>)
    requires
        0 <= run.next < run.steps.len(),
        conv::uri_path(uri) == Ok::<_, conv::ConvErrorView>(path),
        conv::uri_path(other) is Ok,
    ensures
        ({
            let step = run.steps[run.next];
            let action = begun(run).1;
            &&& step is Modify && step->Modify_uri == uri ==> action == (ActionView::Read { path })
            &&& step is Create && step->Create_uri == uri ==> action == (ActionView::Probe { path })
            &&& step is Rename && step->Rename_old_uri == other && step->Rename_new_uri == uri
                ==> action == (ActionView::Probe { path })
            &&& step is Delete && step->Delete_uri == uri ==> action == (ActionView::Probe { path })
        }),
{
}

/// The changes are handed out as the run has listed them.
pub proof fn law_changes_are_handed_out(
    run: DiskRun,
    listed: Vec<AppliedChange>,
    taken: Vec<AppliedChange>,
)
    requires
        call_ensures(DiskRun::applied, (&run,), &listed),
        call_ensures(DiskRun::into_applied, (run,), taken),
    ensures
        changes_view(listed@) == run@.applied,
        changes_view(taken@) == run@.applied,
{
}

/// Edits that can be applied give the edited text.
pub proof fn law_applied_edits(content: String, edits: &[TextEdit], r: Result<String, EditError>)
    requires
        text_edit::edits_apply(content@, edits@),
        call_ensures(apply_text_edits, (content, edits), r),
    ensures
        r is Ok,
        encode_utf8(r->Ok_0@) == text_edit::edited_bytes(content@, edits@),
{
}

/// An action, and the reply to it, hold what they are made of.
pub proof fn law_action_views(path: PathBuf, other: PathBuf, text: String, error: EditError, found: bool)
    ensures
        (DiskAction::Read { path })@ == (ActionView::Read { path: paths::path_bytes(path) }),
        (DiskAction::Write { path, text })@ == (ActionView::Write {
            path: paths::path_bytes(path),
            text: text@,
        }),
        (DiskAction::Probe { path })@ == (ActionView::Probe { path: paths::path_bytes(path) }),
        (DiskAction::CreateDirectories { path })@ == (ActionView::CreateDirectories {
            path: paths::path_bytes(path),
        }),
        (DiskAction::CreateEmpty { path })@ == (ActionView::CreateEmpty {
            path: paths::path_bytes(path),
        }),
        (DiskAction::Rename { from: path, to: other })@ == (ActionView::Rename {
            from: paths::path_bytes(path),
            to: paths::path_bytes(other),
        }),
        (DiskAction::Remove { path })@ == (ActionView::Remove { path: paths::path_bytes(path) }),
        DiskAction::Finish@ == ActionView::Finish,
        DiskAction::Fail(error)@ == ActionView::Fail(error@),
        DiskReply::Text(text)@ == ReplyView::Text(text@),
        DiskReply::Found(found)@ == ReplyView::Found(found),
        DiskReply::Done@ == ReplyView::Done,
        DiskReply::Failed(text)@ == ReplyView::Failed(text@),
{
}

/// A step, and a list of steps, hold what they are made of.
pub proof fn law_step_views(
    uri: String,
    other: String,
    edits: Vec<TextEdit>,
    overwrite: bool,
    ignore: bool,
    list: Seq<EditStep>,
    i: int,
)
    ensures
        (EditStep::Modify { uri, edits })@ == (StepView::Modify { uri: uri@, edits: edits@ }),
        (EditStep::Create { uri, overwrite, ignore_if_exists: ignore })@ == (StepView::Create {
            uri: uri@,
            overwrite,
            ignore_if_exists: ignore,
        }),
        (EditStep::Rename {
            old_uri: uri,
            new_uri: other,
            overwrite,
            ignore_if_exists: ignore,
        })@ == (StepView::Rename {
            old_uri: uri@,
            new_uri: other@,
            overwrite,
            ignore_if_exists: ignore,
        }),
        (EditStep::Delete { uri, ignore_if_not_exists: ignore })@ == (StepView::Delete {
            uri: uri@,
            ignore_if_not_exists: ignore,
        }),
        steps_view(list).len() == list.len(),
        0 <= i < list.len() ==> steps_view(list)[i] == list[i]@,
{
}

/// An error holds what it is made of.
pub proof fn law_error_views(error: ConvError, path: PathBuf, other: PathBuf, reason: String)
    ensures
        EditError::Conv(error)@ == EditErrorView::Conv(error@),
        (EditError::Read { path, reason })@ == (EditErrorView::Read {
            path: paths::path_bytes(path),
            reason: reason@,
        }),
        (EditError::Write { path, reason })@ == (EditErrorView::Write {
            path: paths::path_bytes(path),
            reason: reason@,
        }),
        (EditError::AlreadyExists { path })@ == (EditErrorView::AlreadyExists {
            path: paths::path_bytes(path),
        }),
        (EditError::CreateDirectory { path, reason })@ == (EditErrorView::CreateDirectory {
            path: paths::path_bytes(path),
            reason: reason@,
        }),
        (EditError::Create { path, reason })@ == (EditErrorView::Create {
            path: paths::path_bytes(path),
            reason: reason@,
        }),
        (EditError::RenameTargetExists { path })@ == (EditErrorView::RenameTargetExists {
            path: paths::path_bytes(path),
        }),
        (EditError::Rename { from: path, to: other, reason })@ == (EditErrorView::Rename {
            from: paths::path_bytes(path),
            to: paths::path_bytes(other),
            reason: reason@,
        }),
        (EditError::DeleteTargetMissing { path })@ == (EditErrorView::DeleteTargetMissing {
            path: paths::path_bytes(path),
        }),
        (EditError::Delete { path, reason })@ == (EditErrorView::Delete {
            path: paths::path_bytes(path),
            reason: reason@,
        }),
{
}

} // verus!
