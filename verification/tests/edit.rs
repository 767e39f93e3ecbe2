use lspranto::lsp::conv::{uri_from_path, uri_to_path};
use lspranto::lsp::edit::{
    apply_text_edits, apply_to_disk, one_of_to_text_edit, AppliedChange, AppliedKind, DiskAction,
    DiskReply,
};
use lspranto::lsp::text_edit::{pos_to_byte, try_text_edits};
use lspranto::lsp::types::{
    AnnotatedTextEdit, ChangeOperation, CreateFile, CreateFileOptions, DeleteFile,
    DeleteFileOptions, OrderedChanges, DocumentEdit, OneOf, Position, Range, RenameFile,
    RenameFileOptions, FileOperation, TextEdit, WorkspaceEdit,
};
use std::collections::BTreeMap;
use std::path::{Path, PathBuf};

/// A disk in memory: the text of each file.
type Disk = BTreeMap<PathBuf, String>;

fn disk_with(path: impl AsRef<Path>, text: &str) -> Disk {
    let mut disk = Disk::new();
    disk.insert(path.as_ref().to_path_buf(), text.to_string());
    disk
}

fn temp(name: &str) -> PathBuf {
    PathBuf::from(format!("/tmp/lspranto_edit_test_{name}"))
}

fn uri(path: impl AsRef<Path>) -> String {
    uri_from_path(&path.as_ref().to_path_buf()).unwrap()
}

/// Applies an edit to a disk; the directories that were asked for are listed too.
fn apply_listing(
    edit: WorkspaceEdit,
    disk: &mut Disk,
    directories: &mut Vec<PathBuf>,
) -> Result<Vec<AppliedChange>, String> {
    let missing = || DiskReply::Failed("not found".to_string());
    let (mut run, mut action) = apply_to_disk(edit);
    loop {
        let reply = match action {
            DiskAction::Read { path } => match disk.get(&path) {
                Some(text) => DiskReply::Text(text.clone()),
                None => missing(),
            },
            DiskAction::Write { path, text } => {
                disk.insert(path, text);
                DiskReply::Done
            }
            DiskAction::Probe { path } => DiskReply::Found(disk.contains_key(&path)),
            DiskAction::CreateDirectories { path } => {
                directories.push(path);
                DiskReply::Done
            }
            DiskAction::CreateEmpty { path } => {
                disk.insert(path, String::new());
                DiskReply::Done
            }
            DiskAction::Rename { from, to } => match disk.remove(&from) {
                Some(text) => {
                    disk.insert(to, text);
                    DiskReply::Done
                }
                None => missing(),
            },
            DiskAction::Remove { path } => match disk.remove(&path) {
                Some(_) => DiskReply::Done,
                None => missing(),
            },
            DiskAction::Finish => {
                return Ok(run.into_applied());
            }
            DiskAction::Fail(error) => return Err(error.message()),
        };
        assert!(run.can_resume(&reply));
        action = run.resume(reply);
    }
}

fn apply(edit: WorkspaceEdit, disk: &mut Disk) -> Result<Vec<AppliedChange>, String> {
    apply_listing(edit, disk, &mut Vec::new())
}

fn at(line: u32, character: u32) -> Position {
    Position { line, character }
}

fn edit(start: Position, end: Position, new_text: &str) -> TextEdit {
    TextEdit { range: Range { start, end }, new_text: new_text.to_string() }
}

fn operations(list: Vec<ChangeOperation>) -> WorkspaceEdit {
    WorkspaceEdit { changes: None, document_changes: Some(OrderedChanges::Operations(list)) }
}

fn create(path: impl AsRef<Path>, overwrite: Option<bool>, ignore_if_exists: Option<bool>) -> ChangeOperation {
    ChangeOperation::Op(FileOperation::Create(CreateFile {
        uri: uri(path),
        options: Some(CreateFileOptions { overwrite, ignore_if_exists }),
    }))
}

fn rename(
    from: impl AsRef<Path>,
    to: impl AsRef<Path>,
    overwrite: Option<bool>,
    ignore_if_exists: Option<bool>,
) -> ChangeOperation {
    ChangeOperation::Op(FileOperation::Rename(RenameFile {
        old_uri: uri(from),
        new_uri: uri(to),
        options: Some(RenameFileOptions { overwrite, ignore_if_exists }),
    }))
}

fn delete(path: impl AsRef<Path>, ignore_if_not_exists: Option<bool>) -> ChangeOperation {
    ChangeOperation::Op(FileOperation::Delete(DeleteFile {
        uri: uri(path),
        options: Some(DeleteFileOptions { recursive: None, ignore_if_not_exists }),
    }))
}

// ---- positions ----

#[test]
fn test_pos_to_byte_ascii() {
    let text = "hello\nworld\n";
    // (0,0) -> byte 0
    assert_eq!(pos_to_byte(text, 0, 0), 0);
    // (0,5) -> byte 5 (end of "hello")
    assert_eq!(pos_to_byte(text, 0, 5), 5);
    // (1,0) -> byte 6 (start of "world")
    assert_eq!(pos_to_byte(text, 1, 0), 6);
    // (1,5) -> byte 11 (end of "world")
    assert_eq!(pos_to_byte(text, 1, 5), 11);
}

#[test]
fn test_pos_to_byte_non_bmp() {
    // "😀" is 1 char but 2 UTF-16 code units and 4 bytes
    let text = "a😀b";
    assert_eq!(text.len(), 6);
    assert_eq!(text.chars().count(), 3);
    assert_eq!(text.encode_utf16().count(), 4); // a + 😀 + b

    // (0, 0) -> 'a' at byte 0
    assert_eq!(pos_to_byte(text, 0, 0), 0);
    // (0, 1) -> after 'a', at byte 1
    assert_eq!(pos_to_byte(text, 0, 1), 1);
    // (0, 2) -> start of '😀' at byte 1
    assert_eq!(pos_to_byte(text, 0, 2), 1);
    // (0, 3) -> after '😀' at byte 5
    assert_eq!(pos_to_byte(text, 0, 3), 5);
    // (0, 4) -> after 'b' at byte 6
    assert_eq!(pos_to_byte(text, 0, 4), 6);
}

#[test]
fn test_pos_to_byte_utf16_multibyte_chars() {
    // "é" is U+00E9, 1 char, 1 UTF-16 unit, 2 bytes
    let text = "aébc";
    // a = 1 byte, é = 2 bytes, b = 1 byte, c = 1 byte = 5 bytes total
    assert_eq!(text.len(), 5);
    // (0, 0) -> byte 0
    assert_eq!(pos_to_byte(text, 0, 0), 0);
    // (0, 1) -> after 'a', byte 1
    assert_eq!(pos_to_byte(text, 0, 1), 1);
    // (0, 2) -> after 'é' (é is 1 UTF-16 unit), byte 3
    assert_eq!(pos_to_byte(text, 0, 2), 3);
    // (0, 3) -> after 'b', byte 4
    assert_eq!(pos_to_byte(text, 0, 3), 4);
}

#[test]
fn test_pos_to_byte_clamp_to_end_of_line() {
    let text = "abc\n";
    // Requesting character 100 on line 0 should clamp to end of line (byte 3)
    assert_eq!(pos_to_byte(text, 0, 100), 3);
}

#[test]
fn test_pos_to_byte_clamp_to_end_of_file() {
    let text = "abc\ndef\n";
    // "abc\ndef\n" is 8 bytes. Requesting line 100 clamps to EOF (byte 8).
    assert_eq!(pos_to_byte(text, 100, 0), 8);
}

#[test]
fn positions_are_ordered_and_on_boundaries() {
    let text = "aé😀\n\r\nx";
    let mut last = 0;
    for line in 0..5 {
        for character in 0..7 {
            let byte = pos_to_byte(text, line, character);
            assert!(text.is_char_boundary(byte));
            assert!(last <= byte);
            last = byte;
        }
    }
    assert_eq!(pos_to_byte("", 0, 0), 0);
    assert_eq!(pos_to_byte("", u32::MAX, u32::MAX), 0);
    assert_eq!(pos_to_byte("a\r\nb", 0, 9), 2);
}

// ---- text edits ----

#[test]
fn test_apply_text_edits_ascii_multi_edit() {
    let content = "hello\nworld\n";
    let edits = vec![edit(at(0, 0), at(0, 5), "hi"), edit(at(1, 0), at(1, 5), "earth")];
    let result = apply_text_edits(content.to_string(), &edits).unwrap();
    assert_eq!(result, "hi\nearth\n");
}

#[test]
fn test_apply_text_edits_non_bmp_regression() {
    // Content with a non-BMP character (emoji)
    let content = "a😀world\n";
    // Insert "XYZ" right after the emoji
    let edits = vec![edit(at(0, 3), at(0, 3), "XYZ")];
    let result = apply_text_edits(content.to_string(), &edits).unwrap();
    assert_eq!(result, "a😀XYZworld\n");
}

#[test]
fn no_edits_leave_the_text() {
    assert_eq!(apply_text_edits("é\n".to_string(), &[]).unwrap(), "é\n");
}

#[test]
fn edits_may_be_listed_in_any_order() {
    let forward = vec![edit(at(0, 0), at(0, 1), "XX"), edit(at(0, 2), at(0, 3), "")];
    let backward = vec![edit(at(0, 2), at(0, 3), ""), edit(at(0, 0), at(0, 1), "XX")];
    assert_eq!(apply_text_edits("abcd".to_string(), &forward).unwrap(), "XXbd");
    assert_eq!(apply_text_edits("abcd".to_string(), &backward).unwrap(), "XXbd");
}

#[test]
fn insertions_at_one_place_go_before_each_other() {
    let edits = vec![edit(at(0, 1), at(0, 1), "1"), edit(at(0, 1), at(0, 1), "2")];
    assert_eq!(apply_text_edits("ab".to_string(), &edits).unwrap(), "a21b");
}

#[test]
fn edits_that_do_not_fit_are_refused() {
    let content = "abc".to_string();
    assert_eq!(try_text_edits(&content, &[edit(at(0, 2), at(0, 1), "x")]), None);
    assert_eq!(
        try_text_edits(&content, &[edit(at(0, 1), at(0, 2), "x")]),
        Some("axc".to_string()),
    );
}

#[test]
fn either_form_of_an_edit_is_an_edit() {
    let plain = one_of_to_text_edit(OneOf::Left(edit(at(1, 2), at(3, 4), "x")));
    assert_eq!((plain.range.start, plain.new_text.as_str()), (at(1, 2), "x"));
    let annotated = one_of_to_text_edit(OneOf::Right(AnnotatedTextEdit {
        text_edit: edit(at(5, 6), at(7, 8), "y"),
        annotation_id: "a".to_string(),
    }));
    assert_eq!((annotated.range.end, annotated.new_text.as_str()), (at(7, 8), "y"));
}

// ---- workspace edits ----

#[test]
fn test_apply_changes_legacy_form() {
    let path = temp("legacy_changes.txt");
    let mut disk = disk_with(&path, "hello world\n");
    let changes = vec![(uri(&path), vec![edit(at(0, 0), at(0, 5), "hi")])];
    let applied = apply(
        WorkspaceEdit { changes: Some(changes), document_changes: None },
        &mut disk,
    )
    .unwrap();
    assert_eq!(applied.len(), 1);
    assert_eq!(applied[0].path, path);
    assert!(matches!(applied[0].kind, AppliedKind::Modified));

    // Verify file content
    assert_eq!(disk[&path], "hi world\n");
}

#[test]
fn test_apply_document_changes_edits_form() {
    let path = temp("doc_edits.txt");
    let mut disk = disk_with(&path, "foo bar baz\n");
    let edits = vec![
        OneOf::Left(edit(at(0, 0), at(0, 3), "FOO")),
        OneOf::Right(AnnotatedTextEdit {
            text_edit: edit(at(0, 4), at(0, 7), "BAR"),
            annotation_id: "ann1".to_string(),
        }),
    ];
    let applied = apply(
        WorkspaceEdit {
            changes: None,
            document_changes: Some(OrderedChanges::Edits(vec![DocumentEdit { uri: uri(&path), edits }])),
        },
        &mut disk,
    )
    .unwrap();
    assert_eq!(applied.len(), 1);
    assert!(matches!(applied[0].kind, AppliedKind::Modified));
    assert_eq!(disk[&path], "FOO BAR baz\n");
}

#[test]
fn test_apply_create_file() {
    let path = Path::new("/tmp/lspranto_edit_test_create_new.txt");
    let mut disk = Disk::new();
    let mut directories = Vec::new();
    let applied =
        apply_listing(operations(vec![create(path, None, None)]), &mut disk, &mut directories)
            .unwrap();
    assert_eq!(applied.len(), 1);
    assert!(matches!(applied[0].kind, AppliedKind::Created));
    assert!(disk.contains_key(path));
    assert_eq!(disk[path], "");
    assert_eq!(directories, vec![PathBuf::from("/tmp")]);
}

#[test]
fn test_apply_rename_file() {
    let old_path = Path::new("/tmp/lspranto_edit_test_rename_old.txt");
    let new_path = Path::new("/tmp/lspranto_edit_test_rename_new.txt");
    let mut disk = disk_with(old_path, "rename me");
    let applied = apply(operations(vec![rename(old_path, new_path, None, None)]), &mut disk).unwrap();
    assert_eq!(applied.len(), 1);
    assert!(matches!(&applied[0].kind, AppliedKind::Renamed { from } if from == old_path));
    assert!(disk.contains_key(new_path));
    assert!(!disk.contains_key(old_path));
    assert_eq!(disk[new_path], "rename me");
}

#[test]
fn test_apply_delete_file() {
    let path = temp("delete_me.txt");
    let mut disk = disk_with(&path, "delete content\n");
    let applied = apply(operations(vec![delete(&path, None)]), &mut disk).unwrap();
    assert_eq!(applied.len(), 1);
    assert!(matches!(applied[0].kind, AppliedKind::Deleted));
    assert!(!disk.contains_key(&path));
}

#[test]
fn test_apply_create_file_ignore_if_exists() {
    let path = temp("skip_create.txt");
    let mut disk = disk_with(&path, "existing\n");
    let applied =
        apply(operations(vec![create(&path, Some(false), Some(true))]), &mut disk).unwrap();
    assert_eq!(applied.len(), 0); // skipped

    // Content unchanged
    assert_eq!(disk[&path], "existing\n");
}

#[test]
fn test_apply_create_file_overwrite() {
    let path = temp("overwrite_create.txt");
    let mut disk = disk_with(&path, "old content\n");
    let applied = apply(operations(vec![create(&path, Some(true), None)]), &mut disk).unwrap();
    assert_eq!(applied.len(), 1);
    assert!(matches!(applied[0].kind, AppliedKind::Created));
    assert!(disk.contains_key(&path));
    assert_eq!(disk[&path], "");
}

#[test]
fn overwrite_counts_before_ignore() {
    let mut disk = disk_with("/w/a", "old");
    let applied =
        apply(operations(vec![create("/w/a", Some(true), Some(true))]), &mut disk).unwrap();
    assert_eq!(applied.len(), 1);
    assert_eq!(disk[Path::new("/w/a")], "");

    let mut disk = disk_with("/w/a", "old");
    disk.insert(PathBuf::from("/w/b"), "new".to_string());
    let applied =
        apply(operations(vec![rename("/w/b", "/w/a", Some(true), Some(true))]), &mut disk).unwrap();
    assert_eq!(applied.len(), 1);
    assert_eq!(disk[Path::new("/w/a")], "new");
}

#[test]
fn steps_are_made_in_their_order() {
    let mut disk = Disk::new();
    let applied = apply(
        operations(vec![
            create("/w/a", None, None),
            ChangeOperation::Edit(DocumentEdit {
                uri: uri("/w/a"),
                edits: vec![OneOf::Left(edit(at(0, 0), at(0, 0), "text"))],
            }),
            rename("/w/a", "/w/b", None, None),
        ]),
        &mut disk,
    )
    .unwrap();
    let paths: Vec<&str> = applied.iter().map(|c| c.path.to_str().unwrap()).collect();
    assert_eq!(paths, vec!["/w/a", "/w/a", "/w/b"]);
    assert_eq!(disk, disk_with("/w/b", "text"));
}

#[test]
fn a_failure_ends_the_run_and_keeps_what_was_done() {
    let mut disk = disk_with("/w/a", "x");
    let error = apply(
        operations(vec![rename("/w/a", "/w/b", None, None), delete("/w/c", None), create("/w/d", None, None)]),
        &mut disk,
    )
    .err();
    assert_eq!(
        error,
        Some("delete target /w/c does not exist and ignore_if_not_exists is disabled".to_string()),
    );
    assert_eq!(disk, disk_with("/w/b", "x"));
}

#[test]
fn each_error_has_its_text() {
    let fails = |edit: WorkspaceEdit, disk: &mut Disk| apply(edit, disk).err().unwrap();
    let mut disk = disk_with("/w/a", "x");
    assert_eq!(
        fails(operations(vec![create("/w/a", None, None)]), &mut disk),
        "file /w/a already exists; set overwrite to replace",
    );
    assert_eq!(
        fails(operations(vec![rename("/w/b", "/w/a", None, None)]), &mut disk),
        "rename target /w/a already exists and overwrite is disabled",
    );
    assert_eq!(
        fails(operations(vec![rename("/w/b", "/w/c", None, None)]), &mut disk),
        "failed to rename /w/b to /w/c: not found",
    );
    assert_eq!(
        fails(
            WorkspaceEdit { changes: Some(vec![(uri("/w/z"), vec![])]), document_changes: None },
            &mut disk,
        ),
        "failed to read /w/z: not found",
    );
    assert_eq!(
        fails(
            WorkspaceEdit {
                changes: Some(vec![("http://x/".to_string(), vec![])]),
                document_changes: None,
            },
            &mut disk,
        ),
        "not a file uri: http://x/",
    );
    assert_eq!(apply(operations(vec![delete("/w/q", Some(true))]), &mut disk).unwrap().len(), 0);
    assert_eq!(
        apply(operations(vec![rename("/w/b", "/w/a", None, Some(true))]), &mut disk).unwrap().len(),
        0,
    );
    assert_eq!(disk, disk_with("/w/a", "x"));
}

#[test]
fn failures_of_the_disk_are_reported() {
    let fail = || DiskReply::Failed("no space".to_string());
    let text_of = |action: DiskAction| match action {
        DiskAction::Fail(error) => error.message(),
        _ => panic!("no failure"),
    };
    let change = WorkspaceEdit {
        changes: Some(vec![(uri("/w/a"), vec![])]),
        document_changes: None,
    };
    let (mut run, _) = apply_to_disk(change);
    run.resume(DiskReply::Text("x".to_string()));
    assert_eq!(text_of(run.resume(fail())), "failed to write /w/a: no space");

    let (mut run, _) = apply_to_disk(operations(vec![create("/w/a", None, None)]));
    run.resume(DiskReply::Found(false));
    assert_eq!(text_of(run.resume(fail())), "failed to create directory /w: no space");

    let (mut run, _) = apply_to_disk(operations(vec![create("/w/a", None, None)]));
    run.resume(DiskReply::Found(false));
    run.resume(DiskReply::Done);
    assert_eq!(text_of(run.resume(fail())), "failed to create /w/a: no space");

    let (mut run, _) = apply_to_disk(operations(vec![delete("/w/a", None)]));
    run.resume(DiskReply::Found(true));
    assert_eq!(text_of(run.resume(fail())), "failed to delete /w/a: no space");
}

#[test]
fn replies_that_do_not_fit_are_recognised() {
    let (run, _) = apply_to_disk(operations(vec![delete("/w/a", None)]));
    assert!(run.can_resume(&DiskReply::Found(true)));
    assert!(!run.can_resume(&DiskReply::Done));
    let (run, _) = apply_to_disk(WorkspaceEdit {
        changes: Some(vec![(uri("/w/a"), vec![edit(at(0, 2), at(0, 1), "x")])]),
        document_changes: None,
    });
    assert!(!run.can_resume(&DiskReply::Text("abc".to_string())));
    assert!(run.can_resume(&DiskReply::Failed("x".to_string())));
}

#[test]
fn operations_act_in_turn() {
    let first = || vec![create("/d/a", None, None), rename("/d/a", "/d/b", None, None)];
    let second = || vec![delete("/d/b", None), create("/d/c", None, None)];
    let paths = |list: &Vec<AppliedChange>| {
        list.iter().map(|c| c.path.clone()).collect::<Vec<PathBuf>>()
    };
    let mut whole = disk_with("/d/other", "kept");
    let mut parts = whole.clone();
    let all = apply(operations(first().into_iter().chain(second()).collect()), &mut whole).unwrap();
    let one = apply(operations(first()), &mut parts).unwrap();
    let two = apply(operations(second()), &mut parts).unwrap();
    assert_eq!(whole, parts);
    assert_eq!(paths(&all), [paths(&one), paths(&two)].concat());

    // A failure in the first part leaves the second undone.
    let failing = || vec![create("/d/x", None, None), delete("/d/missing", None)];
    let mut whole = disk_with("/d/other", "kept");
    let mut parts = whole.clone();
    let error = apply(operations(failing().into_iter().chain(first()).collect()), &mut whole);
    assert_eq!(error.unwrap_err(), apply(operations(failing()), &mut parts).unwrap_err());
    assert_eq!(whole, parts);
    assert!(whole.contains_key(Path::new("/d/x")) && !whole.contains_key(Path::new("/d/b")));
}

#[test]
fn other_files_stay() {
    let mut disk = disk_with("/d/other", "kept");
    disk.insert(PathBuf::from("/d/a"), "old".to_string());
    apply(operations(vec![rename("/d/a", "/d/b", None, None), delete("/d/b", None)]), &mut disk)
        .unwrap();
    assert_eq!(disk, disk_with("/d/other", "kept"));
    assert!(apply(operations(vec![delete("/d/missing", None)]), &mut disk).is_err());
    assert_eq!(disk, disk_with("/d/other", "kept"));
}

#[test]
fn an_empty_edit_does_nothing() {
    let mut disk = disk_with("/d/other", "kept");
    let nothing = WorkspaceEdit { changes: None, document_changes: None };
    assert!(apply(nothing, &mut disk).unwrap().is_empty());
    assert_eq!(disk, disk_with("/d/other", "kept"));
}

#[test]
fn paths_need_not_be_text() {
    let name = "file:///w/%FF.rs".to_string();
    let path = uri_to_path(&name).unwrap();
    assert_eq!(path.to_str(), None);
    let mut disk = disk_with(&path, "old");
    let changes = vec![(name.clone(), vec![edit(at(0, 0), at(0, 3), "new")])];
    let applied =
        apply(WorkspaceEdit { changes: Some(changes), document_changes: None }, &mut disk).unwrap();
    assert_eq!(applied[0].path, path);
    assert_eq!(disk, disk_with(&path, "new"));
    assert_eq!(uri_from_path(&path).unwrap(), name);
    let error = apply(operations(vec![create(&path, None, None)]), &mut disk).unwrap_err();
    assert_eq!(error, "file /w/\u{fffd}.rs already exists; set overwrite to replace");
}
