//! Unix paths.
//!
//! A path is a sequence of bytes with `/` between its components; it need not be text.

use crate::encoding::text_of_bytes;
use std::path::PathBuf;
use vstd::prelude::*;
use vstd::slice::slice_subrange;
use vstd::utf8::*;

verus! {

/// The byte between two components.
pub const SLASH: u8 = 0x2f;

/// The byte of a dot.
pub const DOT: u8 = 0x2e;

// ---- the path type ----

/// `std::path::PathBuf`: an outside type. Its bytes are named by [`path_bytes`].
#[verifier::external_type_specification]
#[verifier::external_body]
pub struct ExPathBuf(PathBuf);

/// The bytes of a path.
pub uninterp spec fn path_bytes(path: PathBuf) -> Seq<u8>;

/// What `Path::display` shows of a path that is no text.
pub uninterp spec fn displayed(path: Seq<u8>) -> Seq<char>;

/// What `String::from_utf8_lossy` makes of bytes that are no text.
pub uninterp spec fn patched(bytes: Seq<u8>) -> Seq<char>;

/// A path as it is shown: the text that it is, where it is one.
pub open spec fn shown(path: Seq<u8>) -> Seq<char> {
    if valid_utf8(path) {
        decode_utf8(path)
    } else {
        displayed(path)
    }
}

/// Bytes as text: the text that they are, where they are one.
pub open spec fn lossy_text(bytes: Seq<u8>) -> Seq<char> {
    if valid_utf8(bytes) {
        decode_utf8(bytes)
    } else {
        patched(bytes)
    }
}

/// The directory above a path.
pub uninterp spec fn parent_of(path: Seq<u8>) -> Option<Seq<u8>>;

/// The bytes of the paths in a list.
pub open spec fn paths_bytes(list: Seq<PathBuf>) -> Seq<Seq<u8>> {
    Seq::new(list.len(), |i: int| path_bytes(list[i]))
}

/// The bytes of an optional path.
pub open spec fn optional_bytes(path: Option<PathBuf>) -> Option<Seq<u8>> {
    match path {
        Some(path) => Some(path_bytes(path)),
        None => None,
    }
}

/// `OsStr::as_encoded_bytes` on a path: its bytes.
#[verifier::external_body]
pub(crate) fn bytes_of(path: &PathBuf) -> (r: &[u8])
    ensures
        r@ == path_bytes(*path),
{
    path.as_os_str().as_encoded_bytes()
}

/// `Clone` of `PathBuf`: the same path.
pub assume_specification[ <PathBuf as Clone>::clone ](path: &PathBuf) -> (r: PathBuf)
    ensures
        path_bytes(r) == path_bytes(*path),
;

/// `Path::display`: the text that the path is, where it is one; what else it shows depends on
/// the path alone.
#[verifier::external_body]
pub(crate) fn display(path: &PathBuf) -> (r: String)
    ensures
        r@ == (if valid_utf8(path_bytes(*path)) {
            decode_utf8(path_bytes(*path))
        } else {
            displayed(path_bytes(*path))
        }),
{
    path.display().to_string()
}

/// `String::from_utf8_lossy`: the text that the bytes are, where they are one; what else it
/// gives depends on the bytes alone.
#[verifier::external_body]
fn lossy(bytes: &[u8]) -> (r: String)
    ensures
        r@ == (if valid_utf8(bytes@) {
            decode_utf8(bytes@)
        } else {
            patched(bytes@)
        }),
{
    String::from_utf8_lossy(bytes).to_string()
}

/// `Path::parent`: the path without its last component, which is a prefix of its bytes. The
/// root and the empty path have none. How the prefix ends, where slashes are repeated, depends
/// on the path alone.
#[verifier::external_body]
pub(crate) fn parent_path(path: &PathBuf) -> (r: Option<PathBuf>)
    ensures
        optional_bytes(r) == parent_of(path_bytes(*path)),
        is_parent(path_bytes(*path), optional_bytes(r)),
{
    path.parent().map(|parent| parent.to_path_buf())
}

// ---- components ----

/// The place of the first `/`, or the length where there is none.
pub open spec fn first_slash(path: Seq<u8>) -> nat
    decreases path.len(),
{
    if path.len() == 0 || path[0] == SLASH {
        0
    } else {
        1 + first_slash(path.drop_first())
    }
}

/// The names between the slashes of a path. Repeated slashes and `.` count for nothing.
pub open spec fn names(path: Seq<u8>) -> Seq<Seq<u8>>
    decreases path.len(),
{
    if path.len() == 0 {
        Seq::empty()
    } else {
        let k = first_slash(path) as int;
        let name = path.take(k);
        let rest = if k < path.len() {
            names(path.skip(k + 1))
        } else {
            Seq::empty()
        };
        if name.len() == 0 || name == seq![DOT] {
            rest
        } else {
            seq![name] + rest
        }
    }
}

/// The components of a path: its root, where it is absolute, and its names. A `.` counts
/// at the start of a relative path only.
pub open spec fn components(path: Seq<u8>) -> Seq<Seq<u8>> {
    if path.len() > 0 && path[0] == SLASH {
        seq![seq![SLASH]] + names(path)
    } else if path.take(first_slash(path) as int) == seq![DOT] {
        seq![seq![DOT]] + names(path)
    } else {
        names(path)
    }
}

/// Two paths that lead the same way.
pub open spec fn same_path(a: Seq<u8>, b: Seq<u8>) -> bool {
    components(a) == components(b)
}

/// `root` is `file`, or one of the directories above it.
pub open spec fn contains_path(root: Seq<u8>, file: Seq<u8>) -> bool {
    components(root).is_prefix_of(components(file))
}

proof fn lemma_first_slash(path: Seq<u8>)
    ensures
        first_slash(path) <= path.len(),
        first_slash(path) < path.len() ==> path[first_slash(path) as int] == SLASH,
        forall|i: int| 0 <= i < first_slash(path) ==> path[i] != SLASH,
    decreases path.len(),
{
    if path.len() > 0 && path[0] != SLASH {
        let tail = path.drop_first();
        lemma_first_slash(tail);
        assert forall|i: int| 0 <= i < first_slash(path) implies path[i] != SLASH by {
            if i > 0 {
                assert(tail[i - 1] == path[i]);
            }
        }
    }
}

proof fn lemma_first_slash_at(path: Seq<u8>, k: int)
    requires
        0 <= k <= path.len(),
        k < path.len() ==> path[k] == SLASH,
        forall|i: int| 0 <= i < k ==> path[i] != SLASH,
    ensures
        first_slash(path) == k,
{
    lemma_first_slash(path);
    let f = first_slash(path) as int;
    if f < k {
        assert(path[f] != SLASH);
    } else if k < f {
        assert(path[k] != SLASH);
    }
}

/// The byte strings in a list.
pub open spec fn pieces(list: Seq<Vec<u8>>) -> Seq<Seq<u8>> {
    Seq::new(list.len(), |i: int| list[i]@)
}

/// The bytes from `from` to `to`.
fn piece(bytes: &[u8], from: usize, to: usize) -> (r: Vec<u8>)
    requires
        from <= to <= bytes@.len(),
    ensures
        r@ == bytes@.subrange(from as int, to as int),
{
    let mut out: Vec<u8> = Vec::new();
    let mut i: usize = from;
    while i < to
        invariant
            from <= i <= to <= bytes@.len(),
            out@ == bytes@.subrange(from as int, i as int),
        decreases to - i,
    {
        out.push(bytes[i]);
        i = i + 1;
    }
    out
}

fn same_bytes(a: &Vec<u8>, b: &Vec<u8>) -> (r: bool)
    ensures
        r == (a@ == b@),
{
    if a.len() != b.len() {
        return false;
    }
    let mut i: usize = 0;
    while i < a.len()
        invariant
            i <= a@.len() == b@.len(),
            forall|j: int| 0 <= j < i ==> a@[j] == b@[j],
        decreases a.len() - i,
    {
        if a[i] != b[i] {
            return false;
        }
        i = i + 1;
    }
    assert(a@ =~= b@);
    true
}

/// The components of `path`.
pub fn components_of(path: &PathBuf) -> (r: Vec<Vec<u8>>)
    ensures
        pieces(r@) == components(path_bytes(*path)),
{
    let bytes = bytes_of(path);
    let ghost all = path_bytes(*path);
    let mut out: Vec<Vec<u8>> = Vec::new();
    let n: usize = bytes.len();
    let mut k: usize = 0;
    while k < n && bytes[k] != SLASH
        invariant
            bytes@ == all,
            n == all.len(),
            k <= n,
            forall|i: int| 0 <= i < k ==> all[i] != SLASH,
        decreases n - k,
    {
        k = k + 1;
    }
    proof {
        lemma_first_slash_at(all, k as int);
    }
    if n > 0 && bytes[0] == SLASH {
        out.push(piece(bytes, 0, 1));
        assert(all.subrange(0, 1) == seq![SLASH]);
    } else if k == 1 && bytes[0] == DOT {
        out.push(piece(bytes, 0, 1));
        assert(all.subrange(0, 1) == seq![DOT]);
        assert(all.take(1) == seq![DOT]);
    } else {
        assert(all.take(k as int) != seq![DOT]) by {
            if all.take(k as int) == seq![DOT] {
                assert(all.take(k as int).len() == seq![DOT].len());
                assert(all.take(k as int)[0] == seq![DOT][0]);
                assert(all[0] == DOT);
            }
        }
    }
    let ghost first = pieces(out@);
    assert(components(all) == first + names(all));
    let mut i: usize = 0;
    assert(all.skip(0) == all);
    while i < n
        invariant
            bytes@ == all,
            n == all.len(),
            i <= n,
            components(all) == pieces(out@) + names(all.skip(i as int)),
        decreases n - i,
    {
        let ghost rest = all.skip(i as int);
        let mut j: usize = i;
        while j < n && bytes[j] != SLASH
            invariant
                bytes@ == all,
                n == all.len(),
                i <= j <= n,
                forall|m: int| i <= m < j ==> all[m] != SLASH,
            decreases n - j,
        {
            j = j + 1;
        }
        proof {
            assert forall|m: int| 0 <= m < j - i implies rest[m] != SLASH by {
                assert(rest[m] == all[i + m]);
            }
            lemma_first_slash_at(rest, j - i);
            assert(rest.take(j - i) == all.subrange(i as int, j as int));
            if j < n {
                assert(rest.skip(j - i + 1) == all.skip(j + 1));
            }
        }
        let ghost name = all.subrange(i as int, j as int);
        let ghost after = if j < n {
            names(all.skip(j + 1))
        } else {
            Seq::empty()
        };
        if j == i || (j == i + 1 && bytes[i] == DOT) {
            assert(name.len() == 0 || name == seq![DOT]);
        } else {
            assert(name.len() > 0);
            assert(name != seq![DOT]) by {
                if name == seq![DOT] {
                    assert(name[0] == DOT);
                }
            }
            let ghost before = pieces(out@);
            out.push(piece(bytes, i, j));
            assert(pieces(out@) == before + seq![name]);
            assert(before + (seq![name] + after) == (before + seq![name]) + after);
        }
        assert(components(all) == pieces(out@) + after);
        if j < n {
            i = j + 1;
        } else {
            i = n;
            assert(all.skip(n as int).len() == 0);
        }
    }
    assert(all.skip(n as int).len() == 0);
    assert(pieces(out@) + names(all.skip(n as int)) == pieces(out@));
    out
}

/// Whether the first list of texts begins the second.
fn begins(a: &Vec<Vec<u8>>, b: &Vec<Vec<u8>>) -> (r: bool)
    ensures
        r == pieces(a@).is_prefix_of(pieces(b@)),
{
    if a.len() > b.len() {
        return false;
    }
    let mut i: usize = 0;
    while i < a.len()
        invariant
            i <= a@.len() <= b@.len(),
            forall|j: int| 0 <= j < i ==> a@[j]@ == b@[j]@,
        decreases a.len() - i,
    {
        if !same_bytes(&a[i], &b[i]) {
            assert(pieces(a@)[i as int] != pieces(b@).subrange(
                0,
                a@.len() as int,
            )[i as int]);
            return false;
        }
        i = i + 1;
    }
    assert(pieces(a@) =~= pieces(b@).subrange(0, a@.len() as int));
    true
}

/// Whether `root` is `file`, or one of the directories above it.
pub fn path_contains(root: &PathBuf, file: &PathBuf) -> (r: bool)
    ensures
        r == contains_path(path_bytes(*root), path_bytes(*file)),
{
    let a = components_of(root);
    let b = components_of(file);
    begins(&a, &b)
}

/// Whether two paths lead the same way.
pub fn paths_equal(a: &PathBuf, b: &PathBuf) -> (r: bool)
    ensures
        r == same_path(path_bytes(*a), path_bytes(*b)),
{
    let x = components_of(a);
    let y = components_of(b);
    if x.len() != y.len() {
        assert(pieces(x@).len() != pieces(y@).len());
        return false;
    }
    let r = begins(&x, &y);
    assert(r ==> pieces(x@) =~= pieces(y@)) by {
        if r {
            assert(pieces(y@).subrange(0, x@.len() as int) =~= pieces(y@));
        }
    }
    r
}

/// `parent` is a prefix of `path` with all its components but the last. The root and the empty
/// path have none.
pub open spec fn is_parent(path: Seq<u8>, parent: Option<Seq<u8>>) -> bool {
    if components(path).len() == 0 || components(path) == seq![seq![SLASH]] {
        parent is None
    } else {
        parent matches Some(p) && p.is_prefix_of(path) && components(p) == components(
            path,
        ).drop_last()
    }
}

// ---- names ----

/// The name of the file or directory that a path leads to. A path that ends in its root,
/// in `.` or in `..` has none.
pub open spec fn file_name(path: Seq<u8>) -> Option<Seq<u8>> {
    let parts = components(path);
    if parts.len() == 0 || parts.last() == seq![SLASH] || parts.last() == seq![DOT] || parts.last()
        == seq![DOT, DOT] {
        None
    } else {
        Some(parts.last())
    }
}

/// The place of the last dot of a name, or -1 where it has none.
pub open spec fn last_dot(name: Seq<u8>) -> int
    decreases name.len(),
{
    if name.len() == 0 {
        -1
    } else if name.last() == DOT {
        name.len() - 1
    } else {
        last_dot(name.drop_last())
    }
}

/// What follows the last dot of the file name, unless that dot begins the name.
pub open spec fn extension(path: Seq<u8>) -> Option<Seq<u8>> {
    match file_name(path) {
        Some(name) => if last_dot(name) > 0 {
            Some(name.skip(last_dot(name) + 1))
        } else {
            None
        },
        None => None,
    }
}

/// What [`file_name`] gives.
fn name_of(path: &PathBuf) -> (r: Option<Vec<u8>>)
    ensures
        (match r {
            Some(name) => Some(name@),
            None => None,
        }) == file_name(path_bytes(*path)),
{
    let mut parts = components_of(path);
    let ghost all = pieces(parts@);
    match parts.pop() {
        None => None,
        Some(name) => {
            assert(all.last() == name@);
            let n: usize = name.len();
            if n == 1 && (name[0] == SLASH || name[0] == DOT) || n == 2 && name[0] == DOT && name[1]
                == DOT {
                assert(name@ == seq![SLASH] || name@ == seq![DOT] || name@ == seq![DOT, DOT]);
                None
            } else {
                assert(name@ != seq![SLASH] && name@ != seq![DOT] && name@ != seq![DOT, DOT]) by {
                    assert(seq![SLASH][0] == SLASH && seq![DOT][0] == DOT);
                    assert(seq![DOT, DOT][0] == DOT && seq![DOT, DOT][1] == DOT);
                }
                Some(name)
            }
        },
    }
}

/// The name of the file or directory that `path` leads to, as text.
pub fn file_name_of(path: &PathBuf) -> (r: Option<String>)
    ensures
        match file_name(path_bytes(*path)) {
            Some(name) => r is Some && r->Some_0@ == lossy_text(name),
            None => r is None,
        },
{
    match name_of(path) {
        Some(name) => Some(lossy(name.as_slice())),
        None => None,
    }
}

/// The extension of a path, where it is text.
pub open spec fn extension_text(path: Seq<u8>) -> Option<Seq<char>> {
    match extension(path) {
        Some(ext) => if valid_utf8(ext) {
            Some(decode_utf8(ext))
        } else {
            None
        },
        None => None,
    }
}

/// What follows the last dot of the file name of `path`, where it is text.
pub fn extension_of(path: &PathBuf) -> (r: Option<String>)
    ensures
        (match r {
            Some(ext) => Some(ext@),
            None => None,
        }) == extension_text(path_bytes(*path)),
{
    let name = match name_of(path) {
        Some(name) => name,
        None => {
            return None;
        },
    };
    let ghost all = name@;
    let mut i: usize = name.len();
    assert(all.take(i as int) == all);
    while i > 0 && name[i - 1] != DOT
        invariant
            name@ == all,
            i <= all.len(),
            last_dot(all) == last_dot(all.take(i as int)),
        decreases i,
    {
        assert(all.take(i as int).drop_last() == all.take(i - 1));
        i = i - 1;
    }
    if i <= 1 {
        return None;
    }
    assert(all.take(i as int).last() == DOT);
    let ext = slice_subrange(name.as_slice(), i, name.len());
    assert(ext@ == all.skip(i as int));
    match text_of_bytes(ext) {
        Ok(text) => Some(text.to_string()),
        Err(_) => None,
    }
}

// ---- canonical paths ----

/// Each of these names behind a slash.
pub open spec fn spelled(names: Seq<Seq<u8>>) -> Seq<u8>
    decreases names.len(),
{
    if names.len() == 0 {
        Seq::empty()
    } else {
        spelled(names.drop_last()) + seq![SLASH] + names.last()
    }
}

/// An absolute path in its plainest spelling: one slash before each name, and none behind the
/// last, but for the root itself.
pub open spec fn is_canonical(path: Seq<u8>) -> bool {
    let parts = components(path);
    &&& parts.len() > 0
    &&& parts[0] == seq![SLASH]
    &&& path == (if parts.len() == 1 {
        seq![SLASH]
    } else {
        spelled(parts.drop_first())
    })
}

/// No name is empty or has a slash.
proof fn lemma_names(path: Seq<u8>)
    ensures
        forall|i: int|
            0 <= i < names(path).len() ==> (#[trigger] names(path)[i]).len() > 0
                && !names(path)[i].contains(SLASH),
    decreases path.len(),
{
    if path.len() > 0 {
        lemma_first_slash(path);
        let k = first_slash(path) as int;
        let name = path.take(k);
        let rest = if k < path.len() {
            names(path.skip(k + 1))
        } else {
            Seq::empty()
        };
        if k < path.len() {
            lemma_names(path.skip(k + 1));
        }
        assert forall|i: int| 0 <= i < names(path).len() implies (#[trigger] names(path)[i]).len()
            > 0 && !names(path)[i].contains(SLASH) by {
            if name.len() == 0 || name == seq![DOT] {
                assert(names(path)[i] == rest[i]);
            } else if i == 0 {
                assert(names(path)[i] == name);
                assert forall|j: int| 0 <= j < name.len() implies name[j] != SLASH by {
                    assert(name[j] == path[j]);
                }
            } else {
                assert(names(path)[i] == rest[i - 1]);
            }
        }
    }
}

/// More names make a longer text with the same beginning.
proof fn lemma_spelled_longer(names: Seq<Seq<u8>>, k: int)
    requires
        0 <= k <= names.len(),
    ensures
        spelled(names.take(k)).is_prefix_of(spelled(names)),
        k < names.len() ==> spelled(names.take(k)).len() < spelled(names).len(),
        k < names.len() && names.last().len() > 0 ==> spelled(names.take(k)).len() + 1 < spelled(
            names,
        ).len(),
    decreases names.len(),
{
    if k < names.len() {
        let init = names.drop_last();
        lemma_spelled_longer(init, k);
        assert(init.take(k) == names.take(k));
        let short = spelled(names.take(k));
        assert(spelled(names).subrange(0, short.len() as int) =~= spelled(init).subrange(
            0,
            short.len() as int,
        ));
    } else {
        assert(names.take(k) == names);
        assert(spelled(names).subrange(0, spelled(names).len() as int) =~= spelled(names));
    }
}

/// Of two canonical paths that lead to a file, the one with more names is longer.
proof fn lemma_canonical_order(a: Seq<u8>, b: Seq<u8>, file: Seq<u8>)
    requires
        is_canonical(a),
        is_canonical(b),
        contains_path(a, file),
        contains_path(b, file),
        components(a).len() < components(b).len(),
    ensures
        a.len() < b.len(),
{
    let x = components(a);
    let y = components(b);
    let all = components(file);
    let n = y.drop_first();
    assert(x =~= y.take(x.len() as int)) by {
        assert(x == all.subrange(0, x.len() as int));
        assert(y == all.subrange(0, y.len() as int));
    }
    assert(x.drop_first() =~= n.take(x.len() - 1));
    lemma_spelled_longer(n, x.len() - 1);
    lemma_names(b);
    assert(b[0] == SLASH) by {
        assert(y[0] == seq![SLASH]);
        lemma_rooted(b);
    }
    assert(names(b) =~= n);
    assert(n.last() == names(b)[n.len() - 1]);
    if x.len() == 1 {
        lemma_spelled_longer(n, 0);
        assert(a.is_prefix_of(b)) by {
            assert(b.subrange(0, 1) =~= seq![SLASH]);
        }
    }
}

/// A path whose first component is the root begins with a slash.
proof fn lemma_rooted(path: Seq<u8>)
    requires
        components(path).len() > 0,
        components(path)[0] == seq![SLASH],
    ensures
        path.len() > 0,
        path[0] == SLASH,
{
    if path.len() == 0 || path[0] != SLASH {
        lemma_first_slash(path);
        let k = first_slash(path) as int;
        if path.take(k) == seq![DOT] {
            assert(components(path)[0] == seq![DOT]);
            assert(seq![DOT][0] == seq![SLASH][0]);
        } else {
            lemma_names(path);
            assert(names(path)[0] == seq![SLASH]);
            assert(seq![SLASH][0] == SLASH);
            assert(names(path)[0].contains(SLASH));
        }
    }
}

/// Two canonical paths that lead to a file are the same where they are equally long.
pub proof fn law_canonical_paths_differ_in_length(a: Seq<u8>, b: Seq<u8>, file: Seq<u8>)
    requires
        is_canonical(a),
        is_canonical(b),
        contains_path(a, file),
        contains_path(b, file),
        a.len() == b.len(),
    ensures
        a == b,
{
    if components(a).len() < components(b).len() {
        lemma_canonical_order(a, b, file);
    } else if components(b).len() < components(a).len() {
        lemma_canonical_order(b, a, file);
    } else {
        assert(components(a) == components(b));
    }
}

// ---- laws ----

/// The text of a path, or of bytes, is the one that they encode, where they encode one.
pub proof fn law_shown(text: Seq<char>)
    ensures
        shown(encode_utf8(text)) == text,
        lossy_text(encode_utf8(text)) == text,
{
    encode_utf8_valid_utf8(text);
    encode_utf8_decode_utf8(text);
}

/// The bytes of a list of paths are those of each, in the order of the list.
pub proof fn law_paths_bytes(list: Seq<PathBuf>, pieces_list: Seq<Vec<u8>>, i: int)
    ensures
        paths_bytes(list).len() == list.len(),
        0 <= i < list.len() ==> paths_bytes(list)[i] == path_bytes(list[i]),
        pieces(pieces_list).len() == pieces_list.len(),
        0 <= i < pieces_list.len() ==> pieces(pieces_list)[i] == pieces_list[i]@,
{
}

/// Two paths lead the same way if and only if their components are the same, and one contains
/// the other if and only if its components begin the other's.
pub proof fn law_contains_by_components(root: Seq<u8>, file: Seq<u8>)
    ensures
        same_path(root, file) <==> components(root) == components(file),
        contains_path(root, file) <==> components(root).len() <= components(file).len()
            && forall|i: int|
            0 <= i < components(root).len() ==> #[trigger] components(root)[i] == components(
                file,
            )[i],
{
    let a = components(root);
    let b = components(file);
    if a.len() <= b.len() && (forall|i: int| 0 <= i < a.len() ==> #[trigger] a[i] == b[i]) {
        assert(a =~= b.subrange(0, a.len() as int));
    }
    if contains_path(root, file) {
        assert forall|i: int| 0 <= i < a.len() implies #[trigger] a[i] == b[i] by {
            assert(b.subrange(0, a.len() as int)[i] == b[i]);
        }
    }
}

/// The names of a path are those between its slashes: a name and a slash come before the names
/// of the rest, and an empty name or a dot counts for nothing.
pub proof fn law_names(name: Seq<u8>, rest: Seq<u8>)
    requires
        !name.contains(SLASH),
    ensures
        names(Seq::empty()) == Seq::<Seq<u8>>::empty(),
        name.len() == 0 || name == seq![DOT] ==> {
            &&& names(name) == Seq::<Seq<u8>>::empty()
            &&& names(name + seq![SLASH] + rest) == names(rest)
        },
        name.len() > 0 && name != seq![DOT] ==> {
            &&& names(name) == seq![name]
            &&& names(name + seq![SLASH] + rest) == seq![name] + names(rest)
        },
{
    let k = name.len() as int;
    assert forall|i: int| 0 <= i < k implies name[i] != SLASH by {
        if name[i] == SLASH {
            assert(name.contains(SLASH));
        }
    }
    let path = name + seq![SLASH] + rest;
    assert(path[k] == SLASH);
    assert forall|i: int| 0 <= i < k implies path[i] != SLASH by {
        assert(path[i] == name[i]);
    }
    lemma_first_slash_at(path, k);
    assert(path.take(k) =~= name);
    assert(path.skip(k + 1) =~= rest);
    if k > 0 {
        lemma_first_slash_at(name, k);
        assert(name.take(k) =~= name);
        assert(seq![name] + Seq::<Seq<u8>>::empty() =~= seq![name]);
    }
}

/// The components of a path are its names, behind its root where it begins with a slash, and
/// behind a dot where its first name is one.
pub proof fn law_components(rest: Seq<u8>)
    ensures
        components(seq![SLASH] + rest) == seq![seq![SLASH]] + names(rest),
        components(seq![DOT, SLASH] + rest) == seq![seq![DOT]] + names(rest),
        components(seq![DOT]) == seq![seq![DOT]],
        rest.len() == 0 || rest[0] != SLASH && rest[0] != DOT ==> components(rest) == names(rest),
{
    let empty = Seq::<u8>::empty();
    law_names(empty, rest);
    let absolute = seq![SLASH] + rest;
    assert(empty + seq![SLASH] + rest =~= absolute);
    assert(absolute[0] == SLASH);
    let dot = seq![DOT];
    assert(!dot.contains(SLASH));
    law_names(dot, rest);
    let dotted = seq![DOT, SLASH] + rest;
    assert(dot + seq![SLASH] + rest =~= dotted);
    lemma_first_slash_at(dotted, 1);
    assert(dotted.take(1) =~= dot);
    lemma_first_slash_at(dot, 1);
    assert(dot.take(1) =~= dot);
    assert(seq![dot] + Seq::<Seq<u8>>::empty() =~= seq![dot]);
    if rest.len() > 0 && rest[0] != DOT {
        let k = first_slash(rest) as int;
        lemma_first_slash(rest);
        if rest.take(k) == dot {
            assert(rest.take(k)[0] == dot[0]);
            assert(rest.take(k).len() == 1);
            assert(rest.take(k)[0] == rest[0]);
        }
    }
    if rest.len() == 0 {
        lemma_first_slash(rest);
        assert(rest.take(first_slash(rest) as int).len() == 0);
    }
}

proof fn lemma_names_of_child(dir: Seq<u8>, name: Seq<u8>)
    requires
        name.len() > 0,
        !name.contains(SLASH),
        name != seq![DOT],
    ensures
        names(dir + seq![SLASH] + name) == names(dir).push(name),
    decreases dir.len(),
{
    lemma_first_slash(dir);
    let k = first_slash(dir) as int;
    let first = dir.take(k);
    assert(!first.contains(SLASH));
    if k < dir.len() {
        let rest = dir.skip(k + 1);
        assert(dir =~= first + seq![SLASH] + rest);
        law_names(first, rest);
        lemma_names_of_child(rest, name);
        assert(dir + seq![SLASH] + name =~= first + seq![SLASH] + (rest + seq![SLASH] + name));
        law_names(first, rest + seq![SLASH] + name);
        assert(seq![first] + names(rest).push(name) =~= (seq![first] + names(rest)).push(name));
    } else {
        assert(first =~= dir);
        law_names(dir, name);
        law_names(name, Seq::empty());
        assert(seq![dir] + seq![name] =~= seq![dir].push(name));
        assert(seq![name] =~= Seq::<Seq<u8>>::empty().push(name));
    }
}

/// A name in a directory is one component more: the directory contains it, and the name is its
/// file name, but for the name of the directory above.
pub proof fn law_child(dir: Seq<u8>, name: Seq<u8>)
    requires
        dir.len() > 0,
        name.len() > 0,
        !name.contains(SLASH),
        name != seq![DOT],
    ensures
        components(dir + seq![SLASH] + name) == components(dir).push(name),
        contains_path(dir, dir + seq![SLASH] + name),
        !contains_path(dir + seq![SLASH] + name, dir),
        name != seq![DOT, DOT] ==> file_name(dir + seq![SLASH] + name) == Some(name),
        name == seq![DOT, DOT] ==> file_name(dir + seq![SLASH] + name) is None,
{
    let child = dir + seq![SLASH] + name;
    lemma_names_of_child(dir, name);
    lemma_first_slash(dir);
    let k = first_slash(dir) as int;
    assert forall|i: int| 0 <= i < k implies child[i] != SLASH by {
        assert(child[i] == dir[i]);
    }
    if k < dir.len() {
        assert(child[k] == dir[k]);
    }
    lemma_first_slash_at(child, k);
    assert(child.take(k) =~= dir.take(k));
    assert(child[0] == dir[0]);
    assert(components(child) =~= components(dir).push(name));
    assert(components(dir) =~= components(child).subrange(0, components(dir).len() as int));
    assert(name != seq![SLASH]) by {
        if name == seq![SLASH] {
            assert(name[0] == SLASH);
        }
    }
}

proof fn lemma_last_dot(name: Seq<u8>)
    ensures
        -1 <= last_dot(name) < name.len(),
        last_dot(name) >= 0 ==> name[last_dot(name)] == DOT,
        forall|i: int| last_dot(name) < i < name.len() ==> name[i] != DOT,
    decreases name.len(),
{
    if name.len() > 0 && name.last() != DOT {
        lemma_last_dot(name.drop_last());
        assert forall|i: int| last_dot(name) < i < name.len() implies name[i] != DOT by {
            if i < name.len() - 1 {
                assert(name.drop_last()[i] == name[i]);
            }
        }
    }
}

/// The extension of a file is what follows the last dot of its name. A name without a dot, or
/// with none but at its start, has no extension; neither has a path without a file name.
pub proof fn law_extension(path: Seq<u8>, stem: Seq<u8>, ext: Seq<u8>)
    requires
        !ext.contains(DOT),
    ensures
        file_name(path) == Some(stem + seq![DOT] + ext) && stem.len() > 0 ==> extension(path)
            == Some(ext),
        file_name(path) == Some(seq![DOT] + ext) ==> extension(path) is None,
        file_name(path) == Some(ext) ==> extension(path) is None,
        file_name(path) is None ==> extension(path) is None,
        extension(path) == Some(ext) && valid_utf8(ext) ==> extension_text(path) == Some(
            decode_utf8(ext),
        ),
        extension(path) == Some(ext) && !valid_utf8(ext) ==> extension_text(path) is None,
        extension(path) is None ==> extension_text(path) is None,
{
    assert forall|i: int| 0 <= i < ext.len() implies ext[i] != DOT by {
        if ext[i] == DOT {
            assert(ext.contains(DOT));
        }
    }
    let full = stem + seq![DOT] + ext;
    lemma_last_dot(full);
    let at = last_dot(full);
    assert(full[stem.len() as int] == DOT);
    if at > stem.len() {
        assert(full[at] == ext[at - stem.len() - 1]);
    }
    assert(at == stem.len());
    assert(full.skip(at + 1) =~= ext);
    let hidden = seq![DOT] + ext;
    lemma_last_dot(hidden);
    let d = last_dot(hidden);
    if d > 0 {
        assert(hidden[d] == ext[d - 1]);
    }
    lemma_last_dot(ext);
}

/// The file name of a path is its last component, unless that is the root, a dot or the
/// directory above; a path without components has none.
pub proof fn law_file_name(path: Seq<u8>, last: Seq<u8>)
    ensures
        components(path).len() == 0 ==> file_name(path) is None,
        components(path).len() > 0 && components(path).last() == last ==> {
            &&& last == seq![SLASH] || last == seq![DOT] || last == seq![DOT, DOT] ==> file_name(
                path,
            ) is None
            &&& last != seq![SLASH] && last != seq![DOT] && last != seq![DOT, DOT] ==> file_name(
                path,
            ) == Some(last)
        },
{
}

} // verus!
