//! Positions in a text, and edits of a text.

use crate::encoding;
use crate::lsp::types::TextEdit;
use crate::strings::chars_of;
use vstd::prelude::*;
use vstd::utf8::*;

verus! {

/// Where line `line` of `text` begins, counted in characters; the end of the text where
/// there is no such line.
pub open spec fn line_begin(text: Seq<char>, line: nat) -> nat
    decreases text.len(),
{
    if line == 0 || text.len() == 0 {
        0
    } else {
        1 + line_begin(
            text.drop_first(),
            if text[0] == '\n' {
                (line - 1) as nat
            } else {
                line
            },
        )
    }
}

/// How many characters of the line that `rest` begins with lie before UTF-16 column
/// `character`. A column inside a character stands for that character's start, and one
/// past the line for the line's end.
pub open spec fn column_chars(rest: Seq<char>, character: nat) -> nat
    decreases rest.len(),
{
    if rest.len() == 0 || rest[0] == '\n' || character < encoding::utf16_width(rest[0]) {
        0
    } else {
        1 + column_chars(rest.drop_first(), (character - encoding::utf16_width(rest[0])) as nat)
    }
}

/// The place of a position in `text`, counted in characters.
pub open spec fn char_offset(text: Seq<char>, line: nat, character: nat) -> nat {
    line_begin(text, line) + column_chars(text.skip(line_begin(text, line) as int), character)
}

/// The place of a position in `text`, counted in bytes.
pub open spec fn byte_offset(text: Seq<char>, line: nat, character: nat) -> nat {
    encoding::byte_len(text.take(char_offset(text, line, character) as int))
}

proof fn lemma_line_begin_bound(text: Seq<char>, line: nat)
    ensures
        line_begin(text, line) <= text.len(),
    decreases text.len(),
{
    if line > 0 && text.len() > 0 {
        lemma_line_begin_bound(
            text.drop_first(),
            if text[0] == '\n' {
                (line - 1) as nat
            } else {
                line
            },
        );
    }
}

proof fn lemma_column_bound(rest: Seq<char>, character: nat)
    ensures
        column_chars(rest, character) <= rest.len(),
        forall|i: int| 0 <= i < column_chars(rest, character) ==> rest[i] != '\n',
    decreases rest.len(),
{
    if !(rest.len() == 0 || rest[0] == '\n' || character < encoding::utf16_width(rest[0])) {
        let tail = rest.drop_first();
        let left = (character - encoding::utf16_width(rest[0])) as nat;
        lemma_column_bound(tail, left);
        assert forall|i: int| 0 <= i < column_chars(rest, character) implies rest[i] != '\n' by {
            if i > 0 {
                assert(tail[i - 1] == rest[i]);
            }
        }
    }
}

/// Every position has its place in the text.
pub proof fn lemma_char_offset_bound(text: Seq<char>, line: nat, character: nat)
    ensures
        line_begin(text, line) <= char_offset(text, line, character) <= text.len(),
        byte_offset(text, line, character) <= encoding::byte_len(text),
{
    lemma_line_begin_bound(text, line);
    lemma_column_bound(text.skip(line_begin(text, line) as int), character);
    encoding::lemma_prefix_byte_len(text, char_offset(text, line, character) as int);
}

/// The byte offset of a 0-based position (a line, and a UTF-16 code unit on it).
///
/// Lines are separated by `\n`. A position out of range is moved to the end of its line,
/// or of the text; one inside a character to that character's start.
pub fn pos_to_byte(text: &str, line: u32, character: u32) -> (r: usize)
    ensures
        r == byte_offset(text@, line as nat, character as nat),
{
    let total: usize = text.as_bytes().len();
    let chars = chars_of(text);
    let mut i: usize = 0;
    let mut offset: usize = 0;
    let mut lines_left: u32 = line;
    assert(text@.skip(0) == text@);
    while i < chars.len() && lines_left > 0
        invariant
            chars@ == text@,
            total == encoding::byte_len(text@),
            i <= chars@.len(),
            offset == encoding::byte_len(text@.take(i as int)),
            line_begin(text@, line as nat) == i + line_begin(
                text@.skip(i as int),
                lines_left as nat,
            ),
        decreases chars.len() - i,
    {
        let c = chars[i];
        proof {
            lemma_step(text@, i as int);
            assert(text@.skip(i as int).drop_first() == text@.skip(i + 1));
        }
        offset = offset + encoding::utf8_bytes(c);
        if c == '\n' {
            lines_left = lines_left - 1;
        }
        i = i + 1;
    }
    let ghost begin = i as int;
    let mut units_left: u32 = character;
    while i < chars.len()
        invariant
            chars@ == text@,
            total == encoding::byte_len(text@),
            begin <= i <= chars@.len(),
            begin == line_begin(text@, line as nat),
            offset == encoding::byte_len(text@.take(i as int)),
            column_chars(text@.skip(begin), character as nat) == (i - begin) + column_chars(
                text@.skip(i as int),
                units_left as nat,
            ),
        decreases chars.len() - i,
    {
        let c = chars[i];
        let units = encoding::utf16_units(c);
        if c == '\n' || units_left < units {
            return offset;
        }
        proof {
            lemma_step(text@, i as int);
            assert(text@.skip(i as int).drop_first() == text@.skip(i + 1));
        }
        offset = offset + encoding::utf8_bytes(c);
        units_left = units_left - units;
        i = i + 1;
    }
    offset
}

/// Taking one character more of a text adds its bytes.
proof fn lemma_step(text: Seq<char>, i: int)
    requires
        0 <= i < text.len(),
    ensures
        encoding::byte_len(text.take(i + 1)) == encoding::byte_len(text.take(i)) + encode_scalar(text[i] as u32).len(),
        encoding::byte_len(text.take(i + 1)) <= encoding::byte_len(text),
{
    assert(text.take(i + 1) == text.take(i).push(text[i]));
    encoding::lemma_encode_push(text.take(i), text[i]);
    encoding::lemma_prefix_byte_len(text, i + 1);
}

/// A replacement of bytes `start..end` of a text by `text`.
pub struct Replacement {
    pub start: nat,
    pub end: nat,
    pub text: Seq<u8>,
}

/// What an edit replaces in `content`.
pub open spec fn replacement(content: Seq<char>, edit: TextEdit) -> Replacement {
    Replacement {
        start: byte_offset(
            content,
            edit.range.start.line as nat,
            edit.range.start.character as nat,
        ),
        end: byte_offset(content, edit.range.end.line as nat, edit.range.end.character as nat),
        text: encode_utf8(edit.new_text@),
    }
}

/// What each of `edits` replaces in `content`.
pub open spec fn replacements(content: Seq<char>, edits: Seq<TextEdit>) -> Seq<Replacement> {
    Seq::new(edits.len(), |i: int| replacement(content, edits[i]))
}

/// Puts `r` into an ordered list, behind the ones that start where it starts or later.
pub open spec fn insert_by_start(ordered: Seq<Replacement>, r: Replacement) -> Seq<Replacement>
    decreases ordered.len(),
{
    if ordered.len() > 0 && ordered.last().start < r.start {
        insert_by_start(ordered.drop_last(), r).push(ordered.last())
    } else {
        ordered.push(r)
    }
}

/// The replacements in the order in which they are made: the later in the text the
/// earlier, and those with one start as they are listed.
pub open spec fn by_start_descending(rs: Seq<Replacement>) -> Seq<Replacement>
    decreases rs.len(),
{
    if rs.len() == 0 {
        rs
    } else {
        insert_by_start(by_start_descending(rs.drop_last()), rs.last())
    }
}

/// The bytes after one replacement.
pub open spec fn splice(bytes: Seq<u8>, r: Replacement) -> Seq<u8> {
    bytes.take(r.start as int) + r.text + bytes.skip(r.end as int)
}

/// A replacement can be made: it names a range of whole characters.
pub open spec fn fits(bytes: Seq<u8>, r: Replacement) -> bool {
    &&& r.start <= r.end <= bytes.len()
    &&& is_char_boundary(bytes, r.start as int)
    &&& is_char_boundary(bytes, r.end as int)
}

/// The bytes after the replacements `rs`, one after the other.
pub open spec fn splice_all(bytes: Seq<u8>, rs: Seq<Replacement>) -> Seq<u8>
    decreases rs.len(),
{
    if rs.len() == 0 {
        bytes
    } else {
        splice_all(splice(bytes, rs[0]), rs.drop_first())
    }
}

/// Each of the replacements can be made when its turn comes.
pub open spec fn all_fit(bytes: Seq<u8>, rs: Seq<Replacement>) -> bool
    decreases rs.len(),
{
    rs.len() > 0 ==> fits(bytes, rs[0]) && all_fit(splice(bytes, rs[0]), rs.drop_first())
}

/// `edits` can be applied to `content`.
pub open spec fn edits_apply(content: Seq<char>, edits: Seq<TextEdit>) -> bool {
    all_fit(encode_utf8(content), by_start_descending(replacements(content, edits)))
}

/// The UTF-8 bytes of `content` after `edits`.
pub open spec fn edited_bytes(content: Seq<char>, edits: Seq<TextEdit>) -> Seq<u8> {
    splice_all(encode_utf8(content), by_start_descending(replacements(content, edits)))
}

/// Where [`insert_by_start`] puts a replacement.
proof fn lemma_insert_place(ordered: Seq<Replacement>, r: Replacement, k: int)
    requires
        0 <= k <= ordered.len(),
        forall|j: int| k <= j < ordered.len() ==> ordered[j].start < r.start,
        k > 0 ==> ordered[k - 1].start >= r.start,
    ensures
        insert_by_start(ordered, r) == ordered.insert(k, r),
    decreases ordered.len(),
{
    if k < ordered.len() {
        lemma_insert_place(ordered.drop_last(), r, k);
        assert(ordered.drop_last().insert(k, r).push(ordered.last()) == ordered.insert(k, r));
    } else {
        assert(ordered.push(r) == ordered.insert(k, r));
    }
}

/// The replacements that `order` lists.
spec fn picked(rs: Seq<Replacement>, order: Seq<usize>) -> Seq<Replacement> {
    Seq::new(order.len(), |i: int| rs[order[i] as int])
}

/// The order in which the edits with these start offsets are made.
fn application_order(starts: &Vec<usize>, Ghost(rs): Ghost<Seq<Replacement>>) -> (order: Vec<usize>)
    requires
        starts@.len() == rs.len(),
        forall|i: int| 0 <= i < rs.len() ==> starts@[i] == rs[i].start,
    ensures
        order@.len() == starts@.len(),
        forall|i: int| 0 <= i < order@.len() ==> order@[i] < starts@.len(),
        picked(rs, order@) == by_start_descending(rs),
{
    let mut order: Vec<usize> = Vec::new();
    let mut n: usize = 0;
    assert(picked(rs, order@) =~= rs.take(0));
    while n < starts.len()
        invariant
            starts@.len() == rs.len(),
            forall|i: int| 0 <= i < rs.len() ==> starts@[i] == rs[i].start,
            n <= starts@.len(),
            order@.len() == n,
            forall|i: int| 0 <= i < n ==> order@[i] < n,
            picked(rs, order@) == by_start_descending(rs.take(n as int)),
        decreases starts.len() - n,
    {
        let mut k: usize = order.len();
        while k > 0 && starts[order[k - 1]] < starts[n]
            invariant
                starts@.len() == rs.len(),
                forall|i: int| 0 <= i < rs.len() ==> starts@[i] == rs[i].start,
                n < starts@.len(),
                order@.len() == n,
                forall|i: int| 0 <= i < n ==> order@[i] < n,
                k <= order@.len(),
                forall|j: int|
                    k <= j < order@.len() ==> picked(rs, order@)[j].start < rs[n as int].start,
            decreases k,
        {
            k = k - 1;
        }
        proof {
            lemma_insert_place(picked(rs, order@), rs[n as int], k as int);
            assert(picked(rs, order@.insert(k as int, n)) =~= picked(rs, order@).insert(
                k as int,
                rs[n as int],
            ));
            assert(rs.take(n + 1).drop_last() == rs.take(n as int));
        }
        order.insert(k, n);
        n = n + 1;
    }
    assert(rs.take(n as int) == rs);
    order
}

/// Replaces bytes `start..end` of `text` by `new_text`.
fn replace_range(text: &String, start: usize, end: usize, new_text: &String) -> (r: String)
    requires
        start <= end <= encode_utf8(text@).len(),
        is_char_boundary(encode_utf8(text@), start as int),
        is_char_boundary(encode_utf8(text@), end as int),
    ensures
        encode_utf8(r@) == encode_utf8(text@).take(start as int) + encode_utf8(new_text@)
            + encode_utf8(text@).skip(end as int),
{
    let (head, _) = text.as_str().split_at(start);
    let (_, tail) = text.as_str().split_at(end);
    let mut out = String::new();
    out.push_str(head);
    out.push_str(new_text.as_str());
    out.push_str(tail);
    proof {
        assert(Seq::<char>::empty() + head@ == head@);
        encoding::lemma_encode_concat(head@, new_text@);
        encoding::lemma_encode_concat(head@ + new_text@, tail@);
    }
    out
}

/// The start and end offsets of `edits` in `content`.
fn edit_offsets(content: &String, edits: &[TextEdit]) -> (r: (Vec<usize>, Vec<usize>))
    ensures
        r.0@.len() == edits@.len(),
        r.1@.len() == edits@.len(),
        forall|j: int|
            0 <= j < edits@.len() ==> r.0@[j] == replacements(content@, edits@)[j].start,
        forall|j: int| 0 <= j < edits@.len() ==> r.1@[j] == replacements(content@, edits@)[j].end,
{
    let mut starts: Vec<usize> = Vec::new();
    let mut ends: Vec<usize> = Vec::new();
    let mut i: usize = 0;
    while i < edits.len()
        invariant
            i <= edits@.len(),
            starts@.len() == i,
            ends@.len() == i,
            forall|j: int| 0 <= j < i ==> starts@[j] == replacements(content@, edits@)[j].start,
            forall|j: int| 0 <= j < i ==> ends@[j] == replacements(content@, edits@)[j].end,
        decreases edits.len() - i,
    {
        let range = edits[i].range;
        starts.push(pos_to_byte(content.as_str(), range.start.line, range.start.character));
        ends.push(pos_to_byte(content.as_str(), range.end.line, range.end.character));
        i = i + 1;
    }
    (starts, ends)
}

/// Applies `edits` to `content`, where they can be applied: not where an edit ends before
/// it starts, or where edits that overlap leave one that no longer names whole
/// characters.
pub fn try_text_edits(content: &String, edits: &[TextEdit]) -> (r: Option<String>)
    ensures
        r is Some == edits_apply(content@, edits@),
        r matches Some(text) ==> encode_utf8(text@) == edited_bytes(content@, edits@),
{
    let ghost rs = replacements(content@, edits@);
    let (starts, ends) = edit_offsets(content, edits);
    let order = application_order(&starts, Ghost(rs));
    let ghost ops = by_start_descending(rs);
    let mut result = content.clone();
    let mut k: usize = 0;
    assert(ops.skip(0) == ops);
    while k < order.len()
        invariant
            rs == replacements(content@, edits@),
            ops == by_start_descending(rs),
            starts@.len() == edits@.len(),
            ends@.len() == edits@.len(),
            forall|j: int| 0 <= j < starts@.len() ==> starts@[j] == rs[j].start,
            forall|j: int| 0 <= j < ends@.len() ==> ends@[j] == rs[j].end,
            order@.len() == edits@.len(),
            forall|j: int| 0 <= j < order@.len() ==> order@[j] < edits@.len(),
            picked(rs, order@) == ops,
            k <= order@.len(),
            all_fit(encode_utf8(result@), ops.skip(k as int)) == edits_apply(content@, edits@),
            splice_all(encode_utf8(result@), ops.skip(k as int)) == edited_bytes(content@, edits@),
        decreases order.len() - k,
    {
        let e: usize = order[k];
        assert(ops.skip(k as int)[0] == rs[e as int]);
        assert(ops.skip(k as int).drop_first() == ops.skip(k + 1));
        let len: usize = result.as_str().as_bytes().len();
        if starts[e] > ends[e] || ends[e] > len {
            return None;
        }
        if !result.as_str().is_char_boundary(starts[e]) || !result.as_str().is_char_boundary(
            ends[e],
        ) {
            return None;
        }
        result = replace_range(&result, starts[e], ends[e], &edits[e].new_text);
        k = k + 1;
    }
    Some(result)
}

// ---- what holds of positions ----

/// Any position stands between two characters of the text.
pub proof fn law_position_is_boundary(text: Seq<char>, line: nat, character: nat)
    ensures
        byte_offset(text, line, character) <= encoding::byte_len(text),
        is_char_boundary(encode_utf8(text), byte_offset(text, line, character) as int),
{
    lemma_char_offset_bound(text, line, character);
    encoding::lemma_prefix_boundary(text, char_offset(text, line, character) as int);
}

/// The number of line breaks in a text.
pub open spec fn line_breaks(text: Seq<char>) -> nat
    decreases text.len(),
{
    if text.len() == 0 {
        0
    } else {
        (if text[0] == '\n' {
            1nat
        } else {
            0
        }) + line_breaks(text.drop_first())
    }
}

/// A line out of range stands for the end of the text.
pub proof fn law_line_out_of_range(text: Seq<char>, line: nat, character: nat)
    requires
        line > line_breaks(text),
    ensures
        byte_offset(text, line, character) == encoding::byte_len(text),
{
    lemma_line_begin_past(text, line);
    assert(text.take(text.len() as int) == text);
}

proof fn lemma_line_begin_past(text: Seq<char>, line: nat)
    requires
        line > line_breaks(text),
    ensures
        line_begin(text, line) == text.len(),
    decreases text.len(),
{
    if text.len() > 0 {
        lemma_line_begin_past(
            text.drop_first(),
            if text[0] == '\n' {
                (line - 1) as nat
            } else {
                line
            },
        );
    }
}

/// A line in range begins after as many line breaks as its number says, the last of them
/// right before it.
pub proof fn law_line_in_range(text: Seq<char>, line: nat)
    requires
        line <= line_breaks(text),
    ensures
        line_begin(text, line) <= text.len(),
        line_breaks(text.take(line_begin(text, line) as int)) == line,
        line > 0 ==> line_begin(text, line) > 0 && text[line_begin(text, line) - 1] == '\n',
    decreases text.len(),
{
    let n = line_begin(text, line);
    if line == 0 {
        assert(text.take(0).len() == 0);
    } else {
        let tail = text.drop_first();
        let left = if text[0] == '\n' {
            (line - 1) as nat
        } else {
            line
        };
        law_line_in_range(tail, left);
        assert(text.take(n as int).drop_first() == tail.take(n - 1));
        if left > 0 {
            assert(tail[n - 2] == text[n - 1]);
        }
    }
}

/// On a line, the column after its first `k` characters is where these characters end,
/// and so is every column inside the character behind them.
pub proof fn law_column(rest: Seq<char>, k: int, inside: nat)
    requires
        0 <= k <= rest.len(),
        forall|i: int| 0 <= i < k ==> rest[i] != '\n',
        k < rest.len() && rest[k] != '\n' ==> inside < encoding::utf16_width(rest[k]),
    ensures
        column_chars(rest, encoding::utf16_len(rest.take(k)) + inside) == k,
    decreases k,
{
    if k > 0 {
        let tail = rest.drop_first();
        assert forall|i: int| 0 <= i < k - 1 implies tail[i] != '\n' by {
            assert(tail[i] == rest[i + 1]);
        }
        law_column(tail, k - 1, inside);
        assert(rest.take(k).drop_first() == tail.take(k - 1));
        assert(rest.take(k)[0] == rest[0]);
    } else {
        assert(encoding::utf16_len(rest.take(0)) == 0);
    }
}

/// A later position is never before an earlier one in the text.
pub proof fn law_positions_ordered(text: Seq<char>, l1: nat, c1: nat, l2: nat, c2: nat)
    requires
        l1 < l2 || (l1 == l2 && c1 <= c2),
    ensures
        char_offset(text, l1, c1) <= char_offset(text, l2, c2),
        byte_offset(text, l1, c1) <= byte_offset(text, l2, c2),
{
    lemma_char_offset_bound(text, l1, c1);
    lemma_char_offset_bound(text, l2, c2);
    if l1 == l2 {
        lemma_column_mono(text.skip(line_begin(text, l1) as int), c1, c2);
    } else {
        lemma_line_before(text, l1, c1, l2);
    }
    encoding::lemma_prefix_byte_len_mono(
        text,
        char_offset(text, l1, c1) as int,
        char_offset(text, l2, c2) as int,
    );
}

proof fn lemma_column_mono(rest: Seq<char>, c1: nat, c2: nat)
    requires
        c1 <= c2,
    ensures
        column_chars(rest, c1) <= column_chars(rest, c2),
    decreases rest.len(),
{
    if !(rest.len() == 0 || rest[0] == '\n' || c1 < encoding::utf16_width(rest[0])) {
        lemma_column_mono(
            rest.drop_first(),
            (c1 - encoding::utf16_width(rest[0])) as nat,
            (c2 - encoding::utf16_width(rest[0])) as nat,
        );
    }
}

proof fn lemma_line_before(text: Seq<char>, l1: nat, c1: nat, l2: nat)
    requires
        l1 < l2,
    ensures
        char_offset(text, l1, c1) <= line_begin(text, l2),
    decreases text.len(),
{
    if text.len() > 0 {
        let tail = text.drop_first();
        if l1 == 0 {
            assert(text.skip(0) == text);
            if !(text[0] == '\n' || c1 < encoding::utf16_width(text[0])) {
                lemma_line_before(tail, 0, (c1 - encoding::utf16_width(text[0])) as nat, l2);
                assert(tail.skip(0) == tail);
            }
        } else {
            let d: nat = if text[0] == '\n' {
                1
            } else {
                0
            };
            lemma_line_before(tail, (l1 - d) as nat, c1, (l2 - d) as nat);
            lemma_line_begin_bound(tail, (l1 - d) as nat);
            assert(tail.skip(line_begin(tail, (l1 - d) as nat) as int) == text.skip(
                line_begin(text, l1) as int,
            ));
        }
    }
}

// ---- what holds of edits ----

/// The order of application runs from the end of the text to its start.
pub open spec fn starts_descend(rs: Seq<Replacement>) -> bool {
    forall|i: int, j: int| 0 <= i < j < rs.len() ==> (#[trigger] rs[i]).start >= (#[trigger] rs[j]).start
}

/// Each edit is made once, and edits are made from the end of the text to its start.
pub proof fn law_application_order(rs: Seq<Replacement>)
    ensures
        by_start_descending(rs).to_multiset() == rs.to_multiset(),
        by_start_descending(rs).len() == rs.len(),
        starts_descend(by_start_descending(rs)),
    decreases rs.len(),
{
    broadcast use vstd::seq_lib::group_to_multiset_ensures;

    if rs.len() > 0 {
        law_application_order(rs.drop_last());
        let ordered = by_start_descending(rs.drop_last());
        lemma_insert_multiset(ordered, rs.last());
        assert(rs.drop_last().push(rs.last()) == rs);
    }
}

proof fn lemma_insert_multiset(ordered: Seq<Replacement>, r: Replacement)
    requires
        starts_descend(ordered),
    ensures
        insert_by_start(ordered, r).to_multiset() == ordered.to_multiset().insert(r),
        insert_by_start(ordered, r).len() == ordered.len() + 1,
        starts_descend(insert_by_start(ordered, r)),
        forall|i: int|
            0 <= i <= ordered.len() ==> (#[trigger] insert_by_start(ordered, r)[i] == r
                || ordered.contains(insert_by_start(ordered, r)[i])),
    decreases ordered.len(),
{
    broadcast use vstd::seq_lib::group_to_multiset_ensures;

    let out = insert_by_start(ordered, r);
    if ordered.len() > 0 && ordered.last().start < r.start {
        let init = ordered.drop_last();
        lemma_insert_multiset(init, r);
        assert(init.push(ordered.last()) == ordered);
        assert(out.to_multiset() =~= ordered.to_multiset().insert(r));
        assert forall|i: int| 0 <= i <= ordered.len() implies (#[trigger] out[i] == r
            || ordered.contains(out[i])) by {
            if i < ordered.len() {
                assert(insert_by_start(init, r)[i] == out[i]);
                if out[i] != r {
                    let k = choose|k: int| 0 <= k < init.len() && init[k] == out[i];
                    assert(ordered[k] == out[i]);
                }
            } else {
                assert(ordered[ordered.len() - 1] == out[i]);
            }
        }
        assert forall|i: int, j: int| 0 <= i < j < out.len() implies (#[trigger] out[i]).start >= (
        #[trigger] out[j]).start by {
            assert(insert_by_start(init, r)[i] == out[i]);
            if j < out.len() - 1 {
                assert(insert_by_start(init, r)[j] == out[j]);
            } else if out[i] != r {
                let k = choose|k: int| 0 <= k < init.len() && init[k] == out[i];
                assert(ordered[k] == out[i]);
                assert(ordered[ordered.len() - 1] == out[j]);
            }
        }
    } else {
        assert forall|i: int| 0 <= i <= ordered.len() implies (#[trigger] out[i] == r
            || ordered.contains(out[i])) by {
            if i < ordered.len() {
                assert(ordered[i] == out[i]);
            }
        }
        assert forall|i: int, j: int| 0 <= i < j < out.len() implies (#[trigger] out[i]).start >= (
        #[trigger] out[j]).start by {
            assert(ordered[i] == out[i]);
            if j < ordered.len() {
                assert(ordered[j] == out[j]);
            } else {
                assert(ordered[ordered.len() - 1] == ordered.last());
            }
        }
    }
}

/// No two of the replacements overlap, and each has its end behind its start. Of two
/// with one start, the one that is listed later is empty.
pub open spec fn disjoint(rs: Seq<Replacement>) -> bool {
    &&& forall|i: int| 0 <= i < rs.len() ==> (#[trigger] rs[i]).start <= rs[i].end
    &&& forall|i: int, j: int|
        0 <= i < rs.len() && 0 <= j < rs.len() && i != j && ((#[trigger] rs[i]).start > (
        #[trigger] rs[j]).start || (rs[i].start == rs[j].start && i < j)) ==> rs[j].end
            <= rs[i].start
}

/// Replacements listed from the end of the text to its start, none overlapping the next.
spec fn chained(ops: Seq<Replacement>) -> bool {
    &&& forall|i: int| 0 <= i < ops.len() ==> (#[trigger] ops[i]).start <= ops[i].end
    &&& forall|i: int, j: int|
        0 <= i < j < ops.len() ==> (#[trigger] ops[j]).end <= (#[trigger] ops[i]).start
}

proof fn lemma_disjoint_chained(rs: Seq<Replacement>)
    requires
        disjoint(rs),
    ensures
        chained(by_start_descending(rs)),
        by_start_descending(rs).len() == rs.len(),
        forall|i: int| 0 <= i < rs.len() ==> rs.contains(#[trigger] by_start_descending(rs)[i]),
    decreases rs.len(),
{
    if rs.len() > 0 {
        let init = rs.drop_last();
        let r = rs.last();
        let n = rs.len() - 1;
        assert(disjoint(init)) by {
            assert forall|i: int| 0 <= i < init.len() implies (#[trigger] init[i]).start
                <= init[i].end by {
                assert(rs[i] == init[i]);
            }
            assert forall|i: int, j: int|
                0 <= i < init.len() && 0 <= j < init.len() && i != j && ((
                #[trigger] init[i]).start > (#[trigger] init[j]).start || (init[i].start
                    == init[j].start && i < j)) implies init[j].end <= init[i].start by {
                assert(rs[i] == init[i] && rs[j] == init[j]);
            }
        }
        lemma_disjoint_chained(init);
        law_application_order(init);
        let ordered = by_start_descending(init);
        lemma_insert_multiset(ordered, r);
        assert forall|i: int| 0 <= i < ordered.len() implies exists|k: int|
            0 <= k < n && rs[k] == #[trigger] ordered[i] by {
            let k = choose|k: int| 0 <= k < init.len() && init[k] == ordered[i];
            assert(rs[k] == ordered[i]);
        }
        assert(rs[n] == r);
        lemma_insert_chained(rs, ordered);
    }
}

proof fn lemma_insert_chained(rs: Seq<Replacement>, ordered: Seq<Replacement>)
    requires
        rs.len() > 0,
        disjoint(rs),
        chained(ordered),
        starts_descend(ordered),
        forall|i: int|
            0 <= i < ordered.len() ==> exists|k: int|
                0 <= k < rs.len() - 1 && rs[k] == #[trigger] ordered[i],
    ensures
        chained(insert_by_start(ordered, rs.last())),
        insert_by_start(ordered, rs.last()).len() == ordered.len() + 1,
        forall|i: int|
            0 <= i <= ordered.len() ==> rs.contains(#[trigger] insert_by_start(ordered, rs.last())[i]),
    decreases ordered.len(),
{
    let r = rs.last();
    let n = rs.len() - 1;
    assert(rs[n] == r);
    let out = insert_by_start(ordered, r);
    lemma_insert_multiset(ordered, r);
    assert forall|i: int| 0 <= i <= ordered.len() implies rs.contains(#[trigger] out[i]) by {
        if out[i] != r {
            let m = choose|m: int| 0 <= m < ordered.len() && ordered[m] == out[i];
            let k = choose|k: int| 0 <= k < rs.len() - 1 && rs[k] == ordered[m];
            assert(rs[k] == out[i]);
        }
    }
    assert forall|i: int| 0 <= i < out.len() implies (#[trigger] out[i]).start <= out[i].end by {
        let k = choose|k: int| 0 <= k < rs.len() && rs[k] == out[i];
        assert(rs[k].start <= rs[k].end);
    }
    if ordered.len() > 0 && ordered.last().start < r.start {
        let init = ordered.drop_last();
        assert forall|i: int| 0 <= i < init.len() implies exists|k: int|
            0 <= k < rs.len() - 1 && rs[k] == #[trigger] init[i] by {
            assert(init[i] == ordered[i]);
        }
        assert(chained(init)) by {
            assert forall|i: int| 0 <= i < init.len() implies (#[trigger] init[i]).start
                <= init[i].end by {
                assert(init[i] == ordered[i]);
            }
            assert forall|i: int, j: int| 0 <= i < j < init.len() implies (#[trigger] init[j]).end
                <= (#[trigger] init[i]).start by {
                assert(init[i] == ordered[i] && init[j] == ordered[j]);
            }
        }
        lemma_insert_chained(rs, init);
        lemma_insert_multiset(init, r);
        let last = ordered.last();
        assert(ordered[ordered.len() - 1] == last);
        let kl = choose|k: int| 0 <= k < rs.len() - 1 && rs[k] == last;
        assert(rs[kl].end <= rs[n].start);
        assert forall|i: int, j: int| 0 <= i < j < out.len() implies (#[trigger] out[j]).end <= (
        #[trigger] out[i]).start by {
            assert(insert_by_start(init, r)[i] == out[i]);
            if j < out.len() - 1 {
                assert(insert_by_start(init, r)[j] == out[j]);
            } else if out[i] != r {
                let m = choose|m: int| 0 <= m < init.len() && init[m] == out[i];
                assert(ordered[m] == out[i]);
            }
        }
    } else {
        assert forall|i: int, j: int| 0 <= i < j < out.len() implies (#[trigger] out[j]).end <= (
        #[trigger] out[i]).start by {
            assert(ordered[i] == out[i]);
            if j < ordered.len() {
                assert(ordered[j] == out[j]);
            } else {
                assert(ordered[ordered.len() - 1] == ordered.last());
                assert(ordered[i].start >= r.start);
                let k = choose|k: int| 0 <= k < rs.len() - 1 && rs[k] == ordered[i];
                assert(rs[n].end <= rs[k].start);
            }
        }
    }
}

/// The bytes with each replacement in its place: between the replacements the text as it
/// was, in the replaced ranges the new text.
pub open spec fn woven(bytes: Seq<u8>, ops: Seq<Replacement>) -> Seq<u8>
    decreases ops.len(),
{
    if ops.len() == 0 {
        bytes
    } else {
        woven(bytes.take(ops[0].start as int), ops.drop_first()) + ops[0].text + bytes.skip(
            ops[0].end as int,
        )
    }
}

proof fn lemma_chained_rest(ops: Seq<Replacement>)
    requires
        chained(ops),
        ops.len() > 0,
    ensures
        chained(ops.drop_first()),
        ops.len() > 1 ==> ops.drop_first()[0].end <= ops[0].start,
{
    let rest = ops.drop_first();
    assert forall|i: int| 0 <= i < rest.len() implies (#[trigger] rest[i]).start <= rest[i].end by {
        assert(rest[i] == ops[i + 1]);
    }
    assert forall|i: int, j: int| 0 <= i < j < rest.len() implies (#[trigger] rest[j]).end <= (
    #[trigger] rest[i]).start by {
        assert(rest[i] == ops[i + 1] && rest[j] == ops[j + 1]);
    }
    if rest.len() > 0 {
        assert(rest[0] == ops[1]);
    }
}

/// What stands behind all replacements is left alone.
proof fn lemma_splice_tail(head: Seq<u8>, tail: Seq<u8>, ops: Seq<Replacement>)
    requires
        chained(ops),
        ops.len() > 0 ==> ops[0].end <= head.len(),
    ensures
        splice_all(head + tail, ops) == splice_all(head, ops) + tail,
    decreases ops.len(),
{
    if ops.len() > 0 {
        let r = ops[0];
        let rest = ops.drop_first();
        assert(splice(head + tail, r) == splice(head, r) + tail);
        lemma_chained_rest(ops);
        lemma_splice_tail(splice(head, r), tail, rest);
    }
}

proof fn lemma_woven(bytes: Seq<u8>, ops: Seq<Replacement>)
    requires
        chained(ops),
        ops.len() > 0 ==> ops[0].end <= bytes.len(),
    ensures
        splice_all(bytes, ops) == woven(bytes, ops),
    decreases ops.len(),
{
    if ops.len() > 0 {
        let r = ops[0];
        let rest = ops.drop_first();
        lemma_chained_rest(ops);
        let head = bytes.take(r.start as int);
        let tail = r.text + bytes.skip(r.end as int);
        assert(splice(bytes, r) == head + tail);
        lemma_splice_tail(head, tail, rest);
        lemma_woven(head, rest);
        assert(woven(head, rest) + tail == woven(bytes, ops));
    }
}

/// The joint between two texts is a character boundary.
proof fn lemma_joint_boundary(a: Seq<u8>, b: Seq<u8>)
    requires
        valid_utf8(a),
        valid_utf8(b),
    ensures
        valid_utf8(a + b),
        is_char_boundary(a + b, a.len() as int),
{
    valid_utf8_concat(a, b);
    if b.len() == 0 {
        assert(a + b == a);
        is_char_boundary_start_end_of_seq(a);
    } else {
        is_char_boundary_start_end_of_seq(b);
        is_char_boundary_iff_not_is_continuation_byte(b, 0);
        is_char_boundary_iff_not_is_continuation_byte(a + b, a.len() as int);
    }
}

proof fn lemma_chain_fits(bytes: Seq<u8>, ops: Seq<Replacement>)
    requires
        valid_utf8(bytes),
        chained(ops),
        ops.len() > 0 ==> ops[0].end <= bytes.len(),
        forall|i: int|
            0 <= i < ops.len() ==> is_char_boundary(bytes, (#[trigger] ops[i]).start as int)
                && is_char_boundary(bytes, ops[i].end as int) && valid_utf8(ops[i].text),
    ensures
        all_fit(bytes, ops),
    decreases ops.len(),
{
    if ops.len() > 0 {
        let r = ops[0];
        let rest = ops.drop_first();
        let next = splice(bytes, r);
        let head = bytes.take(r.start as int);
        let tail = r.text + bytes.skip(r.end as int);
        lemma_chained_rest(ops);
        assert(is_char_boundary(bytes, ops[0].start as int));
        valid_utf8_split(bytes, r.start as int);
        valid_utf8_split(bytes, r.end as int);
        assert(bytes.subrange(0, r.start as int) == head);
        assert(bytes.subrange(r.end as int, bytes.len() as int) == bytes.skip(r.end as int));
        valid_utf8_concat(r.text, bytes.skip(r.end as int));
        lemma_joint_boundary(head, tail);
        assert(next == head + tail);
        assert(next.take(r.start as int) == head);
        assert forall|i: int| 0 <= i < rest.len() implies is_char_boundary(
            next,
            (#[trigger] rest[i]).start as int,
        ) && is_char_boundary(next, rest[i].end as int) && valid_utf8(rest[i].text) by {
            assert(rest[i] == ops[i + 1]);
            assert(ops[i + 1].end <= ops[0].start);
            assert(ops[i + 1].start <= ops[i + 1].end);
            lemma_kept_boundary(bytes, next, r.start as int, rest[i].start as int);
            lemma_kept_boundary(bytes, next, r.start as int, rest[i].end as int);
        }
        lemma_chain_fits(next, rest);
    }
}

proof fn lemma_kept_boundary(before: Seq<u8>, after: Seq<u8>, n: int, k: int)
    requires
        valid_utf8(before),
        valid_utf8(after),
        0 <= k <= n <= before.len(),
        n <= after.len(),
        before.take(n) == after.take(n),
        is_char_boundary(after, n),
        is_char_boundary(before, k),
    ensures
        is_char_boundary(after, k),
{
    if k < n {
        assert(before.take(n)[k] == before[k]);
        assert(after.take(n)[k] == after[k]);
        is_char_boundary_iff_not_is_continuation_byte(before, k);
        is_char_boundary_iff_not_is_continuation_byte(after, k);
    }
}

/// Edits that do not overlap can always be applied, and put each new text in its place
/// while all other text stays as it was.
pub proof fn law_disjoint_edits(content: Seq<char>, edits: Seq<TextEdit>)
    requires
        disjoint(replacements(content, edits)),
    ensures
        edits_apply(content, edits),
        edited_bytes(content, edits) == woven(
            encode_utf8(content),
            by_start_descending(replacements(content, edits)),
        ),
{
    let rs = replacements(content, edits);
    let ops = by_start_descending(rs);
    let bytes = encode_utf8(content);
    lemma_disjoint_chained(rs);
    encode_utf8_valid_utf8(content);
    assert forall|i: int| 0 <= i < ops.len() implies is_char_boundary(
        bytes,
        (#[trigger] ops[i]).start as int,
    ) && is_char_boundary(bytes, ops[i].end as int) && valid_utf8(ops[i].text) && ops[i].end
        <= bytes.len() by {
        let k = choose|k: int| 0 <= k < rs.len() && rs[k] == ops[i];
        let range = edits[k].range;
        law_position_is_boundary(content, range.start.line as nat, range.start.character as nat);
        law_position_is_boundary(content, range.end.line as nat, range.end.character as nat);
        encode_utf8_valid_utf8(edits[k].new_text@);
    }
    if ops.len() > 0 {
        assert(ops[0].end <= bytes.len());
    }
    lemma_chain_fits(bytes, ops);
    lemma_woven(bytes, ops);
}

// ---- where a position stands, and what an edit does, in terms of the text ----

/// The line breaks of a text are those of its parts.
pub proof fn law_line_breaks(a: Seq<char>, b: Seq<char>, c: char)
    ensures
        line_breaks(Seq::empty()) == 0,
        line_breaks(seq![c]) == if c == '\n' {
            1nat
        } else {
            0
        },
        line_breaks(a + b) == line_breaks(a) + line_breaks(b),
    decreases a.len(),
{
    assert(seq![c].drop_first() =~= Seq::<char>::empty());
    assert(line_breaks(seq![c].drop_first()) == 0);
    if a.len() == 0 {
        assert(a + b =~= b);
    } else {
        law_line_breaks(a.drop_first(), b, c);
        assert((a + b).drop_first() =~= a.drop_first() + b);
        assert((a + b)[0] == a[0]);
    }
}

proof fn lemma_line_begin_at(before: Seq<char>, rest: Seq<char>)
    requires
        before.len() > 0 ==> before.last() == '\n',
    ensures
        line_begin(before + rest, line_breaks(before)) == before.len(),
        before.len() > 0 ==> line_breaks(before) > 0,
    decreases before.len(),
{
    if before.len() == 0 {
        assert(before + rest =~= rest);
    } else {
        let tail = before.drop_first();
        assert(tail.len() > 0 ==> tail.last() == before.last());
        lemma_line_begin_at(tail, rest);
        assert((before + rest).drop_first() =~= tail + rest);
        assert((before + rest)[0] == before[0]);
    }
}

/// A position on a line stands behind the text before the line and as many characters of the
/// line as its column has passed: a column inside a character stands before it, and one past
/// the line at its end.
pub proof fn law_position(
    before: Seq<char>,
    line: Seq<char>,
    after: Seq<char>,
    k: int,
    inside: nat,
)
    requires
        before.len() > 0 ==> before.last() == '\n',
        forall|i: int| 0 <= i < line.len() ==> line[i] != '\n',
        after.len() > 0 ==> after[0] == '\n',
        0 <= k <= line.len(),
        k < line.len() ==> inside < encoding::utf16_width(line[k]),
    ensures
        byte_offset(
            before + line + after,
            line_breaks(before),
            encoding::utf16_len(line.take(k)) + inside,
        ) == encoding::byte_len(before + line.take(k)),
{
    let text = before + line + after;
    let rest = line + after;
    assert(text =~= before + rest);
    lemma_line_begin_at(before, rest);
    assert(text.skip(before.len() as int) =~= rest);
    assert forall|i: int| 0 <= i < k implies rest[i] != '\n' by {
        assert(rest[i] == line[i]);
    }
    if k < line.len() {
        assert(rest[k] == line[k]);
    } else if k < rest.len() {
        assert(rest[k] == after[0]);
    }
    law_column(rest, k, inside);
    assert(rest.take(k) =~= line.take(k));
    assert(text.take(before.len() + k) =~= before + line.take(k));
}

/// Without edits a text stays as it is.
pub proof fn law_no_edits(content: Seq<char>)
    ensures
        edits_apply(content, Seq::empty()),
        edited_bytes(content, Seq::empty()) == encode_utf8(content),
{
    assert(replacements(content, Seq::empty()) =~= Seq::<Replacement>::empty());
}

proof fn lemma_splice_last(bytes: Seq<u8>, rs: Seq<Replacement>, r: Replacement)
    ensures
        splice_all(bytes, rs.push(r)) == splice(splice_all(bytes, rs), r),
        all_fit(bytes, rs.push(r)) == (all_fit(bytes, rs) && fits(splice_all(bytes, rs), r)),
    decreases rs.len(),
{
    if rs.len() == 0 {
        assert(rs.push(r).drop_first() =~= rs);
        assert(rs.push(r)[0] == r);
        assert(splice_all(splice(bytes, r), rs) == splice(bytes, r));
        assert(all_fit(splice(bytes, r), rs));
    } else {
        assert(rs.push(r).drop_first() =~= rs.drop_first().push(r));
        assert(rs.push(r)[0] == rs[0]);
        lemma_splice_last(splice(bytes, rs[0]), rs.drop_first(), r);
    }
}

/// An edit that starts no later than those listed before it is made last: its new text takes
/// the place of the bytes from its start to its end, as the content has them, in the text that
/// the others have left. It can be made where its end is not before its start, and both are
/// still between characters.
pub proof fn law_foremost_edit_is_made_last(
    content: Seq<char>,
    edits: Seq<TextEdit>,
    edit: TextEdit,
    start: nat,
    end: nat,
)
    requires
        start == byte_offset(
            content,
            edit.range.start.line as nat,
            edit.range.start.character as nat,
        ),
        end == byte_offset(content, edit.range.end.line as nat, edit.range.end.character as nat),
        forall|i: int|
            0 <= i < edits.len() ==> start <= byte_offset(
                content,
                (#[trigger] edits[i]).range.start.line as nat,
                edits[i].range.start.character as nat,
            ),
    ensures
        ({
            let bytes = edited_bytes(content, edits);
            &&& edited_bytes(content, edits.push(edit)) == bytes.take(start as int) + encode_utf8(
                edit.new_text@,
            ) + bytes.skip(end as int)
            &&& edits_apply(content, edits.push(edit)) == (edits_apply(content, edits) && start
                <= end <= bytes.len() && is_char_boundary(bytes, start as int)
                && is_char_boundary(bytes, end as int))
        }),
{
    let rs = replacements(content, edits);
    let r = replacement(content, edit);
    assert(replacements(content, edits.push(edit)) =~= rs.push(r));
    assert(rs.push(r).drop_last() =~= rs);
    let ops = by_start_descending(rs);
    lemma_order_has_only(rs);
    if ops.len() > 0 {
        assert(rs.contains(ops[ops.len() - 1]));
        let k = choose|k: int| 0 <= k < rs.len() && rs[k] == ops.last();
        assert(ops.last().start == byte_offset(
            content,
            edits[k].range.start.line as nat,
            edits[k].range.start.character as nat,
        ));
    }
    assert(by_start_descending(rs.push(r)) == ops.push(r));
    lemma_splice_last(encode_utf8(content), ops, r);
}

proof fn lemma_order_has_only(rs: Seq<Replacement>)
    ensures
        by_start_descending(rs).len() == rs.len(),
        forall|i: int| 0 <= i < rs.len() ==> rs.contains(#[trigger] by_start_descending(rs)[i]),
    decreases rs.len(),
{
    if rs.len() > 0 {
        let init = rs.drop_last();
        let ordered = by_start_descending(init);
        lemma_order_has_only(init);
        law_application_order(init);
        lemma_insert_multiset(ordered, rs.last());
        let out = by_start_descending(rs);
        assert forall|i: int| 0 <= i < rs.len() implies rs.contains(#[trigger] out[i]) by {
            assert(rs[rs.len() - 1] == rs.last());
            if out[i] != rs.last() {
                assert(ordered.contains(out[i]));
                let m = choose|m: int| 0 <= m < ordered.len() && ordered[m] == out[i];
                assert(init.contains(ordered[m]));
                let k = choose|k: int| 0 <= k < init.len() && init[k] == out[i];
                assert(rs[k] == out[i]);
            }
        }
    }
}

/// A single edit replaces the bytes between its two positions by its new text, and can be made
/// where its end is not before its start.
pub proof fn law_single_edit(content: Seq<char>, edit: TextEdit, start: nat, end: nat)
    requires
        start == byte_offset(
            content,
            edit.range.start.line as nat,
            edit.range.start.character as nat,
        ),
        end == byte_offset(content, edit.range.end.line as nat, edit.range.end.character as nat),
    ensures
        edited_bytes(content, seq![edit]) == encode_utf8(content).take(start as int) + encode_utf8(
            edit.new_text@,
        ) + encode_utf8(content).skip(end as int),
        edits_apply(content, seq![edit]) == (start <= end),
{
    law_no_edits(content);
    law_foremost_edit_is_made_last(content, Seq::empty(), edit, start, end);
    assert(Seq::<TextEdit>::empty().push(edit) =~= seq![edit]);
    law_position_is_boundary(
        content,
        edit.range.start.line as nat,
        edit.range.start.character as nat,
    );
    law_position_is_boundary(content, edit.range.end.line as nat, edit.range.end.character as nat);
}

proof fn lemma_inserts_commute(ordered: Seq<Replacement>, x: Replacement, y: Replacement)
    requires
        x.start > y.start,
    ensures
        insert_by_start(insert_by_start(ordered, x), y) == insert_by_start(
            insert_by_start(ordered, y),
            x,
        ),
    decreases ordered.len(),
{
    let with_y = ordered.push(y);
    assert(with_y.drop_last() =~= ordered);
    if ordered.len() > 0 && ordered.last().start < y.start {
        let init = ordered.drop_last();
        lemma_inserts_commute(init, x, y);
        let last = ordered.last();
        assert(insert_by_start(init, x).push(last).drop_last() =~= insert_by_start(init, x));
        assert(insert_by_start(init, y).push(last).drop_last() =~= insert_by_start(init, y));
    }
}

proof fn lemma_order_of_neighbours(
    before: Seq<Replacement>,
    x: Replacement,
    y: Replacement,
    after: Seq<Replacement>,
)
    requires
        x.start != y.start,
    ensures
        by_start_descending(before + seq![x, y] + after) == by_start_descending(
            before + seq![y, x] + after,
        ),
    decreases after.len(),
{
    let a = before + seq![x, y] + after;
    let b = before + seq![y, x] + after;
    if after.len() == 0 {
        assert(a.drop_last() =~= before.push(x));
        assert(b.drop_last() =~= before.push(y));
        assert(before.push(x).drop_last() =~= before);
        assert(before.push(y).drop_last() =~= before);
        let ordered = by_start_descending(before);
        if x.start > y.start {
            lemma_inserts_commute(ordered, x, y);
        } else {
            lemma_inserts_commute(ordered, y, x);
        }
        assert(by_start_descending(before.push(x)) == insert_by_start(ordered, x));
        assert(by_start_descending(before.push(y)) == insert_by_start(ordered, y));
        assert(a.last() == y && b.last() == x);
        assert(by_start_descending(a) == insert_by_start(insert_by_start(ordered, x), y));
        assert(by_start_descending(b) == insert_by_start(insert_by_start(ordered, y), x));
    } else {
        lemma_order_of_neighbours(before, x, y, after.drop_last());
        assert(a.drop_last() =~= before + seq![x, y] + after.drop_last());
        assert(b.drop_last() =~= before + seq![y, x] + after.drop_last());
    }
}

/// In which order two edits are listed that start at different places makes no difference.
pub proof fn law_listing_order(
    content: Seq<char>,
    before: Seq<TextEdit>,
    x: TextEdit,
    y: TextEdit,
    after: Seq<TextEdit>,
)
    requires
        byte_offset(content, x.range.start.line as nat, x.range.start.character as nat)
            != byte_offset(content, y.range.start.line as nat, y.range.start.character as nat),
    ensures
        edited_bytes(content, before + seq![x, y] + after) == edited_bytes(
            content,
            before + seq![y, x] + after,
        ),
        edits_apply(content, before + seq![x, y] + after) == edits_apply(
            content,
            before + seq![y, x] + after,
        ),
{
    let rx = replacement(content, x);
    let ry = replacement(content, y);
    let rb = replacements(content, before);
    let ra = replacements(content, after);
    assert(replacements(content, before + seq![x, y] + after) =~= rb + seq![rx, ry] + ra);
    assert(replacements(content, before + seq![y, x] + after) =~= rb + seq![ry, rx] + ra);
    lemma_order_of_neighbours(rb, rx, ry, ra);
}

} // verus!
