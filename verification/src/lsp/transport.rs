//! JSON-RPC 2.0 messages and their framing.
//!
//! LSP transports a message as a frame `Content-Length: <n>\r\n\r\n<json>`. The functions
//! here work on bytes: [`write_message`] makes a frame, [`read_message`] takes one off the
//! front of what has arrived and decodes its body into an [`Incoming`]. Matching responses
//! to requests is the client's work.

use crate::encoding;
use crate::encoding::text_of_bytes;
use crate::json;
use crate::json::{Json, JsonTree};
use crate::strings;
use crate::strings::{chars_of, parse_usize, push_decimal, trimmed};
use vstd::prelude::*;
use vstd::slice::slice_subrange;
use vstd::utf8::*;

verus! {

/// The error of a response.
#[derive(Debug)]
pub struct RpcError {
    pub code: i64,
    pub message: String,
    pub data: Option<Json>,
}

/// The content of an [`RpcError`].
#[verifier::ext_equal]
pub struct RpcErrorView {
    pub code: int,
    pub message: Seq<char>,
    pub data: Option<JsonTree>,
}

impl View for RpcError {
    type V = RpcErrorView;

    open spec fn view(&self) -> RpcErrorView {
        RpcErrorView { code: self.code as int, message: self.message@, data: tree_of(self.data) }
    }
}

/// The content of an optional value.
pub open spec fn tree_of(json: Option<Json>) -> Option<JsonTree> {
    match json {
        Some(json) => Some(json@),
        None => None,
    }
}

/// The text of an error.
pub open spec fn rpc_error_text(error: RpcErrorView) -> Seq<char> {
    "JSON-RPC error "@ + strings::decimal_int(error.code) + ": "@ + error.message
}

impl RpcError {
    /// The text of this error.
    pub fn message_text(&self) -> (r: String)
        ensures
            r@ == rpc_error_text(self@),
    {
        let mut out = String::new();
        out.push_str("JSON-RPC error ");
        strings::push_int(&mut out, self.code);
        out.push_str(": ");
        out.push_str(self.message.as_str());
        assert(out@ =~= rpc_error_text(self@));
        out
    }
}

/// A decoded incoming message.
#[derive(Debug)]
pub enum Incoming {
    /// The response to one of our requests, whose ids are integers.
    Response { id: i64, result: Option<Json>, error: Option<RpcError> },
    /// A notification from the server.
    Notification { method: String, params: Json },
    /// A request from the server, to be answered with the same id.
    Request { id: Json, method: String, params: Json },
}

/// The content of an [`Incoming`].
#[verifier::ext_equal]
pub enum IncomingView {
    Response { id: int, result: Option<JsonTree>, error: Option<RpcErrorView> },
    Notification { method: Seq<char>, params: JsonTree },
    Request { id: JsonTree, method: Seq<char>, params: JsonTree },
}

impl View for Incoming {
    type V = IncomingView;

    open spec fn view(&self) -> IncomingView {
        match *self {
            Incoming::Response { id, result, error } => IncomingView::Response {
                id: id as int,
                result: tree_of(result),
                error: match error {
                    Some(error) => Some(error@),
                    None => None,
                },
            },
            Incoming::Notification { method, params } => IncomingView::Notification {
                method: method@,
                params: params@,
            },
            Incoming::Request { id, method, params } => IncomingView::Request {
                id: id@,
                method: method@,
                params: params@,
            },
        }
    }
}

/// Why no message could be read.
#[derive(Debug)]
pub enum TransportError {
    /// A header line is no UTF-8 text, for this reason.
    HeaderNotText(String),
    /// `Content-Length` gives no number.
    InvalidContentLength,
    /// The headers end without a `Content-Length`.
    MissingContentLength,
    /// The stream ends within the body.
    UnexpectedEof,
    /// The body is no JSON document, for this reason.
    MalformedJson(String),
    /// The message is not an object.
    NotAnObject,
    /// The id of a response is not an integer.
    ResponseIdNotInteger,
    /// The error of a response is malformed.
    MalformedError,
    /// The message has neither an id nor a method.
    Unrecognized(Json),
}

/// The content of a [`TransportError`].
#[verifier::ext_equal]
pub enum TransportErrorView {
    HeaderNotText(Seq<char>),
    InvalidContentLength,
    MissingContentLength,
    UnexpectedEof,
    MalformedJson(Seq<char>),
    NotAnObject,
    ResponseIdNotInteger,
    MalformedError,
    Unrecognized(JsonTree),
}

impl View for TransportError {
    type V = TransportErrorView;

    open spec fn view(&self) -> TransportErrorView {
        match self {
            TransportError::HeaderNotText(reason) => TransportErrorView::HeaderNotText(reason@),
            TransportError::InvalidContentLength => TransportErrorView::InvalidContentLength,
            TransportError::MissingContentLength => TransportErrorView::MissingContentLength,
            TransportError::UnexpectedEof => TransportErrorView::UnexpectedEof,
            TransportError::MalformedJson(reason) => TransportErrorView::MalformedJson(reason@),
            TransportError::NotAnObject => TransportErrorView::NotAnObject,
            TransportError::ResponseIdNotInteger => TransportErrorView::ResponseIdNotInteger,
            TransportError::MalformedError => TransportErrorView::MalformedError,
            TransportError::Unrecognized(json) => TransportErrorView::Unrecognized(json@),
        }
    }
}

/// The text of an error.
pub open spec fn transport_error_text(error: TransportErrorView) -> Seq<char> {
    match error {
        TransportErrorView::HeaderNotText(reason) => reason,
        TransportErrorView::InvalidContentLength => "invalid Content-Length"@,
        TransportErrorView::MissingContentLength => "message missing Content-Length"@,
        TransportErrorView::UnexpectedEof => "early eof"@,
        TransportErrorView::MalformedJson(reason) => reason,
        TransportErrorView::NotAnObject => "JSON-RPC message is not an object"@,
        TransportErrorView::ResponseIdNotInteger => "response id is not an integer"@,
        TransportErrorView::MalformedError => "malformed JSON-RPC error"@,
        TransportErrorView::Unrecognized(tree) => "unrecognized JSON-RPC message: "@ + decode_utf8(
            json::json_text(tree),
        ),
    }
}

impl TransportError {
    /// The text of this error.
    pub fn message(&self) -> (r: String)
        ensures
            r@ == transport_error_text(self@),
    {
        match self {
            TransportError::HeaderNotText(reason) => reason.clone(),
            TransportError::InvalidContentLength => "invalid Content-Length".to_string(),
            TransportError::MissingContentLength => "message missing Content-Length".to_string(),
            TransportError::UnexpectedEof => "early eof".to_string(),
            TransportError::MalformedJson(reason) => reason.clone(),
            TransportError::NotAnObject => "JSON-RPC message is not an object".to_string(),
            TransportError::ResponseIdNotInteger => "response id is not an integer".to_string(),
            TransportError::MalformedError => "malformed JSON-RPC error".to_string(),
            TransportError::Unrecognized(value) => {
                let bytes = value.encode();
                let mut out = String::new();
                out.push_str("unrecognized JSON-RPC message: ");
                if let Ok(text) = text_of_bytes(bytes.as_slice()) {
                    out.push_str(text);
                }
                assert(out@ =~= transport_error_text(self@));
                out
            },
        }
    }
}

// ---- messages ----

/// A value that may be left out: `null` counts as left out.
pub open spec fn given(tree: Option<JsonTree>) -> Option<JsonTree> {
    match tree {
        Some(JsonTree::Null) => None,
        other => other,
    }
}

/// An error made of its members, of which the code must be an integer and the message a
/// string.
pub open spec fn rpc_error_from(
    code: Option<JsonTree>,
    message: Option<JsonTree>,
    data: Option<JsonTree>,
) -> Option<RpcErrorView> {
    match (code, message) {
        (Some(code), Some(message)) => match (json::tree_int(code), json::tree_text(message)) {
            (Some(code), Some(message)) => Some(RpcErrorView { code, message, data: given(data) }),
            _ => None,
        },
        _ => None,
    }
}

/// The error that a value stands for: an object with its members, or the array of them.
pub open spec fn rpc_error_of(tree: JsonTree) -> Option<RpcErrorView> {
    match tree {
        JsonTree::Object(_) => rpc_error_from(
            json::tree_field(tree, "code"@),
            json::tree_field(tree, "message"@),
            json::tree_field(tree, "data"@),
        ),
        JsonTree::Array(items) => if items.len() == 2 {
            rpc_error_from(Some(items[0]), Some(items[1]), None)
        } else if items.len() == 3 {
            rpc_error_from(Some(items[0]), Some(items[1]), Some(items[2]))
        } else {
            None
        },
        _ => None,
    }
}

/// The field `key`, or `null` where there is none.
pub open spec fn field_or_null(tree: JsonTree, key: Seq<char>) -> JsonTree {
    match json::tree_field(tree, key) {
        Some(field) => field,
        None => JsonTree::Null,
    }
}

/// The method that a message names.
pub open spec fn method_of(tree: JsonTree) -> Option<Seq<char>> {
    match json::tree_field(tree, "method"@) {
        Some(method) => json::tree_text(method),
        None => None,
    }
}

/// The message that a value stands for. One with an id and a method is a request, one
/// with an id alone a response, one with a method alone a notification.
pub open spec fn incoming_of(tree: JsonTree) -> Result<IncomingView, TransportErrorView> {
    if tree !is Object {
        Err(TransportErrorView::NotAnObject)
    } else {
        match (json::tree_field(tree, "id"@), method_of(tree)) {
            (Some(id), Some(method)) => Ok(
                IncomingView::Request { id, method, params: field_or_null(tree, "params"@) },
            ),
            (Some(id), None) => match json::tree_int(id) {
                None => Err(TransportErrorView::ResponseIdNotInteger),
                Some(id) => match json::tree_field(tree, "error"@) {
                    Some(error) => match rpc_error_of(error) {
                        Some(error) => Ok(
                            IncomingView::Response { id, result: None, error: Some(error) },
                        ),
                        None => Err(TransportErrorView::MalformedError),
                    },
                    None => Ok(
                        IncomingView::Response {
                            id,
                            result: json::tree_field(tree, "result"@),
                            error: None,
                        },
                    ),
                },
            },
            (None, Some(method)) => Ok(
                IncomingView::Notification { method, params: field_or_null(tree, "params"@) },
            ),
            (None, None) => Err(TransportErrorView::Unrecognized(tree)),
        }
    }
}

/// The content of the result of decoding a message.
pub open spec fn incoming_view(r: Result<Incoming, TransportError>) -> Result<
    IncomingView,
    TransportErrorView,
> {
    match r {
        Ok(incoming) => Ok(incoming@),
        Err(error) => Err(error@),
    }
}

/// A copy of an optional value.
fn cloned(json: Option<&Json>) -> (r: Option<Json>)
    ensures
        tree_of(r) == (match json {
            Some(json) => Some(json@),
            None => None,
        }),
{
    match json {
        Some(json) => Some(json.clone()),
        None => None,
    }
}

/// The error made of these members.
fn error_from(code: Option<&Json>, message: Option<&Json>, data: Option<&Json>) -> (r: Option<
    RpcError,
>)
    ensures
        (match r {
            Some(error) => Some(error@),
            None => None,
        }) == rpc_error_from(tree_of_ref(code), tree_of_ref(message), tree_of_ref(data)),
{
    if let (Some(code), Some(message)) = (code, message) {
        if let (Some(code), Some(message)) = (code.as_i64(), message.as_str()) {
            let data = match data {
                Some(Json::Null) => None,
                other => cloned(other),
            };
            return Some(RpcError { code, message: message.to_string(), data });
        }
    }
    None
}

/// The content of an optional value.
pub open spec fn tree_of_ref(json: Option<&Json>) -> Option<JsonTree> {
    match json {
        Some(json) => Some(json@),
        None => None,
    }
}

/// The error that `value` stands for.
pub fn parse_rpc_error(value: &Json) -> (r: Option<RpcError>)
    ensures
        (match r {
            Some(error) => Some(error@),
            None => None,
        }) == rpc_error_of(value@),
{
    match value {
        Json::Object(_) => error_from(value.get("code"), value.get("message"), value.get("data")),
        Json::Array(items) => {
            if items.len() == 2 {
                error_from(Some(&items[0]), Some(&items[1]), None)
            } else if items.len() == 3 {
                error_from(Some(&items[0]), Some(&items[1]), Some(&items[2]))
            } else {
                None
            }
        },
        _ => None,
    }
}

/// The message that `value` stands for.
pub fn parse_incoming(value: Json) -> (r: Result<Incoming, TransportError>)
    ensures
        incoming_view(r) == incoming_of(value@),
{
    if !matches!(value, Json::Object(_)) {
        return Err(TransportError::NotAnObject);
    }
    let method = match value.get("method") {
        Some(method) => method.as_str(),
        None => None,
    };
    match (value.get("id"), method) {
        (Some(id), Some(method)) => {
            let params = match cloned(value.get("params")) {
                Some(params) => params,
                None => Json::Null,
            };
            Ok(Incoming::Request { id: id.clone(), method: method.to_string(), params })
        },
        (Some(id), None) => match id.as_i64() {
            None => Err(TransportError::ResponseIdNotInteger),
            Some(id) => match value.get("error") {
                Some(error) => match parse_rpc_error(error) {
                    Some(error) => Ok(
                        Incoming::Response { id, result: None, error: Some(error) },
                    ),
                    None => Err(TransportError::MalformedError),
                },
                None => Ok(
                    Incoming::Response { id, result: cloned(value.get("result")), error: None },
                ),
            },
        },
        (None, Some(method)) => {
            let params = match cloned(value.get("params")) {
                Some(params) => params,
                None => Json::Null,
            };
            Ok(Incoming::Notification { method: method.to_string(), params })
        },
        (None, None) => Err(TransportError::Unrecognized(value)),
    }
}

// ---- frames ----

/// The text before a body of `length` bytes.
pub open spec fn header_text(length: nat) -> Seq<char> {
    "Content-Length: "@ + strings::decimal(length) + "\r\n\r\n"@
}

/// The frame of a body.
pub open spec fn frame(body: Seq<u8>) -> Seq<u8> {
    encode_utf8(header_text(body.len())) + body
}

/// What one header line says.
pub enum HeaderLine {
    /// The line is no text, for this reason.
    NotText(Seq<char>),
    /// The line is empty: the headers end.
    Blank,
    /// The body's length.
    Length(nat),
    /// A length that is no number.
    BadLength,
    /// Another header, which is ignored.
    Other,
}

/// A line without the line break at its end.
pub open spec fn without_line_break(line: Seq<char>) -> Seq<char>
    decreases line.len(),
{
    if line.len() > 0 && (line.last() == '\r' || line.last() == '\n') {
        without_line_break(line.drop_last())
    } else {
        line
    }
}

/// What the text of a header line says.
pub open spec fn header_of(text: Seq<char>) -> HeaderLine {
    let name = "Content-Length:"@;
    if text.len() == 0 {
        HeaderLine::Blank
    } else if name.is_prefix_of(text) {
        match strings::usize_value(strings::trim(text.skip(name.len() as int))) {
            Some(length) => HeaderLine::Length(length),
            None => HeaderLine::BadLength,
        }
    } else {
        HeaderLine::Other
    }
}

/// What a header line says.
pub open spec fn header_line(line: Seq<u8>) -> HeaderLine {
    if valid_utf8(line) {
        header_of(without_line_break(decode_utf8(line)))
    } else {
        HeaderLine::NotText(encoding::utf8_fault(line))
    }
}

/// Where the first line ends, behind its line break; `None` where it has none.
pub open spec fn line_end(bytes: Seq<u8>) -> Option<nat>
    decreases bytes.len(),
{
    if bytes.len() == 0 {
        None
    } else if bytes[0] == 10 {
        Some(1)
    } else {
        match line_end(bytes.drop_first()) {
            Some(end) => Some(end + 1),
            None => None,
        }
    }
}

/// What the headers at the front of a stream say.
#[verifier::ext_equal]
pub enum Headers {
    /// More bytes are needed.
    Incomplete,
    /// The stream ended before the end of the headers.
    Closed,
    Failed(TransportErrorView),
    /// The headers are complete; the body has this length and is at the front of `rest`.
    Complete { length: nat, rest: Seq<u8> },
}

/// Reads headers off the front of `input`, the stream having ended behind it where `eof`
/// says so; `length` is what an earlier header gave. A last line without a line break
/// counts as a line when the stream has ended.
pub open spec fn headers(input: Seq<u8>, eof: bool, length: Option<nat>) -> Headers
    decreases input.len(),
{
    let end: nat = match line_end(input) {
        Some(end) => end,
        None => input.len(),
    };
    if line_end(input) is None && !eof {
        Headers::Incomplete
    } else if input.len() == 0 {
        Headers::Closed
    } else if end == 0 || end > input.len() {
        Headers::Closed
    } else {
        match header_line(input.take(end as int)) {
            HeaderLine::NotText(reason) => Headers::Failed(
                TransportErrorView::HeaderNotText(reason),
            ),
            HeaderLine::BadLength => Headers::Failed(TransportErrorView::InvalidContentLength),
            HeaderLine::Blank => match length {
                Some(length) => Headers::Complete { length, rest: input.skip(end as int) },
                None => Headers::Failed(TransportErrorView::MissingContentLength),
            },
            HeaderLine::Length(length) => headers(input.skip(end as int), eof, Some(length)),
            HeaderLine::Other => headers(input.skip(end as int), eof, length),
        }
    }
}

/// What stands at the front of a stream.
#[verifier::ext_equal]
pub enum FrameView {
    Incomplete,
    Closed,
    Failed(TransportErrorView),
    /// A frame with this body, and what follows it.
    Frame { body: Seq<u8>, rest: Seq<u8> },
}

/// Reads a frame off the front of `input`.
pub open spec fn read_frame(input: Seq<u8>, eof: bool) -> FrameView {
    match headers(input, eof, None) {
        Headers::Incomplete => FrameView::Incomplete,
        Headers::Closed => FrameView::Closed,
        Headers::Failed(error) => FrameView::Failed(error),
        Headers::Complete { length, rest } => if length <= rest.len() {
            FrameView::Frame { body: rest.take(length as int), rest: rest.skip(length as int) }
        } else if eof {
            FrameView::Failed(TransportErrorView::UnexpectedEof)
        } else {
            FrameView::Incomplete
        },
    }
}

/// What reading a message from the front of a stream gives.
#[verifier::ext_equal]
pub enum ReadView {
    /// More bytes are needed.
    Incomplete,
    /// The stream ended where a message would begin.
    Closed,
    Failed(TransportErrorView),
    /// A message, and what follows it.
    Message { incoming: IncomingView, rest: Seq<u8> },
}

/// The message that a body holds, given what reading it as JSON gave.
pub open spec fn body_message(document: Result<JsonTree, Seq<char>>, rest: Seq<u8>) -> ReadView {
    match document {
        Err(reason) => ReadView::Failed(TransportErrorView::MalformedJson(reason)),
        Ok(tree) => match incoming_of(tree) {
            Ok(incoming) => ReadView::Message { incoming, rest },
            Err(error) => ReadView::Failed(error),
        },
    }
}

/// Reads a message off the front of `input`.
pub open spec fn message_at(input: Seq<u8>, eof: bool) -> ReadView {
    match read_frame(input, eof) {
        FrameView::Incomplete => ReadView::Incomplete,
        FrameView::Closed => ReadView::Closed,
        FrameView::Failed(error) => ReadView::Failed(error),
        FrameView::Frame { body, rest } => body_message(json::json_document(body), rest),
    }
}

proof fn lemma_line_end(bytes: Seq<u8>)
    ensures
        match line_end(bytes) {
            Some(end) => 0 < end <= bytes.len() && bytes[end - 1] == 10 && forall|i: int|
                0 <= i < end - 1 ==> bytes[i] != 10,
            None => forall|i: int| 0 <= i < bytes.len() ==> bytes[i] != 10,
        },
    decreases bytes.len(),
{
    if bytes.len() > 0 && bytes[0] != 10 {
        let tail = bytes.drop_first();
        lemma_line_end(tail);
        match line_end(tail) {
            Some(end) => {
                assert(tail[end - 1] == bytes[end as int]);
                assert forall|i: int| 0 <= i < end implies bytes[i] != 10 by {
                    if i > 0 {
                        assert(tail[i - 1] == bytes[i]);
                    }
                }
            },
            None => {
                assert forall|i: int| 0 <= i < bytes.len() implies bytes[i] != 10 by {
                    if i > 0 {
                        assert(tail[i - 1] == bytes[i]);
                    }
                }
            },
        }
    }
}

proof fn lemma_line_end_at(bytes: Seq<u8>, end: nat)
    requires
        0 < end <= bytes.len(),
        bytes[end - 1] == 10,
        forall|i: int| 0 <= i < end - 1 ==> bytes[i] != 10,
    ensures
        line_end(bytes) == Some(end),
{
    lemma_line_end(bytes);
    match line_end(bytes) {
        Some(e) => {
            if e < end {
                assert(bytes[e - 1] != 10);
            } else if end < e {
                assert(bytes[end - 1] != 10);
            }
        },
        None => {
            assert(bytes[end - 1] != 10);
        },
    }
}

/// What a header line says, with its number as a machine word.
enum LineKind {
    NotText(String),
    Blank,
    Length(usize),
    BadLength,
    Other,
}

spec fn line_kind_view(kind: LineKind) -> HeaderLine {
    match kind {
        LineKind::NotText(reason) => HeaderLine::NotText(reason@),
        LineKind::Blank => HeaderLine::Blank,
        LineKind::Length(n) => HeaderLine::Length(n as nat),
        LineKind::BadLength => HeaderLine::BadLength,
        LineKind::Other => HeaderLine::Other,
    }
}

/// What a header line says.
fn classify(line: &[u8]) -> (r: LineKind)
    ensures
        line_kind_view(r) == header_line(line@),
{
    let text = match text_of_bytes(line) {
        Ok(text) => text,
        Err(reason) => {
            return LineKind::NotText(reason);
        },
    };
    let chars = chars_of(text);
    let ghost all = text@;
    let mut end: usize = chars.len();
    assert(all.take(end as int) == all);
    while end > 0 && (chars[end - 1] == '\r' || chars[end - 1] == '\n')
        invariant
            chars@ == all,
            end <= all.len(),
            without_line_break(all) == without_line_break(all.take(end as int)),
        decreases end,
    {
        assert(all.take(end as int).drop_last() == all.take(end - 1));
        end = end - 1;
    }
    let ghost trimmed_line = all.take(end as int);
    assert(without_line_break(all) == trimmed_line);
    if end == 0 {
        return LineKind::Blank;
    }
    let name = chars_of("Content-Length:");
    let ghost wanted = "Content-Length:"@;
    if end < name.len() {
        assert(!wanted.is_prefix_of(trimmed_line));
        return LineKind::Other;
    }
    let mut i: usize = 0;
    while i < name.len()
        invariant
            chars@ == all,
            name@ == wanted,
            wanted == "Content-Length:"@,
            trimmed_line == all.take(end as int),
            without_line_break(all) == trimmed_line,
            all == decode_utf8(line@),
            valid_utf8(line@),
            0 < end <= all.len(),
            name@.len() <= end,
            i <= name@.len(),
            forall|j: int| 0 <= j < i ==> all[j] == wanted[j],
        decreases name.len() - i,
    {
        if chars[i] != name[i] {
            assert(!wanted.is_prefix_of(trimmed_line)) by {
                if wanted.is_prefix_of(trimmed_line) {
                    assert(trimmed_line.subrange(0, wanted.len() as int)[i as int] == wanted[i as int]);
                }
            }
            return LineKind::Other;
        }
        i = i + 1;
    }
    assert(wanted =~= trimmed_line.subrange(0, wanted.len() as int));
    let (from, to) = trimmed(&chars, name.len(), end);
    assert(chars@.subrange(name@.len() as int, end as int) == trimmed_line.skip(
        wanted.len() as int,
    ));
    match parse_usize(&chars, from, to) {
        Some(length) => LineKind::Length(length),
        None => LineKind::BadLength,
    }
}

/// What [`take_frame`] finds at the front of a stream.
pub enum FrameStep {
    Incomplete,
    Closed,
    Failed(TransportError),
    /// The frame's body is `input[start..end]`; the next frame begins at `end`.
    Frame { start: usize, end: usize },
}

/// What a [`FrameStep`] says of `input`.
pub open spec fn frame_step_view(step: FrameStep, input: Seq<u8>) -> FrameView {
    match step {
        FrameStep::Incomplete => FrameView::Incomplete,
        FrameStep::Closed => FrameView::Closed,
        FrameStep::Failed(error) => FrameView::Failed(error@),
        FrameStep::Frame { start, end } => FrameView::Frame {
            body: input.subrange(start as int, end as int),
            rest: input.skip(end as int),
        },
    }
}

/// Finds the frame at the front of `input`, the stream having ended behind it where `eof`
/// says so.
pub fn take_frame(input: &[u8], eof: bool) -> (r: FrameStep)
    ensures
        r matches FrameStep::Frame { start, end } ==> start <= end <= input@.len(),
        frame_step_view(r, input@) == read_frame(input@, eof),
{
    let mut at: usize = 0;
    let mut length: Option<usize> = None;
    assert(input@.skip(0) == input@);
    loop
        invariant
            at <= input@.len(),
            headers(input@, eof, None) == headers(
                input@.skip(at as int),
                eof,
                match length {
                    Some(n) => Some(n as nat),
                    None => None,
                },
            ),
        decreases input@.len() - at,
    {
        let ghost rest = input@.skip(at as int);
        let mut end: usize = at;
        while end < input.len() && input[end] != 10
            invariant
                at <= end <= input@.len(),
                forall|i: int| at <= i < end ==> input@[i] != 10,
            decreases input.len() - end,
        {
            end = end + 1;
        }
        proof {
            lemma_line_end(rest);
            assert forall|i: int| 0 <= i < end - at implies rest[i] != 10 by {
                assert(rest[i] == input@[at + i]);
            }
            if end < input@.len() {
                assert(rest[end - at] == 10);
                lemma_line_end_at(rest, (end - at + 1) as nat);
            }
        }
        if end == input.len() {
            if !eof {
                return FrameStep::Incomplete;
            }
            if at == input.len() {
                return FrameStep::Closed;
            }
        } else {
            end = end + 1;
        }
        assert(rest.take(end - at) == input@.subrange(at as int, end as int));
        assert(rest.skip(end - at) == input@.skip(end as int));
        let line = slice_subrange(input, at, end);
        match classify(line) {
            LineKind::NotText(reason) => {
                return FrameStep::Failed(TransportError::HeaderNotText(reason));
            },
            LineKind::BadLength => {
                return FrameStep::Failed(TransportError::InvalidContentLength);
            },
            LineKind::Blank => {
                return match length {
                    None => FrameStep::Failed(TransportError::MissingContentLength),
                    Some(n) => {
                        let ghost after = input@.skip(end as int);
                        if n <= input.len() - end {
                            assert(after.take(n as int) == input@.subrange(end as int, end + n));
                            assert(after.skip(n as int) == input@.skip(end + n));
                            FrameStep::Frame { start: end, end: end + n }
                        } else if eof {
                            FrameStep::Failed(TransportError::UnexpectedEof)
                        } else {
                            FrameStep::Incomplete
                        }
                    },
                };
            },
            LineKind::Length(n) => {
                length = Some(n);
            },
            LineKind::Other => {},
        }
        at = end;
    }
}

/// What [`read_message`] finds at the front of a stream.
#[derive(Debug)]
pub enum ReadStep {
    /// More bytes are needed.
    Incomplete,
    /// The stream ended where a message would begin.
    Closed,
    Failed(TransportError),
    /// A message; the next one begins at `consumed`.
    Message { incoming: Incoming, consumed: usize },
}

/// What a [`ReadStep`] says of `input`.
pub open spec fn read_step_view(step: ReadStep, input: Seq<u8>) -> ReadView {
    match step {
        ReadStep::Incomplete => ReadView::Incomplete,
        ReadStep::Closed => ReadView::Closed,
        ReadStep::Failed(error) => ReadView::Failed(error@),
        ReadStep::Message { incoming, consumed } => ReadView::Message {
            incoming: incoming@,
            rest: input.skip(consumed as int),
        },
    }
}

/// Reads the message at the front of `input`, the bytes that have arrived so far; `eof`
/// says whether the stream has ended behind them.
pub fn read_message(input: &[u8], eof: bool) -> (r: ReadStep)
    ensures
        r matches ReadStep::Message { incoming, consumed } ==> consumed <= input@.len(),
        read_step_view(r, input@) == message_at(input@, eof),
{
    match take_frame(input, eof) {
        FrameStep::Incomplete => ReadStep::Incomplete,
        FrameStep::Closed => ReadStep::Closed,
        FrameStep::Failed(error) => ReadStep::Failed(error),
        FrameStep::Frame { start, end } => match Json::parse(slice_subrange(input, start, end)) {
            Err(reason) => ReadStep::Failed(TransportError::MalformedJson(reason)),
            Ok(value) => match parse_incoming(value) {
                Ok(incoming) => ReadStep::Message { incoming, consumed: end },
                Err(error) => ReadStep::Failed(error),
            },
        },
    }
}

/// What has arrived from a server and has not been read yet.
#[derive(Debug)]
pub struct Inbox {
    bytes: Vec<u8>,
    eof: bool,
}

/// The content of an [`Inbox`]: its bytes, and whether the stream has ended behind them.
#[verifier::ext_equal]
pub struct InboxView {
    pub bytes: Seq<u8>,
    pub eof: bool,
}

impl View for Inbox {
    type V = InboxView;

    closed spec fn view(&self) -> InboxView {
        InboxView { bytes: self.bytes@, eof: self.eof }
    }
}

impl Inbox {
    /// Nothing has arrived.
    pub fn new() -> (r: Self)
        ensures
            r@ == (InboxView { bytes: Seq::empty(), eof: false }),
    {
        Inbox { bytes: Vec::new(), eof: false }
    }

    /// More bytes have arrived.
    pub fn feed(&mut self, chunk: &[u8])
        ensures
            final(self)@ == (InboxView {
                bytes: old(self)@.bytes + chunk@,
                eof: old(self)@.eof,
            }),
    {
        let mut i: usize = 0;
        while i < chunk.len()
            invariant
                i <= chunk@.len(),
                self.bytes@ == old(self).bytes@ + chunk@.take(i as int),
                self.eof == old(self).eof,
            decreases chunk.len() - i,
        {
            self.bytes.push(chunk[i]);
            i = i + 1;
        }
        assert(chunk@.take(i as int) == chunk@);
    }

    /// The stream has ended.
    pub fn close(&mut self)
        ensures
            final(self)@ == (InboxView { eof: true, ..old(self)@ }),
    {
        self.eof = true;
    }

    /// Takes out the next message, where a whole one has arrived; otherwise nothing is taken
    /// out.
    pub fn next(&mut self) -> (r: Next)
        ensures
            next_view(r, final(self)@.bytes) == message_at(old(self)@.bytes, old(self)@.eof),
            r !is Message ==> final(self)@ == old(self)@,
            final(self)@.eof == old(self)@.eof,
    {
        match read_message(self.bytes.as_slice(), self.eof) {
            ReadStep::Incomplete => Next::Incomplete,
            ReadStep::Closed => Next::Closed,
            ReadStep::Failed(error) => Next::Failed(error),
            ReadStep::Message { incoming, consumed } => {
                let rest = self.bytes.split_off(consumed);
                assert(rest@ == old(self)@.bytes.skip(consumed as int));
                self.bytes = rest;
                Next::Message(incoming)
            },
        }
    }
}

/// What an [`Inbox`] gives.
#[derive(Debug)]
pub enum Next {
    /// More bytes are needed.
    Incomplete,
    /// The stream ended where a message would begin.
    Closed,
    Failed(TransportError),
    Message(Incoming),
}

/// What a [`Next`] says, `rest` being left in the inbox.
pub open spec fn next_view(next: Next, rest: Seq<u8>) -> ReadView {
    match next {
        Next::Incomplete => ReadView::Incomplete,
        Next::Closed => ReadView::Closed,
        Next::Failed(error) => ReadView::Failed(error@),
        Next::Message(incoming) => ReadView::Message { incoming: incoming@, rest },
    }
}

/// The frame of `body`.
pub fn write_frame(body: &Vec<u8>) -> (r: Vec<u8>)
    ensures
        r@ == frame(body@),
        body@.len() <= usize::MAX,
{
    let mut header = String::new();
    header.push_str("Content-Length: ");
    push_decimal(&mut header, body.len() as u64);
    header.push_str("\r\n\r\n");
    assert(header@ =~= header_text(body@.len()));
    let mut out: Vec<u8> = Vec::new();
    let head = header.as_str().as_bytes();
    let mut i: usize = 0;
    while i < head.len()
        invariant
            i <= head@.len(),
            out@ == head@.take(i as int),
        decreases head.len() - i,
    {
        out.push(head[i]);
        i = i + 1;
    }
    assert(head@.take(i as int) == head@);
    let mut j: usize = 0;
    while j < body.len()
        invariant
            j <= body@.len(),
            out@ == head@ + body@.take(j as int),
        decreases body.len() - j,
    {
        out.push(body[j]);
        j = j + 1;
    }
    assert(body@.take(j as int) == body@);
    out
}

/// The frame of a message. Read at the front of a stream, it gives the message back and
/// leaves the rest, unless `value` holds a fraction or nests too deep for the reader.
pub fn write_message(value: &Json) -> (r: Vec<u8>)
    ensures
        r@ == frame(json::json_text(value@)),
        json::exact_within(value@, json::nesting_limit()) ==> forall|rest: Seq<u8>, eof: bool|
            #[trigger] message_at(r@ + rest, eof) == body_message(Ok(value@), rest),
{
    let body = value.encode();
    let out = write_frame(&body);
    proof {
        assert forall|rest: Seq<u8>, eof: bool|
            json::exact_within(value@, json::nesting_limit()) implies #[trigger] message_at(out@ + rest, eof)
            == body_message(Ok(value@), rest) by {
            law_frame_round_trip(body@, rest, eof);
        }
    }
    out
}

// ---- laws ----

/// `text` without a line break, and with one more line break behind it.
proof fn lemma_header_line(text: Seq<char>, rest: Seq<u8>)
    requires
        is_ascii_chars(text),
        forall|i: int| 0 <= i < text.len() ==> text[i] != '\r' && text[i] != '\n',
    ensures
        line_end(encode_utf8(text + "\r\n"@) + rest) == Some(
            encode_utf8(text + "\r\n"@).len(),
        ),
        encode_utf8(text + "\r\n"@).len() == text.len() + 2,
        header_line(encode_utf8(text + "\r\n"@)) == header_of(text),
{
    reveal_strlit("\r\n");
    let line = text + "\r\n"@;
    assert(is_ascii_chars(line)) by {
        assert forall|i: int| 0 <= i < line.len() implies '\0' <= #[trigger] line[i] <= '\u{7f}' by {
            if i < text.len() {
                assert(line[i] == text[i]);
            }
        }
    }
    is_ascii_chars_encode_utf8(line);
    let bytes = encode_utf8(line);
    let all = bytes + rest;
    assert forall|i: int| 0 <= i < bytes.len() - 1 implies all[i] != 10 by {
        assert(all[i] == bytes[i]);
        assert(line[i] as u8 == bytes[i]);
        if i < text.len() {
            assert(line[i] == text[i]);
        }
    }
    assert(line[line.len() - 1] as u8 == bytes[bytes.len() - 1]);
    assert(all[bytes.len() - 1] == 10);
    lemma_line_end_at(all, bytes.len());
    encode_utf8_valid_utf8(line);
    encode_utf8_decode_utf8(line);
    assert(line.drop_last() == text.push('\r'));
    assert(line.drop_last().drop_last() == text);
    assert(without_line_break(line) == without_line_break(line.drop_last()));
    assert(without_line_break(line.drop_last()) == without_line_break(text));
    assert(without_line_break(text) == text);
}

/// The header of a frame gives the length of its body.
proof fn lemma_length_header(length: nat)
    requires
        length <= usize::MAX,
    ensures
        ({
            let text = "Content-Length: "@ + strings::decimal(length);
            &&& is_ascii_chars(text)
            &&& forall|i: int| 0 <= i < text.len() ==> text[i] != '\r' && text[i] != '\n'
            &&& header_of(text) == HeaderLine::Length(length)
        }),
{
    reveal_strlit("Content-Length: ");
    reveal_strlit("Content-Length:");
    strings::lemma_decimal(length);
    let number = strings::decimal(length);
    let text = "Content-Length: "@ + number;
    assert forall|i: int| 0 <= i < text.len() implies '\0' <= #[trigger] text[i] <= '\u{7f}'
        && text[i] != '\r' && text[i] != '\n' by {
        if i >= 16 {
            assert(text[i] == number[i - 16]);
            assert(strings::is_digit(number[i - 16]));
        }
    }
    let name = "Content-Length:"@;
    assert(name =~= text.subrange(0, 15));
    let value = text.skip(15);
    assert(value[0] == ' ');
    assert(value.drop_first() == number);
    assert(strings::is_digit(number[0]));
    assert(strings::is_digit(number[number.len() - 1]));
    assert(strings::trim_start(number) == number);
    assert(strings::trim_start(value) == number);
    assert(strings::trim_end(number) == number);
    assert(strings::without_plus(number) == number);
}

/// Reading the frame of a body gives that body and leaves what follows the frame.
pub proof fn law_frame_round_trip(body: Seq<u8>, rest: Seq<u8>, eof: bool)
    requires
        body.len() <= usize::MAX,
    ensures
        read_frame(frame(body) + rest, eof) == (FrameView::Frame { body, rest }),
{
    let text = "Content-Length: "@ + strings::decimal(body.len());
    let none = Seq::<char>::empty();
    let line = encode_utf8(text + "\r\n"@);
    let blank = encode_utf8(none + "\r\n"@);
    let input = frame(body) + rest;
    assert(input =~= line + (blank + (body + rest))) by {
        reveal_strlit("\r\n\r\n");
        reveal_strlit("\r\n");
        assert(header_text(body.len()) =~= (text + "\r\n"@) + (none + "\r\n"@));
        encoding::lemma_encode_concat(text + "\r\n"@, none + "\r\n"@);
    }
    lemma_length_header(body.len());
    lemma_header_line(text, blank + (body + rest));
    lemma_header_line(none, body + rest);
    let after = blank + (body + rest);
    assert(input.take(line.len() as int) == line);
    assert(input.skip(line.len() as int) == after);
    assert(after.take(blank.len() as int) == blank);
    assert(after.skip(blank.len() as int) == body + rest);
    assert(headers(input, eof, None) == headers(after, eof, Some(body.len())));
    assert(headers(after, eof, Some(body.len())) == (Headers::Complete {
        length: body.len(),
        rest: body + rest,
    }));
    assert((body + rest).take(body.len() as int) == body);
    assert((body + rest).skip(body.len() as int) == rest);
}

/// What is left of a frame's rest when `more` arrives behind it.
pub open spec fn extended(frame: FrameView, more: Seq<u8>) -> FrameView {
    match frame {
        FrameView::Frame { body, rest } => FrameView::Frame { body, rest: rest + more },
        other => other,
    }
}

proof fn lemma_headers_extend(input: Seq<u8>, length: Option<nat>, more: Seq<u8>, eof: bool)
    ensures
        match headers(input, false, length) {
            Headers::Incomplete => true,
            Headers::Closed => false,
            Headers::Failed(error) => headers(input + more, eof, length) == Headers::Failed(error),
            Headers::Complete { length: n, rest } => headers(input + more, eof, length)
                == (Headers::Complete { length: n, rest: rest + more }),
        },
    decreases input.len(),
{
    lemma_line_end(input);
    if let Some(end) = line_end(input) {
        let all = input + more;
        assert forall|i: int| 0 <= i < end - 1 implies all[i] != 10 by {
            assert(all[i] == input[i]);
        }
        lemma_line_end_at(all, end);
        assert(all.take(end as int) == input.take(end as int));
        assert(all.skip(end as int) == input.skip(end as int) + more);
        match header_line(input.take(end as int)) {
            HeaderLine::Length(n) => {
                lemma_headers_extend(input.skip(end as int), Some(n), more, eof);
            },
            HeaderLine::Other => {
                lemma_headers_extend(input.skip(end as int), length, more, eof);
            },
            _ => {},
        }
    }
}

/// Bytes that arrive later do not change what has been read: once a frame or an error has
/// been found, it stays, however the stream goes on.
pub proof fn law_reading_is_incremental(input: Seq<u8>, more: Seq<u8>, eof: bool)
    ensures
        read_frame(input, false) !is Incomplete ==> read_frame(input + more, eof) == extended(
            read_frame(input, false),
            more,
        ),
{
    lemma_headers_extend(input, None, more, eof);
    if let Headers::Complete { length, rest } = headers(input, false, None) {
        if length <= rest.len() {
            assert((rest + more).take(length as int) == rest.take(length as int));
            assert((rest + more).skip(length as int) == rest.skip(length as int) + more);
        }
    }
}

/// The frames of several bodies, one behind the other.
pub open spec fn frames(bodies: Seq<Seq<u8>>) -> Seq<u8>
    decreases bodies.len(),
{
    if bodies.len() == 0 {
        Seq::empty()
    } else {
        frame(bodies[0]) + frames(bodies.drop_first())
    }
}

/// The bodies that `count` frames at the front of a stream hold.
pub open spec fn bodies_read(stream: Seq<u8>, count: nat, eof: bool) -> Option<
    (Seq<Seq<u8>>, Seq<u8>),
>
    decreases count,
{
    if count == 0 {
        Some((Seq::empty(), stream))
    } else {
        match read_frame(stream, eof) {
            FrameView::Frame { body, rest } => match bodies_read(rest, (count - 1) as nat, eof) {
                Some((bodies, left)) => Some((seq![body] + bodies, left)),
                None => None,
            },
            _ => None,
        }
    }
}

/// A stream of frames gives back the bodies in order, each exactly once.
pub proof fn law_stream_round_trip(bodies: Seq<Seq<u8>>, rest: Seq<u8>, eof: bool)
    requires
        forall|i: int| 0 <= i < bodies.len() ==> (#[trigger] bodies[i]).len() <= usize::MAX,
    ensures
        bodies_read(frames(bodies) + rest, bodies.len(), eof) == Some((bodies, rest)),
    decreases bodies.len(),
{
    if bodies.len() == 0 {
        assert(frames(bodies) + rest == rest);
        assert(bodies == Seq::<Seq<u8>>::empty());
    } else {
        let tail = bodies.drop_first();
        assert forall|i: int| 0 <= i < tail.len() implies (#[trigger] tail[i]).len()
            <= usize::MAX by {
            assert(tail[i] == bodies[i + 1]);
        }
        law_stream_round_trip(tail, rest, eof);
        assert(frames(bodies) + rest == frame(bodies[0]) + (frames(tail) + rest));
        law_frame_round_trip(bodies[0], frames(tail) + rest, eof);
        assert(seq![bodies[0]] + tail == bodies);
    }
}

/// The frame of a body is a header with its length in bytes, an empty line, and the body.
pub proof fn law_frame_bytes(body: Seq<u8>)
    ensures
        frame(body) == encode_utf8(
            "Content-Length: "@ + strings::decimal(body.len()) + "\r\n\r\n"@,
        ) + body,
{
}

/// A header line is read without its line break, whatever line break that is.
pub proof fn law_line_break_is_dropped(text: Seq<char>, line_break: Seq<char>)
    requires
        text.len() > 0 ==> text.last() != '\r' && text.last() != '\n',
        forall|i: int|
            0 <= i < line_break.len() ==> #[trigger] line_break[i] == '\r' || line_break[i] == '\n',
    ensures
        header_line(encode_utf8(text + line_break)) == header_of(text),
{
    let line = text + line_break;
    encode_utf8_valid_utf8(line);
    encode_utf8_decode_utf8(line);
    lemma_without_line_break(text, line_break);
}

proof fn lemma_without_line_break(text: Seq<char>, line_break: Seq<char>)
    requires
        text.len() > 0 ==> text.last() != '\r' && text.last() != '\n',
        forall|i: int|
            0 <= i < line_break.len() ==> #[trigger] line_break[i] == '\r' || line_break[i] == '\n',
    ensures
        without_line_break(text + line_break) == text,
    decreases line_break.len(),
{
    if line_break.len() == 0 {
        assert(text + line_break =~= text);
    } else {
        let shorter = line_break.drop_last();
        assert forall|i: int| 0 <= i < shorter.len() implies #[trigger] shorter[i] == '\r'
            || shorter[i] == '\n' by {
            assert(shorter[i] == line_break[i]);
        }
        assert(line_break[line_break.len() - 1] == line_break.last());
        assert((text + line_break).last() == line_break.last());
        assert((text + line_break).drop_last() =~= text + shorter);
        lemma_without_line_break(text, shorter);
    }
}

/// A header line that is empty ends the headers, one with the length gives the number behind
/// its name, and any other one counts for nothing.
pub proof fn law_header_kinds(text: Seq<char>, value: Seq<char>, length: nat)
    ensures
        header_of(Seq::empty()) == HeaderLine::Blank,
        strings::usize_value(strings::trim(value)) == Some(length) ==> header_of(
            "Content-Length:"@ + value,
        ) == HeaderLine::Length(length),
        strings::usize_value(strings::trim(value)) is None ==> header_of(
            "Content-Length:"@ + value,
        ) == HeaderLine::BadLength,
        text.len() > 0 && !"Content-Length:"@.is_prefix_of(text) ==> header_of(text)
            == HeaderLine::Other,
{
    reveal_strlit("Content-Length:");
    let name = "Content-Length:"@;
    let line = name + value;
    assert(name =~= line.subrange(0, name.len() as int));
    assert(line.skip(name.len() as int) =~= value);
}

/// A line that is no text is refused, with the reason.
pub proof fn law_header_must_be_text(line: Seq<u8>)
    requires
        !valid_utf8(line),
    ensures
        header_line(line) == HeaderLine::NotText(encoding::utf8_fault(line)),
{
}

/// Headers are read line by line. The last length counts; other headers count for nothing; at
/// the empty line the body begins, and its length must be known.
pub proof fn law_headers_line_by_line(
    content: Seq<u8>,
    rest: Seq<u8>,
    eof: bool,
    length: Option<nat>,
    number: nat,
    reason: Seq<char>,
)
    requires
        forall|i: int| 0 <= i < content.len() ==> #[trigger] content[i] != 10,
    ensures
        ({
            let line = content + seq![10u8];
            let result = headers(line + rest, eof, length);
            let says = header_line(line);
            &&& says == HeaderLine::Other ==> result == headers(rest, eof, length)
            &&& says == HeaderLine::Length(number) ==> result == headers(rest, eof, Some(number))
            &&& says == HeaderLine::Blank && length == Some(number) ==> result
                == (Headers::Complete { length: number, rest })
            &&& says == HeaderLine::Blank && length is None ==> result == Headers::Failed(
                TransportErrorView::MissingContentLength,
            )
            &&& says == HeaderLine::BadLength ==> result == Headers::Failed(
                TransportErrorView::InvalidContentLength,
            )
            &&& says == HeaderLine::NotText(reason) ==> result == Headers::Failed(
                TransportErrorView::HeaderNotText(reason),
            )
        }),
        headers(content, false, length) == Headers::Incomplete,
        headers(Seq::empty(), true, length) == Headers::Closed,
{
    let line = content + seq![10u8];
    let input = line + rest;
    assert forall|i: int| 0 <= i < line.len() - 1 implies input[i] != 10 by {
        assert(input[i] == content[i]);
    }
    assert(input[line.len() - 1] == 10);
    lemma_line_end_at(input, line.len());
    assert(input.take(line.len() as int) =~= line);
    assert(input.skip(line.len() as int) =~= rest);
    lemma_line_end(content);
    if let Some(end) = line_end(content) {
        assert(content[end - 1] == 10);
    }
}

/// The body of a frame is the bytes behind its headers, as many as they say, and what follows
/// is left. Where bytes are missing more are waited for, unless the stream has ended.
pub proof fn law_body_of_a_frame(
    input: Seq<u8>,
    eof: bool,
    body: Seq<u8>,
    rest: Seq<u8>,
    length: nat,
    error: TransportErrorView,
)
    ensures
        headers(input, eof, None) == (Headers::Complete { length: body.len(), rest: body + rest })
            ==> read_frame(input, eof) == (FrameView::Frame { body, rest }),
        headers(input, eof, None) == (Headers::Complete { length, rest }) && rest.len() < length
            && !eof ==> read_frame(input, eof) == FrameView::Incomplete,
        headers(input, eof, None) == (Headers::Complete { length, rest }) && rest.len() < length
            && eof ==> read_frame(input, eof) == FrameView::Failed(
            TransportErrorView::UnexpectedEof,
        ),
        headers(input, eof, None) == Headers::Incomplete ==> read_frame(input, eof)
            == FrameView::Incomplete,
        headers(input, eof, None) == Headers::Closed ==> read_frame(input, eof)
            == FrameView::Closed,
        headers(input, eof, None) == Headers::Failed(error) ==> read_frame(input, eof)
            == FrameView::Failed(error),
{
    assert((body + rest).take(body.len() as int) =~= body);
    assert((body + rest).skip(body.len() as int) =~= rest);
}

/// A message is what its frame's body says as JSON; a body that is no JSON, or no message, is
/// refused, with the reason.
pub proof fn law_message_of_a_frame(
    input: Seq<u8>,
    eof: bool,
    body: Seq<u8>,
    rest: Seq<u8>,
    tree: JsonTree,
    incoming: IncomingView,
    error: TransportErrorView,
    reason: Seq<char>,
)
    requires
        read_frame(input, eof) == (FrameView::Frame { body, rest }),
    ensures
        json::json_document(body) == Ok::<_, Seq<char>>(tree) && incoming_of(tree) == Ok::<
            _,
            TransportErrorView,
        >(incoming) ==> message_at(input, eof) == (ReadView::Message { incoming, rest }),
        json::json_document(body) == Ok::<_, Seq<char>>(tree) && incoming_of(tree) == Err::<
            IncomingView,
            _,
        >(error) ==> message_at(input, eof) == ReadView::Failed(error),
        json::json_document(body) == Err::<JsonTree, _>(reason) ==> message_at(input, eof)
            == ReadView::Failed(TransportErrorView::MalformedJson(reason)),
{
}

/// Without a frame there is no message, for the same reason.
pub proof fn law_no_frame_no_message(input: Seq<u8>, eof: bool, error: TransportErrorView)
    ensures
        read_frame(input, eof) == FrameView::Incomplete ==> message_at(input, eof)
            == ReadView::Incomplete,
        read_frame(input, eof) == FrameView::Closed ==> message_at(input, eof) == ReadView::Closed,
        read_frame(input, eof) == FrameView::Failed(error) ==> message_at(input, eof)
            == ReadView::Failed(error),
{
}

/// A message with an id and a method is a request, one with a method alone a notification;
/// their parameters are the field of that name, or null.
pub proof fn law_calls(
    fields: Map<Seq<char>, JsonTree>,
    id: JsonTree,
    method: Seq<char>,
    params: JsonTree,
)
    requires
        fields.contains_pair("method"@, JsonTree::Text(method)),
        fields.contains_pair("params"@, params) || !fields.contains_key("params"@) && params
            is Null,
    ensures
        fields.contains_pair("id"@, id) ==> incoming_of(JsonTree::Object(fields)) == Ok::<
            _,
            TransportErrorView,
        >(IncomingView::Request { id, method, params }),
        !fields.contains_key("id"@) ==> incoming_of(JsonTree::Object(fields)) == Ok::<
            _,
            TransportErrorView,
        >(IncomingView::Notification { method, params }),
{
    let tree = JsonTree::Object(fields);
    assert(json::tree_field(tree, "method"@) == Some(JsonTree::Text(method)));
    assert(method_of(tree) == Some(method));
    if fields.contains_pair("params"@, params) {
        assert(json::tree_field(tree, "params"@) == Some(params));
    } else {
        assert(json::tree_field(tree, "params"@) is None);
    }
    assert(field_or_null(tree, "params"@) == params);
    if fields.contains_pair("id"@, id) {
        assert(json::tree_field(tree, "id"@) == Some(id));
    }
    if !fields.contains_key("id"@) {
        assert(json::tree_field(tree, "id"@) is None);
    }
}

/// A message with an id and without a method is a response. Its id must be an integer; its
/// error, where it has one, must be well formed, and then hides its result.
pub proof fn law_responses(
    fields: Map<Seq<char>, JsonTree>,
    id: JsonTree,
    number: int,
    result: JsonTree,
    given_error: JsonTree,
    error: RpcErrorView,
)
    requires
        !fields.contains_key("method"@) || !(fields["method"@] is Text),
        fields.contains_pair("id"@, id),
        i64::MIN <= number <= i64::MAX,
    ensures
        ({
            let read = incoming_of(JsonTree::Object(fields));
            let has_error = fields.contains_pair("error"@, given_error);
            let no_error = !fields.contains_key("error"@);
            &&& !(id is Int) || !(i64::MIN <= id->Int_0 <= i64::MAX) ==> read == Err::<IncomingView, _>(
                TransportErrorView::ResponseIdNotInteger,
            )
            &&& id == JsonTree::Int(number) && no_error && fields.contains_pair("result"@, result)
                ==> read == Ok::<_, TransportErrorView>(
                IncomingView::Response { id: number, result: Some(result), error: None },
            )
            &&& id == JsonTree::Int(number) && no_error && !fields.contains_key("result"@) ==> read
                == Ok::<_, TransportErrorView>(
                IncomingView::Response { id: number, result: None, error: None },
            )
            &&& id == JsonTree::Int(number) && has_error && rpc_error_of(given_error) == Some(error)
                ==> read == Ok::<_, TransportErrorView>(
                IncomingView::Response { id: number, result: None, error: Some(error) },
            )
            &&& id == JsonTree::Int(number) && has_error && rpc_error_of(given_error) is None
                ==> read == Err::<IncomingView, _>(TransportErrorView::MalformedError)
        }),
{
    let tree = JsonTree::Object(fields);
    assert(method_of(tree) is None) by {
        if fields.contains_key("method"@) {
            assert(json::tree_field(tree, "method"@) == Some(fields["method"@]));
        }
    }
    assert(json::tree_field(tree, "id"@) == Some(id));
    if fields.contains_pair("error"@, given_error) {
        assert(json::tree_field(tree, "error"@) == Some(given_error));
    }
    if !fields.contains_key("error"@) {
        assert(json::tree_field(tree, "error"@) is None);
    }
    if fields.contains_pair("result"@, result) {
        assert(json::tree_field(tree, "result"@) == Some(result));
    }
    if !fields.contains_key("result"@) {
        assert(json::tree_field(tree, "result"@) is None);
    }
}

/// What is no object, or has neither an id nor a method, is no message.
pub proof fn law_no_message(tree: JsonTree, fields: Map<Seq<char>, JsonTree>)
    ensures
        !(tree is Object) ==> incoming_of(tree) == Err::<IncomingView, _>(
            TransportErrorView::NotAnObject,
        ),
        !fields.contains_key("id"@) && (!fields.contains_key("method"@) || !(fields["method"@]
            is Text)) ==> incoming_of(JsonTree::Object(fields)) == Err::<IncomingView, _>(TransportErrorView::Unrecognized(JsonTree::Object(fields))),
{
    let object = JsonTree::Object(fields);
    if !fields.contains_key("id"@) {
        assert(json::tree_field(object, "id"@) is None);
    }
    if fields.contains_key("method"@) {
        assert(json::tree_field(object, "method"@) == Some(fields["method"@]));
    } else {
        assert(json::tree_field(object, "method"@) is None);
    }
}

/// An error has an integer as its code and a text as its message, in an object or in an array;
/// data that is null counts as none.
pub proof fn law_rpc_errors(
    fields: Map<Seq<char>, JsonTree>,
    code: int,
    message: Seq<char>,
    data: JsonTree,
)
    requires
        i64::MIN <= code <= i64::MAX,
    ensures
        fields.contains_pair("code"@, JsonTree::Int(code)) && fields.contains_pair(
            "message"@,
            JsonTree::Text(message),
        ) && (!fields.contains_key("data"@) || fields.contains_pair("data"@, JsonTree::Null))
            ==> rpc_error_of(JsonTree::Object(fields)) == Some(
            RpcErrorView { code, message, data: None },
        ),
        fields.contains_pair("code"@, JsonTree::Int(code)) && fields.contains_pair(
            "message"@,
            JsonTree::Text(message),
        ) && fields.contains_pair("data"@, data) && !(data is Null) ==> rpc_error_of(
            JsonTree::Object(fields),
        ) == Some(RpcErrorView { code, message, data: Some(data) }),
        !fields.contains_key("code"@) || !fields.contains_key("message"@) ==> rpc_error_of(
            JsonTree::Object(fields),
        ) is None,
        fields.contains_key("code"@) && (!(fields["code"@] is Int) || !(i64::MIN
            <= fields["code"@]->Int_0 <= i64::MAX)) ==> rpc_error_of(
            JsonTree::Object(fields),
        ) is None,
        fields.contains_key("message"@) && !(fields["message"@] is Text) ==> rpc_error_of(
            JsonTree::Object(fields),
        ) is None,
        rpc_error_of(JsonTree::Array(seq![JsonTree::Int(code), JsonTree::Text(message)])) == Some(
            RpcErrorView { code, message, data: None },
        ),
        !(data is Null) ==> rpc_error_of(
            JsonTree::Array(seq![JsonTree::Int(code), JsonTree::Text(message), data]),
        ) == Some(RpcErrorView { code, message, data: Some(data) }),
        rpc_error_of(
            JsonTree::Array(seq![JsonTree::Int(code), JsonTree::Text(message), JsonTree::Null]),
        ) == Some(RpcErrorView { code, message, data: None }),
        !(data is Object) && !(data is Array) ==> rpc_error_of(data) is None,
        data is Array && (data->Array_0.len() < 2 || data->Array_0.len() > 3) ==> rpc_error_of(
            data,
        ) is None,
        data is Array && data->Array_0.len() > 0 && !(data->Array_0[0] is Int) ==> rpc_error_of(
            data,
        ) is None,
        data is Array && data->Array_0.len() > 1 && !(data->Array_0[1] is Text) ==> rpc_error_of(
            data,
        ) is None,
{
    let tree = JsonTree::Object(fields);
    if fields.contains_key("code"@) {
        assert(json::tree_field(tree, "code"@) == Some(fields["code"@]));
    } else {
        assert(json::tree_field(tree, "code"@) is None);
    }
    if fields.contains_key("message"@) {
        assert(json::tree_field(tree, "message"@) == Some(fields["message"@]));
    } else {
        assert(json::tree_field(tree, "message"@) is None);
    }
    if fields.contains_key("data"@) {
        assert(json::tree_field(tree, "data"@) == Some(fields["data"@]));
    } else {
        assert(json::tree_field(tree, "data"@) is None);
    }
    let two = seq![JsonTree::Int(code), JsonTree::Text(message)];
    assert(two.len() == 2 && two[0] == JsonTree::Int(code) && two[1] == JsonTree::Text(message));
    let blank = seq![JsonTree::Int(code), JsonTree::Text(message), JsonTree::Null];
    assert(blank.len() == 3 && blank[0] == JsonTree::Int(code) && blank[1] == JsonTree::Text(
        message,
    ) && blank[2] == JsonTree::Null);
    let three = seq![JsonTree::Int(code), JsonTree::Text(message), data];
    assert(three.len() == 3 && three[0] == JsonTree::Int(code) && three[1] == JsonTree::Text(
        message,
    ) && three[2] == data);
}

/// The text of an error says what is wrong with the message, or what the server said.
pub proof fn law_transport_texts(
    code: int,
    message: Seq<char>,
    data: Option<JsonTree>,
    tree: JsonTree,
)
    ensures
        rpc_error_text(RpcErrorView { code, message, data }) == "JSON-RPC error "@
            + strings::decimal_int(code) + ": "@ + message,
        transport_error_text(TransportErrorView::HeaderNotText(message)) == message,
        transport_error_text(TransportErrorView::InvalidContentLength)
            == "invalid Content-Length"@,
        transport_error_text(TransportErrorView::MissingContentLength)
            == "message missing Content-Length"@,
        transport_error_text(TransportErrorView::UnexpectedEof) == "early eof"@,
        transport_error_text(TransportErrorView::MalformedJson(message)) == message,
        transport_error_text(TransportErrorView::NotAnObject)
            == "JSON-RPC message is not an object"@,
        transport_error_text(TransportErrorView::ResponseIdNotInteger)
            == "response id is not an integer"@,
        transport_error_text(TransportErrorView::MalformedError) == "malformed JSON-RPC error"@,
        transport_error_text(TransportErrorView::Unrecognized(tree))
            == "unrecognized JSON-RPC message: "@ + decode_utf8(json::json_text(tree)),
{
}

/// What is handed out of a stream is the message or the error that was found, and leaves the
/// bytes behind it.
pub proof fn law_step_views(
    incoming: Incoming,
    error: TransportError,
    input: Seq<u8>,
    rest: Seq<u8>,
    at: usize,
)
    ensures
        next_view(Next::Incomplete, rest) == ReadView::Incomplete,
        next_view(Next::Closed, rest) == ReadView::Closed,
        next_view(Next::Failed(error), rest) == ReadView::Failed(error@),
        next_view(Next::Message(incoming), rest) == (ReadView::Message {
            incoming: incoming@,
            rest,
        }),
        read_step_view(ReadStep::Incomplete, input) == ReadView::Incomplete,
        read_step_view(ReadStep::Closed, input) == ReadView::Closed,
        read_step_view(ReadStep::Failed(error), input) == ReadView::Failed(error@),
        read_step_view(ReadStep::Message { incoming, consumed: at }, input) == (
        ReadView::Message { incoming: incoming@, rest: input.skip(at as int) }),
{
}

/// What arrives is kept behind what has arrived before, until a whole message is taken out of
/// it; nothing is taken out otherwise.
pub proof fn law_inbox(
    fresh: Inbox,
    fed: &mut Inbox,
    chunk: &[u8],
    closed: &mut Inbox,
    read: &mut Inbox,
    next: Next,
    incoming: IncomingView,
    rest: Seq<u8>,
    done: (),
)
    requires
        call_ensures(Inbox::new, (), fresh),
        call_ensures(Inbox::feed, (fed, chunk), done),
        call_ensures(Inbox::close, (closed,), done),
        call_ensures(Inbox::next, (read,), next),
    ensures
        fresh@.bytes.len() == 0 && !fresh@.eof,
        final(fed)@.bytes == old(fed)@.bytes + chunk@,
        final(fed)@.eof == old(fed)@.eof,
        final(closed)@.bytes == old(closed)@.bytes,
        final(closed)@.eof,
        message_at(old(read)@.bytes, old(read)@.eof) == (ReadView::Message { incoming, rest }) ==> {
            &&& next is Message
            &&& next->Message_0@ == incoming
            &&& final(read)@.bytes == rest
        },
        message_at(old(read)@.bytes, old(read)@.eof) !is Message ==> !(next is Message)
            && final(read)@ == old(read)@,
        final(read)@.eof == old(read)@.eof,
{
}

/// A decoded message, and an error, hold what they are made of.
pub proof fn law_message_views(
    id: i64,
    result: Json,
    error: RpcError,
    json_id: Json,
    method: String,
    params: Json,
)
    ensures
        error@.code == error.code,
        error@.message == error.message@,
        error.data is None ==> error@.data is None,
        error.data == Some(params) ==> error@.data == Some(params@),
        (Incoming::Response { id, result: Some(result), error: None })@ == (
        IncomingView::Response { id: id as int, result: Some(result@), error: None }),
        (Incoming::Response { id, result: None, error: None })@ == (IncomingView::Response {
            id: id as int,
            result: None,
            error: None,
        }),
        (Incoming::Response { id, result: None, error: Some(error) })@ == (
        IncomingView::Response { id: id as int, result: None, error: Some(error@) }),
        (Incoming::Notification { method, params })@ == (IncomingView::Notification {
            method: method@,
            params: params@,
        }),
        (Incoming::Request { id: json_id, method, params })@ == (IncomingView::Request {
            id: json_id@,
            method: method@,
            params: params@,
        }),
{
}

/// An error of the transport holds what it is made of.
pub proof fn law_transport_error_views(reason: String, value: Json)
    ensures
        TransportError::HeaderNotText(reason)@ == TransportErrorView::HeaderNotText(reason@),
        TransportError::InvalidContentLength@ == TransportErrorView::InvalidContentLength,
        TransportError::MissingContentLength@ == TransportErrorView::MissingContentLength,
        TransportError::UnexpectedEof@ == TransportErrorView::UnexpectedEof,
        TransportError::MalformedJson(reason)@ == TransportErrorView::MalformedJson(reason@),
        TransportError::NotAnObject@ == TransportErrorView::NotAnObject,
        TransportError::ResponseIdNotInteger@ == TransportErrorView::ResponseIdNotInteger,
        TransportError::MalformedError@ == TransportErrorView::MalformedError,
        TransportError::Unrecognized(value)@ == TransportErrorView::Unrecognized(value@),
{
}

} // verus!
