use lspranto::json::Json;
use lspranto::lsp::messages::{error_reply, notification, request, result_reply};
use lspranto::lsp::transport::{
    parse_incoming, parse_rpc_error, read_message, take_frame, write_frame, write_message,
    FrameStep, Inbox, Incoming, Next, ReadStep, RpcError, TransportError,
};

fn json(text: &str) -> Json {
    Json::parse(text.as_bytes()).unwrap()
}

fn read(bytes: &[u8], eof: bool) -> ReadStep {
    read_message(bytes, eof)
}

#[test]
fn a_frame_has_its_length_before_it() {
    let frame = write_frame(&b"{}".to_vec());
    assert_eq!(frame, b"Content-Length: 2\r\n\r\n{}".to_vec());
    let message = write_message(&Json::object().with("a", Json::Text("é".to_string())));
    assert_eq!(message, "Content-Length: 10\r\n\r\n{\"a\":\"é\"}".as_bytes().to_vec());
}

#[test]
fn a_message_is_read_back() {
    let params = json("{\"x\":[1,null,true,\"é\"]}");
    let mut bytes = write_message(&request(7, "a/b", params.clone()));
    let length = bytes.len();
    bytes.extend_from_slice(b"rest");
    match read(&bytes, false) {
        ReadStep::Message { incoming: Incoming::Request { id, method, params: read }, consumed } => {
            assert_eq!(consumed, length);
            assert_eq!(id, Json::Int(7));
            assert_eq!(method, "a/b");
            assert_eq!(read, params);
        }
        other => panic!("{other:?}"),
    }
}

#[test]
fn messages_arrive_in_order_and_in_any_pieces() {
    let mut bytes = write_message(&notification("one", Json::Null));
    bytes.extend(write_message(&notification("two", Json::Null)));
    let first = write_message(&notification("one", Json::Null)).len();
    for end in 0..first {
        assert!(matches!(read(&bytes[..end], false), ReadStep::Incomplete));
    }
    for end in first..bytes.len() {
        match read(&bytes[..end], false) {
            ReadStep::Message { incoming: Incoming::Notification { method, .. }, consumed } => {
                assert_eq!((method.as_str(), consumed), ("one", first));
            }
            other => panic!("{other:?}"),
        }
    }
    match read(&bytes[first..], true) {
        ReadStep::Message { incoming: Incoming::Notification { method, .. }, .. } => {
            assert_eq!(method, "two");
        }
        other => panic!("{other:?}"),
    }
}

#[test]
fn headers_are_read_leniently() {
    let bytes = b"Content-Type: x\r\nContent-Length:+2 \nContent-Length: 3\r\n\n{ }more";
    match take_frame(bytes, false) {
        FrameStep::Frame { start, end } => assert_eq!(&bytes[start..end], b"{ }"),
        _ => panic!("no frame"),
    }
}

#[test]
fn a_stream_may_end() {
    assert!(matches!(read(b"", true), ReadStep::Closed));
    assert!(matches!(read(b"", false), ReadStep::Incomplete));
    assert!(matches!(read(b"Content-Length: 2\r\n", true), ReadStep::Closed));
    assert!(matches!(read(b"Content-Length: 2", true), ReadStep::Closed));
    assert!(matches!(
        read(b"Content-Length: 2\r\n\r\n{", true),
        ReadStep::Failed(TransportError::UnexpectedEof)
    ));
    assert!(matches!(read(b"Content-Length: 2\r\n\r\n{", false), ReadStep::Incomplete));
}

#[test]
fn broken_frames_are_refused() {
    let failed = |bytes: &[u8]| match read(bytes, false) {
        ReadStep::Failed(error) => error,
        other => panic!("{other:?}"),
    };
    assert!(matches!(failed(b"\xff\n"), TransportError::HeaderNotText(_)));
    assert!(matches!(failed(b"Content-Length: x\r\n"), TransportError::InvalidContentLength));
    assert!(matches!(failed(b"Content-Length:\r\n"), TransportError::InvalidContentLength));
    assert!(matches!(
        failed(b"Content-Length: 99999999999999999999999\r\n"),
        TransportError::InvalidContentLength
    ));
    assert!(matches!(failed(b"content-length: 2\r\n\r\n{}"), TransportError::MissingContentLength));
    assert!(matches!(failed(b"Content-Length: 2\r\n\r\n{]"), TransportError::MalformedJson(_)));
    assert!(matches!(failed(b"Content-Length: 2\r\n\r\n[]"), TransportError::NotAnObject));
}

#[test]
fn messages_are_told_apart() {
    assert!(matches!(
        parse_incoming(json("{\"id\":\"x\",\"method\":\"m\"}")),
        Ok(Incoming::Request { id: Json::Text(_), params: Json::Null, .. })
    ));
    assert!(matches!(
        parse_incoming(json("{\"method\":\"m\",\"params\":[1]}")),
        Ok(Incoming::Notification { params: Json::Array(_), .. })
    ));
    assert!(matches!(
        parse_incoming(json("{\"id\":3,\"result\":null}")),
        Ok(Incoming::Response { id: 3, result: Some(Json::Null), error: None })
    ));
    assert!(matches!(
        parse_incoming(json("{\"id\":3}")),
        Ok(Incoming::Response { id: 3, result: None, error: None })
    ));
    // A method that is no string does not count.
    assert!(matches!(
        parse_incoming(json("{\"id\":3,\"method\":1}")),
        Ok(Incoming::Response { id: 3, .. })
    ));
    assert!(matches!(
        parse_incoming(json("{\"id\":\"x\"}")),
        Err(TransportError::ResponseIdNotInteger)
    ));
    assert!(matches!(
        parse_incoming(json("{\"id\":null}")),
        Err(TransportError::ResponseIdNotInteger)
    ));
    assert!(matches!(
        parse_incoming(json("{\"id\":1,\"error\":{}}")),
        Err(TransportError::MalformedError)
    ));
    assert!(matches!(
        parse_incoming(json("{\"params\":1}")),
        Err(TransportError::Unrecognized(Json::Object(_)))
    ));
}

#[test]
fn answers_are_read() {
    match parse_incoming(error_reply(Json::Int(5), -32601, "no")) {
        Ok(Incoming::Response { id, result, error: Some(error) }) => {
            assert_eq!((id, result), (5, None));
            assert_eq!((error.code, error.message.as_str(), error.data), (-32601, "no", None));
        }
        other => panic!("{other:?}"),
    }
    assert!(matches!(
        parse_incoming(result_reply(Json::Int(5), Json::Bool(true))),
        Ok(Incoming::Response { id: 5, result: Some(Json::Bool(true)), error: None })
    ));
}

#[test]
fn errors_are_read_as_serde_reads_them() {
    let full = parse_rpc_error(&json("{\"code\":1,\"message\":\"m\",\"data\":[2]}")).unwrap();
    assert_eq!((full.code, full.message.as_str()), (1, "m"));
    assert!(matches!(full.data, Some(Json::Array(_))));
    assert!(parse_rpc_error(&json("{\"code\":1,\"message\":\"m\",\"data\":null}")).unwrap().data.is_none());
    assert_eq!(parse_rpc_error(&json("[-7,\"m\"]")).unwrap().code, -7);
    assert!(parse_rpc_error(&json("[1,\"m\",2,3]")).is_none());
    assert!(parse_rpc_error(&json("{\"code\":1.5,\"message\":\"m\"}")).is_none());
    assert!(parse_rpc_error(&json("{\"code\":18446744073709551615,\"message\":\"m\"}")).is_none());
    assert!(parse_rpc_error(&json("{\"message\":\"m\"}")).is_none());
    assert!(parse_rpc_error(&json("\"x\"")).is_none());
}

#[test]
fn an_error_shows_its_code_and_message() {
    let error = RpcError { code: -32601, message: "gone".to_string(), data: None };
    assert_eq!(error.message_text(), "JSON-RPC error -32601: gone");
}

#[test]
fn an_inbox_gives_messages_as_they_become_whole() {
    let mut bytes = write_message(&notification("one", Json::Null));
    bytes.extend(write_message(&notification("two", Json::Null)));
    let mut inbox = Inbox::new();
    let mut seen: Vec<String> = Vec::new();
    for byte in bytes {
        inbox.feed(&[byte]);
        loop {
            match inbox.next() {
                Next::Message(Incoming::Notification { method, .. }) => seen.push(method),
                Next::Incomplete => break,
                other => panic!("{other:?}"),
            }
        }
    }
    assert_eq!(seen, vec!["one".to_string(), "two".to_string()]);
    inbox.close();
    assert!(matches!(inbox.next(), Next::Closed));

    let mut broken = Inbox::new();
    broken.feed(b"Content-Length: x\n");
    assert!(matches!(broken.next(), Next::Failed(TransportError::InvalidContentLength)));
    assert!(matches!(broken.next(), Next::Failed(TransportError::InvalidContentLength)));
}

#[test]
fn each_transport_error_has_its_text() {
    let text = |bytes: &[u8], eof: bool| match read_message(bytes, eof) {
        ReadStep::Failed(error) => error.message(),
        other => panic!("{other:?}"),
    };
    assert_eq!(text(b"\xff\n", false), "invalid utf-8 sequence of 1 bytes from index 0");
    assert_eq!(text(b"Content-Length: x\n", false), "invalid Content-Length");
    assert_eq!(text(b"\n", false), "message missing Content-Length");
    assert_eq!(text(b"Content-Length: 2\n\n", true), "early eof");
    assert_eq!(text(b"Content-Length: 1\n\n{", true), "EOF while parsing an object at line 1 column 1");
    assert_eq!(text(b"Content-Length: 2\n\n[]", true), "JSON-RPC message is not an object");
    assert_eq!(text(b"Content-Length: 10\n\n{\"id\":\"x\"}", true), "response id is not an integer");
    assert_eq!(text(b"Content-Length: 18\n\n{\"id\":1,\"error\":1}", true), "malformed JSON-RPC error");
    assert_eq!(text(b"Content-Length: 7\n\n{\"a\":1}", true), "unrecognized JSON-RPC message: {\"a\":1}");
}
