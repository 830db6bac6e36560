use careerbot::ipc_client::{liveness, parse_response, request_head, ConnectOutcome, Liveness, ResponseError};

#[test]
fn parse_response_handles_simple_ok() {
    let raw = b"HTTP/1.1 200 OK\r\nContent-Length: 5\r\n\r\nhello";
    let (status, body) = parse_response(raw).unwrap();
    assert_eq!(status, 200);
    assert_eq!(body, "hello");
}

#[test]
fn parse_response_handles_empty_body() {
    let raw = b"HTTP/1.1 202 Accepted\r\n\r\n";
    let (status, body) = parse_response(raw).unwrap();
    assert_eq!(status, 202);
    assert_eq!(body, "");
}

#[test]
fn parse_response_errors_on_malformed() {
    let raw = b"not a response";
    assert!(parse_response(raw).is_err());
}

#[test]
fn malformed_response_reports_size_and_preview() {
    match parse_response(b"not a response") {
        Err(e) => {
            assert!(matches!(e, ResponseError::NoHeaderSplit { bytes: 14, .. }));
            assert_eq!(
                e.message(),
                "malformed daemon response: no header/body split; got 14 bytes: \"not a response\""
            );
        }
        Ok(_) => panic!("expected an error"),
    }
    let long = vec![b'a'; 300];
    match parse_response(&long) {
        Err(ResponseError::NoHeaderSplit { bytes, preview }) => {
            assert_eq!(bytes, 300);
            assert_eq!(preview.len(), 200);
        }
        _ => panic!("expected a split error"),
    }
}

#[test]
fn status_line_faults() {
    assert!(matches!(parse_response(b"\r\n\r\nbody"), Err(ResponseError::Empty)));
    assert!(matches!(parse_response(b"HTTP/1.1\r\n\r\n"), Err(ResponseError::NoStatusCode)));
    assert!(matches!(parse_response(b"HTTP/1.1 abc OK\r\n\r\n"), Err(ResponseError::NoStatusCode)));
    assert!(matches!(parse_response(b"HTTP/1.1 70000 Big\r\n\r\n"), Err(ResponseError::NoStatusCode)));
    assert_eq!(ResponseError::Empty.message(), "malformed daemon response: empty");
    assert_eq!(ResponseError::NoStatusCode.message(), "malformed daemon response: no status code");
}

#[test]
fn body_starts_after_first_blank_line() {
    let (status, body) = parse_response(b"HTTP/1.1   404  Not Found\r\nX: y\r\n\r\na\r\n\r\nb").unwrap();
    assert_eq!(status, 404);
    assert_eq!(body, "a\r\n\r\nb");
    let (status, _) = parse_response(b"HTTP/1.1 +65535 X\r\n\r\n").unwrap();
    assert_eq!(status, 65535);
}

#[test]
fn request_head_is_a_closing_bodiless_request() {
    let head = request_head("POST", "/run-now?company=acme", &[("X-Trace", "1")]);
    assert_eq!(
        head,
        "POST /run-now?company=acme HTTP/1.1\r\nHost: localhost\r\nContent-Length: 0\r\nConnection: close\r\nX-Trace: 1\r\n\r\n"
    );
    assert_eq!(
        request_head("GET", "/status", &[]),
        "GET /status HTTP/1.1\r\nHost: localhost\r\nContent-Length: 0\r\nConnection: close\r\n\r\n"
    );
}

#[test]
fn liveness_from_socket_and_connection() {
    assert_eq!(liveness(false, ConnectOutcome::Connected), Liveness::NotRunning);
    assert_eq!(liveness(true, ConnectOutcome::Connected), Liveness::Running);
    assert_eq!(liveness(true, ConnectOutcome::Refused), Liveness::NotRunning);
    assert_eq!(liveness(true, ConnectOutcome::NotFound), Liveness::NotRunning);
    assert_eq!(liveness(true, ConnectOutcome::Failed), Liveness::Unknown);
}
