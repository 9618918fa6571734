use dial_responder::server::{handle_connection, StreamOutcome};

fn reply_of(outcome: StreamOutcome) -> String {
    match outcome {
        StreamOutcome::Reply(s) => s,
        StreamOutcome::Discard => panic!("request was discarded"),
        StreamOutcome::MissingAsset => panic!("descriptor asset reported missing"),
    }
}

#[test]
fn landing_page_served_at_root() {
    let req = b"GET / HTTP/1.1\r\n\r\n".to_vec();
    let doc = String::from("<root/>");
    let resp = reply_of(handle_connection(&req, Some(&doc)));
    assert!(resp.starts_with("HTTP/1.1 200 OK\r\n"));
    assert!(resp.contains("Content-Type: text/html; charset=utf-8\r\n"));
    assert!(resp.ends_with("\r\n\r\n<html>\n<body>TEST</body>\n</html>"));
}

#[test]
fn descriptor_served_at_its_path() {
    let req = b"GET /upnp_device_descriptor.xml HTTP/1.1\r\n\r\n".to_vec();
    let doc = String::from("<root><device>basic</device></root>");
    let resp = reply_of(handle_connection(&req, Some(&doc)));
    assert!(resp.starts_with("HTTP/1.1 200 OK\r\n"));
    assert!(resp.contains("content-type: application/xml\r\n"));
    let body = resp.split("\r\n\r\n").nth(1).unwrap();
    assert_eq!(body, doc);
}

#[test]
fn unknown_path_is_not_found() {
    let req = b"GET /nope HTTP/1.1\r\n\r\n".to_vec();
    let resp = reply_of(handle_connection(&req, None));
    assert_eq!(resp, "HTTP/1.1 404 Not Found\r\n\r\n");
}

#[test]
fn unknown_method_is_not_found() {
    let req = b"POST / HTTP/1.1\r\n\r\n".to_vec();
    let resp = reply_of(handle_connection(&req, None));
    assert_eq!(resp, "HTTP/1.1 404 Not Found\r\n\r\n");
}

#[test]
fn missing_descriptor_fails_only_that_request() {
    let req = b"GET /upnp_device_descriptor.xml HTTP/1.1\r\n\r\n".to_vec();
    assert!(matches!(
        handle_connection(&req, None),
        StreamOutcome::MissingAsset
    ));
    let other = b"GET / HTTP/1.1\r\n\r\n".to_vec();
    assert!(matches!(
        handle_connection(&other, None),
        StreamOutcome::Reply(_)
    ));
}

#[test]
fn malformed_stream_request_is_discarded() {
    let bad_bytes = vec![0xf0u8, 0x28, 0x8c, 0x28];
    assert!(matches!(
        handle_connection(&bad_bytes, None),
        StreamOutcome::Discard
    ));
    let empty = Vec::new();
    assert!(matches!(
        handle_connection(&empty, None),
        StreamOutcome::Discard
    ));
    let short = b"GET /\r\n\r\n".to_vec();
    assert!(matches!(
        handle_connection(&short, None),
        StreamOutcome::Discard
    ));
}
