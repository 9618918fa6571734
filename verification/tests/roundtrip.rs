use dial_responder::message::{
    build_advertisement, build_search_response, serialize, AdvertisementRole,
};
use dial_responder::parse::{lookup_header, parse_request};

#[test]
fn built_advertisement_parses_back_to_its_headers() {
    let url = String::from("http://192.168.178.9/");
    let m = build_advertisement(AdvertisementRole::RootDevice, &url).unwrap();
    let wire = serialize(&m);
    let parsed = parse_request(&wire).unwrap();
    assert_eq!(parsed.method, "NOTIFY");
    assert_eq!(parsed.path, "*");
    assert_eq!(parsed.version, "HTTP/1.1");
    assert_eq!(parsed.headers, m.headers);
}

#[test]
fn built_response_parses_back_to_its_headers() {
    let loc = String::from("http://192.168.178.9:8081/upnp_device_descriptor.xml");
    let m = build_search_response(&loc).unwrap();
    let wire = serialize(&m);
    let parsed = parse_request(&wire).unwrap();
    assert_eq!(parsed.method, "HTTP/1.1");
    assert_eq!(parsed.path, "200");
    assert_eq!(parsed.version, "OK");
    assert_eq!(parsed.headers, m.headers);
}

#[test]
fn parse_splits_first_line_and_headers() {
    let text = String::from("GET /x HTTP/1.1\r\nHost: a\r\nAccept: */*\r\n\r\n");
    let req = parse_request(&text).unwrap();
    assert_eq!(req.method, "GET");
    assert_eq!(req.path, "/x");
    assert_eq!(req.version, "HTTP/1.1");
    assert_eq!(
        req.headers,
        vec![
            (String::from("Host"), String::from("a")),
            (String::from("Accept"), String::from("*/*")),
        ]
    );
}

#[test]
fn malformed_header_lines_are_skipped_not_fatal() {
    let text = String::from(
        "GET / HTTP/1.1\r\n\
         junk-without-separator\r\n\
         Two: colon: parts\r\n\
         Good: value\r\n\
         \r\n",
    );
    let req = parse_request(&text).unwrap();
    assert_eq!(
        req.headers,
        vec![(String::from("Good"), String::from("value"))]
    );
}

#[test]
fn short_first_line_is_malformed() {
    assert!(parse_request(&String::from("GET\r\n\r\n")).is_none());
    assert!(parse_request(&String::from("")).is_none());
}

#[test]
fn extra_first_line_tokens_are_ignored() {
    let text = String::from("GET / HTTP/1.1 extra\r\n\r\n");
    let req = parse_request(&text).unwrap();
    assert_eq!(req.method, "GET");
    assert_eq!(req.path, "/");
    assert_eq!(req.version, "HTTP/1.1");
}

#[test]
fn bare_newlines_also_delimit_lines() {
    let text = String::from("GET / HTTP/1.1\nA: b\n\n");
    let req = parse_request(&text).unwrap();
    assert_eq!(req.headers, vec![(String::from("A"), String::from("b"))]);
}

#[test]
fn header_lookup_is_later_wins() {
    let text = String::from("GET / HTTP/1.1\r\nK: first\r\nK: second\r\n\r\n");
    let req = parse_request(&text).unwrap();
    let v = lookup_header(&req.headers, &String::from("K")).unwrap();
    assert_eq!(v, "second");
    assert!(lookup_header(&req.headers, &String::from("missing")).is_none());
}

#[test]
fn header_values_keep_inner_colons() {
    let text = String::from("GET / HTTP/1.1\r\nLOCATION: http://a:80/x\r\n\r\n");
    let req = parse_request(&text).unwrap();
    assert_eq!(
        req.headers,
        vec![(String::from("LOCATION"), String::from("http://a:80/x"))]
    );
}
