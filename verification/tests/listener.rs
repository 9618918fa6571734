use dial_responder::listener::{descriptor_location, handle_datagram, handle_search, u16_decimal};

const HOST: &str = "192.168.178.9";

fn host() -> String {
    String::from(HOST)
}

#[test]
fn matching_search_gets_exactly_one_reply() {
    let datagram = b"M-SEARCH * HTTP/1.1\r\n\
                     HOST: 239.255.255.250:1900\r\n\
                     ST: urn:dial-multiscreen-org:service:dial:1\r\n\
                     \r\n"
        .to_vec();
    let reply = handle_datagram(&datagram, &host(), 8081).unwrap();
    assert!(reply.starts_with("HTTP/1.1 200 OK\r\n"));
    assert!(reply.contains("ST: urn:dial-multiscreen-org:service:dial:1\r\n"));
    assert!(reply
        .contains("LOCATION: http://192.168.178.9:8081/upnp_device_descriptor.xml\r\n"));
    assert!(reply.contains("USN: testing-laptop\r\n"));
}

#[test]
fn other_search_target_gets_no_reply() {
    let datagram = b"M-SEARCH * HTTP/1.1\r\n\
                     HOST: 239.255.255.250:1900\r\n\
                     ST: upnp:rootdevice\r\n\
                     \r\n"
        .to_vec();
    assert!(handle_datagram(&datagram, &host(), 8081).is_none());
}

#[test]
fn missing_search_target_gets_no_reply() {
    let datagram = b"M-SEARCH * HTTP/1.1\r\nHOST: 239.255.255.250:1900\r\n\r\n".to_vec();
    assert!(handle_datagram(&datagram, &host(), 8081).is_none());
}

#[test]
fn invalid_bytes_are_discarded_and_listening_continues() {
    let bad = vec![0xffu8, 0xfe, 0x20, 0x80];
    assert!(handle_datagram(&bad, &host(), 8081).is_none());
    let good = b"M-SEARCH * HTTP/1.1\r\nST: urn:dial-multiscreen-org:service:dial:1\r\n\r\n"
        .to_vec();
    assert!(handle_datagram(&good, &host(), 8081).is_some());
}

#[test]
fn short_first_line_is_discarded_and_listening_continues() {
    let bad = b"M-SEARCH\r\nST: urn:dial-multiscreen-org:service:dial:1\r\n\r\n".to_vec();
    assert!(handle_datagram(&bad, &host(), 8081).is_none());
    let also_bad = b"M-SEARCH *\r\nST: urn:dial-multiscreen-org:service:dial:1\r\n\r\n".to_vec();
    assert!(handle_datagram(&also_bad, &host(), 8081).is_none());
    let good = b"M-SEARCH * HTTP/1.1\r\nST: urn:dial-multiscreen-org:service:dial:1\r\n\r\n"
        .to_vec();
    assert!(handle_datagram(&good, &host(), 8081).is_some());
}

#[test]
fn empty_datagram_gets_no_reply() {
    assert!(handle_datagram(&Vec::new(), &host(), 8081).is_none());
}

#[test]
fn last_search_target_header_wins() {
    let text = String::from(
        "M-SEARCH * HTTP/1.1\r\n\
         ST: upnp:rootdevice\r\n\
         ST: urn:dial-multiscreen-org:service:dial:1\r\n\
         \r\n",
    );
    assert!(handle_search(&text, &host(), 8081).is_some());
    let reversed = String::from(
        "M-SEARCH * HTTP/1.1\r\n\
         ST: urn:dial-multiscreen-org:service:dial:1\r\n\
         ST: upnp:rootdevice\r\n\
         \r\n",
    );
    assert!(handle_search(&reversed, &host(), 8081).is_none());
}

#[test]
fn search_target_must_match_exactly() {
    let text = String::from(
        "M-SEARCH * HTTP/1.1\r\nST: urn:dial-multiscreen-org:service:dial:2\r\n\r\n",
    );
    assert!(handle_search(&text, &host(), 8081).is_none());
    let prefix = String::from(
        "M-SEARCH * HTTP/1.1\r\nST: urn:dial-multiscreen-org:service:dial:1 \r\n\r\n",
    );
    assert!(handle_search(&prefix, &host(), 8081).is_none());
}

#[test]
fn descriptor_location_formats_ports() {
    assert_eq!(
        descriptor_location(&host(), 8081),
        "http://192.168.178.9:8081/upnp_device_descriptor.xml"
    );
    assert_eq!(
        descriptor_location(&String::from("10.0.0.5"), 80),
        "http://10.0.0.5:80/upnp_device_descriptor.xml"
    );
}

#[test]
fn decimal_rendering() {
    assert_eq!(u16_decimal(0), "0");
    assert_eq!(u16_decimal(7), "7");
    assert_eq!(u16_decimal(1900), "1900");
    assert_eq!(u16_decimal(65535), "65535");
    assert_eq!(u16_decimal(10010), "10010");
}
