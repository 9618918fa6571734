use dial_responder::broadcast::advertisement_sequence;
use dial_responder::message::{
    build_advertisement, build_search_response, device_uuid, serialize, AdvertisementRole,
    MessageError,
};

#[test]
fn root_advertisement_exact_text() {
    let url = String::from("http://192.168.178.9/");
    let m = build_advertisement(AdvertisementRole::RootDevice, &url).unwrap();
    let s = serialize(&m);
    let expected = "NOTIFY * HTTP/1.1\r\n\
                    HOST: 239.255.255.250:1900\r\n\
                    cache-control: max-age = 900\r\n\
                    LOCATION: http://192.168.178.9/\r\n\
                    NT: upnp:rootdevice\r\n\
                    USN: uuid:170ba466-59ac-4039-a457-0fab725b60ff::upnp:rootdevice\r\n\
                    NTS: ssdp:alive\r\n\
                    SERVER: Linus/Arch UPnP/1.0 Linus_Listener/1.0\r\n\
                    \r\n";
    assert_eq!(s, expected);
}

#[test]
fn advertisement_has_seven_headers_and_terminator() {
    let url = String::from("http://10.0.0.1/");
    for role in [
        AdvertisementRole::RootDevice,
        AdvertisementRole::EmbeddedDevice,
        AdvertisementRole::ServiceType,
    ] {
        let m = build_advertisement(role, &url).unwrap();
        assert_eq!(m.headers.len(), 7);
        let keys: Vec<&str> = m.headers.iter().map(|kv| kv.0.as_str()).collect();
        assert_eq!(
            keys,
            vec!["HOST", "cache-control", "LOCATION", "NT", "USN", "NTS", "SERVER"]
        );
        let s = serialize(&m);
        assert!(s.starts_with("NOTIFY * HTTP/1.1\r\n"));
        assert!(s.ends_with("\r\n\r\n"));
    }
}

#[test]
fn embedded_device_advertisement_names() {
    let url = String::from("http://10.0.0.1/");
    let m = build_advertisement(AdvertisementRole::EmbeddedDevice, &url).unwrap();
    let s = serialize(&m);
    assert!(s.contains("NT: uuid:170ba466-59ac-4039-a457-0fab725b60ff\r\n"));
    assert!(s.contains("USN: uuid:170ba466-59ac-4039-a457-0fab725b60ff\r\n"));
}

#[test]
fn service_type_advertisement_names() {
    let url = String::from("http://10.0.0.1/");
    let m = build_advertisement(AdvertisementRole::ServiceType, &url).unwrap();
    let s = serialize(&m);
    assert!(s.contains("NT: urn:schemas-upnp-org:device:Basic:1\r\n"));
    assert!(s.contains(
        "USN: uuid:170ba466-59ac-4039-a457-0fab725b60ff::urn:schemas-upnp-org:device:Basic:1\r\n"
    ));
}

#[test]
fn non_ascii_header_value_rejected() {
    let url = String::from("http://d\u{e9}vice/");
    let r = build_advertisement(AdvertisementRole::RootDevice, &url);
    assert_eq!(r.err(), Some(MessageError::InvalidHeaderValue));
}

#[test]
fn control_character_header_value_rejected() {
    let url = String::from("http://a/\n");
    let r = build_advertisement(AdvertisementRole::RootDevice, &url);
    assert_eq!(r.err(), Some(MessageError::InvalidHeaderValue));
    let bell = String::from("http://a/\u{7}");
    assert_eq!(
        build_search_response(&bell).err(),
        Some(MessageError::InvalidHeaderValue)
    );
}

#[test]
fn ordinary_url_accepted() {
    let url = String::from("http://192.168.178.9:8081/upnp_device_descriptor.xml");
    assert!(build_search_response(&url).is_ok());
}

#[test]
fn search_response_exact_text() {
    let loc = String::from("http://192.168.178.9:8081/upnp_device_descriptor.xml");
    let m = build_search_response(&loc).unwrap();
    let s = serialize(&m);
    let expected = "HTTP/1.1 200 OK\r\n\
                    LOCATION: http://192.168.178.9:8081/upnp_device_descriptor.xml\r\n\
                    ST: urn:dial-multiscreen-org:service:dial:1\r\n\
                    USN: testing-laptop\r\n\
                    \r\n";
    assert_eq!(s, expected);
}

#[test]
fn device_identity_is_fixed() {
    assert_eq!(device_uuid(), "170ba466-59ac-4039-a457-0fab725b60ff");
    assert_eq!(device_uuid(), device_uuid());
}

#[test]
fn broadcast_sequence_order_and_idempotence() {
    let url = String::from("http://192.168.178.9/");
    let a = advertisement_sequence(&url).unwrap();
    let b = advertisement_sequence(&url).unwrap();
    assert_eq!(a, b);
    assert_eq!(a.len(), 3);
    assert!(a[0].contains("NT: upnp:rootdevice\r\n"));
    assert!(a[1].contains("NT: uuid:170ba466-59ac-4039-a457-0fab725b60ff\r\n"));
    assert!(a[2].contains("NT: urn:schemas-upnp-org:device:Basic:1\r\n"));
}

#[test]
fn broadcast_sequence_rejects_bad_url() {
    let url = String::from("http://d\u{e9}vice/");
    assert_eq!(
        advertisement_sequence(&url).err(),
        Some(MessageError::InvalidHeaderValue)
    );
}
