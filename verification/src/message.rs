//! The Message Builder: request-shaped wire messages with an ordered,
//! case-preserving header mapping, and their byte-exact serialization.

use vstd::prelude::*;
use vstd::string::*;

verus! {

/// A wire message: a three-token start line, an ordered header mapping, and
/// no body. Serialized as `METHOD TARGET VERSION\r\n`, one `Key: Value\r\n`
/// line per header in insertion order, and a final empty line.
pub struct Message {
    pub method: String,
    pub target: String,
    pub version: String,
    pub headers: Vec<(String, String)>,
}

/// Mathematical model of a `Message`.
pub struct MessageView {
    pub method: Seq<char>,
    pub target: Seq<char>,
    pub version: Seq<char>,
    pub headers: Seq<(Seq<char>, Seq<char>)>,
}

/// The header mapping a vector of string pairs stands for.
pub open spec fn spec_header_pairs(hs: Seq<(String, String)>) -> Seq<(Seq<char>, Seq<char>)> {
    hs.map_values(|kv: (String, String)| (kv.0@, kv.1@))
}

impl View for Message {
    type V = MessageView;

    open spec fn view(&self) -> MessageView {
        MessageView {
            method: self.method@,
            target: self.target@,
            version: self.version@,
            headers: spec_header_pairs(self.headers@),
        }
    }
}

/// One serialized header line: `Key: Value` and its terminator.
pub open spec fn spec_header_line(k: Seq<char>, v: Seq<char>) -> Seq<char> {
    k + ": "@ + v + "\r\n"@
}

/// The serialized header block, in insertion order.
pub open spec fn spec_serialize_headers(hs: Seq<(Seq<char>, Seq<char>)>) -> Seq<char>
    decreases hs.len(),
{
    if hs.len() == 0 {
        Seq::<char>::empty()
    } else {
        spec_serialize_headers(hs.drop_last()) + spec_header_line(hs.last().0, hs.last().1)
    }
}

/// The start line of `m`: its three tokens joined by single spaces.
pub open spec fn spec_start_line(m: MessageView) -> Seq<char> {
    m.method + " "@ + m.target + " "@ + m.version + "\r\n"@
}

/// The exact wire text of `m`: start line, header lines in order, and the
/// empty line that terminates the message.
pub open spec fn spec_serialize(m: MessageView) -> Seq<char> {
    spec_start_line(m) + spec_serialize_headers(m.headers) + "\r\n"@
}

/// Serializing one more header appends exactly its line.
pub proof fn lemma_serialize_headers_take(hs: Seq<(Seq<char>, Seq<char>)>, i: int)
    requires
        0 <= i < hs.len(),
    ensures
        spec_serialize_headers(hs.take(i + 1)) == spec_serialize_headers(hs.take(i))
            + spec_header_line(hs[i].0, hs[i].1),
{
    assert(hs.take(i + 1).drop_last() =~= hs.take(i));
    assert(hs.take(i + 1).last() == hs[i]);
}

/// Serialize `m` to its exact wire text.
pub fn serialize(m: &Message) -> (r: String)
    ensures
        r@ == spec_serialize(m@),
{
    let mut out = String::new();
    out.append(m.method.as_str());
    out.append(" ");
    out.append(m.target.as_str());
    out.append(" ");
    out.append(m.version.as_str());
    out.append("\r\n");
    proof {
        assert(out@ =~= spec_start_line(m@) + spec_serialize_headers(m@.headers.take(0)));
    }
    let n = m.headers.len();
    let mut i: usize = 0;
    while i < n
        invariant
            i <= n,
            n == m.headers.len(),
            out@ == spec_start_line(m@) + spec_serialize_headers(m@.headers.take(i as int)),
        decreases n - i,
    {
        let kv = &m.headers[i];
        out.append(kv.0.as_str());
        out.append(": ");
        out.append(kv.1.as_str());
        out.append("\r\n");
        proof {
            lemma_serialize_headers_take(m@.headers, i as int);
            assert(m@.headers[i as int] == (m.headers@[i as int].0@, m.headers@[i as int].1@));
            assert(out@ =~= spec_start_line(m@) + spec_serialize_headers(
                m@.headers.take(i as int + 1),
            ));
        }
        i = i + 1;
    }
    out.append("\r\n");
    proof {
        assert(m@.headers.take(n as int) =~= m@.headers);
        assert(out@ =~= spec_serialize(m@));
    }
    out
}

/// Why the Message Builder refused to build a message.
#[derive(Debug, Clone, Copy, PartialEq, Eq, Structural)]
pub enum MessageError {
    /// A variable header value held a character outside visible ASCII.
    InvalidHeaderValue,
}

/// A character the underlying HTTP header type accepts in a value: tab, or
/// anything at or above space except DEL.
pub open spec fn http_value_char_ok(c: char) -> bool {
    c == '\t' || (' ' <= c && c != '\u{7f}')
}

/// A character this library emits in a header value: tab or visible ASCII.
pub open spec fn header_char_ok(c: char) -> bool {
    c == '\t' || (' ' <= c && c <= '~')
}

/// A header value this library is willing to emit.
pub open spec fn valid_header_value(s: Seq<char>) -> bool {
    forall|i: int| 0 <= i < s.len() ==> header_char_ok(#[trigger] s[i])
}

/// Relies on http::HeaderValue::from_str: it returns Ok exactly when every
/// byte of the string is at least 32 and not 127, or is a tab. Over
/// characters that is: tab, or any character at or above space other than
/// DEL — a character above U+007F encodes to bytes in 128..=255, all of
/// which that check accepts.
#[verifier::external_body]
fn http_header_value_accepts(s: &str) -> (r: bool)
    ensures
        r == forall|i: int| 0 <= i < s@.len() ==> http_value_char_ok(#[trigger] s@[i]),
{
    http::HeaderValue::from_str(s).is_ok()
}

/// Whether `v` may stand as a header value in an emitted message: the
/// underlying HTTP header type must accept it, and this library further
/// insists on ASCII, so that emitted messages are visible-ASCII text.
pub fn check_header_value(v: &String) -> (r: bool)
    ensures
        r == valid_header_value(v@),
{
    let http_ok = http_header_value_accepts(v.as_str());
    let ascii = v.is_ascii();
    proof {
        if http_ok && ascii {
            assert forall|i: int| 0 <= i < v@.len() implies header_char_ok(#[trigger] v@[i]) by {
                assert(http_value_char_ok(v@[i]));
                assert('\0' <= v@[i] <= '\u{7f}');
            }
        }
        if valid_header_value(v@) {
            assert forall|i: int|
                0 <= i < v@.len() implies http_value_char_ok(#[trigger] v@[i]) && '\0' <= v@[i]
                <= '\u{7f}' by {
                assert(header_char_ok(v@[i]));
            }
        }
    }
    http_ok && ascii
}

/// The fixed identifier naming the root device for the life of the process.
pub open spec fn spec_device_uuid() -> Seq<char> {
    "170ba466-59ac-4039-a457-0fab725b60ff"@
}

/// The device identity as a string.
pub fn device_uuid() -> (r: String)
    ensures
        r@ == spec_device_uuid(),
{
    String::from_str("170ba466-59ac-4039-a457-0fab725b60ff")
}

/// The role an advertisement message speaks for.
#[derive(Debug, Clone, Copy, PartialEq, Eq, Structural)]
pub enum AdvertisementRole {
    RootDevice,
    EmbeddedDevice,
    ServiceType,
}

/// The NT (notification target) header value of each role.
pub open spec fn spec_notification_target(role: AdvertisementRole) -> Seq<char> {
    match role {
        AdvertisementRole::RootDevice => "upnp:rootdevice"@,
        AdvertisementRole::EmbeddedDevice => "uuid:"@ + spec_device_uuid(),
        AdvertisementRole::ServiceType => "urn:schemas-upnp-org:device:Basic:1"@,
    }
}

/// The USN (unique service name) header value of each role.
pub open spec fn spec_unique_service_name(role: AdvertisementRole) -> Seq<char> {
    match role {
        AdvertisementRole::RootDevice => "uuid:"@ + spec_device_uuid() + "::upnp:rootdevice"@,
        AdvertisementRole::EmbeddedDevice => "uuid:"@ + spec_device_uuid(),
        AdvertisementRole::ServiceType => "uuid:"@ + spec_device_uuid()
            + "::urn:schemas-upnp-org:device:Basic:1"@,
    }
}

/// The SERVER header value carried by every advertisement.
pub open spec fn spec_server_identifier() -> Seq<char> {
    "Linus/Arch UPnP/1.0 Linus_Listener/1.0"@
}

/// The advertisement message of `role`, pointing at the root descriptor URL.
/// HOST, cache-control, NTS and SERVER are the same for every role.
pub open spec fn spec_advertisement(role: AdvertisementRole, url: Seq<char>) -> MessageView {
    MessageView {
        method: "NOTIFY"@,
        target: "*"@,
        version: "HTTP/1.1"@,
        headers: seq![
            ("HOST"@, "239.255.255.250:1900"@),
            ("cache-control"@, "max-age = 900"@),
            ("LOCATION"@, url),
            ("NT"@, spec_notification_target(role)),
            ("USN"@, spec_unique_service_name(role)),
            ("NTS"@, "ssdp:alive"@),
            ("SERVER"@, spec_server_identifier()),
        ],
    }
}

/// The NT and USN values of `role`, as strings.
fn advertisement_names(role: AdvertisementRole) -> (r: (String, String))
    ensures
        r.0@ == spec_notification_target(role),
        r.1@ == spec_unique_service_name(role),
{
    match role {
        AdvertisementRole::RootDevice => {
            let nt = String::from_str("upnp:rootdevice");
            let mut usn = String::from_str("uuid:");
            let id = device_uuid();
            usn.append(id.as_str());
            usn.append("::upnp:rootdevice");
            (nt, usn)
        },
        AdvertisementRole::EmbeddedDevice => {
            let mut nt = String::from_str("uuid:");
            let id = device_uuid();
            nt.append(id.as_str());
            let usn = nt.clone();
            (nt, usn)
        },
        AdvertisementRole::ServiceType => {
            let nt = String::from_str("urn:schemas-upnp-org:device:Basic:1");
            let mut usn = String::from_str("uuid:");
            let id = device_uuid();
            usn.append(id.as_str());
            usn.append("::urn:schemas-upnp-org:device:Basic:1");
            (nt, usn)
        },
    }
}

/// Build the advertisement of `role` for the given root descriptor URL.
/// Fails exactly when the URL is not a header value this library emits.
pub fn build_advertisement(role: AdvertisementRole, root_url: &String) -> (r: Result<
    Message,
    MessageError,
>)
    ensures
        r is Ok <==> valid_header_value(root_url@),
        r matches Ok(m) ==> m@ == spec_advertisement(role, root_url@),
        r matches Err(e) ==> e == MessageError::InvalidHeaderValue,
{
    if !check_header_value(root_url) {
        return Err(MessageError::InvalidHeaderValue);
    }
    let names = advertisement_names(role);
    let mut headers: Vec<(String, String)> = Vec::new();
    headers.push((String::from_str("HOST"), String::from_str("239.255.255.250:1900")));
    headers.push((String::from_str("cache-control"), String::from_str("max-age = 900")));
    headers.push((String::from_str("LOCATION"), root_url.clone()));
    headers.push((String::from_str("NT"), names.0));
    headers.push((String::from_str("USN"), names.1));
    headers.push((String::from_str("NTS"), String::from_str("ssdp:alive")));
    headers.push((
        String::from_str("SERVER"),
        String::from_str("Linus/Arch UPnP/1.0 Linus_Listener/1.0"),
    ));
    let m = Message {
        method: String::from_str("NOTIFY"),
        target: String::from_str("*"),
        version: String::from_str("HTTP/1.1"),
        headers,
    };
    proof {
        assert(m@.headers =~= spec_advertisement(role, root_url@).headers);
    }
    Ok(m)
}

/// The path under which the descriptor document is served.
pub open spec fn spec_descriptor_path() -> Seq<char> {
    "/upnp_device_descriptor.xml"@
}

/// The search target this device answers for.
pub open spec fn spec_search_target() -> Seq<char> {
    "urn:dial-multiscreen-org:service:dial:1"@
}

/// The USN header value carried by every search response.
pub open spec fn spec_response_usn() -> Seq<char> {
    "testing-laptop"@
}

/// The search response message: a success status line and the LOCATION, ST
/// and USN headers.
pub open spec fn spec_search_response(location: Seq<char>) -> MessageView {
    MessageView {
        method: "HTTP/1.1"@,
        target: "200"@,
        version: "OK"@,
        headers: seq![
            ("LOCATION"@, location),
            ("ST"@, spec_search_target()),
            ("USN"@, spec_response_usn()),
        ],
    }
}

/// Build the response to a matching search request. Fails exactly when the
/// descriptor location is not a header value this library emits.
pub fn build_search_response(location: &String) -> (r: Result<Message, MessageError>)
    ensures
        r is Ok <==> valid_header_value(location@),
        r matches Ok(m) ==> m@ == spec_search_response(location@),
        r matches Err(e) ==> e == MessageError::InvalidHeaderValue,
{
    if !check_header_value(location) {
        return Err(MessageError::InvalidHeaderValue);
    }
    let mut headers: Vec<(String, String)> = Vec::new();
    headers.push((String::from_str("LOCATION"), location.clone()));
    headers.push((
        String::from_str("ST"),
        String::from_str("urn:dial-multiscreen-org:service:dial:1"),
    ));
    headers.push((String::from_str("USN"), String::from_str("testing-laptop")));
    let m = Message {
        method: String::from_str("HTTP/1.1"),
        target: String::from_str("200"),
        version: String::from_str("OK"),
        headers,
    };
    proof {
        assert(m@.headers =~= spec_search_response(location@).headers);
    }
    Ok(m)
}

} // verus!
