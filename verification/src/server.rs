//! The Descriptor Server's decision: the exact response each stream request
//! is owed, routed on its method and path.

use vstd::prelude::*;
use vstd::string::*;
use vstd::utf8::{decode_utf8, valid_utf8};

use crate::message::{serialize, spec_serialize, Message, MessageView};
use crate::parse::{parse_request, spec_parse_request, utf8_to_text, RequestView};

verus! {

/// The outcome of one stream connection's request. Each connection is
/// independent: after the outcome is acted on, the connection closes.
pub enum StreamOutcome {
    /// Send this response, then close.
    Reply(String),
    /// Malformed request: close without responding.
    Discard,
    /// The descriptor document was asked for but is unavailable: a fatal
    /// error for this one request, and for nothing else.
    MissingAsset,
}

/// Mathematical model of a `StreamOutcome`.
pub enum StreamOutcomeView {
    Reply(Seq<char>),
    Discard,
    MissingAsset,
}

impl View for StreamOutcome {
    type V = StreamOutcomeView;

    open spec fn view(&self) -> StreamOutcomeView {
        match self {
            StreamOutcome::Reply(s) => StreamOutcomeView::Reply(s@),
            StreamOutcome::Discard => StreamOutcomeView::Discard,
            StreamOutcome::MissingAsset => StreamOutcomeView::MissingAsset,
        }
    }
}

/// The fixed HTML body of the landing page.
pub open spec fn spec_landing_body() -> Seq<char> {
    "<html>\n<body>TEST</body>\n</html>"@
}

/// The landing page response: a success status line, its headers, and the
/// fixed HTML body.
pub open spec fn spec_landing_response() -> Seq<char> {
    spec_serialize(
        MessageView {
            method: "HTTP/1.1"@,
            target: "200"@,
            version: "OK"@,
            headers: seq![
                ("Connection"@, "Keep-Alive"@),
                ("Access-Control-Allow-Origin"@, "*"@),
                ("Content-Type"@, "text/html; charset=utf-8"@),
            ],
        },
    ) + spec_landing_body()
}

/// The descriptor response: a success status line, the XML content type,
/// and the descriptor document itself as the body.
pub open spec fn spec_descriptor_response(doc: Seq<char>) -> Seq<char> {
    spec_serialize(
        MessageView {
            method: "HTTP/1.1"@,
            target: "200"@,
            version: "OK"@,
            headers: seq![("content-type"@, "application/xml"@)],
        },
    ) + doc
}

/// The not-found response: a bare status line, no headers, no body.
pub open spec fn spec_not_found_response() -> Seq<char> {
    spec_serialize(
        MessageView {
            method: "HTTP/1.1"@,
            target: "404"@,
            version: "Not Found"@,
            headers: Seq::<(Seq<char>, Seq<char>)>::empty(),
        },
    )
}

/// Route one parsed stream request: the landing page at the root, the
/// descriptor document at its path, not-found for any other method or path.
pub open spec fn spec_route(req: RequestView, doc: Option<Seq<char>>) -> StreamOutcomeView {
    if req.method == "GET"@ && req.path == "/"@ {
        StreamOutcomeView::Reply(spec_landing_response())
    } else if req.method == "GET"@ && req.path == "/upnp_device_descriptor.xml"@ {
        match doc {
            Some(d) => StreamOutcomeView::Reply(spec_descriptor_response(d)),
            None => StreamOutcomeView::MissingAsset,
        }
    } else {
        StreamOutcomeView::Reply(spec_not_found_response())
    }
}

/// The outcome one connection's bytes are owed: discard what does not decode
/// or parse, route everything else.
pub open spec fn spec_handle_connection(data: Seq<u8>, doc: Option<Seq<char>>) -> StreamOutcomeView {
    if !valid_utf8(data) {
        StreamOutcomeView::Discard
    } else {
        match spec_parse_request(decode_utf8(data)) {
            None => StreamOutcomeView::Discard,
            Some(req) => spec_route(req, doc),
        }
    }
}

/// The landing page response as a string.
pub fn landing_response() -> (r: String)
    ensures
        r@ == spec_landing_response(),
{
    let mut headers: Vec<(String, String)> = Vec::new();
    headers.push((String::from_str("Connection"), String::from_str("Keep-Alive")));
    headers.push((String::from_str("Access-Control-Allow-Origin"), String::from_str("*")));
    headers.push((
        String::from_str("Content-Type"),
        String::from_str("text/html; charset=utf-8"),
    ));
    let m = Message {
        method: String::from_str("HTTP/1.1"),
        target: String::from_str("200"),
        version: String::from_str("OK"),
        headers,
    };
    let mut r = serialize(&m);
    r.append("<html>\n<body>TEST</body>\n</html>");
    proof {
        assert(m@.headers =~= seq![
            ("Connection"@, "Keep-Alive"@),
            ("Access-Control-Allow-Origin"@, "*"@),
            ("Content-Type"@, "text/html; charset=utf-8"@),
        ]);
    }
    r
}

/// The descriptor response for the given document, as a string.
pub fn descriptor_response(doc: &String) -> (r: String)
    ensures
        r@ == spec_descriptor_response(doc@),
{
    let mut headers: Vec<(String, String)> = Vec::new();
    headers.push((String::from_str("content-type"), String::from_str("application/xml")));
    let m = Message {
        method: String::from_str("HTTP/1.1"),
        target: String::from_str("200"),
        version: String::from_str("OK"),
        headers,
    };
    let mut r = serialize(&m);
    r.append(doc.as_str());
    proof {
        assert(m@.headers =~= seq![("content-type"@, "application/xml"@)]);
    }
    r
}

/// The not-found response as a string.
pub fn not_found_response() -> (r: String)
    ensures
        r@ == spec_not_found_response(),
{
    let headers: Vec<(String, String)> = Vec::new();
    let m = Message {
        method: String::from_str("HTTP/1.1"),
        target: String::from_str("404"),
        version: String::from_str("Not Found"),
        headers,
    };
    proof {
        assert(m@.headers =~= Seq::<(Seq<char>, Seq<char>)>::empty());
    }
    serialize(&m)
}

/// Decide one stream connection's request. `descriptor` is the document the
/// surrounding process read from its asset, if it could.
pub fn handle_connection(data: &Vec<u8>, descriptor: Option<&String>) -> (r: StreamOutcome)
    ensures
        r@ == spec_handle_connection(
            data@,
            match descriptor {
                Some(d) => Some(d@),
                None => None,
            },
        ),
{
    let text = match utf8_to_text(data) {
        Some(t) => t,
        None => {
            return StreamOutcome::Discard;
        },
    };
    let req = match parse_request(&text) {
        Some(req) => req,
        None => {
            return StreamOutcome::Discard;
        },
    };
    let get = String::from_str("GET");
    let root = String::from_str("/");
    let descriptor_path = String::from_str("/upnp_device_descriptor.xml");
    if req.method == get && req.path == root {
        StreamOutcome::Reply(landing_response())
    } else if req.method == get && req.path == descriptor_path {
        match descriptor {
            Some(d) => StreamOutcome::Reply(descriptor_response(d)),
            None => StreamOutcome::MissingAsset,
        }
    } else {
        StreamOutcome::Reply(not_found_response())
    }
}

} // verus!
