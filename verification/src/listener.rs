//! The Discovery Listener's decision: which inbound search datagrams get a
//! unicast reply, and the exact text of that reply.

use vstd::prelude::*;
use vstd::string::*;
use vstd::utf8::{decode_utf8, valid_utf8};

use crate::message::{
    build_search_response, serialize, spec_descriptor_path, spec_search_response,
    spec_search_target, spec_serialize, valid_header_value,
};
use crate::parse::{
    lookup_header, parse_request, spec_lookup_header, spec_parse_request, utf8_to_text,
};

verus! {

/// The decimal digit character of `d`.
pub open spec fn spec_digit(d: int) -> char {
    if d == 0 {
        '0'
    } else if d == 1 {
        '1'
    } else if d == 2 {
        '2'
    } else if d == 3 {
        '3'
    } else if d == 4 {
        '4'
    } else if d == 5 {
        '5'
    } else if d == 6 {
        '6'
    } else if d == 7 {
        '7'
    } else if d == 8 {
        '8'
    } else {
        '9'
    }
}

/// The decimal numeral of `n`, most significant digit first, no sign and no
/// leading zeros (a lone zero for zero).
pub open spec fn spec_decimal(n: int) -> Seq<char>
    decreases n,
{
    if n < 10 {
        seq![spec_digit(n)]
    } else {
        spec_decimal(n / 10) + seq![spec_digit(n % 10)]
    }
}

/// The digit character of `d`, as a one-character string.
fn digit_str(d: u16) -> (r: &'static str)
    requires
        d < 10,
    ensures
        r@ == seq![spec_digit(d as int)],
{
    match d {
        0 => {
            proof {
                reveal_strlit("0");
                assert("0"@ =~= seq![spec_digit(0)]);
            }
            "0"
        },
        1 => {
            proof {
                reveal_strlit("1");
                assert("1"@ =~= seq![spec_digit(1)]);
            }
            "1"
        },
        2 => {
            proof {
                reveal_strlit("2");
                assert("2"@ =~= seq![spec_digit(2)]);
            }
            "2"
        },
        3 => {
            proof {
                reveal_strlit("3");
                assert("3"@ =~= seq![spec_digit(3)]);
            }
            "3"
        },
        4 => {
            proof {
                reveal_strlit("4");
                assert("4"@ =~= seq![spec_digit(4)]);
            }
            "4"
        },
        5 => {
            proof {
                reveal_strlit("5");
                assert("5"@ =~= seq![spec_digit(5)]);
            }
            "5"
        },
        6 => {
            proof {
                reveal_strlit("6");
                assert("6"@ =~= seq![spec_digit(6)]);
            }
            "6"
        },
        7 => {
            proof {
                reveal_strlit("7");
                assert("7"@ =~= seq![spec_digit(7)]);
            }
            "7"
        },
        8 => {
            proof {
                reveal_strlit("8");
                assert("8"@ =~= seq![spec_digit(8)]);
            }
            "8"
        },
        _ => {
            proof {
                reveal_strlit("9");
                assert("9"@ =~= seq![spec_digit(9)]);
            }
            "9"
        },
    }
}

/// The decimal numeral of `n`.
pub fn u16_decimal(n: u16) -> (r: String)
    ensures
        r@ == spec_decimal(n as int),
    decreases n,
{
    if n < 10 {
        String::from_str(digit_str(n))
    } else {
        let mut s = u16_decimal(n / 10);
        s.append(digit_str(n % 10));
        s
    }
}

/// The URL under which the descriptor document is served on `host` at
/// `port`.
pub open spec fn spec_descriptor_location(host: Seq<char>, port: u16) -> Seq<char> {
    "http://"@ + host + ":"@ + spec_decimal(port as int) + spec_descriptor_path()
}

/// The descriptor URL as a string.
pub fn descriptor_location(host: &String, port: u16) -> (r: String)
    ensures
        r@ == spec_descriptor_location(host@, port),
{
    let mut s = String::from_str("http://");
    s.append(host.as_str());
    s.append(":");
    let p = u16_decimal(port);
    s.append(p.as_str());
    s.append("/upnp_device_descriptor.xml");
    s
}

/// The reply one inbound search text is owed: the serialized search response
/// exactly when the text parses as a request whose last `ST` header equals
/// the advertised search target (and the descriptor URL is an emittable
/// header value); silence for every other text.
pub open spec fn spec_handle_search(t: Seq<char>, host: Seq<char>, port: u16) -> Option<Seq<char>> {
    match spec_parse_request(t) {
        None => None,
        Some(req) => {
            if spec_lookup_header(req.headers, "ST"@) == Some(spec_search_target())
                && valid_header_value(spec_descriptor_location(host, port)) {
                Some(spec_serialize(spec_search_response(spec_descriptor_location(host, port))))
            } else {
                None
            }
        },
    }
}

/// Decide one decoded search text: at most one reply, and exactly one when
/// the request asks for the advertised search target.
pub fn handle_search(text: &String, host: &String, port: u16) -> (r: Option<String>)
    ensures
        match r {
            Some(s) => spec_handle_search(text@, host@, port) == Some(s@),
            None => spec_handle_search(text@, host@, port) is None,
        },
{
    let req = match parse_request(text) {
        Some(req) => req,
        None => {
            return None;
        },
    };
    let st_key = String::from_str("ST");
    let target = String::from_str("urn:dial-multiscreen-org:service:dial:1");
    match lookup_header(&req.headers, &st_key) {
        Some(v) => {
            if v == target {
                let loc = descriptor_location(host, port);
                match build_search_response(&loc) {
                    Ok(m) => Some(serialize(&m)),
                    Err(_) => None,
                }
            } else {
                None
            }
        },
        None => None,
    }
}

/// Decide one inbound datagram: decode it as text, parse it, and reply only
/// to a matching search. A malformed datagram yields silence, never failure.
pub fn handle_datagram(data: &Vec<u8>, host: &String, port: u16) -> (r: Option<String>)
    ensures
        valid_utf8(data@) ==> match r {
            Some(s) => spec_handle_search(decode_utf8(data@), host@, port) == Some(s@),
            None => spec_handle_search(decode_utf8(data@), host@, port) is None,
        },
        !valid_utf8(data@) ==> r is None,
{
    match utf8_to_text(data) {
        Some(text) => handle_search(&text, host, port),
        None => None,
    }
}

} // verus!
