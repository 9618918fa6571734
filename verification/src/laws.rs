//! Laws the library's messages obey, proved over the same spec functions
//! the executable contracts use: the round trip from builder to parser, the
//! listener's selective-reply rule, and advertisement well-formedness.

use vstd::prelude::*;
use vstd::string::*;

use crate::listener::{spec_decimal, spec_descriptor_location, spec_digit, spec_handle_search};
use crate::message::{
    header_char_ok, spec_advertisement, spec_header_line, spec_search_response,
    spec_search_target, spec_serialize, spec_serialize_headers, spec_start_line,
    valid_header_value, AdvertisementRole, MessageView,
};
use crate::parse::{
    spec_collect_headers, spec_lines, spec_lookup_header, spec_parse_header_line,
    spec_parse_request, split_colon_space, split_spaces, strip_cr, RequestView,
};
use crate::text::{
    find_colon_space, lemma_find_char_is_first, lemma_find_char_none, lemma_find_colon_space,
    lemma_find_colon_space_is_first, lemma_find_colon_space_none,
};

verus! {

/// A start-line token that survives the round trip: no separator, no line
/// break.
pub open spec fn token_ok(s: Seq<char>) -> bool {
    forall|j: int| 0 <= j < s.len() ==> s[j] != ' ' && s[j] != '\n'
}

/// A header pair that survives the round trip: no line break on either side,
/// and no `": "` inside the key or the value.
pub open spec fn header_ok(k: Seq<char>, v: Seq<char>) -> bool {
    &&& forall|j: int| 0 <= j < k.len() ==> k[j] != '\n'
    &&& forall|j: int| 0 <= j < v.len() ==> v[j] != '\n'
    &&& find_colon_space(k) is None
    &&& find_colon_space(v) is None
}

/// A message whose serialization parses back to itself.
pub open spec fn round_trippable(m: MessageView) -> bool {
    &&& token_ok(m.method)
    &&& token_ok(m.target)
    &&& token_ok(m.version)
    &&& forall|i: int|
        0 <= i < m.headers.len() ==> header_ok(
            (#[trigger] m.headers[i]).0,
            m.headers[i].1,
        )
}

/// A terminated line without inner line breaks is the first line of any text
/// it starts.
proof fn lemma_lines_concat(a: Seq<char>, rest: Seq<char>)
    requires
        forall|j: int| 0 <= j < a.len() ==> a[j] != '\n',
    ensures
        spec_lines(a + "\r\n"@ + rest) == seq![a] + spec_lines(rest),
{
    reveal_strlit("\r\n");
    let s = a + "\r\n"@ + rest;
    let al = a.len() as int;
    assert(s[al] == '\r');
    assert(s[al + 1] == '\n');
    assert forall|j: int| 0 <= j < al + 1 implies s[j] != '\n' by {
        if j < al {
            assert(s[j] == a[j]);
        }
    }
    lemma_find_char_is_first(s, '\n', al + 1);
    assert(strip_cr(s.take(al + 1)) =~= a);
    assert(s.skip(al + 2) =~= rest);
    assert(spec_lines(s) == seq![strip_cr(s.take(al + 1))] + spec_lines(s.skip(al + 2)));
}

/// The header block can be peeled from the front as well as from the back.
proof fn lemma_serialize_headers_first(hs: Seq<(Seq<char>, Seq<char>)>)
    requires
        hs.len() > 0,
    ensures
        spec_serialize_headers(hs) == spec_header_line(hs[0].0, hs[0].1) + spec_serialize_headers(
            hs.drop_first(),
        ),
    decreases hs.len(),
{
    if hs.len() == 1 {
        assert(hs.drop_last() =~= Seq::<(Seq<char>, Seq<char>)>::empty());
        assert(hs.drop_first() =~= Seq::<(Seq<char>, Seq<char>)>::empty());
        assert(hs.last() == hs[0]);
        assert(spec_serialize_headers(hs) =~= spec_header_line(hs[0].0, hs[0].1)
            + spec_serialize_headers(hs.drop_first()));
    } else {
        let d = hs.drop_last();
        lemma_serialize_headers_first(d);
        assert(d[0] == hs[0]);
        assert(d.drop_first() =~= hs.drop_first().drop_last());
        assert(hs.drop_first().last() == hs.last());
        assert(hs.drop_first().len() > 0);
        assert(spec_serialize_headers(hs.drop_first()) == spec_serialize_headers(
            hs.drop_first().drop_last(),
        ) + spec_header_line(hs.drop_first().last().0, hs.drop_first().last().1));
        assert(spec_serialize_headers(hs) =~= spec_header_line(hs[0].0, hs[0].1)
            + spec_serialize_headers(hs.drop_first()));
    }
}

/// The text of each header line, without its terminator.
spec fn header_contents(hs: Seq<(Seq<char>, Seq<char>)>) -> Seq<Seq<char>> {
    hs.map_values(|kv: (Seq<char>, Seq<char>)| kv.0 + ": "@ + kv.1)
}

/// The lines of a serialized header block and its blank-line terminator:
/// each header's text, then one empty line.
proof fn lemma_lines_of_header_block(hs: Seq<(Seq<char>, Seq<char>)>)
    requires
        forall|i: int| 0 <= i < hs.len() ==> header_ok((#[trigger] hs[i]).0, hs[i].1),
    ensures
        spec_lines(spec_serialize_headers(hs) + "\r\n"@) == header_contents(hs) + seq![
            Seq::<char>::empty(),
        ],
    decreases hs.len(),
{
    reveal_strlit("\r\n");
    reveal_strlit(": ");
    if hs.len() == 0 {
        assert(spec_serialize_headers(hs) + "\r\n"@ =~= Seq::<char>::empty() + "\r\n"@
            + Seq::<char>::empty());
        lemma_lines_concat(Seq::<char>::empty(), Seq::<char>::empty());
        assert(spec_lines(Seq::<char>::empty()) =~= Seq::<Seq<char>>::empty());
        assert(header_contents(hs) =~= Seq::<Seq<char>>::empty());
        assert(spec_lines(spec_serialize_headers(hs) + "\r\n"@) =~= header_contents(hs) + seq![
            Seq::<char>::empty(),
        ]);
    } else {
        lemma_serialize_headers_first(hs);
        let k = hs[0].0;
        let v = hs[0].1;
        let content = k + ": "@ + v;
        let tail = spec_serialize_headers(hs.drop_first()) + "\r\n"@;
        assert(spec_header_line(k, v) =~= content + "\r\n"@);
        assert(spec_serialize_headers(hs) + "\r\n"@ =~= content + "\r\n"@ + tail);
        assert(header_ok(hs[0].0, hs[0].1));
        assert forall|j: int| 0 <= j < content.len() implies content[j] != '\n' by {
            let kl = k.len() as int;
            if j < kl {
                assert(content[j] == k[j]);
            } else if j < kl + 2 {
                assert(content[j] == ": "@[j - kl]);
            } else {
                assert(content[j] == v[j - kl - 2]);
            }
        }
        lemma_lines_concat(content, tail);
        assert forall|i: int|
            0 <= i < hs.drop_first().len() implies header_ok(
            (#[trigger] hs.drop_first()[i]).0,
            hs.drop_first()[i].1,
        ) by {
            assert(hs.drop_first()[i] == hs[i + 1]);
        }
        lemma_lines_of_header_block(hs.drop_first());
        assert(header_contents(hs) =~= seq![content] + header_contents(hs.drop_first()));
        assert(spec_lines(spec_serialize_headers(hs) + "\r\n"@) =~= header_contents(hs) + seq![
            Seq::<char>::empty(),
        ]);
    }
}

/// A space-free token at the front of a line is its first token.
proof fn lemma_split_spaces_concat(a: Seq<char>, rest: Seq<char>)
    requires
        forall|j: int| 0 <= j < a.len() ==> a[j] != ' ',
    ensures
        split_spaces(a + " "@ + rest) == seq![a] + split_spaces(rest),
{
    reveal_strlit(" ");
    let s = a + " "@ + rest;
    let al = a.len() as int;
    assert(s[al] == ' ');
    assert forall|j: int| 0 <= j < al implies s[j] != ' ' by {
        assert(s[j] == a[j]);
    }
    lemma_find_char_is_first(s, ' ', al);
    assert(s.take(al) =~= a);
    assert(s.skip(al + 1) =~= rest);
    assert(split_spaces(s) == seq![s.take(al)] + split_spaces(s.skip(al + 1)));
}

/// A space-free line is one token.
proof fn lemma_split_spaces_single(a: Seq<char>)
    requires
        forall|j: int| 0 <= j < a.len() ==> a[j] != ' ',
    ensures
        split_spaces(a) == seq![a],
{
    lemma_find_char_none(a, ' ');
}

/// The start line splits into exactly its three tokens.
proof fn lemma_start_line_tokens(m: MessageView)
    requires
        token_ok(m.method),
        token_ok(m.target),
        token_ok(m.version),
    ensures
        split_spaces(m.method + " "@ + m.target + " "@ + m.version) == seq![
            m.method,
            m.target,
            m.version,
        ],
{
    let fl = m.method + " "@ + m.target + " "@ + m.version;
    let rest = m.target + " "@ + m.version;
    assert(fl =~= m.method + " "@ + rest);
    lemma_split_spaces_concat(m.method, rest);
    lemma_split_spaces_concat(m.target, m.version);
    lemma_split_spaces_single(m.version);
    assert(split_spaces(fl) =~= seq![m.method, m.target, m.version]);
}

/// A serialized header line parses back to its key and value.
proof fn lemma_header_line_parses(k: Seq<char>, v: Seq<char>)
    requires
        find_colon_space(k) is None,
        find_colon_space(v) is None,
    ensures
        spec_parse_header_line(k + ": "@ + v) == Some((k, v)),
{
    reveal_strlit(": ");
    let l = k + ": "@ + v;
    let kl = k.len() as int;
    assert(l[kl] == ':');
    assert(l[kl + 1] == ' ');
    lemma_find_colon_space(k);
    assert forall|j: int| 0 <= j < kl implies !((#[trigger] l[j]) == ':' && l[j + 1] == ' ') by {
        assert(l[j] == k[j]);
        if j + 1 < kl {
            assert(l[j + 1] == k[j + 1]);
        } else {
            assert(l[j + 1] == ':');
        }
    }
    lemma_find_colon_space_is_first(l, kl);
    let rem = l.skip(kl + 2);
    assert(rem =~= v);
    assert(split_colon_space(rem) == seq![rem]);
    assert(l.take(kl) =~= k);
    assert(split_colon_space(l) == seq![l.take(kl)] + split_colon_space(rem));
    assert(split_colon_space(l) =~= seq![k, v]);
}

/// Collecting the header lines of a block yields back its header mapping.
proof fn lemma_collect_of_contents(hs: Seq<(Seq<char>, Seq<char>)>)
    requires
        forall|i: int| 0 <= i < hs.len() ==> header_ok((#[trigger] hs[i]).0, hs[i].1),
    ensures
        spec_collect_headers(header_contents(hs)) == hs,
    decreases hs.len(),
{
    if hs.len() == 0 {
        assert(header_contents(hs) =~= Seq::<Seq<char>>::empty());
        assert(spec_collect_headers(header_contents(hs)) =~= hs);
    } else {
        let c = header_contents(hs);
        assert(c.last() == hs.last().0 + ": "@ + hs.last().1);
        assert(c.drop_last() =~= header_contents(hs.drop_last()));
        assert(header_ok(hs[hs.len() - 1].0, hs[hs.len() - 1].1));
        lemma_header_line_parses(hs.last().0, hs.last().1);
        assert forall|i: int|
            0 <= i < hs.drop_last().len() implies header_ok(
            (#[trigger] hs.drop_last()[i]).0,
            hs.drop_last()[i].1,
        ) by {
            assert(hs.drop_last()[i] == hs[i]);
        }
        lemma_collect_of_contents(hs.drop_last());
        assert(spec_collect_headers(c) == spec_collect_headers(c.drop_last()) + seq![hs.last()]);
        assert(spec_collect_headers(header_contents(hs)) =~= hs);
    }
}

/// The empty line at the end of a message contributes no header.
proof fn lemma_empty_line_no_header()
    ensures
        spec_parse_header_line(Seq::<char>::empty()) is None,
{
    assert(split_colon_space(Seq::<char>::empty()) == seq![Seq::<char>::empty()]);
}

/// Round trip: a message built by the Message Builder, serialized, then
/// parsed with the same rule the listener applies to inbound messages,
/// yields back the original start-line tokens and header mapping.
pub proof fn lemma_round_trip(m: MessageView)
    requires
        round_trippable(m),
    ensures
        spec_parse_request(spec_serialize(m)) == Some(
            RequestView { method: m.method, path: m.target, version: m.version, headers: m.headers },
        ),
{
    reveal_strlit(" ");
    reveal_strlit("\r\n");
    let fl = m.method + " "@ + m.target + " "@ + m.version;
    let tail = spec_serialize_headers(m.headers) + "\r\n"@;
    let s = spec_serialize(m);
    assert(s =~= fl + "\r\n"@ + tail);
    assert forall|j: int| 0 <= j < fl.len() implies fl[j] != '\n' by {
        let ml = m.method.len() as int;
        let tl = m.target.len() as int;
        if j < ml {
            assert(fl[j] == m.method[j]);
        } else if j == ml {
            assert(fl[j] == ' ');
        } else if j < ml + 1 + tl {
            assert(fl[j] == m.target[j - ml - 1]);
        } else if j == ml + 1 + tl {
            assert(fl[j] == ' ');
        } else {
            assert(fl[j] == m.version[j - ml - tl - 2]);
        }
    }
    lemma_lines_concat(fl, tail);
    lemma_lines_of_header_block(m.headers);
    let ls = spec_lines(s);
    assert(ls == seq![fl] + (header_contents(m.headers) + seq![Seq::<char>::empty()]));
    assert(ls.len() >= 2);
    assert(ls[0] == fl);
    lemma_start_line_tokens(m);
    let toks = split_spaces(ls[0]);
    assert(toks.len() == 3);
    assert(toks[0] == m.method);
    assert(toks[1] == m.target);
    assert(toks[2] == m.version);
    assert(ls.drop_first() =~= header_contents(m.headers) + seq![Seq::<char>::empty()]);
    lemma_collect_of_contents(m.headers);
    lemma_empty_line_no_header();
    let full = header_contents(m.headers) + seq![Seq::<char>::empty()];
    assert(full.drop_last() =~= header_contents(m.headers));
    assert(full.last() == Seq::<char>::empty());
    assert(spec_collect_headers(full) =~= m.headers);
    assert(spec_parse_request(s) == Some(
        RequestView { method: m.method, path: m.target, version: m.version, headers: m.headers },
    ));
}

/// An emittable header value holds no line break.
proof fn lemma_valid_value_no_newline(s: Seq<char>)
    requires
        valid_header_value(s),
    ensures
        forall|j: int| 0 <= j < s.len() ==> s[j] != '\n',
{
    assert forall|j: int| 0 <= j < s.len() implies s[j] != '\n' by {
        assert(header_char_ok(s[j]));
    }
}

/// Round trip of the search response: for any emittable LOCATION value
/// without an embedded `": "`, the built response parses back to its own
/// status tokens and header mapping.
pub proof fn lemma_search_response_round_trip(location: Seq<char>)
    requires
        valid_header_value(location),
        find_colon_space(location) is None,
    ensures
        spec_parse_request(spec_serialize(spec_search_response(location))) == Some(
            RequestView {
                method: "HTTP/1.1"@,
                path: "200"@,
                version: "OK"@,
                headers: spec_search_response(location).headers,
            },
        ),
{
    reveal_strlit("HTTP/1.1");
    reveal_strlit("200");
    reveal_strlit("OK");
    reveal_strlit("LOCATION");
    reveal_strlit("ST");
    reveal_strlit("USN");
    reveal_strlit("urn:dial-multiscreen-org:service:dial:1");
    reveal_strlit("testing-laptop");
    let m = spec_search_response(location);
    lemma_valid_value_no_newline(location);
    lemma_find_colon_space_none("LOCATION"@);
    lemma_find_colon_space_none("ST"@);
    lemma_find_colon_space_none("USN"@);
    lemma_find_colon_space_none("urn:dial-multiscreen-org:service:dial:1"@);
    lemma_find_colon_space_none("testing-laptop"@);
    assert(header_ok(m.headers[0].0, m.headers[0].1));
    assert(header_ok(m.headers[1].0, m.headers[1].1));
    assert(header_ok(m.headers[2].0, m.headers[2].1));
    assert(round_trippable(m));
    lemma_round_trip(m);
}

/// `": "`-freeness survives concatenation when the seam is clean.
proof fn lemma_no_colon_space_concat(a: Seq<char>, b: Seq<char>)
    requires
        find_colon_space(a) is None,
        find_colon_space(b) is None,
        !(a.len() > 0 && b.len() > 0 && a.last() == ':' && b[0] == ' '),
    ensures
        find_colon_space(a + b) is None,
{
    lemma_find_colon_space(a);
    lemma_find_colon_space(b);
    let s = a + b;
    let al = a.len() as int;
    assert forall|j: int|
        0 <= j && j + 1 < s.len() implies !((#[trigger] s[j]) == ':' && s[j + 1] == ' ') by {
        if j + 1 < al {
            assert(s[j] == a[j]);
            assert(s[j + 1] == a[j + 1]);
        } else if j + 1 == al {
            assert(s[j] == a[j]);
            assert(s[j + 1] == b[0]);
        } else if j >= al {
            assert(s[j] == b[j - al]);
            assert(s[j + 1] == b[j + 1 - al]);
        }
    }
    lemma_find_colon_space_none(s);
}

/// The NT and USN values of every role are line-safe and hold no `": "`.
proof fn lemma_advertisement_names_clean(role: AdvertisementRole)
    ensures
        header_ok("NT"@, crate::message::spec_notification_target(role)),
        header_ok("USN"@, crate::message::spec_unique_service_name(role)),
{
    reveal_strlit("NT");
    reveal_strlit("USN");
    reveal_strlit("uuid:");
    reveal_strlit("170ba466-59ac-4039-a457-0fab725b60ff");
    reveal_strlit("upnp:rootdevice");
    reveal_strlit("::upnp:rootdevice");
    reveal_strlit("urn:schemas-upnp-org:device:Basic:1");
    reveal_strlit("::urn:schemas-upnp-org:device:Basic:1");
    lemma_find_colon_space_none("NT"@);
    lemma_find_colon_space_none("USN"@);
    lemma_find_colon_space_none("uuid:"@);
    lemma_find_colon_space_none("170ba466-59ac-4039-a457-0fab725b60ff"@);
    lemma_find_colon_space_none("upnp:rootdevice"@);
    lemma_find_colon_space_none("::upnp:rootdevice"@);
    lemma_find_colon_space_none("urn:schemas-upnp-org:device:Basic:1"@);
    lemma_find_colon_space_none("::urn:schemas-upnp-org:device:Basic:1"@);
    let uuid = crate::message::spec_device_uuid();
    lemma_no_colon_space_concat("uuid:"@, uuid);
    lemma_no_colon_space_concat("uuid:"@ + uuid, "::upnp:rootdevice"@);
    lemma_no_colon_space_concat("uuid:"@ + uuid, "::urn:schemas-upnp-org:device:Basic:1"@);
}

/// Round trip of every advertisement: for any emittable root URL without an
/// embedded `": "`, the built advertisement parses back to its own start
/// tokens and its seven headers.
pub proof fn lemma_advertisement_round_trip(role: AdvertisementRole, url: Seq<char>)
    requires
        valid_header_value(url),
        find_colon_space(url) is None,
    ensures
        spec_parse_request(spec_serialize(spec_advertisement(role, url))) == Some(
            RequestView {
                method: "NOTIFY"@,
                path: "*"@,
                version: "HTTP/1.1"@,
                headers: spec_advertisement(role, url).headers,
            },
        ),
{
    reveal_strlit("NOTIFY");
    reveal_strlit("*");
    reveal_strlit("HTTP/1.1");
    reveal_strlit("HOST");
    reveal_strlit("239.255.255.250:1900");
    reveal_strlit("cache-control");
    reveal_strlit("max-age = 900");
    reveal_strlit("LOCATION");
    reveal_strlit("NTS");
    reveal_strlit("ssdp:alive");
    reveal_strlit("SERVER");
    reveal_strlit("Linus/Arch UPnP/1.0 Linus_Listener/1.0");
    let m = spec_advertisement(role, url);
    lemma_valid_value_no_newline(url);
    lemma_find_colon_space_none("HOST"@);
    lemma_find_colon_space_none("239.255.255.250:1900"@);
    lemma_find_colon_space_none("cache-control"@);
    lemma_find_colon_space_none("max-age = 900"@);
    lemma_find_colon_space_none("LOCATION"@);
    lemma_find_colon_space_none("NTS"@);
    lemma_find_colon_space_none("ssdp:alive"@);
    lemma_find_colon_space_none("SERVER"@);
    lemma_find_colon_space_none("Linus/Arch UPnP/1.0 Linus_Listener/1.0"@);
    lemma_advertisement_names_clean(role);
    assert(header_ok(m.headers[0].0, m.headers[0].1));
    assert(header_ok(m.headers[1].0, m.headers[1].1));
    assert(header_ok(m.headers[2].0, m.headers[2].1));
    assert(header_ok(m.headers[3].0, m.headers[3].1));
    assert(header_ok(m.headers[4].0, m.headers[4].1));
    assert(header_ok(m.headers[5].0, m.headers[5].1));
    assert(header_ok(m.headers[6].0, m.headers[6].1));
    assert(round_trippable(m));
    lemma_round_trip(m);
}

/// Every character of a decimal numeral is a digit.
proof fn lemma_decimal_digits(n: int)
    ensures
        forall|j: int|
            0 <= j < spec_decimal(n).len() ==> '0' <= #[trigger] spec_decimal(n)[j] <= '9',
    decreases n,
{
    if n < 10 {
        assert(spec_decimal(n) == seq![spec_digit(n)]);
    } else {
        lemma_decimal_digits(n / 10);
        assert(spec_decimal(n) == spec_decimal(n / 10) + seq![spec_digit(n % 10)]);
        assert forall|j: int|
            0 <= j < spec_decimal(n).len() implies '0' <= #[trigger] spec_decimal(n)[j]
            <= '9' by {
            if j < spec_decimal(n / 10).len() {
                assert(spec_decimal(n)[j] == spec_decimal(n / 10)[j]);
            } else {
                assert(spec_decimal(n)[j] == spec_digit(n % 10));
            }
        }
    }
}

/// An emittable host yields an emittable descriptor URL.
pub proof fn lemma_descriptor_location_valid(host: Seq<char>, port: u16)
    requires
        valid_header_value(host),
    ensures
        valid_header_value(spec_descriptor_location(host, port)),
{
    reveal_strlit("http://");
    reveal_strlit(":");
    reveal_strlit("/upnp_device_descriptor.xml");
    lemma_decimal_digits(port as int);
    let pre = "http://"@;
    let num = spec_decimal(port as int);
    let path = "/upnp_device_descriptor.xml"@;
    let s = spec_descriptor_location(host, port);
    assert forall|j: int| 0 <= j < s.len() implies header_char_ok(#[trigger] s[j]) by {
        let a = pre.len() as int;
        let b = a + host.len() as int;
        let c = b + 1;
        let d = c + num.len() as int;
        if j < a {
            assert(s[j] == pre[j]);
        } else if j < b {
            assert(s[j] == host[j - a]);
            assert(header_char_ok(host[j - a]));
        } else if j < c {
            assert(s[j] == ':');
        } else if j < d {
            assert(s[j] == num[j - c]);
            assert('0' <= num[j - c] <= '9');
        } else {
            assert(s[j] == path[j - d]);
        }
    }
}

/// Selective reply: a parsed search whose last ST header equals the
/// advertised target is owed exactly one reply — the serialized search
/// response; any other parsed request, and any text that does not parse,
/// is owed none.
pub proof fn lemma_selective_reply(t: Seq<char>, host: Seq<char>, port: u16)
    requires
        valid_header_value(host),
    ensures
        match spec_parse_request(t) {
            Some(req) => {
                if spec_lookup_header(req.headers, "ST"@) == Some(spec_search_target()) {
                    spec_handle_search(t, host, port) == Some(
                        spec_serialize(
                            spec_search_response(spec_descriptor_location(host, port)),
                        ),
                    )
                } else {
                    spec_handle_search(t, host, port) is None
                }
            },
            None => spec_handle_search(t, host, port) is None,
        },
{
    lemma_descriptor_location_valid(host, port);
}

/// Well-formedness of every advertisement: exactly the seven mandated
/// headers in their fixed order, the NOTIFY start line, and the blank-line
/// terminator at the end of the serialized text.
pub proof fn lemma_advertisement_well_formed(role: AdvertisementRole, url: Seq<char>)
    ensures
        ({
            let m = spec_advertisement(role, url);
            let s = spec_serialize(m);
            &&& m.headers.len() == 7
            &&& m.headers.map_values(|kv: (Seq<char>, Seq<char>)| kv.0) == seq![
                "HOST"@,
                "cache-control"@,
                "LOCATION"@,
                "NT"@,
                "USN"@,
                "NTS"@,
                "SERVER"@,
            ]
            &&& s.len() >= 4
            &&& s.take(19) == "NOTIFY * HTTP/1.1\r\n"@
            &&& s.skip(s.len() - 4) == "\r\n\r\n"@
        }),
{
    reveal_strlit("NOTIFY");
    reveal_strlit("*");
    reveal_strlit("HTTP/1.1");
    reveal_strlit(" ");
    reveal_strlit("\r\n");
    reveal_strlit(": ");
    reveal_strlit("NOTIFY * HTTP/1.1\r\n");
    reveal_strlit("\r\n\r\n");
    let m = spec_advertisement(role, url);
    let s = spec_serialize(m);
    assert(m.headers.map_values(|kv: (Seq<char>, Seq<char>)| kv.0) =~= seq![
        "HOST"@,
        "cache-control"@,
        "LOCATION"@,
        "NT"@,
        "USN"@,
        "NTS"@,
        "SERVER"@,
    ]);
    let fl = spec_start_line(m);
    assert(fl.len() == 19);
    let body = spec_serialize_headers(m.headers);
    assert(s =~= fl + body + "\r\n"@);
    assert forall|j: int| 0 <= j < 19 implies s[j] == "NOTIFY * HTTP/1.1\r\n"@[j] by {
        assert(s[j] == fl[j]);
    }
    assert(s.take(19) =~= "NOTIFY * HTTP/1.1\r\n"@);
    let last = m.headers.last();
    let hl = spec_header_line(last.0, last.1);
    assert(body == spec_serialize_headers(m.headers.drop_last()) + hl);
    assert(hl.len() >= 4);
    assert(hl[hl.len() - 1] == '\n');
    assert(hl[hl.len() - 2] == '\r');
    let n = s.len() as int;
    assert(s[n - 1] == '\n');
    assert(s[n - 2] == '\r');
    assert(s[n - 3] == hl[hl.len() - 1]);
    assert(s[n - 4] == hl[hl.len() - 2]);
    assert(s.skip(n - 4) =~= "\r\n\r\n"@);
}

} // verus!
