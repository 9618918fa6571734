//! Parsing of inbound wire text: lines, the three-token start line, and
//! `Key: Value` header lines, with the skip-on-malformed policy the
//! listener and the descriptor server both apply.

use vstd::prelude::*;
use vstd::string::*;
use vstd::utf8::{decode_utf8, valid_utf8};

use crate::message::spec_header_pairs;
use crate::text::{
    find_char, find_char_in, find_colon_space, find_colon_space_in, lemma_find_char,
    lemma_find_char_is_first, lemma_find_char_none, lemma_find_colon_space,
    lemma_find_colon_space_is_first, lemma_find_colon_space_none, substring,
};

verus! {

/// Remove one trailing carriage return left by a `\r\n` line terminator.
pub open spec fn strip_cr(l: Seq<char>) -> Seq<char> {
    if l.len() > 0 && l.last() == '\r' {
        l.drop_last()
    } else {
        l
    }
}

/// The lines of `t`: split at `'\n'`, one trailing `'\r'` removed from each
/// terminated line; a final terminator yields no extra empty line, and an
/// unterminated last line is kept as it stands.
pub open spec fn spec_lines(t: Seq<char>) -> Seq<Seq<char>>
    decreases t.len(),
    via spec_lines_decreases
{
    if t.len() == 0 {
        Seq::<Seq<char>>::empty()
    } else {
        match find_char(t, '\n') {
            None => seq![t],
            Some(i) => seq![strip_cr(t.take(i))] + spec_lines(t.skip(i + 1)),
        }
    }
}

#[via_fn]
proof fn spec_lines_decreases(t: Seq<char>) {
    lemma_find_char(t, '\n');
}

/// Split at every space, keeping empty tokens.
pub open spec fn split_spaces(s: Seq<char>) -> Seq<Seq<char>>
    decreases s.len(),
    via split_spaces_decreases
{
    match find_char(s, ' ') {
        None => seq![s],
        Some(i) => seq![s.take(i)] + split_spaces(s.skip(i + 1)),
    }
}

#[via_fn]
proof fn split_spaces_decreases(s: Seq<char>) {
    lemma_find_char(s, ' ');
}

/// Split at every `": "`, scanning left to right.
pub open spec fn split_colon_space(s: Seq<char>) -> Seq<Seq<char>>
    decreases s.len(),
    via split_colon_space_decreases
{
    match find_colon_space(s) {
        None => seq![s],
        Some(i) => seq![s.take(i)] + split_colon_space(s.skip(i + 2)),
    }
}

#[via_fn]
proof fn split_colon_space_decreases(s: Seq<char>) {
    lemma_find_colon_space(s);
}

/// A line is a header exactly when it splits at `": "` into a key and a
/// value; any other shape is not one.
pub open spec fn spec_parse_header_line(l: Seq<char>) -> Option<(Seq<char>, Seq<char>)> {
    let parts = split_colon_space(l);
    if parts.len() == 2 {
        Some((parts[0], parts[1]))
    } else {
        None
    }
}

/// The header mapping of the given lines, in order; lines that are not
/// headers are skipped, never fatal.
pub open spec fn spec_collect_headers(ls: Seq<Seq<char>>) -> Seq<(Seq<char>, Seq<char>)>
    decreases ls.len(),
{
    if ls.len() == 0 {
        Seq::<(Seq<char>, Seq<char>)>::empty()
    } else {
        spec_collect_headers(ls.drop_last()) + match spec_parse_header_line(ls.last()) {
            Some(kv) => seq![kv],
            None => Seq::<(Seq<char>, Seq<char>)>::empty(),
        }
    }
}

/// Mathematical model of a parsed request.
pub struct RequestView {
    pub method: Seq<char>,
    pub path: Seq<char>,
    pub version: Seq<char>,
    pub headers: Seq<(Seq<char>, Seq<char>)>,
}

/// A parsed inbound request: the three tokens of its first line and its
/// header mapping, which lives only until the handling decision is made.
pub struct Request {
    pub method: String,
    pub path: String,
    pub version: String,
    pub headers: Vec<(String, String)>,
}

impl View for Request {
    type V = RequestView;

    open spec fn view(&self) -> RequestView {
        RequestView {
            method: self.method@,
            path: self.path@,
            version: self.version@,
            headers: spec_header_pairs(self.headers@),
        }
    }
}

/// Parse a request: the first line must hold at least three tokens (extra
/// tokens are ignored); the remaining lines give the header mapping. `None`
/// is the malformed outcome, and the only other one.
pub open spec fn spec_parse_request(t: Seq<char>) -> Option<RequestView> {
    let ls = spec_lines(t);
    if ls.len() == 0 {
        None
    } else {
        let toks = split_spaces(ls[0]);
        if toks.len() < 3 {
            None
        } else {
            Some(
                RequestView {
                    method: toks[0],
                    path: toks[1],
                    version: toks[2],
                    headers: spec_collect_headers(ls.drop_first()),
                },
            )
        }
    }
}

/// The value of the last header with the given key, as a mapping built by
/// later-wins insertion would hold it.
pub open spec fn spec_lookup_header(hs: Seq<(Seq<char>, Seq<char>)>, k: Seq<char>) -> Option<
    Seq<char>,
>
    decreases hs.len(),
{
    if hs.len() == 0 {
        None
    } else if hs.last().0 == k {
        Some(hs.last().1)
    } else {
        spec_lookup_header(hs.drop_last(), k)
    }
}

/// Any split yields at least one part.
pub proof fn lemma_split_colon_space_nonempty(s: Seq<char>)
    ensures
        split_colon_space(s).len() >= 1,
{
}

/// Collecting one more line appends its header, if it is one.
pub proof fn lemma_collect_headers_take(ls: Seq<Seq<char>>, i: int)
    requires
        0 <= i < ls.len(),
    ensures
        spec_collect_headers(ls.take(i + 1)) == spec_collect_headers(ls.take(i)) + match spec_parse_header_line(
            ls[i],
        ) {
            Some(kv) => seq![kv],
            None => Seq::<(Seq<char>, Seq<char>)>::empty(),
        },
{
    assert(ls.take(i + 1).drop_last() =~= ls.take(i));
    assert(ls.take(i + 1).last() == ls[i]);
}

/// The lines of `text`, as `str::lines` yields them.
pub fn split_lines(text: &String) -> (r: Vec<String>)
    ensures
        r@.map_values(|x: String| x@) == spec_lines(text@),
{
    let s = text.as_str();
    let n = s.unicode_len();
    let mut out: Vec<String> = Vec::new();
    let mut i: usize = 0;
    proof {
        assert(out@.map_values(|x: String| x@) =~= Seq::<Seq<char>>::empty());
        assert(text@.skip(0) =~= text@);
    }
    while i < n
        invariant
            i <= n,
            n == s@.len(),
            s@ == text@,
            spec_lines(text@) == out@.map_values(|x: String| x@) + spec_lines(
                text@.skip(i as int),
            ),
        decreases n - i,
    {
        let ghost rem = text@.skip(i as int);
        let ghost prevmap = out@.map_values(|x: String| x@);
        match find_char_in(s, i, n, '\n') {
            Some(j) => {
                let end = if j > i && s.get_char(j - 1) == '\r' {
                    j - 1
                } else {
                    j
                };
                let line = substring(s, i, end);
                proof {
                    assert forall|k: int| 0 <= k < j - i implies rem[k] != '\n' by {
                        assert(rem[k] == text@[i + k]);
                    }
                    assert(rem[j - i] == text@[j as int]);
                    lemma_find_char_is_first(rem, '\n', j - (i as int));
                    assert(rem.take(j - i) =~= text@.subrange(i as int, j as int));
                    assert(strip_cr(rem.take(j - i)) =~= line@);
                    assert(rem.skip(j - i + 1) =~= text@.skip(j + 1));
                    assert(spec_lines(rem) == seq![strip_cr(rem.take(j - i))] + spec_lines(
                        rem.skip(j - i + 1),
                    ));
                    assert(out@.push(line).map_values(|x: String| x@) =~= prevmap.push(line@));
                    assert(prevmap + spec_lines(rem) =~= prevmap.push(line@) + spec_lines(
                        text@.skip(j + 1),
                    ));
                }
                out.push(line);
                i = j + 1;
            },
            None => {
                let line = substring(s, i, n);
                proof {
                    assert forall|k: int| 0 <= k < rem.len() implies rem[k] != '\n' by {
                        assert(rem[k] == text@[i + k]);
                    }
                    lemma_find_char_none(rem, '\n');
                    assert(rem =~= line@);
                    assert(spec_lines(rem) == seq![line@]);
                    assert(out@.push(line).map_values(|x: String| x@) =~= prevmap.push(line@));
                    assert(text@.skip(n as int) =~= Seq::<char>::empty());
                    assert(prevmap + spec_lines(rem) =~= prevmap.push(line@) + spec_lines(
                        text@.skip(n as int),
                    ));
                }
                out.push(line);
                i = n;
            },
        }
    }
    proof {
        assert(text@.skip(n as int) =~= Seq::<char>::empty());
        assert(out@.map_values(|x: String| x@) =~= spec_lines(text@));
    }
    out
}

/// The space-separated tokens of `line`, empty tokens kept.
pub fn split_line_spaces(line: &String) -> (r: Vec<String>)
    ensures
        r@.map_values(|x: String| x@) == split_spaces(line@),
{
    let s = line.as_str();
    let n = s.unicode_len();
    let mut out: Vec<String> = Vec::new();
    let mut i: usize = 0;
    proof {
        assert(out@.map_values(|x: String| x@) =~= Seq::<Seq<char>>::empty());
        assert(line@.skip(0) =~= line@);
    }
    loop
        invariant_except_break
            i <= n,
            n == s@.len(),
            s@ == line@,
            split_spaces(line@) == out@.map_values(|x: String| x@) + split_spaces(
                line@.skip(i as int),
            ),
        ensures
            out@.map_values(|x: String| x@) == split_spaces(line@),
        decreases n - i,
    {
        let ghost rem = line@.skip(i as int);
        let ghost prevmap = out@.map_values(|x: String| x@);
        match find_char_in(s, i, n, ' ') {
            Some(j) => {
                let tok = substring(s, i, j);
                proof {
                    assert forall|k: int| 0 <= k < j - i implies rem[k] != ' ' by {
                        assert(rem[k] == line@[i + k]);
                    }
                    assert(rem[j - i] == line@[j as int]);
                    lemma_find_char_is_first(rem, ' ', j - (i as int));
                    assert(rem.take(j - i) =~= tok@);
                    assert(rem.skip(j - i + 1) =~= line@.skip(j + 1));
                    assert(split_spaces(rem) == seq![rem.take(j - i)] + split_spaces(
                        rem.skip(j - i + 1),
                    ));
                    assert(out@.push(tok).map_values(|x: String| x@) =~= prevmap.push(tok@));
                    assert(prevmap + split_spaces(rem) =~= prevmap.push(tok@) + split_spaces(
                        line@.skip(j + 1),
                    ));
                }
                out.push(tok);
                i = j + 1;
            },
            None => {
                let tok = substring(s, i, n);
                proof {
                    assert forall|k: int| 0 <= k < rem.len() implies rem[k] != ' ' by {
                        assert(rem[k] == line@[i + k]);
                    }
                    lemma_find_char_none(rem, ' ');
                    assert(rem =~= tok@);
                    assert(split_spaces(rem) == seq![rem]);
                    assert(out@.push(tok).map_values(|x: String| x@) =~= prevmap.push(tok@));
                    assert(prevmap + split_spaces(rem) =~= prevmap.push(tok@));
                }
                out.push(tok);
                break ;
            },
        }
    }
    out
}

/// Parse one line as a `Key: Value` header, or recognise that it is none.
pub fn parse_header_line(line: &String) -> (r: Option<(String, String)>)
    ensures
        match r {
            Some(kv) => spec_parse_header_line(line@) == Some((kv.0@, kv.1@)),
            None => spec_parse_header_line(line@) is None,
        },
{
    let s = line.as_str();
    let n = s.unicode_len();
    match find_colon_space_in(s, 0, n) {
        None => {
            proof {
                lemma_find_colon_space_none(line@);
                assert(split_colon_space(line@) == seq![line@]);
            }
            None
        },
        Some(i) => {
            proof {
                lemma_find_colon_space_is_first(line@, i as int);
            }
            let ghost rem = line@.skip(i + 2);
            match find_colon_space_in(s, i + 2, n) {
                Some(j) => {
                    proof {
                        assert(find_colon_space(line@) == Some(i as int));
                        assert(split_colon_space(line@) == seq![line@.take(i as int)]
                            + split_colon_space(rem));
                        assert(rem[j - i - 2] == line@[j as int]);
                        assert(rem[j - i - 1] == line@[j + 1]);
                        lemma_find_colon_space(rem);
                        match find_colon_space(rem) {
                            None => {
                                assert(false);
                            },
                            Some(i2) => {
                                assert(split_colon_space(rem) == seq![rem.take(i2)]
                                    + split_colon_space(rem.skip(i2 + 2)));
                                lemma_split_colon_space_nonempty(rem.skip(i2 + 2));
                            },
                        }
                        assert(split_colon_space(line@).len() >= 3);
                    }
                    None
                },
                None => {
                    let k = substring(s, 0, i);
                    let v = substring(s, i + 2, n);
                    proof {
                        assert forall|q: int|
                            0 <= q && q + 1 < rem.len() implies !((#[trigger] rem[q]) == ':'
                            && rem[q + 1] == ' ') by {
                            assert(rem[q] == line@[i + 2 + q]);
                            assert(rem[q + 1] == line@[i + 2 + q + 1]);
                        }
                        lemma_find_colon_space_none(rem);
                        assert(find_colon_space(line@) == Some(i as int));
                        assert(split_colon_space(rem) == seq![rem]);
                        assert(split_colon_space(line@) == seq![line@.take(i as int)]
                            + split_colon_space(rem));
                        assert(line@.take(i as int) =~= k@);
                        assert(rem =~= v@);
                        assert(split_colon_space(line@) =~= seq![k@, v@]);
                    }
                    Some((k, v))
                },
            }
        },
    }
}

/// Parse an inbound request, or recognise that it is malformed.
pub fn parse_request(text: &String) -> (r: Option<Request>)
    ensures
        match r {
            Some(req) => spec_parse_request(text@) == Some(req@),
            None => spec_parse_request(text@) is None,
        },
{
    let ghost lsv = spec_lines(text@);
    let lines = split_lines(text);
    if lines.len() == 0 {
        return None;
    }
    proof {
        assert(lines@[0]@ == lsv[0]);
    }
    let toks = split_line_spaces(&lines[0]);
    if toks.len() < 3 {
        return None;
    }
    let method = toks[0].clone();
    let path = toks[1].clone();
    let version = toks[2].clone();
    proof {
        assert(method@ == split_spaces(lsv[0])[0]);
        assert(path@ == split_spaces(lsv[0])[1]);
        assert(version@ == split_spaces(lsv[0])[2]);
    }
    let mut headers: Vec<(String, String)> = Vec::new();
    let nl = lines.len();
    let mut i: usize = 1;
    proof {
        assert(spec_header_pairs(headers@) =~= spec_collect_headers(lsv.drop_first().take(0)));
    }
    while i < nl
        invariant
            1 <= i <= nl,
            nl == lines@.len(),
            lines@.map_values(|x: String| x@) == lsv,
            spec_header_pairs(headers@) == spec_collect_headers(lsv.drop_first().take(i - 1)),
        decreases nl - i,
    {
        let ghost prev = headers@;
        proof {
            assert(lines@[i as int]@ == lsv[i as int]);
            assert(lsv.drop_first()[i - 1] == lsv[i as int]);
            lemma_collect_headers_take(lsv.drop_first(), i - 1);
        }
        match parse_header_line(&lines[i]) {
            Some(kv) => {
                headers.push(kv);
                proof {
                    assert(spec_header_pairs(headers@) =~= spec_header_pairs(prev)
                        + match spec_parse_header_line(lsv[i as int]) {
                        Some(kv2) => seq![kv2],
                        None => Seq::<(Seq<char>, Seq<char>)>::empty(),
                    });
                }
            },
            None => {
                proof {
                    assert(spec_header_pairs(headers@) =~= spec_header_pairs(prev)
                        + match spec_parse_header_line(lsv[i as int]) {
                        Some(kv2) => seq![kv2],
                        None => Seq::<(Seq<char>, Seq<char>)>::empty(),
                    });
                }
            },
        }
        i = i + 1;
    }
    proof {
        assert(lsv.drop_first().take(nl - 1) =~= lsv.drop_first());
    }
    let req = Request { method, path, version, headers };
    proof {
        assert(spec_parse_request(text@) == Some(req@));
    }
    Some(req)
}

/// Relies on core::str::from_utf8: it returns Ok exactly on valid UTF-8,
/// yielding the decoding of the bytes.
#[verifier::external_body]
pub fn utf8_to_text(data: &Vec<u8>) -> (r: Option<String>)
    ensures
        r is Some <==> valid_utf8(data@),
        r matches Some(s) ==> s@ == decode_utf8(data@),
{
    match core::str::from_utf8(data.as_slice()) {
        Ok(t) => Some(t.to_string()),
        Err(_) => None,
    }
}

/// Find the value of `key` in a header vector, later entries winning.
pub fn lookup_header(hs: &Vec<(String, String)>, key: &String) -> (r: Option<String>)
    ensures
        match r {
            Some(v) => spec_lookup_header(spec_header_pairs(hs@), key@) == Some(v@),
            None => spec_lookup_header(spec_header_pairs(hs@), key@) is None,
        },
{
    let ghost pairs = spec_header_pairs(hs@);
    let mut i = hs.len();
    proof {
        assert(pairs.take(hs@.len() as int) =~= pairs);
    }
    while i > 0
        invariant
            i <= hs@.len(),
            pairs == spec_header_pairs(hs@),
            spec_lookup_header(pairs, key@) == spec_lookup_header(pairs.take(i as int), key@),
        decreases i,
    {
        let kv = &hs[i - 1];
        proof {
            assert(pairs.take(i as int).last() == pairs[i - 1]);
            assert(pairs.take(i as int).drop_last() =~= pairs.take(i - 1));
        }
        if kv.0 == *key {
            return Some(kv.1.clone());
        }
        i = i - 1;
    }
    proof {
        assert(pairs.take(0) =~= Seq::<(Seq<char>, Seq<char>)>::empty());
    }
    None
}

} // verus!
