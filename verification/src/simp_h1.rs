//! A minimal HTTP/1.1 client core: request framing, proxy-tunnel
//! negotiation, and response parsing over plain byte buffers.

use vstd::prelude::*;
use vstd::slice::slice_subrange;
use vstd::slice::slice_to_vec;

use crate::subseq::find_first;
use crate::subseq::first_occ_from;
use crate::subseq::lemma_first_occ_props;
use crate::subseq::occurs_at;
use crate::text::bytes_eq;
use crate::text::dec_str;
use crate::text::dec_value;
use crate::text::u64_to_dec;
use crate::text::parse_dec;
use crate::text::spec_lower;
use crate::text::split_all;
use crate::text::split_seq;
use crate::text::lower_bytes;
use crate::text::valid_dec;

verus! {

/// The error type of the url crate's parser, held opaquely where a URL
/// cannot be split.
#[verifier::external_type_specification]
#[verifier::external_body]
pub struct ExParseError(url::ParseError);

/// What can go wrong while sending a request: a URL that does not parse,
/// a socket failure, a TLS failure, or a malformed or unsupported exchange.
/// The two middle variants carry the text of errors that only the caller's
/// I/O layer can see.
#[derive(Debug)]
pub enum HttpError {
    UrlError(url::ParseError),
    IOError(String),
    TlsError(String),
    GeneralError(String),
}

impl HttpError {
    /// A short description of the error.
    pub open spec fn spec_message(&self) -> Seq<char> {
        match self {
            HttpError::UrlError(_) => "invalid URL"@,
            HttpError::IOError(s) => s@,
            HttpError::TlsError(s) => s@,
            HttpError::GeneralError(s) => s@,
        }
    }

    /// A short description of the error.
    pub fn message(&self) -> (r: &str)
        ensures
            r@ == self.spec_message(),
    {
        match self {
            HttpError::UrlError(_) => "invalid URL",
            HttpError::IOError(s) => s.as_str(),
            HttpError::TlsError(s) => s.as_str(),
            HttpError::GeneralError(s) => s.as_str(),
        }
    }
}

impl From<url::ParseError> for HttpError {
    fn from(value: url::ParseError) -> (r: HttpError)
        ensures
            r == HttpError::UrlError(value),
    {
        HttpError::UrlError(value)
    }
}

impl vstd::std_specs::convert::FromSpecImpl<url::ParseError> for HttpError {
    open spec fn obeys_from_spec() -> bool {
        true
    }

    open spec fn from_spec(v: url::ParseError) -> HttpError {
        HttpError::UrlError(v)
    }
}

/// Whether `e` is the general error carrying exactly the message `m`.
pub open spec fn is_general_err(e: HttpError, m: Seq<char>) -> bool {
    e matches HttpError::GeneralError(s) && s@ == m
}

/// The general error with the given message.
fn general_err(m: &str) -> (e: HttpError)
    ensures
        is_general_err(e, m@),
{
    HttpError::GeneralError(m.to_owned())
}

/// The bytes of "HTTP/1.0".
pub open spec fn spec_http10() -> Seq<u8> {
    seq![72u8, 84u8, 84u8, 80u8, 47u8, 49u8, 46u8, 48u8]
}

/// The bytes of "HTTP/1.1".
pub open spec fn spec_http11() -> Seq<u8> {
    seq![72u8, 84u8, 84u8, 80u8, 47u8, 49u8, 46u8, 49u8]
}

/// The bytes of "HTTP/1.0 200", the first accepted start of a tunnel reply.
pub open spec fn spec_http10_ok() -> Seq<u8> {
    spec_http10() + seq![32u8, 50u8, 48u8, 48u8]
}

/// The bytes of "HTTP/1.1 200", the second accepted start of a tunnel reply.
pub open spec fn spec_http11_ok() -> Seq<u8> {
    spec_http11() + seq![32u8, 50u8, 48u8, 48u8]
}

/// The bytes of "HTTP/1.0 407", a proxy demanding authentication.
pub open spec fn spec_http10_auth() -> Seq<u8> {
    spec_http10() + seq![32u8, 52u8, 48u8, 55u8]
}

/// The bytes of "HTTP/1.1 407", a proxy demanding authentication.
pub open spec fn spec_http11_auth() -> Seq<u8> {
    spec_http11() + seq![32u8, 52u8, 48u8, 55u8]
}

/// The bytes of "\r\n".
pub open spec fn spec_crlf() -> Seq<u8> {
    seq![13u8, 10u8]
}

/// The bytes of "\r\n\r\n", the header terminator.
pub open spec fn spec_crlfcrlf() -> Seq<u8> {
    seq![13u8, 10u8, 13u8, 10u8]
}

/// The bytes of "content-length".
pub open spec fn spec_content_length_key() -> Seq<u8> {
    seq![99u8, 111u8, 110u8, 116u8, 101u8, 110u8, 116u8, 45u8, 108u8, 101u8, 110u8, 103u8, 116u8, 104u8]
}

/// The text before the first space of `s`, or all of `s` without one.
pub open spec fn spec_token(s: Seq<u8>) -> Seq<u8> {
    match first_occ_from(s, seq![32u8], 0) {
        Some(i) => s.take(i),
        None => s,
    }
}

/// The text after the first space of `s`, if `s` has one.
pub open spec fn spec_after_token(s: Seq<u8>) -> Option<Seq<u8>> {
    match first_occ_from(s, seq![32u8], 0) {
        Some(i) => Some(s.skip(i + 1)),
        None => None,
    }
}

/// A header line split at its first colon, both sides lowercased; a line
/// without a colon is malformed.
pub open spec fn spec_header_kv(line: Seq<u8>) -> Option<(Seq<u8>, Seq<u8>)> {
    match first_occ_from(line, seq![58u8], 0) {
        Some(i) => Some((spec_lower(line.take(i)), spec_lower(line.skip(i + 1)))),
        None => None,
    }
}

/// All header lines split as `spec_header_kv`, in order; `None` as soon as
/// one of them is malformed.
pub open spec fn spec_headers(lines: Seq<Seq<u8>>) -> Option<Seq<(Seq<u8>, Seq<u8>)>>
    decreases lines.len(),
{
    if lines.len() == 0 {
        Some(Seq::empty())
    } else {
        match (spec_headers(lines.drop_last()), spec_header_kv(lines.last())) {
            (Some(t), Some(kv)) => Some(t.push(kv)),
            _ => None,
        }
    }
}

/// The value of the last header whose key is `key`, as a later header of
/// the same name overrides an earlier one.
pub open spec fn spec_lookup(hs: Seq<(Seq<u8>, Seq<u8>)>, key: Seq<u8>) -> Option<Seq<u8>>
    decreases hs.len(),
{
    if hs.len() == 0 {
        None
    } else if hs.last().0 == key {
        Some(hs.last().1)
    } else {
        spec_lookup(hs.drop_last(), key)
    }
}

/// What parsing a received byte buffer yields: one of the failure modes,
/// or the status code, headers, the body bytes already received, and how
/// many body bytes are still owed.
pub enum ParseOutcome {
    Incomplete,
    BadHeader,
    BadCode,
    BadProtocol,
    NoLength,
    BadLength,
    Parsed { code: u16, headers: Seq<(Seq<u8>, Seq<u8>)>, body_prefix: Seq<u8>, remaining: nat },
}

/// The meaning of a received buffer `rec`: the header block ends at the
/// first "\r\n\r\n"; its first line carries protocol and status code; the
/// remaining lines are headers; the body length is the content-length
/// value, and whatever was read past the terminator counts toward it.
pub open spec fn spec_parse(rec: Seq<u8>) -> ParseOutcome {
    match first_occ_from(rec, spec_crlfcrlf(), 0) {
        None => ParseOutcome::Incomplete,
        Some(p) => {
            let lines = split_seq(rec.take(p), spec_crlf());
            let line0 = lines[0];
            match spec_after_token(line0) {
                None => ParseOutcome::BadHeader,
                Some(rest) => {
                    let ct = spec_token(rest);
                    if !(valid_dec(ct) && dec_value(ct) <= u16::MAX) {
                        ParseOutcome::BadCode
                    } else if spec_token(line0) != spec_http10() && spec_token(line0)
                        != spec_http11() {
                        ParseOutcome::BadProtocol
                    } else {
                        match spec_headers(lines.skip(1)) {
                            None => ParseOutcome::BadHeader,
                            Some(hs) => match spec_lookup(hs, spec_content_length_key()) {
                                None => ParseOutcome::NoLength,
                                Some(v) => if !(valid_dec(v) && dec_value(v) <= usize::MAX) {
                                    ParseOutcome::BadLength
                                } else {
                                    let body = rec.skip(p + 4);
                                    let n = if dec_value(v) <= body.len() {
                                        dec_value(v) as int
                                    } else {
                                        body.len() as int
                                    };
                                    ParseOutcome::Parsed {
                                        code: dec_value(ct) as u16,
                                        headers: hs,
                                        body_prefix: body.take(n),
                                        remaining: (dec_value(v) - n) as nat,
                                    }
                                },
                            },
                        }
                    }
                }
            }
        },
    }
}

/// A parsed response head: the status code, the lowercased headers, the
/// body bytes that were already in the buffer, and how many are still to
/// be read from the connection.
#[derive(Debug)]
pub struct ParsedHead {
    pub code: u16,
    pub headers: Vec<(Vec<u8>, Vec<u8>)>,
    pub body_prefix: Vec<u8>,
    pub remaining: usize,
}

/// Parse the first line of the header block: protocol token and status code.
fn parse_status_line(line: &[u8]) -> (r: Result<u16, HttpError>)
    ensures
        ({
            match spec_after_token(line@) {
                None => r matches Err(e) && is_general_err(e, "malformed HTTP response header"@),
                Some(rest) => {
                    let ct = spec_token(rest);
                    if !(valid_dec(ct) && dec_value(ct) <= u16::MAX) {
                        r matches Err(e) && is_general_err(e, "malformed HTTP status code"@)
                    } else if spec_token(line@) != spec_http10() && spec_token(line@)
                        != spec_http11() {
                        r matches Err(e) && is_general_err(
                            e,
                            "unsupported protocol or protocol version"@,
                        )
                    } else {
                        r matches Ok(c) && c == dec_value(ct)
                    }
                },
            }
        }),
{
    let n = line.len();
    let sp: [u8; 1] = [32];
    proof {
        assert(sp@ =~= seq![32u8]);
        lemma_first_occ_props(line@, seq![32u8], 0);
    }
    match find_first(line, sp.as_slice()) {
        None => Err(general_err("malformed HTTP response header")),
        Some(i) => {
            proof {
                assert(occurs_at(line@, seq![32u8], i as int));
            }
            let rest = slice_subrange(line, i + 1, n);
            proof {
                assert(rest@ =~= line@.skip(i + 1));
                lemma_first_occ_props(rest@, seq![32u8], 0);
            }
            let ct: &[u8] = match find_first(rest, sp.as_slice()) {
                Some(j) => slice_subrange(rest, 0, j),
                None => rest,
            };
            proof {
                assert(ct@ =~= spec_token(rest@));
            }
            match parse_dec(ct) {
                None => Err(general_err("malformed HTTP status code")),
                Some(v) => {
                    if v > 65535 {
                        Err(general_err("malformed HTTP status code"))
                    } else {
                        let ptc = slice_subrange(line, 0, i);
                        proof {
                            assert(ptc@ =~= spec_token(line@));
                        }
                        let h10: [u8; 8] = [72, 84, 84, 80, 47, 49, 46, 48];
                        let h11: [u8; 8] = [72, 84, 84, 80, 47, 49, 46, 49];
                        proof {
                            assert(h10@ =~= spec_http10());
                            assert(h11@ =~= spec_http11());
                        }
                        if bytes_eq(ptc, h10.as_slice()) || bytes_eq(ptc, h11.as_slice()) {
                            Ok(v as u16)
                        } else {
                            Err(general_err("unsupported protocol or protocol version"))
                        }
                    }
                },
            }
        },
    }
}

/// Parse one header line into its lowercased key and value.
fn parse_header_line(line: &[u8]) -> (r: Result<(Vec<u8>, Vec<u8>), HttpError>)
    ensures
        match spec_header_kv(line@) {
            Some(kv) => r matches Ok(p) && p.0@ == kv.0 && p.1@ == kv.1,
            None => r matches Err(e) && is_general_err(e, "malformed HTTP response header"@),
        },
{
    let n = line.len();
    let colon: [u8; 1] = [58];
    proof {
        assert(colon@ =~= seq![58u8]);
        lemma_first_occ_props(line@, seq![58u8], 0);
    }
    match find_first(line, colon.as_slice()) {
        None => Err(general_err("malformed HTTP response header")),
        Some(i) => {
            proof {
                assert(occurs_at(line@, seq![58u8], i as int));
            }
            let k = lower_bytes(slice_subrange(line, 0, i));
            let v = lower_bytes(slice_subrange(line, i + 1, n));
            proof {
                assert(k@ =~= spec_lower(line@.take(i as int)));
                assert(v@ =~= spec_lower(line@.skip(i + 1)));
            }
            Ok((k, v))
        },
    }
}

/// A malformed line anywhere makes the whole header block malformed.
proof fn lemma_spec_headers_none(lines: Seq<Seq<u8>>, i: int)
    requires
        0 <= i < lines.len(),
        spec_header_kv(lines[i]) is None,
    ensures
        spec_headers(lines) is None,
    decreases lines.len(),
{
    if i < lines.len() - 1 {
        assert(lines.drop_last()[i] == lines[i]);
        lemma_spec_headers_none(lines.drop_last(), i);
    }
}

/// Every split has at least one piece.
proof fn lemma_split_nonempty(s: Seq<u8>, sep: Seq<u8>)
    ensures
        split_seq(s, sep).len() >= 1,
{
    match first_occ_from(s, sep, 0) {
        Some(i) => {
        },
        None => {
        },
    }
}

/// The value of the last header named `key`, if any, copied out.
fn lookup_last(hs: &Vec<(Vec<u8>, Vec<u8>)>, key: &[u8]) -> (r: Option<Vec<u8>>)
    ensures
        match spec_lookup(hs.deep_view(), key@) {
            Some(v) => r matches Some(x) && x@ == v,
            None => r is None,
        },
{
    let mut i: usize = hs.len();
    proof {
        assert(hs.deep_view().take(hs@.len() as int) =~~= hs.deep_view());
    }
    while i > 0
        invariant
            i <= hs@.len(),
            spec_lookup(hs.deep_view().take(i as int), key@) == spec_lookup(
                hs.deep_view(),
                key@,
            ),
        decreases i,
    {
        i = i - 1;
        proof {
            assert(hs.deep_view().take(i + 1 as int).drop_last() =~~= hs.deep_view().take(
                i as int,
            ));
            assert(hs.deep_view().take(i + 1 as int).last() == hs.deep_view()[i as int]);
            assert(hs.deep_view()[i as int].0 =~= hs@[i as int].0@);
            assert(hs.deep_view()[i as int].1 =~= hs@[i as int].1@);
        }
        if bytes_eq(hs[i].0.as_slice(), key) {
            return Some(slice_to_vec(hs[i].1.as_slice()));
        }
    }
    proof {
        assert(hs.deep_view().take(0) =~~= Seq::<(Seq<u8>, Seq<u8>)>::empty());
    }
    None
}

/// Parse a received buffer into status code, headers and body plan; fails
/// exactly as `spec_parse` says.
pub fn parse_response(rec: &[u8]) -> (r: Result<ParsedHead, HttpError>)
    ensures
        ({
            match spec_parse(rec@) {
                ParseOutcome::Incomplete => r matches Err(e) && is_general_err(
                    e,
                    "incomplete HTTP response header"@,
                ),
                ParseOutcome::BadHeader => r matches Err(e) && is_general_err(
                    e,
                    "malformed HTTP response header"@,
                ),
                ParseOutcome::BadCode => r matches Err(e) && is_general_err(
                    e,
                    "malformed HTTP status code"@,
                ),
                ParseOutcome::BadProtocol => r matches Err(e) && is_general_err(
                    e,
                    "unsupported protocol or protocol version"@,
                ),
                ParseOutcome::NoLength => r matches Err(e) && is_general_err(
                    e,
                    "cannot recognize body length"@,
                ),
                ParseOutcome::BadLength => r matches Err(e) && is_general_err(
                    e,
                    "content-length is not a number"@,
                ),
                ParseOutcome::Parsed { code, headers, body_prefix, remaining } => r matches Ok(h)
                    && h.code == code && h.headers.deep_view() == headers && h.body_prefix@
                    == body_prefix && h.remaining == remaining,
            }
        }),
{
    let n = rec.len();
    let term: [u8; 4] = [13, 10, 13, 10];
    proof {
        assert(term@ =~= spec_crlfcrlf());
        lemma_first_occ_props(rec@, spec_crlfcrlf(), 0);
    }
    match find_first(rec, term.as_slice()) {
        None => Err(general_err("incomplete HTTP response header")),
        Some(p) => {
            proof {
                assert(occurs_at(rec@, spec_crlfcrlf(), p as int));
            }
            let head_block = slice_subrange(rec, 0, p);
            let crlf: [u8; 2] = [13, 10];
            proof {
                assert(crlf@ =~= spec_crlf());
                assert(head_block@ =~= rec@.take(p as int));
            }
            let lines = split_all(head_block, crlf.as_slice());
            proof {
                lemma_split_nonempty(rec@.take(p as int), spec_crlf());
                assert(lines.deep_view()[0] == lines@[0].deep_view());
                assert(lines@[0].deep_view() =~= lines@[0]@);
            }
            let code = match parse_status_line(lines[0].as_slice()) {
                Ok(c) => c,
                Err(e) => {
                    return Err(e);
                },
            };
            let ghost gl = lines.deep_view().skip(1);
            let mut hs: Vec<(Vec<u8>, Vec<u8>)> = Vec::new();
            proof {
                assert(gl.take(0) =~~= Seq::<Seq<u8>>::empty());
                assert(hs.deep_view() =~~= Seq::<(Seq<u8>, Seq<u8>)>::empty());
            }
            let mut i: usize = 1;
            #[verifier::loop_isolation(false)]
            while i < lines.len()
                invariant
                    1 <= i <= lines@.len(),
                    spec_headers(gl.take(i - 1)) == Some(hs.deep_view()),
                decreases lines@.len() - i,
            {
                proof {
                    assert(lines.deep_view()[i as int] == lines@[i as int].deep_view());
                    assert(lines@[i as int].deep_view() =~= lines@[i as int]@);
                    assert(gl[i - 1] == lines.deep_view()[i as int]);
                }
                match parse_header_line(lines[i].as_slice()) {
                    Ok(kv) => {
                        let ghost old_hs = hs.deep_view();
                        hs.push(kv);
                        proof {
                            assert(hs.deep_view() =~~= old_hs.push((kv.0@, kv.1@)));
                            assert(gl.take(i as int).drop_last() =~~= gl.take(i - 1));
                            assert(gl.take(i as int).last() == gl[i - 1]);
                        }
                    },
                    Err(e) => {
                        proof {
                            lemma_spec_headers_none(gl, i - 1);
                            assert(spec_headers(lines.deep_view().skip(1)) is None);
                            assert(spec_parse(rec@) is BadHeader);
                        }
                        return Err(e);
                    },
                }
                i = i + 1;
            }
            proof {
                assert(gl.take(lines@.len() - 1) =~~= gl);
            }
            let key: [u8; 14] = [99, 111, 110, 116, 101, 110, 116, 45, 108, 101, 110, 103, 116,
                104];
            proof {
                assert(key@ =~= spec_content_length_key());
            }
            match lookup_last(&hs, key.as_slice()) {
                None => Err(general_err("cannot recognize body length")),
                Some(v) => {
                    match parse_dec(v.as_slice()) {
                        None => Err(general_err("content-length is not a number")),
                        Some(len) => {
                            let rest = slice_subrange(rec, p + 4, n);
                            proof {
                                assert(rest@ =~= rec@.skip(p + 4));
                            }
                            let take_n = if len < rest.len() {
                                len
                            } else {
                                rest.len()
                            };
                            let body_prefix = slice_to_vec(slice_subrange(rest, 0, take_n));
                            proof {
                                assert(body_prefix@ =~= rec@.skip(p + 4).take(
                                    if dec_value(v@) <= rec@.skip(p + 4).len() {
                                        dec_value(v@) as int
                                    } else {
                                        rec@.skip(p + 4).len() as int
                                    },
                                ));
                            }
                            let remaining = len - take_n;
                            Ok(ParsedHead { code, headers: hs, body_prefix, remaining })
                        },
                    }
                },
            }
        },
    }
}

/// An HTTP request method.
pub enum Method {
    GET,
    HEAD,
    OPTIONS,
    TRACE,
    PUT,
    DELETE,
    POST,
    PATCH,
    CONNECT,
}

impl Method {
    /// The token that names this method on the wire.
    pub open spec fn spec_text(&self) -> Seq<char> {
        match self {
            Method::GET => "GET"@,
            Method::HEAD => "HEAD"@,
            Method::OPTIONS => "OPTIONS"@,
            Method::TRACE => "TRACE"@,
            Method::PUT => "PUT"@,
            Method::DELETE => "DELETE"@,
            Method::POST => "POST"@,
            Method::PATCH => "PATCH"@,
            Method::CONNECT => "CONNECT"@,
        }
    }

    /// The wire token of this method.
    pub fn text(&self) -> (r: &'static str)
        ensures
            r@ == self.spec_text(),
    {
        match self {
            Method::GET => "GET",
            Method::HEAD => "HEAD",
            Method::OPTIONS => "OPTIONS",
            Method::TRACE => "TRACE",
            Method::PUT => "PUT",
            Method::DELETE => "DELETE",
            Method::POST => "POST",
            Method::PATCH => "PATCH",
            Method::CONNECT => "CONNECT",
        }
    }
}

/// One judgement of the bytes accumulated so far during proxy-tunnel
/// negotiation: read on, the tunnel stands, or the attempt is refused.
pub enum TunnelStep {
    NeedMore,
    Established,
    Refused(HttpError),
}

/// Judge a tunnel reply: nothing on a closed connection; an established
/// tunnel only on a success status line whose header block is complete; a
/// 407 is an authentication demand; any other recognizable status refuses
/// the tunnel.
pub fn tunnel_step(rec: &[u8], eof: bool) -> (r: TunnelStep)
    ensures
        eof ==> (r matches TunnelStep::Refused(e) && is_general_err(e, "tunnel EOF"@)),
        !eof && rec@.len() < 12 ==> r is NeedMore,
        !eof && rec@.len() >= 12 && (rec@.take(12) == spec_http10_ok() || rec@.take(12)
            == spec_http11_ok()) ==> if rec@.skip(rec@.len() - 4) == spec_crlfcrlf() {
            r is Established
        } else {
            r is NeedMore
        },
        !eof && rec@.len() >= 12 && rec@.take(12) != spec_http10_ok() && rec@.take(12)
            != spec_http11_ok() ==> (r matches TunnelStep::Refused(e) && if rec@.take(12)
            == spec_http10_auth() || rec@.take(12) == spec_http11_auth() {
            is_general_err(e, "proxy authentication required"@)
        } else {
            is_general_err(e, "unsuccessful tunnel"@)
        }),
{
    if eof {
        return TunnelStep::Refused(general_err("tunnel EOF"));
    }
    let n = rec.len();
    if n < 12 {
        return TunnelStep::NeedMore;
    }
    let start = slice_subrange(rec, 0, 12);
    let ok10: [u8; 12] = [72, 84, 84, 80, 47, 49, 46, 48, 32, 50, 48, 48];
    let ok11: [u8; 12] = [72, 84, 84, 80, 47, 49, 46, 49, 32, 50, 48, 48];
    let auth10: [u8; 12] = [72, 84, 84, 80, 47, 49, 46, 48, 32, 52, 48, 55];
    let auth11: [u8; 12] = [72, 84, 84, 80, 47, 49, 46, 49, 32, 52, 48, 55];
    proof {
        assert(ok10@ =~= spec_http10_ok());
        assert(ok11@ =~= spec_http11_ok());
        assert(auth10@ =~= spec_http10_auth());
        assert(auth11@ =~= spec_http11_auth());
        assert(start@ =~= rec@.take(12));
    }
    if bytes_eq(start, ok10.as_slice()) || bytes_eq(start, ok11.as_slice()) {
        let tail = slice_subrange(rec, n - 4, n);
        let term: [u8; 4] = [13, 10, 13, 10];
        proof {
            assert(term@ =~= spec_crlfcrlf());
            assert(tail@ =~= rec@.skip(rec@.len() - 4));
        }
        if bytes_eq(tail, term.as_slice()) {
            TunnelStep::Established
        } else {
            TunnelStep::NeedMore
        }
    } else if bytes_eq(start, auth10.as_slice()) || bytes_eq(start, auth11.as_slice()) {
        TunnelStep::Refused(general_err("proxy authentication required"))
    } else {
        TunnelStep::Refused(general_err("unsuccessful tunnel"))
    }
}

/// The CONNECT request that asks a proxy for a tunnel to `host:port`.
pub open spec fn spec_connect_text(host: Seq<char>, port: u16) -> Seq<char> {
    "CONNECT "@ + host + ":"@ + dec_str(port as nat) + " HTTP/1.1\r\nHost: "@ + host + ":"@
        + dec_str(port as nat) + "\r\n\r\n"@
}

/// Frame the CONNECT request naming the real target `host:port`.
pub fn connect_request_text(host: &str, port: u16) -> (r: String)
    ensures
        r@ == spec_connect_text(host@, port),
{
    let pd = u64_to_dec(port as u64);
    let mut s = String::new();
    s.append("CONNECT ");
    s.append(host);
    s.append(":");
    s.append(pd.as_str());
    s.append(" HTTP/1.1\r\nHost: ");
    s.append(host);
    s.append(":");
    s.append(pd.as_str());
    s.append("\r\n\r\n");
    proof {
        assert(s@ =~= spec_connect_text(host@, port));
    }
    s
}

/// The serialized header block: one "key:value" line per header, in order.
pub open spec fn spec_serialize_headers(hs: Seq<(Seq<char>, Seq<char>)>) -> Seq<char>
    decreases hs.len(),
{
    if hs.len() == 0 {
        Seq::empty()
    } else {
        spec_serialize_headers(hs.drop_last()) + hs.last().0 + ":"@ + hs.last().1 + "\r\n"@
    }
}

/// The request head: request line, serialized headers, and the blank-line
/// terminator.
pub open spec fn spec_request_head(
    m: Method,
    path: Seq<char>,
    query: Option<Seq<char>>,
    hs: Seq<(Seq<char>, Seq<char>)>,
) -> Seq<char> {
    m.spec_text() + " "@ + path + (match query {
        Some(q) => "?"@ + q,
        None => Seq::empty(),
    }) + " HTTP/1.1\r\n"@ + spec_serialize_headers(hs) + "\r\n"@
}

/// Frame the request head for the given method, target and headers.
pub fn request_head_text(
    method: &Method,
    path: &str,
    query: &Option<String>,
    headers: &Vec<(String, String)>,
) -> (r: String)
    ensures
        r@ == spec_request_head(*method, path@, match query {
            Some(q) => Some(q@),
            None => None,
        }, headers.deep_view()),
{
    let mut s = String::new();
    s.append(method.text());
    s.append(" ");
    s.append(path);
    match query {
        Some(q) => {
            s.append("?");
            s.append(q.as_str());
        },
        None => {},
    }
    s.append(" HTTP/1.1\r\n");
    let mut i: usize = 0;
    let ghost hd = headers.deep_view();
    let ghost pre = s@;
    while i < headers.len()
        invariant
            i <= headers@.len(),
            hd == headers.deep_view(),
            hd.len() == headers@.len(),
            s@ == pre + spec_serialize_headers(hd.take(i as int)),
        decreases headers@.len() - i,
    {
        proof {
            assert(hd[i as int].0 =~= headers@[i as int].0@);
            assert(hd[i as int].1 =~= headers@[i as int].1@);
            assert(hd.take(i + 1 as int).drop_last() =~~= hd.take(i as int));
            assert(hd.take(i + 1 as int).last() == hd[i as int]);
        }
        s.append(headers[i].0.as_str());
        s.append(":");
        s.append(headers[i].1.as_str());
        s.append("\r\n");
        i = i + 1;
        proof {
            assert(s@ =~= pre + spec_serialize_headers(hd.take(i as int)));
        }
    }
    s.append("\r\n");
    proof {
        assert(hd.take(headers@.len() as int) =~~= hd);
        assert(s@ =~= spec_request_head(*method, path@, match query {
            Some(q) => Some(q@),
            None => None,
        }, hd));
    }
    s
}

/// An HTTP request under construction: method, target URL, headers in
/// insertion order with unique keys, an optional proxy URL, and a body
/// (the transport refuses to send one).
pub struct Request {
    pub method: Method,
    pub url: String,
    pub headers: Vec<(String, String)>,
    pub proxy: Option<String>,
    pub body: Vec<u8>,
}

/// The index of the first header named `k`, if any.
pub open spec fn first_key_idx(hs: Seq<(Seq<char>, Seq<char>)>, k: Seq<char>) -> Option<int>
    decreases hs.len(),
{
    if hs.len() == 0 {
        None
    } else if hs[0].0 == k {
        Some(0)
    } else {
        match first_key_idx(hs.skip(1), k) {
            Some(i) => Some(i + 1),
            None => None,
        }
    }
}

/// Setting a header replaces the first one of the same name, or appends.
pub open spec fn spec_insert_header(
    hs: Seq<(Seq<char>, Seq<char>)>,
    k: Seq<char>,
    v: Seq<char>,
) -> Seq<(Seq<char>, Seq<char>)> {
    match first_key_idx(hs, k) {
        Some(i) => hs.update(i, (k, v)),
        None => hs.push((k, v)),
    }
}

proof fn lemma_first_key_props(hs: Seq<(Seq<char>, Seq<char>)>, k: Seq<char>)
    ensures
        match first_key_idx(hs, k) {
            Some(i) => 0 <= i < hs.len() && hs[i].0 == k && forall|j: int|
                0 <= j < i ==> hs[j].0 != k,
            None => forall|j: int| 0 <= j < hs.len() ==> hs[j].0 != k,
        },
    decreases hs.len(),
{
    if hs.len() > 0 && hs[0].0 != k {
        lemma_first_key_props(hs.skip(1), k);
        assert(forall|j: int| 1 <= j < hs.len() ==> hs[j] == hs.skip(1)[j - 1]);
    }
}

proof fn lemma_first_key_some(hs: Seq<(Seq<char>, Seq<char>)>, k: Seq<char>, i: int)
    requires
        0 <= i < hs.len(),
        hs[i].0 == k,
        forall|j: int| 0 <= j < i ==> hs[j].0 != k,
    ensures
        first_key_idx(hs, k) == Some(i),
    decreases hs.len(),
{
    if i > 0 {
        lemma_first_key_some(hs.skip(1), k, i - 1);
    }
}

proof fn lemma_first_key_none(hs: Seq<(Seq<char>, Seq<char>)>, k: Seq<char>)
    requires
        forall|j: int| 0 <= j < hs.len() ==> hs[j].0 != k,
    ensures
        first_key_idx(hs, k) == None::<int>,
    decreases hs.len(),
{
    if hs.len() > 0 {
        lemma_first_key_none(hs.skip(1), k);
    }
}

impl Request {
    /// Replace the target URL.
    pub fn url(self, url: &str) -> (r: Request)
        ensures
            r.method == self.method,
            r.url@ == url@,
            r.headers == self.headers,
            r.proxy == self.proxy,
            r.body == self.body,
    {
        Request { url: url.to_owned(), ..self }
    }

    /// Set one header, replacing an earlier one of the same name.
    pub fn header(self, key: &str, value: &str) -> (r: Request)
        ensures
            r.method == self.method,
            r.url == self.url,
            r.proxy == self.proxy,
            r.body == self.body,
            r.headers.deep_view() == spec_insert_header(self.headers.deep_view(), key@, value@),
    {
        let mut req = self;
        let n = req.headers.len();
        let ghost hd = req.headers.deep_view();
        let mut i: usize = 0;
        #[verifier::loop_isolation(false)]
        while i < n
            invariant
                i <= n,
                req == self,
                forall|j: int| 0 <= j < i ==> hd[j].0 != key@,
            decreases n - i,
        {
            proof {
                assert(hd[i as int].0 =~= req.headers@[i as int].0@);
                assert(hd[i as int].1 =~= req.headers@[i as int].1@);
            }
            if crate::text::str_eq(req.headers[i].0.as_str(), key) {
                proof {
                    lemma_first_key_some(hd, key@, i as int);
                }
                req.headers.remove(i);
                req.headers.insert(i, (key.to_owned(), value.to_owned()));
                proof {
                    assert(req.headers.deep_view() =~~= hd.update(i as int, (key@, value@)));
                }
                return req;
            }
            i = i + 1;
        }
        proof {
            lemma_first_key_none(hd, key@);
        }
        req.headers.push((key.to_owned(), value.to_owned()));
        proof {
            assert(req.headers.deep_view() =~~= hd.push((key@, value@)));
        }
        req
    }

    /// Set many headers, first to last, each as `header` does.
    pub open spec fn spec_insert_all(
        hs: Seq<(Seq<char>, Seq<char>)>,
        items: Seq<(Seq<char>, Seq<char>)>,
    ) -> Seq<(Seq<char>, Seq<char>)>
        decreases items.len(),
    {
        if items.len() == 0 {
            hs
        } else {
            spec_insert_header(
                Self::spec_insert_all(hs, items.drop_last()),
                items.last().0,
                items.last().1,
            )
        }
    }

    /// Set each header of the list, first to last.
    pub fn headers(self, list: Vec<(String, String)>) -> (r: Request)
        ensures
            r.method == self.method,
            r.url == self.url,
            r.proxy == self.proxy,
            r.body == self.body,
            r.headers.deep_view() == Self::spec_insert_all(
                self.headers.deep_view(),
                list.deep_view(),
            ),
    {
        let ghost ld = list.deep_view();
        let mut req = self;
        let mut i: usize = 0;
        #[verifier::loop_isolation(false)]
        while i < list.len()
            invariant
                i <= list@.len(),
                req.method == self.method,
                req.url == self.url,
                req.proxy == self.proxy,
                req.body == self.body,
                req.headers.deep_view() == Self::spec_insert_all(
                    self.headers.deep_view(),
                    ld.take(i as int),
                ),
            decreases list@.len() - i,
        {
            proof {
                assert(ld.take(i + 1 as int).drop_last() =~~= ld.take(i as int));
                assert(ld.take(i + 1 as int).last() == ld[i as int]);
                assert(ld[i as int].0 =~= list@[i as int].0@);
                assert(ld[i as int].1 =~= list@[i as int].1@);
            }
            req = req.header(list[i].0.as_str(), list[i].1.as_str());
            i = i + 1;
        }
        proof {
            assert(ld.take(list@.len() as int) =~~= ld);
        }
        req
    }

    /// Replace the proxy URL.
    pub fn proxy(self, p: &str) -> (r: Request)
        ensures
            r.method == self.method,
            r.url == self.url,
            r.headers == self.headers,
            r.proxy matches Some(q) && q@ == p@,
            r.body == self.body,
    {
        Request { proxy: Some(p.to_owned()), ..self }
    }

    /// Replace the body. The transport sends none: a request carrying one
    /// is refused when planned.
    pub fn body(self, body: Vec<u8>) -> (r: Request)
        ensures
            r.method == self.method,
            r.url == self.url,
            r.headers == self.headers,
            r.proxy == self.proxy,
            r.body == body,
    {
        Request { body, ..self }
    }
}

/// A finished exchange: the request it answered, the status code, the
/// lowercased headers, and the whole body. The caller's I/O layer
/// assembles it from a parsed head once the remaining body bytes are in.
pub struct Response {
    pub request: Request,
    pub code: u16,
    pub headers: Vec<(Vec<u8>, Vec<u8>)>,
    pub body: Vec<u8>,
}

impl Response {
    /// The value of the last header named `name`, if any.
    pub fn header(&self, name: &[u8]) -> (r: Option<Vec<u8>>)
        ensures
            match spec_lookup(self.headers.deep_view(), name@) {
                Some(v) => r matches Some(x) && x@ == v,
                None => r is None,
            },
    {
        lookup_last(&self.headers, name)
    }
}

/// A GET request for `url`, with no headers, proxy or body yet.
pub fn get(url: &str) -> (r: Request)
    ensures
        r.method is GET,
        r.url@ == url@,
        r.headers@.len() == 0,
        r.proxy is None,
        r.body@.len() == 0,
{
    Request {
        method: Method::GET,
        url: url.to_owned(),
        headers: Vec::new(),
        proxy: None,
        body: Vec::new(),
    }
}

/// The parts of a URL that the transport reads: scheme, host, the port
/// as the url crate reports it (a scheme-default port, written or not,
/// is reported as absent), path, and query.
pub struct UrlParts {
    pub scheme: String,
    pub host: Option<String>,
    pub port: Option<u16>,
    pub path: String,
    pub query: Option<String>,
}

/// The parts of a URL as plain values, for contracts.
pub struct UrlPartsView {
    pub scheme: Seq<char>,
    pub host: Option<Seq<char>>,
    pub port: Option<u16>,
    pub path: Seq<char>,
    pub query: Option<Seq<char>>,
}

impl View for UrlParts {
    type V = UrlPartsView;

    open spec fn view(&self) -> UrlPartsView {
        UrlPartsView {
            scheme: self.scheme@,
            host: self.host.deep_view(),
            port: self.port,
            path: self.path@,
            query: self.query.deep_view(),
        }
    }
}

/// Whether the url crate parses `s`. What url::Url::parse returns is a
/// function of its argument alone, so its outcome and the parts below
/// carry names that `split_url` pins to its result.
pub uninterp spec fn url_ok(s: Seq<char>) -> bool;

/// The scheme of the parsed URL `s`.
pub uninterp spec fn url_scheme_of(s: Seq<char>) -> Seq<char>;

/// The host of the parsed URL `s`, if it names one.
pub uninterp spec fn url_host_of(s: Seq<char>) -> Option<Seq<char>>;

/// The port of the parsed URL `s`, as url::Url::port reports it: a
/// scheme-default port, written or not, is reported as absent.
pub uninterp spec fn url_port_of(s: Seq<char>) -> Option<u16>;

/// The path of the parsed URL `s`.
pub uninterp spec fn url_path_of(s: Seq<char>) -> Seq<char>;

/// The query of the parsed URL `s`, if it has one.
pub uninterp spec fn url_query_of(s: Seq<char>) -> Option<Seq<char>>;

/// All the named parts of the parsed URL `s`, gathered.
pub open spec fn spec_url_parts(s: Seq<char>) -> UrlPartsView {
    UrlPartsView {
        scheme: url_scheme_of(s),
        host: url_host_of(s),
        port: url_port_of(s),
        path: url_path_of(s),
        query: url_query_of(s),
    }
}

/// Relies on url::Url::parse to split an absolute URL, and on its
/// accessors scheme, host_str, port, path and query to read the parts
/// back; each accessor's result is a function of the URL text alone and
/// is pinned to its name here.
#[verifier::external_body]
pub fn split_url(s: &str) -> (r: Result<UrlParts, url::ParseError>)
    ensures
        (r is Ok) == url_ok(s@),
        r matches Ok(p) ==> p@.scheme == url_scheme_of(s@) && p@.host == url_host_of(s@)
            && p@.port == url_port_of(s@) && p@.path == url_path_of(s@) && p@.query
            == url_query_of(s@),
{
    match url::Url::parse(s) {
        Ok(u) => Ok(
            UrlParts {
                scheme: u.scheme().to_string(),
                host: u.host_str().map(|h| h.to_string()),
                port: u.port(),
                path: u.path().to_string(),
                query: u.query().map(|q| q.to_string()),
            },
        ),
        Err(e) => Err(e),
    }
}

/// Everything the I/O layer needs to carry one request out: where to open
/// the connection, the CONNECT text when a proxy stands in between,
/// whether to upgrade to TLS (under the target host's name), and the
/// framed request head.
#[derive(Debug)]
pub struct SendPlan {
    pub host: String,
    pub port: u16,
    pub use_tls: bool,
    pub proxy_host: Option<String>,
    pub proxy_port: Option<u16>,
    pub connect: Option<String>,
    pub head: String,
}

/// The port to connect to: the explicit port where the URL names one,
/// else the scheme default, 443 for "https" and 80 for "http"; any other
/// scheme has none. The url crate reports a written default port as
/// absent, so the default also covers a target written with one.
pub open spec fn spec_effective_port(scheme: Seq<char>, port: Option<u16>) -> Option<u16> {
    match port {
        Some(p) => Some(p),
        None => if scheme == "https"@ {
            Some(443u16)
        } else if scheme == "http"@ {
            Some(80u16)
        } else {
            None
        },
    }
}

/// The explicit port, or the scheme default.
fn effective_port(scheme: &str, port: &Option<u16>) -> (r: Option<u16>)
    ensures
        r == spec_effective_port(scheme@, *port),
{
    match port {
        Some(p) => Some(*p),
        None => {
            if crate::text::str_eq(scheme, "https") {
                Some(443)
            } else if crate::text::str_eq(scheme, "http") {
                Some(80)
            } else {
                None
            }
        },
    }
}

/// How a plan, or the refusal of one, follows from the URL parts: the
/// target must name a host and resolve a port (explicit or scheme
/// default); a proxy must be an "http" URL naming host and an explicit
/// port; a method that carries a body is not implemented; an accepted
/// request yields the connection target, the CONNECT text exactly for the
/// real host and port, TLS iff the scheme is "https", and the framed
/// head.
pub open spec fn spec_plan_result(
    req: Request,
    url: UrlPartsView,
    proxy: Option<UrlPartsView>,
    r: Result<SendPlan, HttpError>,
) -> bool {
    match url.host {
        None => r matches Err(e) && is_general_err(e, "no host field in url"@),
        Some(h) => match spec_effective_port(url.scheme, url.port) {
            None => r matches Err(e) && is_general_err(e, "no port field in url"@),
            Some(pt) => match proxy {
                Some(p) => if p.scheme != "http"@ {
                    r matches Err(e) && is_general_err(e, "unsupported proxy scheme"@)
                } else {
                    match p.host {
                        None => r matches Err(e) && is_general_err(
                            e,
                            "no host field in proxy url"@,
                        ),
                        Some(ph) => match p.port {
                            None => r matches Err(e) && is_general_err(
                                e,
                                "no port field in proxy url"@,
                            ),
                            Some(pp) => spec_plan_accepts(req, url, h, pt, r, Some(ph), Some(pp)),
                        },
                    }
                },
                None => spec_plan_accepts(req, url, h, pt, r, None, None),
            },
        },
    }
}

/// The tail of `spec_plan_result` once host, port and proxy are settled.
pub open spec fn spec_plan_accepts(
    req: Request,
    url: UrlPartsView,
    h: Seq<char>,
    pt: u16,
    r: Result<SendPlan, HttpError>,
    ph: Option<Seq<char>>,
    pp: Option<u16>,
) -> bool {
    if req.method is POST || req.method is PUT || req.method is PATCH {
        r matches Err(e) && is_general_err(e, "not implemented"@)
    } else {
        r matches Ok(plan) && plan.host@ == h && plan.port == pt && plan.use_tls == (url.scheme
            == "https"@) && (match (plan.proxy_host, ph) {
            (Some(a), Some(b)) => a@ == b,
            (None, None) => true,
            _ => false,
        }) && plan.proxy_port == pp && (match (plan.connect, ph) {
            (Some(c), Some(_)) => c@ == spec_connect_text(h, pt),
            (None, None) => true,
            _ => false,
        }) && plan.head@ == spec_request_head(req.method, url.path, url.query, req.headers.deep_view())
    }
}

/// The views of already-split proxy parts, if a proxy is configured.
pub open spec fn spec_opt_parts(p: Option<UrlParts>) -> Option<UrlPartsView> {
    match p {
        Some(q) => Some(q@),
        None => None,
    }
}

/// Plan one request against already-split URLs.
pub fn plan_from_parts(req: &Request, url: &UrlParts, proxy: &Option<UrlParts>) -> (r: Result<
    SendPlan,
    HttpError,
>)
    ensures
        spec_plan_result(*req, url@, spec_opt_parts(*proxy), r),
{
    let host: &String = match &url.host {
        None => {
            return Err(general_err("no host field in url"));
        },
        Some(h) => h,
    };
    let port: u16 = match effective_port(url.scheme.as_str(), &url.port) {
        None => {
            return Err(general_err("no port field in url"));
        },
        Some(p) => p,
    };
    let mut proxy_host: Option<String> = None;
    let mut proxy_port: Option<u16> = None;
    let mut connect: Option<String> = None;
    match proxy {
        Some(p) => {
            if !crate::text::str_eq(p.scheme.as_str(), "http") {
                return Err(general_err("unsupported proxy scheme"));
            }
            match &p.host {
                None => {
                    return Err(general_err("no host field in proxy url"));
                },
                Some(ph) => {
                    proxy_host = Some(ph.clone());
                },
            }
            match p.port {
                None => {
                    return Err(general_err("no port field in proxy url"));
                },
                Some(pp) => {
                    proxy_port = Some(pp);
                },
            }
            connect = Some(connect_request_text(host.as_str(), port));
        },
        None => {},
    }
    match req.method {
        Method::POST | Method::PUT | Method::PATCH => {
            return Err(general_err("not implemented"));
        },
        _ => {},
    }
    let head = request_head_text(&req.method, url.path.as_str(), &url.query, &req.headers);
    Ok(
        SendPlan {
            host: host.clone(),
            port,
            use_tls: crate::text::str_eq(url.scheme.as_str(), "https"),
            proxy_host,
            proxy_port,
            connect,
            head,
        },
    )
}

/// Split the request's own URL texts and plan it: a text the url crate
/// refuses is its error, and everything else follows `spec_plan_result`
/// on the named parts of the request's own URL and proxy texts.
pub fn prepare_send(req: &Request) -> (r: Result<SendPlan, HttpError>)
    ensures
        !url_ok(req.url@) ==> (r matches Err(HttpError::UrlError(_))),
        (req.proxy matches Some(ps) && !url_ok(ps@)) ==> (r matches Err(
            HttpError::UrlError(_),
        )),
        url_ok(req.url@) && (match req.proxy {
            Some(ps) => url_ok(ps@),
            None => true,
        }) ==> spec_plan_result(*req, spec_url_parts(req.url@), match req.proxy {
            Some(ps) => Some(spec_url_parts(ps@)),
            None => None,
        }, r),
{
    let url = match split_url(req.url.as_str()) {
        Ok(u) => u,
        Err(e) => {
            return Err(HttpError::UrlError(e));
        },
    };
    proof {
        assert(url@ == spec_url_parts(req.url@));
    }
    let proxy = match &req.proxy {
        Some(ps) => match split_url(ps.as_str()) {
            Ok(p) => {
                proof {
                    assert(p@ == spec_url_parts(ps@));
                }
                Some(p)
            },
            Err(e) => {
                return Err(HttpError::UrlError(e));
            },
        },
        None => None,
    };
    plan_from_parts(req, &url, &proxy)
}

} // verus!
