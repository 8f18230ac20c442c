//! HTTP request building and response framing for the cloud client: the
//! request head, host extraction from a URL, response header framing with
//! the status code, chunked-transfer sizes, and the text-accumulating
//! response callback.

use vstd::prelude::*;
use crate::bytesutil::{
    dec_digits, dec_ok, dec_val, eq_bytes, find_first, first_occurrence,
    lemma_first_occ_from_is_occ, parse_u32_dec, push_bytes, push_dec,
};
use crate::hexutil::is_hex_digit;
use crate::menderutils::{MenderResult, MenderStatus};

verus! {

/// The request verb.
#[derive(Debug, Clone, Copy, PartialEq, Eq, Structural)]
pub enum HttpMethod {
    Get,
    Post,
    Put,
    Patch,
}

/// The wire word of a verb.
pub open spec fn spec_method_bytes(m: HttpMethod) -> Seq<u8> {
    match m {
        HttpMethod::Get => "GET"@.map_values(|c: char| c as u8),
        HttpMethod::Post => "POST"@.map_values(|c: char| c as u8),
        HttpMethod::Put => "PUT"@.map_values(|c: char| c as u8),
        HttpMethod::Patch => "PATCH"@.map_values(|c: char| c as u8),
    }
}

/// The wire word of a verb, as bytes.
pub fn method_bytes(m: HttpMethod) -> (r: Vec<u8>)
    ensures
        r@ == spec_method_bytes(m),
{
    let mut r: Vec<u8> = Vec::new();
    match m {
        HttpMethod::Get => {
            push_bytes(&mut r, &[71, 69, 84]);
            proof {
                reveal_strlit("GET");
                assert(r@ =~= spec_method_bytes(m));
            }
        },
        HttpMethod::Post => {
            push_bytes(&mut r, &[80, 79, 83, 84]);
            proof {
                reveal_strlit("POST");
                assert(r@ =~= spec_method_bytes(m));
            }
        },
        HttpMethod::Put => {
            push_bytes(&mut r, &[80, 85, 84]);
            proof {
                reveal_strlit("PUT");
                assert(r@ =~= spec_method_bytes(m));
            }
        },
        HttpMethod::Patch => {
            push_bytes(&mut r, &[80, 65, 84, 67, 72]);
            proof {
                reveal_strlit("PATCH");
                assert(r@ =~= spec_method_bytes(m));
            }
        },
    }
    r
}

/// Events of the HTTP client connection, handed to response callbacks.
#[derive(Debug, Clone, Copy, PartialEq, Eq, Structural)]
pub enum HttpClientEvent {
    Connected,
    DataReceived,
    Disconnected,
    Error,
}

/// Accumulated response body.
pub struct MenderHttpResponseData {
    pub text: Option<Vec<u8>>,
}

impl MenderHttpResponseData {
    /// An empty response accumulator.
    pub fn new() -> (r: MenderHttpResponseData)
        ensures
            r.text is None,
    {
        MenderHttpResponseData { text: None }
    }
}

/// Configuration of the HTTP client: the server base URL.
pub struct MenderHttpConfig {
    pub host: Vec<u8>,
}

/// One request, as the pipeline carries it.
pub struct HttpRequestParams {
    pub jwt: Option<Vec<u8>>,
    pub path: Vec<u8>,
    pub method: HttpMethod,
    pub payload: Option<Vec<u8>>,
    pub signature: Option<Vec<u8>>,
}

/// Accumulates received body text: mirrors the text callback of the cloud
/// client. Connection events and empty data change nothing; valid UTF-8
/// bytes are appended; bytes that are not valid UTF-8, like the error
/// event, fail and leave the accumulator untouched.
pub fn mender_api_http_text_callback(
    event: HttpClientEvent,
    data: &[u8],
    response_data: &mut MenderHttpResponseData,
) -> (r: MenderResult<()>)
    ensures
        match event {
            HttpClientEvent::DataReceived => if data@.len() == 0 {
                r is Ok && final(response_data).text == old(response_data).text
            } else if !vstd::utf8::valid_utf8(data@) {
                r == Err::<(MenderStatus, ()), MenderStatus>(MenderStatus::Failed)
                    && final(response_data).text == old(response_data).text
            } else {
                r is Ok && (final(response_data).text matches Some(t) && t@ == (match old(
                    response_data,
                ).text {
                    Some(t0) => t0@ + data@,
                    None => data@,
                }))
            },
            HttpClientEvent::Error => r is Err
                && final(response_data).text == old(response_data).text,
            _ => r is Ok && final(response_data).text == old(response_data).text,
        },
{
    match event {
        HttpClientEvent::Connected => Ok((MenderStatus::Okay, ())),
        HttpClientEvent::DataReceived => {
            if data.len() == 0 {
                return Ok((MenderStatus::Okay, ()));
            }
            if !crate::bytesutil::utf8_valid(data) {
                return Err(MenderStatus::Failed);
            }
            let mut acc: Vec<u8> = match self_take_text(response_data) {
                Some(t) => t,
                None => Vec::new(),
            };
            let ghost acc0 = acc@;
            push_bytes(&mut acc, data);
            proof {
                if old(response_data).text is None {
                    assert(acc@ =~= data@);
                }
            }
            response_data.text = Some(acc);
            Ok((MenderStatus::Okay, ()))
        },
        HttpClientEvent::Disconnected => Ok((MenderStatus::Okay, ())),
        HttpClientEvent::Error => Err(MenderStatus::Failed),
    }
}

/// Takes the accumulated text out of the response record.
fn self_take_text(r: &mut MenderHttpResponseData) -> (t: Option<Vec<u8>>)
    ensures
        match old(r).text {
            Some(v) => t matches Some(w) && w@ == v@,
            None => t is None,
        },
        final(r).text is None,
{
    let mut out: Option<Vec<u8>> = None;
    core::mem::swap(&mut out, &mut r.text);
    out
}

/// The host part of an `http://` or `https://` URL: everything up to the
/// first slash after the scheme. Any other scheme is rejected.
pub open spec fn spec_extract_host(url: Seq<u8>) -> Option<Seq<u8>> {
    let http = "http://"@.map_values(|c: char| c as u8);
    let https = "https://"@.map_values(|c: char| c as u8);
    if crate::bytesutil::begins_with(url, http) {
        let rest = url.skip(7);
        Some(
            match first_occurrence(rest, seq![47u8]) {
                Some(p) => rest.take(p),
                None => rest,
            },
        )
    } else if crate::bytesutil::begins_with(url, https) {
        let rest = url.skip(8);
        Some(
            match first_occurrence(rest, seq![47u8]) {
                Some(p) => rest.take(p),
                None => rest,
            },
        )
    } else {
        None
    }
}

/// Extracts the host from a URL; fails on a URL without an HTTP scheme.
pub fn extract_host(url: &[u8]) -> (r: Result<Vec<u8>, MenderStatus>)
    ensures
        match r {
            Ok(h) => spec_extract_host(url@) == Some(h@),
            Err(e) => e == MenderStatus::Other && spec_extract_host(url@) is None,
        },
{
    let nl: usize = url.len();
    let http: Vec<u8> = scheme_http();
    let https: Vec<u8> = scheme_https();
    proof {
        reveal_strlit("http://");
        reveal_strlit("https://");
    }
    let skip_n: usize = if crate::bytesutil::begins_with_exec(url, http.as_slice()) {
        7
    } else if crate::bytesutil::begins_with_exec(url, https.as_slice()) {
        8
    } else {
        return Err(MenderStatus::Other);
    };
    let rest: Vec<u8> = crate::bytesutil::copy_range(url, skip_n, nl);
    proof {
        assert(rest@ =~= url@.skip(skip_n as int));
    }
    let slash: [u8; 1] = [47u8];
    proof {
        assert(slash@ =~= seq![47u8]);
    }
    match find_first(rest.as_slice(), slash.as_slice()) {
        Some(p) => {
            proof {
                lemma_first_occ_from_is_occ(rest@, seq![47u8], 0, p as int);
                assert(rest@.take(p as int) =~= rest@.subrange(0, p as int));
            }
            Ok(crate::bytesutil::copy_range(rest.as_slice(), 0, p))
        },
        None => Ok(rest),
    }
}

/// The bytes `http://`.
fn scheme_http() -> (r: Vec<u8>)
    ensures
        r@ == "http://"@.map_values(|c: char| c as u8),
{
    let mut r: Vec<u8> = Vec::new();
    push_bytes(&mut r, &[104, 116, 116, 112, 58, 47, 47]);
    proof {
        reveal_strlit("http://");
        assert(r@ =~= "http://"@.map_values(|c: char| c as u8));
    }
    r
}

/// The bytes `https://`.
fn scheme_https() -> (r: Vec<u8>)
    ensures
        r@ == "https://"@.map_values(|c: char| c as u8),
{
    let mut r: Vec<u8> = Vec::new();
    push_bytes(&mut r, &[104, 116, 116, 112, 115, 58, 47, 47]);
    proof {
        reveal_strlit("https://");
        assert(r@ =~= "https://"@.map_values(|c: char| c as u8));
    }
    r
}

/// A `ws://` or `wss://` URL rewritten to its HTTP form; any other URL
/// passes through unchanged.
pub open spec fn spec_ws_to_http(url: Seq<u8>) -> Seq<u8> {
    let ws = seq![119u8, 115u8, 58u8, 47u8, 47u8];
    let wss = seq![119u8, 115u8, 115u8, 58u8, 47u8, 47u8];
    let http = "http://"@.map_values(|c: char| c as u8);
    let https = "https://"@.map_values(|c: char| c as u8);
    if crate::bytesutil::begins_with(url, wss) {
        https + url.skip(6)
    } else if crate::bytesutil::begins_with(url, ws) {
        http + url.skip(5)
    } else {
        url
    }
}

/// Rewrites a WebSocket URL to the HTTP URL the transport connects to.
pub fn convert_ws_to_http_url(url: &[u8]) -> (r: Vec<u8>)
    ensures
        r@ == spec_ws_to_http(url@),
{
    let nl: usize = url.len();
    let wss: [u8; 6] = [119, 115, 115, 58, 47, 47];
    let ws: [u8; 5] = [119, 115, 58, 47, 47];
    if crate::bytesutil::begins_with_exec(url, wss.as_slice()) {
        proof {
            assert(wss@ =~= seq![119u8, 115u8, 115u8, 58u8, 47u8, 47u8]);
        }
        let mut r: Vec<u8> = scheme_https();
        let rest: Vec<u8> = crate::bytesutil::copy_range(url, 6, nl);
        proof {
            assert(rest@ =~= url@.skip(6));
        }
        push_bytes(&mut r, rest.as_slice());
        r
    } else if crate::bytesutil::begins_with_exec(url, ws.as_slice()) {
        proof {
            assert(ws@ =~= seq![119u8, 115u8, 58u8, 47u8, 47u8]);
            assert(wss@ =~= seq![119u8, 115u8, 115u8, 58u8, 47u8, 47u8]);
        }
        let mut r: Vec<u8> = scheme_http();
        let rest: Vec<u8> = crate::bytesutil::copy_range(url, 5, nl);
        proof {
            assert(rest@ =~= url@.skip(5));
        }
        push_bytes(&mut r, rest.as_slice());
        r
    } else {
        proof {
            assert(ws@ =~= seq![119u8, 115u8, 58u8, 47u8, 47u8]);
            assert(wss@ =~= seq![119u8, 115u8, 115u8, 58u8, 47u8, 47u8]);
        }
        crate::bytesutil::copy_range(url, 0, nl)
    }
}

/// The end of the response head: the first empty line.
pub open spec fn spec_headers_end(data: Seq<u8>) -> Option<int> {
    match first_occurrence(data, seq![13u8, 10u8, 13u8, 10u8]) {
        Some(p) => Some(p + 4),
        None => None,
    }
}

/// The status code of a response head: the run of digits after the first
/// space of the status line.
pub open spec fn spec_status_code(data: Seq<u8>) -> Option<int> {
    match first_occurrence(data, seq![32u8]) {
        Some(sp) => {
            let e = crate::jsonext::digit_run_end(data, sp + 1);
            if e > sp + 1 {
                Some(dec_val(data.subrange(sp + 1, e)))
            } else {
                None
            }
        },
        None => None,
    }
}

/// Frames a response head: the offset where the body starts and the status
/// code of the status line. Returns nothing until the empty line has
/// arrived or when the status line carries no numeric code.
pub fn parse_headers(data: &[u8]) -> (r: Option<(usize, u32)>)
    ensures
        match r {
            Some((end, code)) => spec_headers_end(data@) == Some(end as int) && spec_status_code(
                data@,
            ) == Some(code as int),
            None => spec_headers_end(data@) is None || spec_status_code(data@) is None || (
            spec_status_code(data@) matches Some(c) && c > u32::MAX),
        },
{
    let n: usize = data.len();
    let crlf2: [u8; 4] = [13, 10, 13, 10];
    let end: usize = match find_first(data, crlf2.as_slice()) {
        Some(p) => {
            proof {
                lemma_first_occ_from_is_occ(data@, crlf2@, 0, p as int);
                assert(crlf2@ =~= seq![13u8, 10u8, 13u8, 10u8]);
            }
            p + 4
        },
        None => {
            proof {
                assert(crlf2@ =~= seq![13u8, 10u8, 13u8, 10u8]);
            }
            return None;
        },
    };
    let sp: [u8; 1] = [32u8];
    let spos: usize = match find_first(data, sp.as_slice()) {
        Some(p) => {
            proof {
                lemma_first_occ_from_is_occ(data@, sp@, 0, p as int);
                assert(sp@ =~= seq![32u8]);
            }
            p
        },
        None => {
            proof {
                assert(sp@ =~= seq![32u8]);
            }
            return None;
        },
    };
    let e: usize = crate::jsonext::digit_run_end_exec(data, spos + 1);
    if e <= spos + 1 {
        return None;
    }
    let run: &[u8] = vstd::slice::slice_subrange(data, spos + 1, e);
    proof {
        crate::jsonext::lemma_digit_run_digits(data@, spos + 1, e as int);
        assert(dec_ok(run@));
    }
    match parse_u32_dec(run) {
        Some(code) => Some((end, code)),
        None => {
            proof {
                assert(dec_val(run@) > u32::MAX);
            }
            None
        },
    }
}

/// The size line of a chunked-transfer chunk: the hexadecimal size before
/// the first line break, chunk extensions (after `;`) ignored.
pub open spec fn spec_chunk_line_end(data: Seq<u8>) -> Option<int> {
    first_occurrence(data, seq![13u8, 10u8])
}

/// The hexadecimal digits that make up the chunk size: the size field runs
/// to the line end or the first `;`.
pub open spec fn spec_chunk_size_field(data: Seq<u8>, line_end: int) -> Seq<u8> {
    let line = data.take(line_end);
    match first_occurrence(line, seq![59u8]) {
        Some(s) => line.take(s),
        None => line,
    }
}

/// The value of a hexadecimal numeral.
pub open spec fn hex_num_val(s: Seq<u8>) -> int
    decreases s.len(),
{
    if s.len() == 0 {
        0
    } else {
        16 * hex_num_val(s.drop_last()) + crate::hexutil::hex_val(s.last())
    }
}

/// Parses the size line of a chunked-transfer chunk: the chunk size and
/// the number of bytes the size line occupies. Fails until a full line has
/// arrived, or when the size field is not a hexadecimal numeral that fits
/// in 32 bits.
pub fn parse_chunk_size(data: &[u8]) -> (r: Option<(u32, usize)>)
    ensures
        ({
            let le = spec_chunk_line_end(data@);
            match r {
                Some((size, consumed)) => le == Some(consumed - 2) && consumed >= 2 && {
                    let f = spec_chunk_size_field(data@, consumed - 2);
                    f.len() >= 1 && (forall|i: int| 0 <= i < f.len() ==> is_hex_digit(
                        #[trigger] f[i],
                    )) && size == hex_num_val(f)
                },
                None => match le {
                    Some(l) => {
                        let f = spec_chunk_size_field(data@, l);
                        !(f.len() >= 1 && (forall|i: int| 0 <= i < f.len() ==> is_hex_digit(
                            #[trigger] f[i],
                        )) && hex_num_val(f) <= u32::MAX)
                    },
                    None => true,
                },
            }
        }),
{
    let n: usize = data.len();
    let crlf: [u8; 2] = [13, 10];
    let le: usize = match find_first(data, crlf.as_slice()) {
        Some(p) => {
            proof {
                lemma_first_occ_from_is_occ(data@, crlf@, 0, p as int);
                assert(crlf@ =~= seq![13u8, 10u8]);
            }
            p
        },
        None => {
            proof {
                assert(crlf@ =~= seq![13u8, 10u8]);
            }
            return None;
        },
    };
    let line: Vec<u8> = crate::bytesutil::copy_range(data, 0, le);
    proof {
        assert(line@ =~= data@.take(le as int));
    }
    let semi: [u8; 1] = [59u8];
    let field: Vec<u8> = match find_first(line.as_slice(), semi.as_slice()) {
        Some(s) => {
            proof {
                lemma_first_occ_from_is_occ(line@, semi@, 0, s as int);
                assert(semi@ =~= seq![59u8]);
                assert(line@.take(s as int) =~= line@.subrange(0, s as int));
            }
            crate::bytesutil::copy_range(line.as_slice(), 0, s)
        },
        None => {
            proof {
                assert(semi@ =~= seq![59u8]);
            }
            line
        },
    };
    match parse_hex_u32(field.as_slice()) {
        Some(v) => Some((v, le + 2)),
        None => None,
    }
}

/// Parses a hexadecimal numeral; fails exactly when the string is empty,
/// holds a non-hex byte, or its value does not fit in 32 bits.
pub fn parse_hex_u32(s: &[u8]) -> (r: Option<u32>)
    ensures
        match r {
            Some(v) => s@.len() >= 1 && (forall|i: int| 0 <= i < s@.len() ==> is_hex_digit(
                #[trigger] s@[i],
            )) && v == hex_num_val(s@),
            None => !(s@.len() >= 1 && (forall|i: int| 0 <= i < s@.len() ==> is_hex_digit(
                #[trigger] s@[i],
            )) && hex_num_val(s@) <= u32::MAX),
        },
{
    let n: usize = s.len();
    if n == 0 {
        return None;
    }
    let mut acc: u64 = 0;
    let mut i: usize = 0;
    while i < n
        invariant
            i <= n,
            n == s@.len(),
            n >= 1,
            acc == hex_num_val(s@.take(i as int)),
            acc <= u32::MAX,
            forall|k: int| 0 <= k < i ==> is_hex_digit(#[trigger] s@[k]),
        decreases n - i,
    {
        let c: u8 = s[i];
        let v: u8 = match crate::hexutil::hex_digit_value(c) {
            Some(v) => v,
            None => {
                return None;
            },
        };
        proof {
            assert(s@.take(i + 1).drop_last() =~= s@.take(i as int));
        }
        acc = acc * 16 + (v as u64);
        if acc > 0xFFFFFFFF {
            proof {
                if s@.len() >= 1 && (forall|k: int| 0 <= k < s@.len() ==> is_hex_digit(
                    #[trigger] s@[k],
                )) {
                    lemma_hex_val_monotone(s@, i + 1);
                }
            }
            return None;
        }
        i = i + 1;
    }
    proof {
        assert(s@.take(n as int) =~= s@);
    }
    Some(acc as u32)
}

/// The value of a hex digit string is never negative.
proof fn lemma_hex_val_nonneg(s: Seq<u8>)
    requires
        forall|k: int| 0 <= k < s.len() ==> is_hex_digit(#[trigger] s[k]),
    ensures
        hex_num_val(s) >= 0,
    decreases s.len(),
{
    if s.len() > 0 {
        lemma_hex_val_nonneg(s.drop_last());
        assert(forall|k: int| 0 <= k < s.drop_last().len() ==> is_hex_digit(
            #[trigger] s.drop_last()[k],
        ));
    }
}

/// A longer hex digit string never stands for a smaller number.
proof fn lemma_hex_val_monotone(s: Seq<u8>, i: int)
    requires
        0 <= i <= s.len(),
        forall|k: int| 0 <= k < s.len() ==> is_hex_digit(#[trigger] s[k]),
    ensures
        hex_num_val(s.take(i)) <= hex_num_val(s),
    decreases s.len() - i,
{
    if i < s.len() {
        lemma_hex_val_monotone(s, i + 1);
        assert(s.take(i + 1).drop_last() =~= s.take(i));
        assert(hex_num_val(s.take(i)) >= 0) by {
            lemma_hex_val_nonneg(s.take(i));
        }
        assert(hex_num_val(s.take(i + 1)) == 16 * hex_num_val(s.take(i)) + crate::hexutil::hex_val(
            s[i],
        ));
    } else {
        assert(s.take(i) =~= s);
    }
}

/// The request head the client sends: verb, path, HTTP version, host,
/// user agent, connection policy, then the optional bearer token, body
/// signature and body framing headers, ended by an empty line.
pub open spec fn spec_header_request(
    method: HttpMethod,
    path: Seq<u8>,
    jwt: Option<Seq<u8>>,
    signature: Option<Seq<u8>>,
    payload_len: Option<int>,
    host: Seq<u8>,
    is_download: bool,
) -> Seq<u8> {
    spec_method_bytes(method) + seq![32u8] + path + seq![32u8, 72u8, 84u8, 84u8, 80u8, 47u8, 49u8, 46u8, 49u8, 13u8, 10u8]
        + seq![72u8, 111u8, 115u8, 116u8, 58u8, 32u8] + host + seq![13u8, 10u8]
        + seq![85u8, 115u8, 101u8, 114u8, 45u8, 65u8, 103u8, 101u8, 110u8, 116u8, 58u8, 32u8, 109u8, 101u8, 110u8, 100u8, 101u8, 114u8, 45u8, 109u8, 99u8, 117u8, 45u8, 99u8, 108u8, 105u8, 101u8, 110u8, 116u8, 47u8, 48u8, 46u8, 49u8, 46u8, 48u8, 32u8, 40u8, 109u8, 101u8, 110u8, 100u8, 101u8, 114u8, 45u8, 104u8, 116u8, 116u8, 112u8, 41u8, 13u8, 10u8]
        + (if is_download { seq![67u8, 111u8, 110u8, 110u8, 101u8, 99u8, 116u8, 105u8, 111u8, 110u8, 58u8, 32u8, 107u8, 101u8, 101u8, 112u8, 45u8, 97u8, 108u8, 105u8, 118u8, 101u8, 13u8, 10u8, 75u8, 101u8, 101u8, 112u8, 45u8, 65u8, 108u8, 105u8, 118u8, 101u8, 58u8, 32u8, 116u8, 105u8, 109u8, 101u8, 111u8, 117u8, 116u8, 61u8, 51u8, 48u8, 13u8, 10u8] } else { seq![67u8, 111u8, 110u8, 110u8, 101u8, 99u8, 116u8, 105u8, 111u8, 110u8, 58u8, 32u8, 99u8, 108u8, 111u8, 115u8, 101u8, 13u8, 10u8] })
        + (match jwt { Some(t) => seq![65u8, 117u8, 116u8, 104u8, 111u8, 114u8, 105u8, 122u8, 97u8, 116u8, 105u8, 111u8, 110u8, 58u8, 32u8, 66u8, 101u8, 97u8, 114u8, 101u8, 114u8, 32u8] + t + seq![13u8, 10u8], None => Seq::empty() })
        + (match signature { Some(g) => seq![88u8, 45u8, 77u8, 69u8, 78u8, 45u8, 83u8, 105u8, 103u8, 110u8, 97u8, 116u8, 117u8, 114u8, 101u8, 58u8, 32u8] + g + seq![13u8, 10u8], None => Seq::empty() })
        + (match payload_len {
            Some(n) => seq![67u8, 111u8, 110u8, 116u8, 101u8, 110u8, 116u8, 45u8, 84u8, 121u8, 112u8, 101u8, 58u8, 32u8, 97u8, 112u8, 112u8, 108u8, 105u8, 99u8, 97u8, 116u8, 105u8, 111u8, 110u8, 47u8, 106u8, 115u8, 111u8, 110u8, 13u8, 10u8] + seq![67u8, 111u8, 110u8, 116u8, 101u8, 110u8, 116u8, 45u8, 76u8, 101u8, 110u8, 103u8, 116u8, 104u8, 58u8, 32u8] + dec_digits(n as nat) + seq![13u8, 10u8],
            None => seq![67u8, 111u8, 110u8, 116u8, 101u8, 110u8, 116u8, 45u8, 76u8, 101u8, 110u8, 103u8, 116u8, 104u8, 58u8, 32u8, 48u8, 13u8, 10u8],
        })
        + seq![13u8, 10u8]
}

/// Builds the request head. (A body over 4 GiB cannot occur on this
/// device; its length header is required to fit 32 bits.)
#[verifier::rlimit(100)]
#[verifier::spinoff_prover]
pub fn build_header_request(
    method: HttpMethod,
    path: &[u8],
    jwt: Option<&[u8]>,
    signature: Option<&[u8]>,
    payload: Option<&[u8]>,
    host: &[u8],
    is_download: bool,
) -> (r: Vec<u8>)
    requires
        match payload {
            Some(p) => p@.len() <= u32::MAX,
            None => true,
        },
    ensures
        r@ == spec_header_request(
            method,
            path@,
            match jwt {
                Some(t) => Some(t@),
                None => None,
            },
            match signature {
                Some(g) => Some(g@),
                None => None,
            },
            match payload {
                Some(p) => Some(p@.len() as int),
                None => None,
            },
            host@,
            is_download,
        ),
{
    let mut r: Vec<u8> = method_bytes(method);
    push_bytes(&mut r, &[32]);
    push_bytes(&mut r, path);
    push_bytes(&mut r, &[32, 72, 84, 84, 80, 47, 49, 46, 49, 13, 10]);
    push_bytes(&mut r, &[72, 111, 115, 116, 58, 32]);
    push_bytes(&mut r, host);
    push_bytes(&mut r, &[13, 10]);
    push_bytes(&mut r, &[85, 115, 101, 114, 45, 65, 103, 101, 110, 116, 58, 32, 109, 101, 110, 100, 101, 114, 45, 109, 99, 117, 45, 99, 108, 105, 101, 110, 116, 47, 48, 46, 49, 46, 48, 32, 40, 109, 101, 110, 100, 101, 114, 45, 104, 116, 116, 112, 41, 13, 10]);
    if is_download {
        push_bytes(&mut r, &[67, 111, 110, 110, 101, 99, 116, 105, 111, 110, 58, 32, 107, 101, 101, 112, 45, 97, 108, 105, 118, 101, 13, 10, 75, 101, 101, 112, 45, 65, 108, 105, 118, 101, 58, 32, 116, 105, 109, 101, 111, 117, 116, 61, 51, 48, 13, 10]);
    } else {
        push_bytes(&mut r, &[67, 111, 110, 110, 101, 99, 116, 105, 111, 110, 58, 32, 99, 108, 111, 115, 101, 13, 10]);
    }
    match jwt {
        Some(t) => {
            push_bytes(&mut r, &[65, 117, 116, 104, 111, 114, 105, 122, 97, 116, 105, 111, 110, 58, 32, 66, 101, 97, 114, 101, 114, 32]);
            push_bytes(&mut r, t);
            push_bytes(&mut r, &[13, 10]);
        },
        None => {},
    }
    match signature {
        Some(g) => {
            push_bytes(&mut r, &[88, 45, 77, 69, 78, 45, 83, 105, 103, 110, 97, 116, 117, 114, 101, 58, 32]);
            push_bytes(&mut r, g);
            push_bytes(&mut r, &[13, 10]);
        },
        None => {},
    }
    match payload {
        Some(p) => {
            push_bytes(&mut r, &[67, 111, 110, 116, 101, 110, 116, 45, 84, 121, 112, 101, 58, 32, 97, 112, 112, 108, 105, 99, 97, 116, 105, 111, 110, 47, 106, 115, 111, 110, 13, 10]);
            push_bytes(&mut r, &[67, 111, 110, 116, 101, 110, 116, 45, 76, 101, 110, 103, 116, 104, 58, 32]);
            push_dec(&mut r, p.len() as u32);
            push_bytes(&mut r, &[13, 10]);
        },
        None => {
            push_bytes(&mut r, &[67, 111, 110, 116, 101, 110, 116, 45, 76, 101, 110, 103, 116, 104, 58, 32, 48, 13, 10]);
        },
    }
    push_bytes(&mut r, &[13, 10]);
    proof {
        assert(r@ =~= spec_header_request(
            method,
            path@,
            match jwt {
                Some(t) => Some(t@),
                None => None,
            },
            match signature {
                Some(g) => Some(g@),
                None => None,
            },
            match payload {
                Some(p) => Some(p@.len() as int),
                None => None,
            },
            host@,
            is_download,
        ));
    }
    r
}

/// The transfer framing a response head announces.
#[derive(Debug, Clone, Copy, PartialEq, Eq, Structural)]
pub enum TransferEncoding {
    Chunked,
    ContentLength(u32),
    Unknown,
}

/// ASCII lower-casing of one byte.
pub open spec fn ascii_lower(c: u8) -> u8 {
    if 65 <= c <= 90 {
        (c + 32) as u8
    } else {
        c
    }
}

/// ASCII lower-casing of a byte string.
pub open spec fn lower_seq(s: Seq<u8>) -> Seq<u8> {
    s.map_values(|c: u8| ascii_lower(c))
}

/// Header-value whitespace: spaces, tabs and a carriage return.
pub open spec fn is_hdr_ws(c: u8) -> bool {
    c == 32 || c == 9 || c == 13
}

/// `s` with header whitespace removed at the end.
pub open spec fn trim_ws_end(s: Seq<u8>) -> Seq<u8>
    decreases s.len(),
{
    if s.len() > 0 && is_hdr_ws(s.last()) {
        trim_ws_end(s.drop_last())
    } else {
        s
    }
}

/// `s` with header whitespace removed at the front.
pub open spec fn trim_ws_front(s: Seq<u8>) -> Seq<u8>
    decreases s.len(),
{
    if s.len() > 0 && is_hdr_ws(s.first()) {
        trim_ws_front(s.drop_first())
    } else {
        s
    }
}

/// `s` with header whitespace removed at both ends.
pub open spec fn trim_ws(s: Seq<u8>) -> Seq<u8> {
    trim_ws_front(trim_ws_end(s))
}

/// The first header field after the colon of `line`, up to a second colon,
/// trimmed.
pub open spec fn header_value(line: Seq<u8>) -> Option<Seq<u8>> {
    match first_occurrence(line, seq![58u8]) {
        Some(c) => {
            let rest = line.skip(c + 1);
            Some(
                trim_ws(
                    match first_occurrence(rest, seq![58u8]) {
                        Some(d) => rest.take(d),
                        None => rest,
                    },
                ),
            )
        },
        None => None,
    }
}

/// The framing one header line announces, if any: a `transfer-encoding`
/// header whose value is `chunked`, or a `content-length` header with a
/// decimal value. Header names compare case-insensitively.
pub open spec fn te_of_line(line: Seq<u8>) -> Option<TransferEncoding> {
    let low = lower_seq(line);
    if crate::bytesutil::begins_with(low, "transfer-encoding:"@.map_values(|c: char| c as u8)) {
        match header_value(line) {
            Some(v) => if lower_seq(v) == "chunked"@.map_values(|c: char| c as u8) {
                Some(TransferEncoding::Chunked)
            } else {
                None
            },
            None => None,
        }
    } else if crate::bytesutil::begins_with(low, "content-length:"@.map_values(|c: char| c as u8)) {
        match header_value(line) {
            Some(v) => if dec_ok(v) && dec_val(v) <= u32::MAX {
                Some(TransferEncoding::ContentLength(dec_val(v) as u32))
            } else {
                None
            },
            None => None,
        }
    } else {
        None
    }
}

/// The framing the whole head announces: the first line that names one,
/// scanned line by line (lines end at a line feed; a final carriage return
/// belongs to the terminator).
pub open spec fn spec_transfer_encoding(s: Seq<u8>) -> TransferEncoding
    decreases s.len(),
{
    if s.len() == 0 {
        TransferEncoding::Unknown
    } else {
        let e = match first_occurrence(s, seq![10u8]) {
            Some(p) => p,
            None => s.len() as int,
        };
        let line = trim_ws_end(s.take(e));
        match te_of_line(line) {
            Some(t) => t,
            None => if e < 0 || e >= s.len() {
                TransferEncoding::Unknown
            } else {
                spec_transfer_encoding(s.skip(e + 1))
            },
        }
    }
}

/// Lower-cases a byte string (ASCII).
fn lower_bytes(s: &[u8]) -> (r: Vec<u8>)
    ensures
        r@ == lower_seq(s@),
{
    let mut r: Vec<u8> = Vec::new();
    let mut i: usize = 0;
    while i < s.len()
        invariant
            i <= s@.len(),
            r@ =~= lower_seq(s@.take(i as int)),
        decreases s@.len() - i,
    {
        let c: u8 = s[i];
        r.push(
            if 65 <= c && c <= 90 {
                c + 32
            } else {
                c
            },
        );
        proof {
            assert(r@ =~= lower_seq(s@.take(i + 1)));
        }
        i = i + 1;
    }
    proof {
        assert(s@.take(s@.len() as int) =~= s@);
    }
    r
}

/// All header whitespace is cut at `e` and `f` as the trims demand.
proof fn lemma_trim_ws_cuts(s: Seq<u8>, e: int)
    requires
        0 <= e <= s.len(),
        forall|k: int| e <= k < s.len() ==> is_hdr_ws(#[trigger] s[k]),
        e > 0 ==> !is_hdr_ws(s[e - 1]),
    ensures
        trim_ws_end(s) == s.take(e),
    decreases s.len(),
{
    if s.len() > 0 && is_hdr_ws(s.last()) {
        assert(e < s.len());
        lemma_trim_ws_cuts(s.drop_last(), e);
        assert(s.drop_last().take(e) =~= s.take(e));
    } else {
        assert(e == s.len());
        assert(s.take(e) =~= s);
    }
}

/// Leading header whitespace is cut at `f` as the front trim demands.
proof fn lemma_trim_ws_front_cuts(s: Seq<u8>, f: int)
    requires
        0 <= f <= s.len(),
        forall|k: int| 0 <= k < f ==> is_hdr_ws(#[trigger] s[k]),
        f < s.len() ==> !is_hdr_ws(s[f]),
    ensures
        trim_ws_front(s) == s.skip(f),
    decreases f,
{
    if s.len() > 0 && is_hdr_ws(s.first()) {
        assert(f > 0);
        lemma_trim_ws_front_cuts(s.drop_first(), f - 1);
        assert(s.drop_first().skip(f - 1) =~= s.skip(f));
    } else {
        assert(f == 0);
        assert(s.skip(0) =~= s);
    }
}

/// Trims header whitespace from both ends.
fn trim_ws_exec(s: &[u8]) -> (r: Vec<u8>)
    ensures
        r@ == trim_ws(s@),
{
    let n: usize = s.len();
    let mut e: usize = n;
    while e > 0 && (s[e - 1] == 32 || s[e - 1] == 9 || s[e - 1] == 13)
        invariant
            e <= n,
            n == s@.len(),
            forall|k: int| e <= k < n ==> is_hdr_ws(#[trigger] s@[k]),
        decreases e,
    {
        e = e - 1;
    }
    proof {
        lemma_trim_ws_cuts(s@, e as int);
    }
    let mut f: usize = 0;
    while f < e && (s[f] == 32 || s[f] == 9 || s[f] == 13)
        invariant
            f <= e <= n,
            n == s@.len(),
            forall|k: int| 0 <= k < f ==> is_hdr_ws(#[trigger] s@[k]),
        decreases e - f,
    {
        f = f + 1;
    }
    proof {
        let t = s@.take(e as int);
        lemma_trim_ws_front_cuts(t, f as int);
        assert(t.skip(f as int) =~= s@.subrange(f as int, e as int));
    }
    crate::bytesutil::copy_range(s, f, e)
}

/// The value after the colon of a header line.
fn header_value_exec(line: &[u8]) -> (r: Option<Vec<u8>>)
    ensures
        match r {
            Some(v) => header_value(line@) == Some(v@),
            None => header_value(line@) is None,
        },
{
    let colon: [u8; 1] = [58u8];
    proof {
        assert(colon@ =~= seq![58u8]);
    }
    let c: usize = match find_first(line, colon.as_slice()) {
        Some(c) => {
            proof {
                lemma_first_occ_from_is_occ(line@, seq![58u8], 0, c as int);
            }
            c
        },
        None => {
            return None;
        },
    };
    let line_len: usize = line.len();
    let rest: Vec<u8> = crate::bytesutil::copy_range(line, c + 1, line_len);
    proof {
        assert(rest@ =~= line@.skip(c + 1));
    }
    let seg: Vec<u8> = match find_first(rest.as_slice(), colon.as_slice()) {
        Some(d) => {
            proof {
                lemma_first_occ_from_is_occ(rest@, seq![58u8], 0, d as int);
                assert(rest@.take(d as int) =~= rest@.subrange(0, d as int));
            }
            crate::bytesutil::copy_range(rest.as_slice(), 0, d)
        },
        None => rest,
    };
    Some(trim_ws_exec(seg.as_slice()))
}

/// Scans a response head for its transfer framing: `chunked` when a
/// transfer-encoding header says so, a content length when one is given,
/// and unknown otherwise.
pub fn get_transfer_encoding(headers: &[u8]) -> (r: TransferEncoding)
    ensures
        r == spec_transfer_encoding(headers@),
{
    let te_pat: [u8; 18] = [
        116, 114, 97, 110, 115, 102, 101, 114, 45, 101, 110, 99, 111, 100, 105, 110, 103, 58,
    ];
    let cl_pat: [u8; 15] = [99, 111, 110, 116, 101, 110, 116, 45, 108, 101, 110, 103, 116, 104, 58];
    let chunked_pat: [u8; 7] = [99, 104, 117, 110, 107, 101, 100];
    proof {
        reveal_strlit("transfer-encoding:");
        reveal_strlit("content-length:");
        reveal_strlit("chunked");
        assert(te_pat@ =~= "transfer-encoding:"@.map_values(|c: char| c as u8));
        assert(cl_pat@ =~= "content-length:"@.map_values(|c: char| c as u8));
        assert(chunked_pat@ =~= "chunked"@.map_values(|c: char| c as u8));
    }
    let nl: [u8; 1] = [10u8];
    proof {
        assert(nl@ =~= seq![10u8]);
    }
    let total: usize = headers.len();
    let mut pos: usize = 0;
    proof {
        assert(headers@.skip(0) =~= headers@);
    }
    while pos < total
        invariant
            pos <= total,
            total == headers@.len(),
            te_pat@ == "transfer-encoding:"@.map_values(|c: char| c as u8),
            cl_pat@ == "content-length:"@.map_values(|c: char| c as u8),
            chunked_pat@ == "chunked"@.map_values(|c: char| c as u8),
            nl@ == seq![10u8],
            spec_transfer_encoding(headers@) == spec_transfer_encoding(headers@.skip(pos as int)),
        decreases total - pos,
    {
        let rest: Vec<u8> = crate::bytesutil::copy_range(headers, pos, total);
        proof {
            assert(rest@ =~= headers@.skip(pos as int));
        }
        let e: usize = match find_first(rest.as_slice(), nl.as_slice()) {
            Some(p) => {
                proof {
                    lemma_first_occ_from_is_occ(rest@, seq![10u8], 0, p as int);
                    assert(rest@.take(p as int) =~= rest@.subrange(0, p as int));
                }
                p
            },
            None => rest.len(),
        };
        let raw_line: Vec<u8> = crate::bytesutil::copy_range(rest.as_slice(), 0, e);
        let line: Vec<u8> = {
            let n2: usize = raw_line.len();
            let mut cut: usize = n2;
            while cut > 0 && (raw_line[cut - 1] == 32 || raw_line[cut - 1] == 9 || raw_line[cut
                - 1] == 13)
                invariant
                    cut <= n2,
                    n2 == raw_line@.len(),
                    forall|k: int| cut <= k < n2 ==> is_hdr_ws(#[trigger] raw_line@[k]),
                decreases cut,
            {
                cut = cut - 1;
            }
            proof {
                lemma_trim_ws_cuts(raw_line@, cut as int);
                assert(raw_line@.take(cut as int) =~= raw_line@.subrange(0, cut as int));
            }
            crate::bytesutil::copy_range(raw_line.as_slice(), 0, cut)
        };
        let low: Vec<u8> = lower_bytes(line.as_slice());
        if crate::bytesutil::begins_with_exec(low.as_slice(), te_pat.as_slice()) {
            match header_value_exec(line.as_slice()) {
                Some(v) => {
                    let vlow: Vec<u8> = lower_bytes(v.as_slice());
                    if eq_bytes(vlow.as_slice(), chunked_pat.as_slice()) {
                        return TransferEncoding::Chunked;
                    }
                },
                None => {},
            }
        } else if crate::bytesutil::begins_with_exec(low.as_slice(), cl_pat.as_slice()) {
            match header_value_exec(line.as_slice()) {
                Some(v) => {
                    match parse_u32_dec(v.as_slice()) {
                        Some(len) => {
                            return TransferEncoding::ContentLength(len);
                        },
                        None => {},
                    }
                },
                None => {},
            }
        }
        if e >= rest.len() {
            return TransferEncoding::Unknown;
        }
        proof {
            assert(rest@.skip(e + 1) =~= headers@.skip(pos + e + 1));
        }
        pos = pos + e + 1;
    }
    TransferEncoding::Unknown
}

/// Where the chunked-transfer decoder stands: before a size line, inside a
/// chunk's data with so many bytes left, or over the line break that closes
/// a chunk.
#[derive(Debug, Clone, Copy, PartialEq, Eq, Structural)]
pub enum ChunkPhase {
    SizeLine,
    Data(u32),
    Trailer(u8),
}

/// Mathematical view of the decoder: its phase, the bytes received but not
/// yet decoded, and whether the final zero-size chunk has arrived.
pub struct ChunkView {
    pub phase: ChunkPhase,
    pub buf: Seq<u8>,
    pub done: bool,
}

/// The outcome of one decoder step.
pub enum CStep {
    NeedMore,
    Fail,
    Advance(ChunkView, Seq<u8>),
}

/// One step of the chunked-transfer machine: a complete size line opens a
/// chunk (size zero ends the body); inside a chunk every buffered byte up
/// to the chunk's remainder is delivered; the two bytes closing a chunk are
/// dropped. A malformed size field fails.
pub open spec fn cstep(s: ChunkView) -> CStep {
    if s.done {
        CStep::NeedMore
    } else {
        match s.phase {
            ChunkPhase::SizeLine => match spec_chunk_line_end(s.buf) {
                None => CStep::NeedMore,
                Some(le) => if le < 0 || le + 2 > s.buf.len() {
                    CStep::NeedMore
                } else {
                    let f = spec_chunk_size_field(s.buf, le);
                    if f.len() >= 1 && (forall|i: int| 0 <= i < f.len() ==> is_hex_digit(
                        #[trigger] f[i],
                    )) && hex_num_val(f) <= u32::MAX {
                        if hex_num_val(f) == 0 {
                            CStep::Advance(
                                ChunkView {
                                    phase: ChunkPhase::SizeLine,
                                    buf: s.buf.skip(le + 2),
                                    done: true,
                                },
                                Seq::empty(),
                            )
                        } else {
                            CStep::Advance(
                                ChunkView {
                                    phase: ChunkPhase::Data(hex_num_val(f) as u32),
                                    buf: s.buf.skip(le + 2),
                                    done: false,
                                },
                                Seq::empty(),
                            )
                        }
                    } else {
                        CStep::Fail
                    }
                },
            },
            ChunkPhase::Data(rem) => if rem == 0 {
                CStep::Fail
            } else if s.buf.len() == 0 {
                CStep::NeedMore
            } else {
                let k = if rem <= s.buf.len() {
                    rem as int
                } else {
                    s.buf.len() as int
                };
                CStep::Advance(
                    ChunkView {
                        phase: if k == rem {
                            ChunkPhase::Trailer(2u8)
                        } else {
                            ChunkPhase::Data((rem - k) as u32)
                        },
                        buf: s.buf.skip(k),
                        done: false,
                    },
                    s.buf.take(k),
                )
            },
            ChunkPhase::Trailer(left) => if s.buf.len() == 0 {
                CStep::NeedMore
            } else if left <= 1 {
                CStep::Advance(
                    ChunkView { phase: ChunkPhase::SizeLine, buf: s.buf.skip(1), done: false },
                    Seq::empty(),
                )
            } else {
                CStep::Advance(
                    ChunkView {
                        phase: ChunkPhase::Trailer((left - 1) as u8),
                        buf: s.buf.skip(1),
                        done: false,
                    },
                    Seq::empty(),
                )
            },
        }
    }
}

/// The result of running the decoder until it needs more bytes or fails.
pub struct CDrive {
    pub state: ChunkView,
    pub out: Seq<u8>,
    pub failed: bool,
}

/// Runs the decoder until it needs more bytes or fails, collecting the
/// delivered body bytes.
pub open spec fn cdrive(s: ChunkView) -> CDrive
    decreases s.buf.len(),
{
    match cstep(s) {
        CStep::NeedMore => CDrive { state: s, out: Seq::empty(), failed: false },
        CStep::Fail => CDrive { state: s, out: Seq::empty(), failed: true },
        CStep::Advance(s2, w) => {
            if s2.buf.len() < s.buf.len() {
                let d = cdrive(s2);
                CDrive { state: d.state, out: w + d.out, failed: d.failed }
            } else {
                CDrive { state: s2, out: w, failed: false }
            }
        },
    }
}

/// Every decoder step consumes at least one buffered byte.
pub proof fn lemma_cstep_decreases(s: ChunkView)
    requires
        cstep(s) is Advance,
    ensures
        cstep(s)->Advance_0.buf.len() < s.buf.len(),
{
    if !s.done && s.phase is SizeLine {
        match spec_chunk_line_end(s.buf) {
            Some(le) => {},
            None => {},
        }
    }
}

/// Carry-state decoder for a chunked transfer body: bytes arrive in reads
/// of any size, body windows leave as soon as they are complete, and size
/// lines split across reads are kept until their line break arrives.
pub struct ChunkDecoder {
    phase: ChunkPhase,
    buf: Vec<u8>,
    done: bool,
}

impl View for ChunkDecoder {
    type V = ChunkView;

    closed spec fn view(&self) -> ChunkView {
        ChunkView { phase: self.phase, buf: self.buf@, done: self.done }
    }
}

impl ChunkDecoder {
    /// A fresh decoder, before the first size line.
    pub fn new() -> (r: ChunkDecoder)
        ensures
            r@.phase == ChunkPhase::SizeLine,
            r@.buf == Seq::<u8>::empty(),
            !r@.done,
    {
        ChunkDecoder { phase: ChunkPhase::SizeLine, buf: Vec::new(), done: false }
    }

    /// Whether the final zero-size chunk has been decoded.
    pub fn finished(&self) -> (r: bool)
        ensures
            r == self@.done,
    {
        self.done
    }

    /// Drops `k` consumed bytes from the front of the carry buffer.
    fn consume(&mut self, k: usize)
        requires
            k <= old(self)@.buf.len(),
        ensures
            final(self)@ == (ChunkView { buf: old(self)@.buf.skip(k as int), ..old(self)@ }),
    {
        let rest: Vec<u8> = crate::bytesutil::copy_range(self.buf.as_slice(), k, self.buf.len());
        self.buf = rest;
        proof {
            assert(self@.buf =~= old(self)@.buf.skip(k as int));
            assert(self@ == (ChunkView { buf: old(self)@.buf.skip(k as int), ..old(self)@ }));
        }
    }

    /// One decoder step on the carried bytes: mirrors `cstep` exactly.
    /// Returns `Ok(false)` when more bytes are needed and `Ok(true)` after a
    /// step (body bytes appended to `out`).
    fn advance(&mut self, out: &mut Vec<u8>) -> (r: Result<bool, MenderStatus>)
        ensures
            match cstep(old(self)@) {
                CStep::NeedMore => r == Ok::<bool, MenderStatus>(false) && final(self)@ == old(
                    self,
                )@ && final(out)@ == old(out)@,
                CStep::Fail => r == Err::<bool, MenderStatus>(MenderStatus::Failed)
                    && final(out)@ == old(out)@,
                CStep::Advance(s2, w) => r == Ok::<bool, MenderStatus>(true) && final(self)@ == s2
                    && final(out)@ == old(out)@ + w,
            },
    {
        if self.done {
            return Ok(false);
        }
        match self.phase {
            ChunkPhase::SizeLine => {
                let crlf: [u8; 2] = [13, 10];
                proof {
                    assert(crlf@ =~= seq![13u8, 10u8]);
                }
                let le: usize = match find_first(self.buf.as_slice(), crlf.as_slice()) {
                    Some(p) => {
                        proof {
                            lemma_first_occ_from_is_occ(self.buf@, seq![13u8, 10u8], 0, p as int);
                        }
                        p
                    },
                    None => {
                        return Ok(false);
                    },
                };
                match parse_chunk_size(self.buf.as_slice()) {
                    Some((size, consumed)) => {
                        proof {
                            assert(consumed - 2 == le);
                        }
                        self.consume(consumed);
                        if size == 0 {
                            self.done = true;
                        } else {
                            self.phase = ChunkPhase::Data(size);
                        }
                        proof {
                            assert(self@ == cstep(old(self)@)->Advance_0);
                            assert(out@ =~= out@ + Seq::<u8>::empty());
                        }
                        Ok(true)
                    },
                    None => Err(MenderStatus::Failed),
                }
            },
            ChunkPhase::Data(rem) => {
                if rem == 0 {
                    return Err(MenderStatus::Failed);
                }
                if self.buf.len() == 0 {
                    return Ok(false);
                }
                let k: usize = if (rem as usize) <= self.buf.len() {
                    rem as usize
                } else {
                    self.buf.len()
                };
                let window: Vec<u8> = crate::bytesutil::copy_range(self.buf.as_slice(), 0, k);
                proof {
                    assert(window@ =~= old(self)@.buf.take(k as int));
                }
                push_bytes(out, window.as_slice());
                if k == rem as usize {
                    self.phase = ChunkPhase::Trailer(2);
                } else {
                    self.phase = ChunkPhase::Data(rem - k as u32);
                }
                self.consume(k);
                proof {
                    assert(self@ == cstep(old(self)@)->Advance_0);
                }
                Ok(true)
            },
            ChunkPhase::Trailer(left) => {
                if self.buf.len() == 0 {
                    return Ok(false);
                }
                if left <= 1 {
                    self.phase = ChunkPhase::SizeLine;
                } else {
                    self.phase = ChunkPhase::Trailer(left - 1);
                }
                self.consume(1);
                proof {
                    assert(self@ == cstep(old(self)@)->Advance_0);
                    assert(out@ =~= out@ + Seq::<u8>::empty());
                }
                Ok(true)
            },
        }
    }

    /// Feeds one network read into the decoder and drains it: the delivered
    /// body bytes, the new carry state and the verdict are exactly those of
    /// `cdrive` on the carried bytes with the input appended — independent
    /// of how the stream was split into reads.
    #[verifier::rlimit(100)]
    #[verifier::spinoff_prover]
    pub fn feed(&mut self, input: &[u8]) -> (r: Result<Vec<u8>, MenderStatus>)
        ensures
            ({
                let s0 = ChunkView { buf: old(self)@.buf + input@, ..old(self)@ };
                let d = cdrive(s0);
                match r {
                    Ok(out) => !d.failed && final(self)@ == d.state && out@ == d.out,
                    Err(e) => e == MenderStatus::Failed && d.failed,
                }
            }),
    {
        let ghost s0 = ChunkView { buf: old(self)@.buf + input@, ..old(self)@ };
        let mut i: usize = 0;
        while i < input.len()
            invariant
                i <= input@.len(),
                self@ == (ChunkView { buf: old(self)@.buf + input@.take(i as int), ..old(self)@ }),
            decreases input@.len() - i,
        {
            self.buf.push(input[i]);
            proof {
                assert(self@.buf =~= old(self)@.buf + input@.take(i + 1));
                assert(self@ == (ChunkView {
                    buf: old(self)@.buf + input@.take(i + 1),
                    ..old(self)@
                }));
            }
            i = i + 1;
        }
        proof {
            assert(input@.take(input@.len() as int) =~= input@);
            assert(self@ == s0);
        }
        let mut out: Vec<u8> = Vec::new();
        proof {
            assert(Seq::<u8>::empty() + cdrive(s0).out =~= cdrive(s0).out);
        }
        loop
            invariant
                s0 == (ChunkView { buf: old(self)@.buf + input@, ..old(self)@ }),
                cdrive(s0).state == cdrive(self@).state,
                cdrive(s0).failed == cdrive(self@).failed,
                cdrive(s0).out == out@ + cdrive(self@).out,
            decreases self@.buf.len(),
        {
            let ghost pre = self@;
            let ghost pre_out = out@;
            let stepped: bool = match self.advance(&mut out) {
                Ok(b) => b,
                Err(e) => {
                    proof {
                        assert(cstep(pre) is Fail);
                        assert(cdrive(pre).failed);
                    }
                    return Err(e);
                },
            };
            if !stepped {
                proof {
                    assert(cstep(pre) is NeedMore);
                    assert(cdrive(pre).state == pre);
                    assert(!cdrive(pre).failed);
                    assert(cdrive(pre).out =~= Seq::<u8>::empty());
                    assert(out@ =~= out@ + Seq::<u8>::empty());
                }
                return Ok(out);
            }
            proof {
                let s2 = cstep(pre)->Advance_0;
                let w = cstep(pre)->Advance_1;
                lemma_cstep_decreases(pre);
                assert(cdrive(pre).state == cdrive(s2).state);
                assert(cdrive(pre).failed == cdrive(s2).failed);
                assert(cdrive(pre).out == w + cdrive(s2).out);
                assert(out@ =~= pre_out + w);
                assert(pre_out + (w + cdrive(s2).out) =~= (pre_out + w) + cdrive(s2).out);
            }
        }
    }
}

} // verus!


