//! Field extraction from the small JSON documents the device exchanges:
//! values are located by their quoted key, not by a full JSON parse. The
//! first occurrence of the quoted key anywhere in the document decides, so
//! a key-shaped byte string inside another value would match too; escape
//! sequences are not interpreted, and a string value runs to the next
//! quote. The documents this device reads and writes (version and header
//! records, deployment offers) stay within these bounds.

use vstd::prelude::*;
use crate::bytesutil::{
    dec_ok, dec_val, find_first, first_occ_from, first_occurrence, is_dec_digit,
    lemma_first_occ_from_is_occ, parse_u32_dec,
};

verus! {

/// The quoted form of a key.
pub open spec fn key_pattern(key: Seq<u8>) -> Seq<u8> {
    seq![34u8] + key + seq![34u8]
}

/// JSON whitespace.
pub open spec fn is_ws(c: u8) -> bool {
    c == 32 || c == 9 || c == 10 || c == 13
}

/// The first position at or after `i` that holds no whitespace.
pub open spec fn skip_ws(s: Seq<u8>, i: int) -> int
    decreases s.len() - i + 1,
{
    if 0 <= i < s.len() && is_ws(s[i]) {
        skip_ws(s, i + 1)
    } else {
        i
    }
}

/// The end of the run of decimal digits starting at `i`.
pub open spec fn digit_run_end(s: Seq<u8>, i: int) -> int
    decreases s.len() - i + 1,
{
    if 0 <= i < s.len() && is_dec_digit(s[i]) {
        digit_run_end(s, i + 1)
    } else {
        i
    }
}

/// The string value of `key` in `s`: after the first occurrence of the
/// quoted key, a colon and an opening quote (whitespace allowed), the bytes
/// up to the next quote.
pub open spec fn json_string_value(s: Seq<u8>, key: Seq<u8>) -> Option<Seq<u8>> {
    match first_occurrence(s, key_pattern(key)) {
        None => None,
        Some(p) => {
            let j = skip_ws(s, p + key_pattern(key).len());
            if j < s.len() && s[j] == 58 {
                let k = skip_ws(s, j + 1);
                if k < s.len() && s[k] == 34 {
                    match first_occ_from(s, seq![34u8], k + 1) {
                        Some(q) => Some(s.subrange(k + 1, q)),
                        None => None,
                    }
                } else {
                    None
                }
            } else {
                None
            }
        },
    }
}

/// The integer value of `key` in `s`: after the quoted key and a colon, the
/// maximal run of decimal digits.
pub open spec fn json_int_value(s: Seq<u8>, key: Seq<u8>) -> Option<int> {
    match first_occurrence(s, key_pattern(key)) {
        None => None,
        Some(p) => {
            let j = skip_ws(s, p + key_pattern(key).len());
            if j < s.len() && s[j] == 58 {
                let k = skip_ws(s, j + 1);
                let e = digit_run_end(s, k);
                if e > k {
                    Some(dec_val(s.subrange(k, e)))
                } else {
                    None
                }
            } else {
                None
            }
        },
    }
}

/// The first non-whitespace position at or after `from`.
pub fn skip_ws_exec(s: &[u8], from: usize) -> (r: usize)
    requires
        from <= s@.len(),
    ensures
        r == skip_ws(s@, from as int),
        from <= r <= s@.len(),
{
    let n: usize = s.len();
    let mut i: usize = from;
    while i < n && (s[i] == 32 || s[i] == 9 || s[i] == 10 || s[i] == 13)
        invariant
            from <= i <= n,
            n == s@.len(),
            skip_ws(s@, from as int) == skip_ws(s@, i as int),
        decreases n - i,
    {
        i = i + 1;
    }
    i
}

/// The end of the run of decimal digits starting at `from`.
pub fn digit_run_end_exec(s: &[u8], from: usize) -> (r: usize)
    requires
        from <= s@.len(),
    ensures
        r == digit_run_end(s@, from as int),
        from <= r <= s@.len(),
{
    let n: usize = s.len();
    let mut i: usize = from;
    while i < n && 48 <= s[i] && s[i] <= 57
        invariant
            from <= i <= n,
            n == s@.len(),
            digit_run_end(s@, from as int) == digit_run_end(s@, i as int),
        decreases n - i,
    {
        i = i + 1;
    }
    i
}

/// Builds the quoted form of a key.
fn key_pattern_exec(key: &[u8]) -> (r: Vec<u8>)
    ensures
        r@ == key_pattern(key@),
{
    let mut r: Vec<u8> = Vec::new();
    r.push(34);
    let mut i: usize = 0;
    while i < key.len()
        invariant
            i <= key@.len(),
            r@ =~= seq![34u8] + key@.take(i as int),
        decreases key@.len() - i,
    {
        r.push(key[i]);
        i = i + 1;
    }
    proof {
        assert(key@.take(key@.len() as int) =~= key@);
    }
    r.push(34);
    proof {
        assert(r@ =~= key_pattern(key@));
    }
    r
}

/// Extracts the string value of `key` from `s`.
pub fn json_find_string(s: &[u8], key: &[u8]) -> (r: Option<Vec<u8>>)
    ensures
        match r {
            Some(v) => json_string_value(s@, key@) == Some(v@),
            None => json_string_value(s@, key@) is None,
        },
{
    let n: usize = s.len();
    let pat: Vec<u8> = key_pattern_exec(key);
    let p: usize = match find_first(s, pat.as_slice()) {
        Some(p) => p,
        None => {
            return None;
        },
    };
    proof {
        lemma_first_occ_from_is_occ(s@, pat@, 0, p as int);
    }
    let j: usize = skip_ws_exec(s, p + pat.len());
    if !(j < s.len() && s[j] == 58) {
        return None;
    }
    let k: usize = skip_ws_exec(s, j + 1);
    if !(k < s.len() && s[k] == 34) {
        return None;
    }
    let mut q: usize = k + 1;
    while q < n && s[q] != 34
        invariant
            k + 1 <= q <= n,
            n == s@.len(),
            first_occ_from(s@, seq![34u8], k + 1) == first_occ_from(s@, seq![34u8], q as int),
        decreases n - q,
    {
        proof {
            if crate::bytesutil::occurs_at(s@, seq![34u8], q as int) {
                assert(s@.subrange(q as int, q + 1) =~= seq![s@[q as int]]);
                assert(seq![s@[q as int]] == seq![34u8]);
                assert(seq![s@[q as int]][0] == seq![34u8][0]);
                assert(false);
            }
        }
        q = q + 1;
    }
    if q >= n {
        proof {
            assert(first_occ_from(s@, seq![34u8], q as int) is None);
        }
        return None;
    }
    proof {
        assert(s@.subrange(q as int, q + 1) =~= seq![34u8]);
        assert(crate::bytesutil::occurs_at(s@, seq![34u8], q as int));
    }
    let mut out: Vec<u8> = Vec::new();
    let mut t: usize = k + 1;
    while t < q
        invariant
            k + 1 <= t <= q,
            q <= s@.len(),
            out@ =~= s@.subrange(k + 1, t as int),
        decreases q - t,
    {
        out.push(s[t]);
        t = t + 1;
    }
    proof {
        assert(out@ =~= s@.subrange(k + 1, q as int));
    }
    Some(out)
}

/// Whether the integer value of `key` in `s` is exactly `v`.
pub fn json_int_equals(s: &[u8], key: &[u8], v: u32) -> (r: bool)
    ensures
        r == (json_int_value(s@, key@) == Some(v as int)),
{
    let n: usize = s.len();
    let pat: Vec<u8> = key_pattern_exec(key);
    let p: usize = match find_first(s, pat.as_slice()) {
        Some(p) => p,
        None => {
            return false;
        },
    };
    proof {
        lemma_first_occ_from_is_occ(s@, pat@, 0, p as int);
    }
    let j: usize = skip_ws_exec(s, p + pat.len());
    if !(j < s.len() && s[j] == 58) {
        return false;
    }
    let k: usize = skip_ws_exec(s, j + 1);
    let e: usize = digit_run_end_exec(s, k);
    if e <= k {
        return false;
    }
    let run: &[u8] = vstd::slice::slice_subrange(s, k, e);
    proof {
        lemma_digit_run_digits(s@, k as int, e as int);
        assert(dec_ok(run@));
    }
    match parse_u32_dec(run) {
        Some(x) => x == v,
        None => {
            proof {
                assert(dec_val(run@) > u32::MAX);
            }
            false
        },
    }
}

/// Every byte of a digit run is a digit.
pub proof fn lemma_digit_run_digits(s: Seq<u8>, k: int, e: int)
    requires
        0 <= k <= s.len(),
        e == digit_run_end(s, k),
    ensures
        forall|i: int| k <= i < e ==> is_dec_digit(#[trigger] s[i]),
        k <= e <= s.len(),
    decreases s.len() - k + 1,
{
    if 0 <= k < s.len() && is_dec_digit(s[k]) {
        lemma_digit_run_digits(s, k + 1, e);
    }
}

} // verus!
