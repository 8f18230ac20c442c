//! Byte-string helpers: substring search from either end, decimal and octal
//! number parsing, and padding to block size.

use vstd::prelude::*;

verus! {

/// `n` occurs in `h` at position `i`.
pub open spec fn occurs_at(h: Seq<u8>, n: Seq<u8>, i: int) -> bool {
    0 <= i && i + n.len() <= h.len() && h.subrange(i, i + n.len()) == n
}

/// The highest occurrence of `n` in `h` at or below position `i`.
pub open spec fn last_occ_before(h: Seq<u8>, n: Seq<u8>, i: int) -> Option<int>
    decreases i + 1,
{
    if i < 0 {
        None
    } else if occurs_at(h, n, i) {
        Some(i)
    } else {
        last_occ_before(h, n, i - 1)
    }
}

/// The position of the last occurrence of `n` in `h`.
pub open spec fn last_occurrence(h: Seq<u8>, n: Seq<u8>) -> Option<int> {
    last_occ_before(h, n, h.len() - n.len())
}

/// The lowest occurrence of `n` in `h` at or above position `i`.
pub open spec fn first_occ_from(h: Seq<u8>, n: Seq<u8>, i: int) -> Option<int>
    decreases h.len() - i + 1,
{
    if i + n.len() > h.len() {
        None
    } else if occurs_at(h, n, i) {
        Some(i)
    } else {
        first_occ_from(h, n, i + 1)
    }
}

/// The position of the first occurrence of `n` in `h`.
pub open spec fn first_occurrence(h: Seq<u8>, n: Seq<u8>) -> Option<int> {
    first_occ_from(h, n, 0)
}

/// Whether `n` occurs in `h` at position `i`.
pub fn occurs_at_exec(h: &[u8], n: &[u8], i: usize) -> (r: bool)
    requires
        i + n@.len() <= h@.len(),
    ensures
        r == occurs_at(h@, n@, i as int),
{
    let hn: usize = h.len();
    let mut k: usize = 0;
    while k < n.len()
        invariant
            k <= n@.len(),
            i + n@.len() <= h@.len(),
            h@.len() == hn,
            forall|j: int| 0 <= j < k ==> h@[i + j] == n@[j],
        decreases n@.len() - k,
    {
        if h[i + k] != n[k] {
            proof {
                assert(h@.subrange(i as int, i + n@.len())[k as int] != n@[k as int]);
            }
            return false;
        }
        k = k + 1;
    }
    proof {
        assert(h@.subrange(i as int, i + n@.len()) =~= n@);
    }
    true
}

/// Position of the last occurrence of `n` in `h`, if any.
pub fn find_last(h: &[u8], n: &[u8]) -> (r: Option<usize>)
    ensures
        match r {
            Some(p) => last_occurrence(h@, n@) == Some(p as int),
            None => last_occurrence(h@, n@) is None,
        },
{
    if n.len() > h.len() {
        proof {
            assert(h@.len() - n@.len() < 0);
        }
        return None;
    }
    let mut i: usize = h.len() - n.len();
    loop
        invariant
            n@.len() <= h@.len(),
            i + n@.len() <= h@.len(),
            last_occ_before(h@, n@, h@.len() - n@.len()) == last_occ_before(h@, n@, i as int),
        decreases i + 1,
    {
        if occurs_at_exec(h, n, i) {
            return Some(i);
        }
        if i == 0 {
            proof {
                assert(!occurs_at(h@, n@, 0));
                assert(last_occ_before(h@, n@, -1) is None);
            }
            return None;
        }
        i = i - 1;
    }
}

/// Position of the first occurrence of `n` in `h`, if any.
pub fn find_first(h: &[u8], n: &[u8]) -> (r: Option<usize>)
    ensures
        match r {
            Some(p) => first_occurrence(h@, n@) == Some(p as int),
            None => first_occurrence(h@, n@) is None,
        },
{
    if n.len() > h.len() {
        return None;
    }
    let bound: usize = h.len() - n.len();
    let mut i: usize = 0;
    while i <= bound
        invariant
            n@.len() <= h@.len(),
            bound == h@.len() - n@.len(),
            i <= bound + 1,
            first_occurrence(h@, n@) == first_occ_from(h@, n@, i as int),
        decreases bound + 1 - i,
    {
        if occurs_at_exec(h, n, i) {
            return Some(i);
        }
        if i >= bound {
            proof {
                assert(!occurs_at(h@, n@, bound as int));
                assert(first_occ_from(h@, n@, bound + 1) is None);
            }
            return None;
        }
        i = i + 1;
    }
    None
}

/// ASCII decimal digit.
pub open spec fn is_dec_digit(c: u8) -> bool {
    48 <= c <= 57
}

/// The integer a string of decimal digits stands for.
pub open spec fn dec_val(s: Seq<u8>) -> int
    decreases s.len(),
{
    if s.len() == 0 {
        0
    } else {
        10 * dec_val(s.drop_last()) + (s.last() - 48)
    }
}

/// A valid decimal numeral: non-empty, digits only.
pub open spec fn dec_ok(s: Seq<u8>) -> bool {
    s.len() >= 1 && forall|i: int| 0 <= i < s.len() ==> is_dec_digit(#[trigger] s[i])
}

/// A longer digit string never stands for a smaller number.
proof fn lemma_dec_val_monotone(s: Seq<u8>, i: int)
    requires
        0 <= i <= s.len(),
        forall|k: int| 0 <= k < s.len() ==> is_dec_digit(#[trigger] s[k]),
    ensures
        dec_val(s.take(i)) <= dec_val(s),
    decreases s.len() - i,
{
    if i < s.len() {
        lemma_dec_val_monotone(s, i + 1);
        assert(s.take(i + 1).drop_last() =~= s.take(i));
        assert(dec_val(s.take(i)) >= 0) by {
            lemma_dec_val_nonneg(s.take(i));
        }
        assert(dec_val(s.take(i + 1)) == 10 * dec_val(s.take(i)) + (s[i] - 48));
    } else {
        assert(s.take(i) =~= s);
    }
}

/// The value of a digit string is never negative.
proof fn lemma_dec_val_nonneg(s: Seq<u8>)
    requires
        forall|k: int| 0 <= k < s.len() ==> is_dec_digit(#[trigger] s[k]),
    ensures
        dec_val(s) >= 0,
    decreases s.len(),
{
    if s.len() > 0 {
        lemma_dec_val_nonneg(s.drop_last());
        assert(forall|k: int| 0 <= k < s.drop_last().len() ==> is_dec_digit(
            #[trigger] s.drop_last()[k],
        ));
    }
}

/// Parses an unsigned decimal numeral; fails exactly when the string is not
/// a numeral or its value does not fit in 32 bits.
pub fn parse_u32_dec(s: &[u8]) -> (r: Option<u32>)
    ensures
        match r {
            Some(v) => dec_ok(s@) && v == dec_val(s@),
            None => !(dec_ok(s@) && dec_val(s@) <= u32::MAX),
        },
{
    let n: usize = s.len();
    if n == 0 {
        return None;
    }
    let mut acc: u64 = 0;
    let mut i: usize = 0;
    while i < n
        invariant
            i <= n,
            n == s@.len(),
            n >= 1,
            acc == dec_val(s@.take(i as int)),
            acc <= u32::MAX,
            forall|k: int| 0 <= k < i ==> is_dec_digit(#[trigger] s@[k]),
        decreases n - i,
    {
        let c: u8 = s[i];
        if !(48 <= c && c <= 57) {
            return None;
        }
        proof {
            assert(s@.take(i + 1).drop_last() =~= s@.take(i as int));
        }
        acc = acc * 10 + ((c - 48) as u64);
        if acc > 0xFFFFFFFF {
            proof {
                assert forall|k: int| 0 <= k < s@.len() implies is_dec_digit(#[trigger] s@[k])
                    || !dec_ok(s@) by {}
                if dec_ok(s@) {
                    lemma_dec_val_monotone(s@, i + 1);
                }
            }
            return None;
        }
        i = i + 1;
    }
    proof {
        assert(s@.take(n as int) =~= s@);
    }
    Some(acc as u32)
}

/// ASCII octal digit.
pub open spec fn is_oct_digit(c: u8) -> bool {
    48 <= c <= 55
}

/// The integer a string of octal digits stands for.
pub open spec fn oct_val(s: Seq<u8>) -> int
    decreases s.len(),
{
    if s.len() == 0 {
        0
    } else {
        8 * oct_val(s.drop_last()) + (s.last() - 48)
    }
}

/// A valid octal numeral: non-empty, octal digits only.
pub open spec fn oct_ok(s: Seq<u8>) -> bool {
    s.len() >= 1 && forall|i: int| 0 <= i < s.len() ==> is_oct_digit(#[trigger] s[i])
}

/// The value of an octal digit string is never negative.
proof fn lemma_oct_val_nonneg(s: Seq<u8>)
    requires
        forall|k: int| 0 <= k < s.len() ==> is_oct_digit(#[trigger] s[k]),
    ensures
        oct_val(s) >= 0,
    decreases s.len(),
{
    if s.len() > 0 {
        lemma_oct_val_nonneg(s.drop_last());
        assert(forall|k: int| 0 <= k < s.drop_last().len() ==> is_oct_digit(
            #[trigger] s.drop_last()[k],
        ));
    }
}

/// A longer octal digit string never stands for a smaller number.
proof fn lemma_oct_val_monotone(s: Seq<u8>, i: int)
    requires
        0 <= i <= s.len(),
        forall|k: int| 0 <= k < s.len() ==> is_oct_digit(#[trigger] s[k]),
    ensures
        oct_val(s.take(i)) <= oct_val(s),
    decreases s.len() - i,
{
    if i < s.len() {
        lemma_oct_val_monotone(s, i + 1);
        assert(s.take(i + 1).drop_last() =~= s.take(i));
        assert(oct_val(s.take(i)) >= 0) by {
            lemma_oct_val_nonneg(s.take(i));
        }
        assert(oct_val(s.take(i + 1)) == 8 * oct_val(s.take(i)) + (s[i] - 48));
    } else {
        assert(s.take(i) =~= s);
    }
}

/// Parses an unsigned octal numeral; fails exactly when the string is not a
/// numeral or its value does not fit in 32 bits.
pub fn parse_u32_oct(s: &[u8]) -> (r: Option<u32>)
    ensures
        match r {
            Some(v) => oct_ok(s@) && v == oct_val(s@),
            None => !(oct_ok(s@) && oct_val(s@) <= u32::MAX),
        },
{
    let n: usize = s.len();
    if n == 0 {
        return None;
    }
    let mut acc: u64 = 0;
    let mut i: usize = 0;
    while i < n
        invariant
            i <= n,
            n == s@.len(),
            n >= 1,
            acc == oct_val(s@.take(i as int)),
            acc <= u32::MAX,
            forall|k: int| 0 <= k < i ==> is_oct_digit(#[trigger] s@[k]),
        decreases n - i,
    {
        let c: u8 = s[i];
        if !(48 <= c && c <= 55) {
            return None;
        }
        proof {
            assert(s@.take(i + 1).drop_last() =~= s@.take(i as int));
        }
        acc = acc * 8 + ((c - 48) as u64);
        if acc > 0xFFFFFFFF {
            proof {
                if oct_ok(s@) {
                    lemma_oct_val_monotone(s@, i + 1);
                }
            }
            return None;
        }
        i = i + 1;
    }
    proof {
        assert(s@.take(n as int) =~= s@);
    }
    Some(acc as u32)
}

/// `length` rounded up to the next multiple of `incr`.
pub open spec fn spec_round_up(length: int, incr: int) -> int
    recommends
        incr > 0,
{
    length + (incr - length % incr) % incr
}

/// Rounds a 32-bit length up to the next multiple of `incr`, widening so the
/// padding cannot overflow.
pub fn round_up_u64(length: u32, incr: u32) -> (r: u64)
    requires
        incr > 0,
    ensures
        r == spec_round_up(length as int, incr as int),
        r % (incr as u64) == 0,
        length <= r < length + incr,
{
    let l: u64 = length as u64;
    let m: u64 = incr as u64;
    let rem: u64 = l % m;
    let r: u64 = if rem == 0 {
        l
    } else {
        l + (m - rem)
    };
    proof {
        assert(l % m == (length as int) % (incr as int));
        assert(((incr as int) - (length as int) % (incr as int)) % (incr as int) == if rem == 0 {
            0int
        } else {
            (incr as int) - (length as int) % (incr as int)
        }) by {
            if rem == 0 {
                assert((incr as int) % (incr as int) == 0) by {
                    vstd::arithmetic::div_mod::lemma_mod_self_0(incr as int);
                }
            } else {
                vstd::arithmetic::div_mod::lemma_small_mod(
                    ((incr as int) - (length as int) % (incr as int)) as nat,
                    incr as nat,
                );
            }
        }
        assert((r as int) % (m as int) == 0) by {
            let li = l as int;
            let mi = m as int;
            if rem == 0 {
            } else {
                assert(r as int == mi * (li / mi) + mi) by {
                    vstd::arithmetic::div_mod::lemma_fundamental_div_mod(li, mi);
                }
                assert((mi * (li / mi) + mi) % mi == 0) by {
                    vstd::arithmetic::div_mod::lemma_mod_multiples_vanish(li / mi + 1, 0, mi);
                    assert(mi * (li / mi + 1) == mi * (li / mi) + mi) by (nonlinear_arith);
                    assert(0int % mi == 0) by {
                        vstd::arithmetic::div_mod::lemma_small_mod(0nat, m as nat);
                    }
                }
            }
        }
    }
    r
}

/// A found first occurrence is an occurrence at or after the start.
pub proof fn lemma_first_occ_from_is_occ(h: Seq<u8>, n: Seq<u8>, i: int, p: int)
    requires
        first_occ_from(h, n, i) == Some(p),
    ensures
        occurs_at(h, n, p),
        i <= p,
    decreases h.len() - i + 1,
{
    if i + n.len() > h.len() {
    } else if occurs_at(h, n, i) {
    } else {
        lemma_first_occ_from_is_occ(h, n, i + 1, p);
    }
}

/// A found last occurrence is an occurrence at or below the bound.
pub proof fn lemma_last_occ_before_is_occ(h: Seq<u8>, n: Seq<u8>, i: int, p: int)
    requires
        last_occ_before(h, n, i) == Some(p),
    ensures
        occurs_at(h, n, p),
        p <= i,
    decreases i + 1,
{
    if i < 0 {
    } else if occurs_at(h, n, i) {
    } else {
        lemma_last_occ_before_is_occ(h, n, i - 1, p);
    }
}

/// Whether two byte slices hold the same bytes.
pub fn eq_bytes(a: &[u8], b: &[u8]) -> (r: bool)
    ensures
        r == (a@ == b@),
{
    if a.len() != b.len() {
        proof {
            assert(a@.len() != b@.len());
        }
        return false;
    }
    let n: usize = a.len();
    let mut i: usize = 0;
    while i < n
        invariant
            i <= n,
            n == a@.len(),
            n == b@.len(),
            forall|k: int| 0 <= k < i ==> a@[k] == b@[k],
        decreases n - i,
    {
        if a[i] != b[i] {
            return false;
        }
        i = i + 1;
    }
    proof {
        assert(a@ =~= b@);
    }
    true
}

/// The decimal digits of `x`, most significant first.
pub open spec fn dec_digits(x: nat) -> Seq<u8>
    decreases x,
{
    if x < 10 {
        seq![(48 + x) as u8]
    } else {
        dec_digits(x / 10).push((48 + x % 10) as u8)
    }
}

/// Renders a number in decimal.
pub fn u32_dec_bytes(x: u32) -> (r: Vec<u8>)
    ensures
        r@ == dec_digits(x as nat),
    decreases x,
{
    if x < 10 {
        let mut r: Vec<u8> = Vec::new();
        r.push(48 + x as u8);
        proof {
            assert(r@ =~= dec_digits(x as nat));
        }
        r
    } else {
        let mut r: Vec<u8> = u32_dec_bytes(x / 10);
        r.push(48 + (x % 10) as u8);
        r
    }
}

/// Appends `s` to `v`.
pub fn push_bytes(v: &mut Vec<u8>, s: &[u8])
    ensures
        final(v)@ == old(v)@ + s@,
{
    let mut i: usize = 0;
    while i < s.len()
        invariant
            i <= s@.len(),
            v@ =~= old(v)@ + s@.take(i as int),
        decreases s@.len() - i,
    {
        v.push(s[i]);
        i = i + 1;
    }
    proof {
        assert(v@ =~= old(v)@ + s@);
    }
}

/// Appends a number in decimal to `v`.
pub fn push_dec(v: &mut Vec<u8>, x: u32)
    ensures
        final(v)@ == old(v)@ + dec_digits(x as nat),
{
    let d: Vec<u8> = u32_dec_bytes(x);
    push_bytes(v, d.as_slice());
}

/// `s` begins with `p`.
pub open spec fn begins_with(s: Seq<u8>, p: Seq<u8>) -> bool {
    p.len() <= s.len() && s.take(p.len() as int) == p
}

/// `s` ends with `p`.
pub open spec fn finishes_with(s: Seq<u8>, p: Seq<u8>) -> bool {
    p.len() <= s.len() && s.skip(s.len() - p.len()) == p
}

/// Copies the byte range `[a, b)` of `s`.
pub fn copy_range(s: &[u8], a: usize, b: usize) -> (r: Vec<u8>)
    requires
        a <= b <= s@.len(),
    ensures
        r@ == s@.subrange(a as int, b as int),
        a == 0 && b == s@.len() ==> r@ == s@,
{
    let mut r: Vec<u8> = Vec::new();
    let mut i: usize = a;
    while i < b
        invariant
            a <= i <= b <= s@.len(),
            r@ =~= s@.subrange(a as int, i as int),
        decreases b - i,
    {
        r.push(s[i]);
        i = i + 1;
    }
    proof {
        assert(r@ =~= s@.subrange(a as int, b as int));
        if a == 0 && b == s@.len() {
            assert(r@ =~= s@);
        }
    }
    r
}

/// Whether `s` begins with `p`.
pub fn begins_with_exec(s: &[u8], p: &[u8]) -> (r: bool)
    ensures
        r == begins_with(s@, p@),
{
    if p.len() > s.len() {
        return false;
    }
    let r: bool = occurs_at_exec(s, p, 0);
    proof {
        assert(s@.take(p@.len() as int) =~= s@.subrange(0, p@.len() as int));
    }
    r
}

/// Whether `s` ends with `p`.
pub fn finishes_with_exec(s: &[u8], p: &[u8]) -> (r: bool)
    ensures
        r == finishes_with(s@, p@),
{
    if p.len() > s.len() {
        return false;
    }
    let r: bool = occurs_at_exec(s, p, s.len() - p.len());
    proof {
        assert(s@.skip(s@.len() - p@.len()) =~= s@.subrange(
            s@.len() - p@.len(),
            s@.len() as int,
        ));
    }
    r
}


/// Whether `s` is a valid UTF-8 encoding, by the scalar-by-scalar
/// definition of `vstd::utf8::valid_utf8`: well-formed leading and
/// continuation bytes, no overlong encodings, no surrogates.
pub fn utf8_valid(s: &[u8]) -> (r: bool)
    ensures
        r == vstd::utf8::valid_utf8(s@),
{
    let n: usize = s.len();
    let mut i: usize = 0;
    proof {
        assert(s@.skip(0) =~= s@);
    }
    while i < n
        invariant
            i <= n,
            n == s@.len(),
            vstd::utf8::valid_utf8(s@) == vstd::utf8::valid_utf8(s@.skip(i as int)),
        decreases n - i,
    {
        let ghost rest = s@.skip(i as int);
        proof {
            assert(rest.len() == n - i);
            assert forall|k: int| 0 <= k < rest.len() implies rest[k] == s@[i + k] by {}
        }
        let b0: u8 = s[i];
        let len: usize;
        let cp: u32;
        if b0 <= 0x7f {
            len = 1;
            cp = (b0 & 0x7F) as u32;
        } else if 0xc0 <= b0 && b0 <= 0xdf {
            if n - i < 2 || !(0x80 <= s[i + 1] && s[i + 1] <= 0xbf) {
                proof {
                    assert(!vstd::utf8::valid_leading_and_continuation_bytes_first_codepoint(
                        rest,
                    ));
                    assert(!vstd::utf8::valid_utf8(rest));
                }
                return false;
            }
            len = 2;
            cp = (((b0 & 0x1F) as u32) << 6u32) | ((s[i + 1] & 0x3f) as u32);
        } else if 0xe0 <= b0 && b0 <= 0xef {
            if n - i < 3 || !(0x80 <= s[i + 1] && s[i + 1] <= 0xbf) || !(0x80 <= s[i + 2] && s[i
                + 2] <= 0xbf) {
                proof {
                    assert(!vstd::utf8::valid_leading_and_continuation_bytes_first_codepoint(
                        rest,
                    ));
                    assert(!vstd::utf8::valid_utf8(rest));
                }
                return false;
            }
            len = 3;
            cp = (((b0 & 0x0F) as u32) << 12u32) | (((s[i + 1] & 0x3f) as u32) << 6u32) | ((s[i
                + 2] & 0x3f) as u32);
        } else if 0xf0 <= b0 && b0 <= 0xf7 {
            if n - i < 4 || !(0x80 <= s[i + 1] && s[i + 1] <= 0xbf) || !(0x80 <= s[i + 2] && s[i
                + 2] <= 0xbf) || !(0x80 <= s[i + 3] && s[i + 3] <= 0xbf) {
                proof {
                    assert(!vstd::utf8::valid_leading_and_continuation_bytes_first_codepoint(
                        rest,
                    ));
                    assert(!vstd::utf8::valid_utf8(rest));
                }
                return false;
            }
            len = 4;
            cp = (((b0 & 0x07) as u32) << 18u32) | (((s[i + 1] & 0x3f) as u32) << 12u32) | (((s[i
                + 2] & 0x3f) as u32) << 6u32) | ((s[i + 3] & 0x3f) as u32);
        } else {
            proof {
                assert(!vstd::utf8::valid_leading_and_continuation_bytes_first_codepoint(rest));
                assert(!vstd::utf8::valid_utf8(rest));
            }
            return false;
        }
        proof {
            assert(vstd::utf8::valid_leading_and_continuation_bytes_first_codepoint(rest));
            assert(vstd::utf8::length_of_first_codepoint(rest) == len);
            assert(vstd::utf8::decode_first_codepoint(rest) == cp);
        }
        let overlong_or_high: bool = (len == 2 && cp < 0x80) || (len == 3 && cp < 0x800) || (len
            == 4 && !(0x10000 <= cp && cp <= 0x10ffff));
        let surrogate: bool = 0xd800 <= cp && cp <= 0xdfff;
        if overlong_or_high || surrogate {
            proof {
                assert(!vstd::utf8::valid_first_scalar(rest));
                assert(!vstd::utf8::valid_utf8(rest));
            }
            return false;
        }
        proof {
            assert(vstd::utf8::valid_first_scalar(rest));
            assert(vstd::utf8::pop_first_scalar(rest) =~= s@.skip(i + len));
            assert(vstd::utf8::valid_utf8(rest) == vstd::utf8::valid_utf8(s@.skip(i + len)));
        }
        i = i + len;
    }
    proof {
        assert(s@.skip(n as int) =~= Seq::<u8>::empty());
    }
    true
}

} // verus!


