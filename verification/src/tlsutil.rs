//! Device authentication: base64 encoding, PEM formatting of the public
//! key, and the RSA signature over a request body.

use vstd::prelude::*;
use rsa::pkcs8::DecodePrivateKey;
use crate::bytesutil::push_bytes;
use crate::menderutils::{MenderResult, MenderStatus};
use crate::sha256::{sha256_of, ShaStream};

verus! {

/// The base64 alphabet, in index order.
pub open spec fn b64_alphabet() -> Seq<u8> {
    "ABCDEFGHIJKLMNOPQRSTUVWXYZabcdefghijklmnopqrstuvwxyz0123456789+/"@.map_values(
        |c: char| c as u8,
    )
}

/// The four output bytes of a full three-byte group.
pub open spec fn b64_group3(a: u8, b: u8, c: u8) -> Seq<u8> {
    seq![
        b64_alphabet()[a as int / 4],
        b64_alphabet()[(a as int % 4) * 16 + b as int / 16],
        b64_alphabet()[(b as int % 16) * 4 + c as int / 64],
        b64_alphabet()[c as int % 64],
    ]
}

/// The four output bytes of a trailing two-byte group.
pub open spec fn b64_group2(a: u8, b: u8) -> Seq<u8> {
    seq![
        b64_alphabet()[a as int / 4],
        b64_alphabet()[(a as int % 4) * 16 + b as int / 16],
        b64_alphabet()[(b as int % 16) * 4],
        61u8,
    ]
}

/// The four output bytes of a trailing one-byte group.
pub open spec fn b64_group1(a: u8) -> Seq<u8> {
    seq![b64_alphabet()[a as int / 4], b64_alphabet()[(a as int % 4) * 16], 61u8, 61u8]
}

/// The standard base64 encoding, with `=` padding.
pub open spec fn spec_base64(s: Seq<u8>) -> Seq<u8>
    decreases s.len(),
{
    if s.len() == 0 {
        Seq::empty()
    } else if s.len() == 1 {
        b64_group1(s[0])
    } else if s.len() == 2 {
        b64_group2(s[0], s[1])
    } else {
        b64_group3(s[0], s[1], s[2]) + spec_base64(s.skip(3))
    }
}

/// The base64 alphabet as bytes.
fn b64_alphabet_bytes() -> (r: Vec<u8>)
    ensures
        r@ == b64_alphabet(),
        r@.len() == 64,
{
    let mut r: Vec<u8> = Vec::new();
    let mut c: u8 = 65;
    while c <= 90
        invariant
            65 <= c <= 91,
            r@.len() == c - 65,
            forall|i: int| 0 <= i < r@.len() ==> r@[i] == 65 + i,
        decreases 91 - c,
    {
        r.push(c);
        c = c + 1;
    }
    let mut c2: u8 = 97;
    while c2 <= 122
        invariant
            97 <= c2 <= 123,
            r@.len() == 26 + c2 - 97,
            forall|i: int| 0 <= i < 26 ==> r@[i] == 65 + i,
            forall|i: int| 26 <= i < r@.len() ==> r@[i] == 97 + i - 26,
        decreases 123 - c2,
    {
        r.push(c2);
        c2 = c2 + 1;
    }
    let mut c3: u8 = 48;
    while c3 <= 57
        invariant
            48 <= c3 <= 58,
            r@.len() == 52 + c3 - 48,
            forall|i: int| 0 <= i < 26 ==> r@[i] == 65 + i,
            forall|i: int| 26 <= i < 52 ==> r@[i] == 97 + i - 26,
            forall|i: int| 52 <= i < r@.len() ==> r@[i] == 48 + i - 52,
        decreases 58 - c3,
    {
        r.push(c3);
        c3 = c3 + 1;
    }
    r.push(43);
    r.push(47);
    proof {
        reveal_strlit("ABCDEFGHIJKLMNOPQRSTUVWXYZabcdefghijklmnopqrstuvwxyz0123456789+/");
        assert(r@ =~= b64_alphabet());
    }
    r
}

/// Encodes bytes in standard base64 with padding.
pub fn base64_no_std_encode(input: &[u8]) -> (r: Vec<u8>)
    ensures
        r@ == spec_base64(input@),
{
    let al: Vec<u8> = b64_alphabet_bytes();
    let n: usize = input.len();
    let mut r: Vec<u8> = Vec::new();
    let mut i: usize = 0;
    proof {
        assert(input@.skip(0) =~= input@);
        assert(Seq::<u8>::empty() + spec_base64(input@) =~= spec_base64(input@));
    }
    while n - i >= 3
        invariant
            i <= n,
            n == input@.len(),
            al@ == b64_alphabet(),
            al@.len() == 64,
            spec_base64(input@) == r@ + spec_base64(input@.skip(i as int)),
        decreases n - i,
    {
        let a: u8 = input[i];
        let b: u8 = input[i + 1];
        let c: u8 = input[i + 2];
        let ghost pre = r@;
        r.push(al[(a / 4) as usize]);
        r.push(al[((a % 4) as usize) * 16 + (b / 16) as usize]);
        r.push(al[((b % 16) as usize) * 4 + (c / 64) as usize]);
        r.push(al[(c % 64) as usize]);
        proof {
            assert(r@ =~= pre + b64_group3(a, b, c));
            assert(input@.skip(i as int).skip(3) =~= input@.skip(i + 3));
            assert(input@.skip(i as int)[0] == a && input@.skip(i as int)[1] == b && input@.skip(
                i as int,
            )[2] == c);
            assert(spec_base64(input@.skip(i as int)) == b64_group3(a, b, c) + spec_base64(
                input@.skip(i + 3),
            ));
            assert(pre + (b64_group3(a, b, c) + spec_base64(input@.skip(i + 3))) =~= (pre
                + b64_group3(a, b, c)) + spec_base64(input@.skip(i + 3)));
        }
        i = i + 3;
    }
    let ghost pre = r@;
    if n - i == 2 {
        let a: u8 = input[i];
        let b: u8 = input[i + 1];
        r.push(al[(a / 4) as usize]);
        r.push(al[((a % 4) as usize) * 16 + (b / 16) as usize]);
        r.push(al[((b % 16) as usize) * 4]);
        r.push(61);
        proof {
            assert(input@.skip(i as int)[0] == a && input@.skip(i as int)[1] == b);
            assert(r@ =~= pre + b64_group2(a, b));
        }
    } else if n - i == 1 {
        let a: u8 = input[i];
        r.push(al[(a / 4) as usize]);
        r.push(al[((a % 4) as usize) * 16]);
        r.push(61);
        r.push(61);
        proof {
            assert(input@.skip(i as int)[0] == a);
            assert(r@ =~= pre + b64_group1(a));
        }
    } else {
        proof {
            assert(input@.skip(i as int) =~= Seq::<u8>::empty());
            assert(r@ =~= pre + spec_base64(input@.skip(i as int)));
        }
    }
    r
}

/// The body of a PEM block: the base64 text broken into lines of 64, each
/// ended by a line feed.
pub open spec fn spec_pem_lines(b64: Seq<u8>) -> Seq<u8>
    decreases b64.len(),
{
    if b64.len() == 0 {
        Seq::empty()
    } else if b64.len() <= 64 {
        b64 + seq![10u8]
    } else {
        b64.take(64) + seq![10u8] + spec_pem_lines(b64.skip(64))
    }
}

/// A public key's PEM form: header line, base64 of the DER bytes in
/// 64-column lines, footer line.
pub open spec fn spec_public_key_pem(der: Seq<u8>) -> Seq<u8> {
    "-----BEGIN PUBLIC KEY-----\n"@.map_values(|c: char| c as u8) + spec_pem_lines(
        spec_base64(der),
    ) + "-----END PUBLIC KEY-----\n"@.map_values(|c: char| c as u8)
}

/// Renders a DER-form public key as PEM.
pub fn mender_tls_pem_write_buffer(der_data: &[u8]) -> (r: Vec<u8>)
    ensures
        r@ == spec_public_key_pem(der_data@),
{
    let b64: Vec<u8> = base64_no_std_encode(der_data);
    let mut r: Vec<u8> = Vec::new();
    push_bytes(
        &mut r,
        &[45, 45, 45, 45, 45, 66, 69, 71, 73, 78, 32, 80, 85, 66, 76, 73, 67, 32, 75, 69, 89, 45,
            45, 45, 45, 45, 10],
    );
    let ghost hdr = r@;
    proof {
        reveal_strlit("-----BEGIN PUBLIC KEY-----\n");
        assert(hdr =~= "-----BEGIN PUBLIC KEY-----\n"@.map_values(|c: char| c as u8));
    }
    let n: usize = b64.len();
    let mut i: usize = 0;
    proof {
        assert(b64@.skip(0) =~= b64@);
    }
    while i < n
        invariant
            i <= n,
            n == b64@.len(),
            hdr + spec_pem_lines(b64@) =~= r@ + spec_pem_lines(b64@.skip(i as int)),
        decreases n - i,
    {
        let end: usize = if n - i < 64 {
            n
        } else {
            i + 64
        };
        let ghost pre = r@;
        push_bytes(&mut r, vstd::slice::slice_subrange(b64.as_slice(), i, end));
        r.push(10);
        proof {
            let rest = b64@.skip(i as int);
            if rest.len() <= 64 {
                assert(b64@.subrange(i as int, end as int) =~= rest);
                assert(r@ =~= pre + (rest + seq![10u8]));
            } else {
                assert(b64@.subrange(i as int, end as int) =~= rest.take(64));
                assert(rest.skip(64) =~= b64@.skip(i + 64));
                assert(r@ =~= pre + (rest.take(64) + seq![10u8]));
                assert(pre + (rest.take(64) + seq![10u8]) + spec_pem_lines(b64@.skip(i + 64))
                    =~= pre + spec_pem_lines(rest));
            }
        }
        i = end;
    }
    proof {
        assert(b64@.skip(n as int) =~= Seq::<u8>::empty());
        assert(r@ =~= hdr + spec_pem_lines(b64@));
    }
    push_bytes(
        &mut r,
        &[45, 45, 45, 45, 45, 69, 78, 68, 32, 80, 85, 66, 76, 73, 67, 32, 75, 69, 89, 45, 45, 45,
            45, 45, 10],
    );
    proof {
        reveal_strlit("-----END PUBLIC KEY-----\n");
        assert(r@ =~= spec_public_key_pem(der_data@));
    }
    r
}

/// The PKCS#1 v1.5 RSA signature over a SHA-256 digest by the private key
/// given in PKCS#8 DER form. The signature is a function of the key and
/// digest alone: the rsa crate signs without blinding when no random
/// generator is supplied.
pub uninterp spec fn rsa_pkcs1v15_sha256_sig(key_der: Seq<u8>, digest: Seq<u8>) -> Seq<u8>;

/// Whether signing the digest with the key succeeds: like the signature
/// itself, a function of the two byte strings alone (key parsing and the
/// padding fit are decided by them).
pub uninterp spec fn rsa_pkcs1v15_sha256_ok(key_der: Seq<u8>, digest: Seq<u8>) -> bool;

/// Relies on rsa::RsaPrivateKey::from_pkcs8_der and RsaPrivateKey::sign
/// with Pkcs1v15Sign padding carrying the standard SHA-256 DigestInfo
/// prefix: parsing the key and signing the digest give a result determined
/// by the two byte strings (`sign` without a generator does not blind).
#[verifier::external_body]
fn rsa_sign(key_der: &[u8], digest: &[u8]) -> (r: Result<Vec<u8>, ()>)
    ensures
        r is Ok <==> rsa_pkcs1v15_sha256_ok(key_der@, digest@),
        match r {
            Ok(sig) => sig@ == rsa_pkcs1v15_sha256_sig(key_der@, digest@),
            Err(_) => true,
        },
{
    let prefix = vec![
        0x30, 0x31, 0x30, 0x0d, 0x06, 0x09, 0x60, 0x86, 0x48, 0x01, 0x65, 0x03, 0x04, 0x02, 0x01,
        0x05, 0x00, 0x04, 0x20,
    ].into_boxed_slice();
    let padding = rsa::Pkcs1v15Sign { hash_len: Some(32), prefix };
    rsa::RsaPrivateKey::from_pkcs8_der(key_der)
        .map_err(|_| ())
        .and_then(|key| key.sign(padding, digest).map_err(|_| ()))
}

/// Nothing to prepare for the TLS layer.
pub fn mender_tls_init() -> (r: MenderResult<()>)
    ensures
        r == Ok::<(MenderStatus, ()), MenderStatus>((MenderStatus::Okay, ())),
{
    Ok((MenderStatus::Okay, ()))
}

/// Signs a request body: hashes it with SHA-256, signs the digest with the
/// device's RSA key (PKCS#8 DER), and returns the signature in base64.
pub fn mender_tls_sign_payload(key_der: &[u8], payload: &[u8]) -> (r: Result<
    Vec<u8>,
    MenderStatus,
>)
    ensures
        r is Ok <==> rsa_pkcs1v15_sha256_ok(key_der@, sha256_of(payload@)),
        match r {
            Ok(sig) => sig@ == spec_base64(
                rsa_pkcs1v15_sha256_sig(key_der@, sha256_of(payload@)),
            ),
            Err(e) => e == MenderStatus::Failed,
        },
{
    let mut hasher: ShaStream = ShaStream::new();
    hasher.update(payload);
    let digest: Vec<u8> = hasher.digest();
    proof {
        assert(crate::sha256::sha_absorbed(hasher) =~= payload@);
    }
    let sig: Vec<u8> = match rsa_sign(key_der, digest.as_slice()) {
        Ok(s) => s,
        Err(_) => {
            return Err(MenderStatus::Failed);
        },
    };
    Ok(base64_no_std_encode(sig.as_slice()))
}

} // verus!
