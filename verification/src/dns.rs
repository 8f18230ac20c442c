//! A minimal DNS client message: one A-record query for a host name, with
//! a two-byte length prefix for DNS over TCP, and the scan of a response
//! for the first IPv4 answer.

use vstd::prelude::*;
use crate::bytesutil::{first_occurrence, lemma_first_occ_from_is_occ, push_bytes};

verus! {

/// The fixed query header: an arbitrary transaction identifier, standard
/// query flags, one question.
pub open spec fn dns_header() -> Seq<u8> {
    seq![0xABu8, 0xCDu8, 0x01u8, 0x00u8, 0x00u8, 0x01u8, 0x00u8, 0x00u8, 0x00u8, 0x00u8, 0x00u8, 0x00u8]
}

/// The question name in wire form: each dot-separated label preceded by its
/// length.
pub open spec fn spec_dns_labels(d: Seq<u8>) -> Seq<u8>
    decreases d.len(),
{
    match first_occurrence(d, seq![46u8]) {
        Some(p) => if 0 <= p < d.len() {
            seq![p as u8] + d.take(p) + spec_dns_labels(d.skip(p + 1))
        } else {
            seq![d.len() as u8] + d
        },
        None => seq![d.len() as u8] + d,
    }
}

/// The complete question: header, name, the terminating zero, type A,
/// class IN.
pub open spec fn spec_dns_query(domain: Seq<u8>) -> Seq<u8> {
    dns_header() + spec_dns_labels(domain) + seq![0u8, 0u8, 1u8, 0u8, 1u8]
}

/// A builder holding the encoded query.
pub struct DnsBuilder {
    raw: Vec<u8>,
}

impl DnsBuilder {
    /// The encoded query held by the builder.
    pub closed spec fn query(&self) -> Seq<u8> {
        self.raw@
    }

    /// Encodes an A-record query for `domain`. Labels are the dot-separated
    /// parts of the name; each must be shorter than 256 bytes for its
    /// length to fit the wire form.
    pub fn build(domain: &[u8]) -> (r: DnsBuilder)
        requires
            domain@.len() < 256,
        ensures
            r.query() == spec_dns_query(domain@),
    {
        let mut q: Vec<u8> = Vec::new();
        push_bytes(&mut q, &[0xAB, 0xCD, 0x01, 0x00, 0x00, 0x01, 0x00, 0x00, 0x00, 0x00, 0x00,
            0x00]);
        proof {
            assert(q@ =~= dns_header());
        }
        let ghost hdr = q@;
        let mut rest: Vec<u8> = crate::bytesutil::copy_range(domain, 0, domain.len());
        proof {
            assert(rest@ =~= domain@);
        }
        loop
            invariant_except_break
                rest@.len() < 256,
                hdr + spec_dns_labels(domain@) =~= q@ + spec_dns_labels(rest@),
            ensures
                q@ == hdr + spec_dns_labels(domain@),
            decreases rest@.len(),
        {
            let dot: [u8; 1] = [46u8];
            proof {
                assert(dot@ =~= seq![46u8]);
            }
            match crate::bytesutil::find_first(rest.as_slice(), dot.as_slice()) {
                Some(p) => {
                    proof {
                        lemma_first_occ_from_is_occ(rest@, seq![46u8], 0, p as int);
                        assert(rest@.take(p as int) =~= rest@.subrange(0, p as int));
                    }
                    let ghost pre = q@;
                    q.push(p as u8);
                    let label: Vec<u8> = crate::bytesutil::copy_range(rest.as_slice(), 0, p);
                    push_bytes(&mut q, label.as_slice());
                    let next: Vec<u8> = crate::bytesutil::copy_range(
                        rest.as_slice(),
                        p + 1,
                        rest.len(),
                    );
                    proof {
                        assert(next@ =~= rest@.skip(p + 1));
                        assert(q@ =~= pre + (seq![p as u8] + rest@.take(p as int)));
                        assert(pre + (seq![p as u8] + rest@.take(p as int)) + spec_dns_labels(
                            next@,
                        ) =~= pre + spec_dns_labels(rest@));
                    }
                    rest = next;
                },
                None => {
                    let ghost pre = q@;
                    q.push(rest.len() as u8);
                    push_bytes(&mut q, rest.as_slice());
                    proof {
                        assert(q@ =~= pre + spec_dns_labels(rest@));
                    }
                    break ;
                },
            }
        }
        proof {
            assert(q@ =~= hdr + spec_dns_labels(domain@));
        }
        push_bytes(&mut q, &[0, 0, 1, 0, 1]);
        proof {
            assert(q@ =~= spec_dns_query(domain@));
        }
        DnsBuilder { raw: q }
    }

    /// The query with its two-byte length prefix, as DNS over TCP frames it.
    pub fn query_data(self) -> (r: Vec<u8>)
        requires
            self.query().len() <= 0xFFFF,
        ensures
            r@ == seq![(self.query().len() as int / 256) as u8, (self.query().len() as int
                % 256) as u8] + self.query(),
    {
        let len: usize = self.raw.len();
        let mut r: Vec<u8> = Vec::new();
        r.push((len / 256) as u8);
        r.push((len % 256) as u8);
        push_bytes(&mut r, self.raw.as_slice());
        proof {
            assert(r@ =~= seq![(self.raw@.len() as int / 256) as u8, (self.raw@.len() as int
                % 256) as u8] + self.raw@);
        }
        r
    }

    /// Scans a response for the first four-byte (IPv4) answer; fails on a
    /// truncated or answerless response.
    pub fn parse_dns_response(response: &[u8]) -> (r: Result<[u8; 4], ()>)
        ensures
            match r {
                Ok(ip) => spec_parse_dns(response@) == Some(seq![ip[0], ip[1], ip[2], ip[3]]),
                Err(_) => spec_parse_dns(response@) is None,
            },
    {
        let n: usize = response.len();
        let mut idx: usize = 12;
        loop
            invariant
                n == response@.len(),
                idx <= n || idx == 12,
                spec_parse_dns(response@) == (match spec_skip_name(response@, idx as int) {
                    Some(z) => spec_scan_answers(response@, z + 5),
                    None => None,
                }),
            ensures
                idx < n,
                spec_parse_dns(response@) == spec_scan_answers(response@, idx as int + 5),
            decreases n - idx,
        {
            if idx >= n {
                return Err(());
            }
            if response[idx] == 0 {
                break ;
            }
            let step: usize = 1 + response[idx] as usize;
            if step > n - idx {
                return Err(());
            }
            idx = idx + step;
        }
        if n - idx < 5 {
            proof {
                assert(spec_scan_answers(response@, idx as int + 5) is None);
            }
            return Err(());
        }
        let mut a: usize = idx + 5;
        loop
            invariant
                n == response@.len(),
                a <= n,
                spec_parse_dns(response@) == spec_scan_answers(response@, a as int),
            decreases n - a,
        {
            if n - a < 12 {
                return Err(());
            }
            let dl: usize = (response[a + 10] as usize) * 256 + response[a + 11] as usize;
            if dl == 4 {
                if n - a < 16 {
                    return Err(());
                }
                let ip: [u8; 4] = [response[a + 12], response[a + 13], response[a + 14], response[a
                    + 15]];
                proof {
                    assert(spec_scan_answers(response@, a as int) == Some(seq![ip[0], ip[1],
                        ip[2], ip[3]]));
                }
                return Ok(ip);
            }
            if 12 + dl > n - a {
                return Err(());
            }
            a = a + 12 + dl;
        }
    }
}

/// The position after the question name: the first zero length byte,
/// reached by hopping over the labels.
pub open spec fn spec_skip_name(r: Seq<u8>, idx: int) -> Option<int>
    decreases r.len() - idx,
{
    if idx < 0 || idx >= r.len() {
        None
    } else if r[idx] == 0 {
        Some(idx)
    } else if idx + 1 + r[idx] > r.len() {
        None
    } else {
        spec_skip_name(r, idx + 1 + r[idx])
    }
}

/// The first IPv4 answer at or after `idx`: each answer is a compressed
/// name, type, class and TTL (ten bytes), a two-byte data length, and the
/// data; a four-byte datum is the address.
pub open spec fn spec_scan_answers(r: Seq<u8>, idx: int) -> Option<Seq<u8>>
    decreases r.len() - idx,
{
    if idx < 0 || idx >= r.len() || r.len() - idx < 12 {
        None
    } else {
        let dl = (r[idx + 10] as int) * 256 + r[idx + 11];
        if dl == 4 {
            if r.len() - idx < 16 {
                None
            } else {
                Some(r.subrange(idx + 12, idx + 16))
            }
        } else if idx + 12 + dl > r.len() {
            None
        } else {
            spec_scan_answers(r, idx + 12 + dl)
        }
    }
}

/// The IPv4 address a response resolves to, if any.
pub open spec fn spec_parse_dns(r: Seq<u8>) -> Option<Seq<u8>> {
    match spec_skip_name(r, 12) {
        Some(z) => spec_scan_answers(r, z + 5),
        None => None,
    }
}

} // verus!
