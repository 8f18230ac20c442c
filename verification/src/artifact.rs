//! Streamed parser for the deployment artifact: an outer 512-byte-blocked
//! tar whose members are a `version` file, a nested `header.tar` with the
//! payload descriptors, and nested `data/NNNN.tar` archives carrying the
//! payload bytes. The parser consumes an arbitrarily chunked byte stream and
//! emits payload events; its whole behaviour is the spec-level step machine
//! `astep`, which makes the emitted events independent of the chunking.
//!
//! The small JSON members are read by key extraction (see `jsonext`), not by
//! a general JSON parser.

use vstd::prelude::*;
use crate::bytesutil::{
    begins_with, begins_with_exec, copy_range, dec_ok, dec_val, find_first, finishes_with,
    finishes_with_exec, first_occurrence, last_occurrence, oct_ok, oct_val, parse_u32_dec,
    parse_u32_oct,
    round_up_u64, spec_round_up,
};
use crate::jsonext::{json_find_string, json_int_equals, json_int_value, json_string_value};
use crate::menderutils::MenderStatus;

verus! {

/// Size of a tar block.
pub const MENDER_ARTIFACT_STREAM_BLOCK_SIZE: u32 = 512;

/// Which kind of element the stream position is at.
#[derive(Debug, Clone, Copy, PartialEq, Eq, Structural)]
pub enum MenderArtifactStreamState {
    ParsingHeader,
    ParsingData,
}

/// The single payload the artifact carries.
pub struct MenderArtifactPayload {
    pub payload_type: Vec<u8>,
    pub checksum: Vec<u8>,
    pub meta_data: Option<Vec<u8>>,
}

/// Parser state: the stream phase, the unconsumed bytes, the nested path of
/// the current file, its size and cursor, and the payload descriptor.
pub struct MenderArtifactContext {
    pub stream_state: MenderArtifactStreamState,
    pub input_data: Vec<u8>,
    pub file_name: Vec<u8>,
    pub file_size: u32,
    pub file_index: u32,
    pub payload: Option<MenderArtifactPayload>,
}

/// Mathematical view of the parser state.
pub struct AView {
    pub phase: MenderArtifactStreamState,
    pub buf: Seq<u8>,
    pub name: Seq<u8>,
    pub size: u32,
    pub index: u32,
    pub payload: Option<(Seq<u8>, Seq<u8>, Option<Seq<u8>>)>,
}

impl View for MenderArtifactContext {
    type V = AView;

    open spec fn view(&self) -> AView {
        AView {
            phase: self.stream_state,
            buf: self.input_data@,
            name: self.file_name@,
            size: self.file_size,
            index: self.file_index,
            payload: match self.payload {
                Some(ref p) => Some(
                    (
                        p.payload_type@,
                        p.checksum@,
                        match p.meta_data {
                            Some(ref m) => Some(m@),
                            None => None,
                        },
                    ),
                ),
                None => None,
            },
        }
    }
}

/// A payload event handed to the installer.
pub enum ArtifactEvent {
    Begin { payload_type: Vec<u8>, meta: Vec<u8>, checksum: Vec<u8> },
    Chunk { filename: Vec<u8>, size: u32, data: Vec<u8>, offset: u32, total: u32, checksum: Vec<u8> },
}

/// Mathematical view of a payload event.
pub enum EventV {
    Begin { payload_type: Seq<u8>, meta: Seq<u8>, checksum: Seq<u8> },
    Chunk { filename: Seq<u8>, size: u32, data: Seq<u8>, offset: u32, total: u32, checksum: Seq<u8> },
}

impl View for ArtifactEvent {
    type V = EventV;

    open spec fn view(&self) -> EventV {
        match self {
            ArtifactEvent::Begin { payload_type, meta, checksum } => EventV::Begin {
                payload_type: payload_type@,
                meta: meta@,
                checksum: checksum@,
            },
            ArtifactEvent::Chunk { filename, size, data, offset, total, checksum } => EventV::Chunk {
                filename: filename@,
                size: *size,
                data: data@,
                offset: *offset,
                total: *total,
                checksum: checksum@,
            },
        }
    }
}

/// The views of a list of events.
pub open spec fn evs_view(es: Seq<ArtifactEvent>) -> Seq<EventV> {
    es.map_values(|e: ArtifactEvent| e@)
}

/// `s` with trailing NUL bytes removed.
pub open spec fn trim_nul_end(s: Seq<u8>) -> Seq<u8>
    decreases s.len(),
{
    if s.len() > 0 && s.last() == 0 {
        trim_nul_end(s.drop_last())
    } else {
        s
    }
}

/// `s` with leading NUL bytes removed.
pub open spec fn trim_nul_front(s: Seq<u8>) -> Seq<u8>
    decreases s.len(),
{
    if s.len() > 0 && s.first() == 0 {
        trim_nul_front(s.drop_first())
    } else {
        s
    }
}

/// `s` with NUL bytes removed from both ends.
pub open spec fn trim_nuls(s: Seq<u8>) -> Seq<u8> {
    trim_nul_front(trim_nul_end(s))
}

/// The path after one file of the innermost tar has been consumed: keep the
/// prefix up to and including the last `.tar`, or clear the path when there
/// is none.
pub open spec fn pop_name(name: Seq<u8>) -> Seq<u8> {
    match last_occurrence(name, tar_lit()) {
        Some(p) => name.take(p + 4),
        None => Seq::empty(),
    }
}

/// The path after a nested tar's end-of-archive marker: drop the last
/// `.tar`; if no other `.tar` remains in the prefix, the path is cleared.
pub open spec fn pop_tar_level(name: Seq<u8>) -> Seq<u8> {
    if name.len() == 0 {
        name
    } else {
        match last_occurrence(name, tar_lit()) {
            Some(p) => {
                let t = name.take(p);
                if first_occurrence(t, tar_lit()) is Some {
                    t
                } else {
                    Seq::empty()
                }
            },
            None => Seq::empty(),
        }
    }
}

/// The payload file name inside a data tar: the segment between the first
/// `.tar` and the next one, without its leading separator.
pub open spec fn fname_of(name: Seq<u8>) -> Seq<u8> {
    match first_occurrence(name, tar_lit()) {
        Some(p) => {
            let rest = name.skip(p + 4);
            let seg = match first_occurrence(rest, tar_lit()) {
                Some(q) => rest.take(q),
                None => rest,
            };
            if seg.len() > 1 {
                seg.skip(1)
            } else {
                Seq::empty()
            }
        },
        None => Seq::empty(),
    }
}

/// The payload index named by a `data/NNNN.tar` path.
pub open spec fn data_index_of(name: Seq<u8>) -> Option<int> {
    if begins_with(name, data_slash_lit()) {
        let rest = name.skip(5);
        let seg = match first_occurrence(rest, tar_lit()) {
            Some(q) => rest.take(q),
            None => rest,
        };
        if dec_ok(seg) && dec_val(seg) <= u32::MAX {
            Some(dec_val(seg))
        } else {
            None
        }
    } else {
        None
    }
}

/// The payload index named by a `header.tar/headers/NNNN/...` path.
pub open spec fn header_index_of(name: Seq<u8>) -> Option<int> {
    if begins_with(name, headers_slash_lit()) {
        let rest = name.skip(19);
        match first_occurrence(rest, slash_lit()) {
            Some(e) => {
                let seg = rest.take(e);
                if dec_ok(seg) && dec_val(seg) <= u32::MAX {
                    Some(dec_val(seg))
                } else {
                    None
                }
            },
            None => None,
        }
    } else {
        None
    }
}

/// The cursor after one 512-byte block, saturating at the top of `u32`.
pub open spec fn add_block(i: u32) -> u32 {
    if i <= 0xFFFFFFFFu32 - 512 {
        (i + 512) as u32
    } else {
        0xFFFFFFFFu32
    }
}

/// How many payloads the state knows of.
pub open spec fn payload_count(s: AView) -> int {
    if s.payload is Some {
        1
    } else {
        0
    }
}

/// The state after the current file is done: consume `k` buffered bytes,
/// return to the header phase, reset the file cursor and keep the path up to
/// the innermost tar.
pub open spec fn finish_file(s: AView, k: int) -> AView {
    AView {
        phase: MenderArtifactStreamState::ParsingHeader,
        buf: s.buf.skip(k),
        name: pop_name(s.name),
        size: 0u32,
        index: 0u32,
        payload: s.payload,
    }
}

/// The outcome of one parser step.
pub enum SpecStep {
    NeedMore,
    Fail,
    Advance(AView, Seq<EventV>),
}

/// One step of the stream machine. In the header phase it consumes one tar
/// header block (or a 1024-byte end-of-archive marker); in the data phase it
/// consumes or emits at most one 512-byte block of the current file, as the
/// file's path directs.
pub open spec fn astep(s: AView) -> SpecStep {
    match s.phase {
        MenderArtifactStreamState::ParsingHeader => {
            if s.buf.len() < 512 {
                SpecStep::NeedMore
            } else if s.buf[0] == 0 {
                if s.buf.len() < 1024 {
                    SpecStep::NeedMore
                } else {
                    SpecStep::Advance(
                        AView {
                            buf: s.buf.skip(1024),
                            name: pop_tar_level(s.name),
                            ..s
                        },
                        Seq::empty(),
                    )
                }
            } else if s.buf.subrange(257, 262) != ustar_lit() {
                SpecStep::Fail
            } else {
                let hname = trim_nuls(s.buf.subrange(0, 100));
                let size_str = trim_nuls(s.buf.subrange(124, 136));
                if !(oct_ok(size_str) && oct_val(size_str) <= u32::MAX) {
                    SpecStep::Fail
                } else {
                    let nm = if s.name.len() == 0 {
                        hname
                    } else {
                        s.name + slash_lit() + hname
                    };
                    SpecStep::Advance(
                        AView {
                            phase: MenderArtifactStreamState::ParsingData,
                            buf: s.buf.skip(512),
                            name: nm,
                            size: oct_val(size_str) as u32,
                            index: 0u32,
                            payload: s.payload,
                        },
                        Seq::empty(),
                    )
                }
            }
        },
        MenderArtifactStreamState::ParsingData => {
            let padded = spec_round_up(s.size as int, 512);
            if s.name == version_lit() {
                if s.buf.len() == 0 || s.buf.len() < padded {
                    SpecStep::NeedMore
                } else {
                    let content = s.buf.take(s.size as int);
                    if json_string_value(content, format_key_lit()) == Some(mender_val_lit())
                        && json_int_value(content, version_lit()) == Some(3int) {
                        SpecStep::Advance(finish_file(s, padded), Seq::empty())
                    } else {
                        SpecStep::Fail
                    }
                }
            } else if s.name == header_info_lit() {
                if s.buf.len() == 0 || s.buf.len() < padded {
                    SpecStep::NeedMore
                } else {
                    let content = s.buf.take(s.size as int);
                    match json_string_value(content, type_key_lit()) {
                        Some(tp) => SpecStep::Advance(
                            finish_file(
                                AView { payload: Some((tp, Seq::empty(), None)), ..s },
                                padded,
                            ),
                            Seq::empty(),
                        ),
                        None => SpecStep::Fail,
                    }
                }
            } else if begins_with(s.name, headers_prefix_lit()) && finishes_with(
                s.name,
                typeinfo_suffix_lit(),
            ) {
                if s.buf.len() == 0 || s.buf.len() < padded {
                    SpecStep::NeedMore
                } else {
                    let content = s.buf.take(s.size as int);
                    let cs = if json_string_value(content, rootfs_key_lit()) is Some {
                        json_string_value(content, rootfs_key_lit())
                    } else {
                        json_string_value(content, module_key_lit())
                    };
                    match cs {
                        Some(c) => {
                            if !finishes_with(s.name, slash_typeinfo_lit()) {
                                SpecStep::Fail
                            } else {
                                match header_index_of(s.name) {
                                    Some(ix) => {
                                        if ix < payload_count(s) {
                                            let p = s.payload->0;
                                            SpecStep::Advance(
                                                finish_file(
                                                    AView {
                                                        payload: Some((p.0, c, p.2)),
                                                        ..s
                                                    },
                                                    padded,
                                                ),
                                                Seq::empty(),
                                            )
                                        } else {
                                            SpecStep::Fail
                                        }
                                    },
                                    None => SpecStep::Fail,
                                }
                            }
                        },
                        None => SpecStep::Fail,
                    }
                }
            } else if begins_with(s.name, headers_prefix_lit()) && finishes_with(
                s.name,
                metadata_suffix_lit(),
            ) {
                if !finishes_with(s.name, slash_metadata_lit()) {
                    SpecStep::Fail
                } else {
                    match header_index_of(s.name) {
                        Some(ix) => {
                            if ix >= payload_count(s) {
                                SpecStep::Fail
                            } else if padded == 0 {
                                SpecStep::Advance(finish_file(s, 0), Seq::empty())
                            } else if s.buf.len() == 0 || s.buf.len() < padded {
                                SpecStep::NeedMore
                            } else {
                                let content = s.buf.take(s.size as int);
                                let p = s.payload->0;
                                SpecStep::Advance(
                                    finish_file(
                                        AView {
                                            payload: Some((p.0, p.1, Some(content))),
                                            ..s
                                        },
                                        padded,
                                    ),
                                    Seq::empty(),
                                )
                            }
                        },
                        None => SpecStep::Fail,
                    }
                }
            } else if begins_with(s.name, data_prefix_lit()) {
                match data_index_of(s.name) {
                    Some(ix) => {
                        if ix >= payload_count(s) {
                            SpecStep::Fail
                        } else {
                            let p = s.payload->0;
                            let meta = match p.2 {
                                Some(m) => m,
                                None => Seq::empty(),
                            };
                            if s.name.len() == 13 {
                                SpecStep::Advance(
                                    finish_file(s, 0),
                                    seq![
                                        EventV::Begin {
                                            payload_type: p.0,
                                            meta: meta,
                                            checksum: p.1,
                                        },
                                    ],
                                )
                            } else if padded == 0 {
                                SpecStep::Advance(finish_file(s, 0), Seq::empty())
                            } else if s.index < s.size {
                                if s.buf.len() == 0 || s.buf.len() < 512 {
                                    SpecStep::NeedMore
                                } else {
                                    let blen = if s.size - s.index < 512 {
                                        (s.size - s.index) as u32
                                    } else {
                                        512u32
                                    };
                                    SpecStep::Advance(
                                        AView {
                                            buf: s.buf.skip(512),
                                            index: add_block(s.index),
                                            ..s
                                        },
                                        seq![
                                            EventV::Chunk {
                                                filename: fname_of(s.name),
                                                size: s.size,
                                                data: s.buf.take(blen as int),
                                                offset: s.index,
                                                total: blen,
                                                checksum: p.1,
                                            },
                                        ],
                                    )
                                }
                            } else {
                                SpecStep::Advance(finish_file(s, 0), Seq::empty())
                            }
                        }
                    },
                    None => SpecStep::Fail,
                }
            } else if !finishes_with(s.name, tar_lit()) {
                if padded == 0 {
                    SpecStep::Advance(finish_file(s, 0), Seq::empty())
                } else if s.index < s.size {
                    if s.buf.len() == 0 || s.buf.len() < 512 {
                        SpecStep::NeedMore
                    } else {
                        SpecStep::Advance(
                            AView { buf: s.buf.skip(512), index: add_block(s.index), ..s },
                            Seq::empty(),
                        )
                    }
                } else {
                    SpecStep::Advance(finish_file(s, 0), Seq::empty())
                }
            } else {
                SpecStep::Advance(finish_file(s, 0), Seq::empty())
            }
        },
    }
}

/// Rank of a phase: a zero-byte step always moves from the data phase to the
/// header phase.
pub open spec fn phase_rank(s: AView) -> int {
    match s.phase {
        MenderArtifactStreamState::ParsingHeader => 0,
        MenderArtifactStreamState::ParsingData => 1,
    }
}

/// Every step either consumes buffered bytes or lowers the phase rank.
pub proof fn lemma_astep_decreases(s: AView)
    requires
        astep(s) is Advance,
    ensures
        ({
            let s2 = astep(s)->Advance_0;
            s2.buf.len() < s.buf.len() || (s2.buf.len() == s.buf.len() && phase_rank(s2)
                < phase_rank(s))
        }),
{
}

/// The result of running the machine until it needs more bytes or fails.
pub struct DriveRes {
    pub state: AView,
    pub events: Seq<EventV>,
    pub failed: bool,
}

/// Runs the machine until it needs more bytes or fails, collecting events.
pub open spec fn drive(s: AView) -> DriveRes
    decreases s.buf.len(), phase_rank(s),
{
    match astep(s) {
        SpecStep::NeedMore => DriveRes { state: s, events: Seq::empty(), failed: false },
        SpecStep::Fail => DriveRes { state: s, events: Seq::empty(), failed: true },
        SpecStep::Advance(s2, evs) => {
            if s2.buf.len() < s.buf.len() || (s2.buf.len() == s.buf.len() && phase_rank(s2)
                < phase_rank(s)) {
                let d = drive(s2);
                DriveRes { state: d.state, events: evs + d.events, failed: d.failed }
            } else {
                DriveRes { state: s2, events: evs, failed: false }
            }
        },
    }
}

/// The byte string `.tar`.
pub open spec fn tar_lit() -> Seq<u8> {
    seq![46u8, 116u8, 97u8, 114u8]
}

/// Builds the byte string `.tar`.
pub fn tar_bytes() -> (r: Vec<u8>)
    ensures
        r@ == tar_lit(),
{
    let mut r: Vec<u8> = Vec::new();
    r.push(46);
    r.push(116);
    r.push(97);
    r.push(114);
    proof {
        assert(r@ =~= tar_lit());
    }
    r
}

/// The byte string `/`.
pub open spec fn slash_lit() -> Seq<u8> {
    seq![47u8]
}

/// Builds the byte string `/`.
pub fn slash_bytes() -> (r: Vec<u8>)
    ensures
        r@ == slash_lit(),
{
    let mut r: Vec<u8> = Vec::new();
    r.push(47);
    proof {
        assert(r@ =~= slash_lit());
    }
    r
}

/// The byte string `ustar`.
pub open spec fn ustar_lit() -> Seq<u8> {
    seq![117u8, 115u8, 116u8, 97u8, 114u8]
}

/// Builds the byte string `ustar`.
pub fn ustar_bytes() -> (r: Vec<u8>)
    ensures
        r@ == ustar_lit(),
{
    let mut r: Vec<u8> = Vec::new();
    r.push(117);
    r.push(115);
    r.push(116);
    r.push(97);
    r.push(114);
    proof {
        assert(r@ =~= ustar_lit());
    }
    r
}

/// The byte string `version`.
pub open spec fn version_lit() -> Seq<u8> {
    seq![118u8, 101u8, 114u8, 115u8, 105u8, 111u8, 110u8]
}

/// Builds the byte string `version`.
pub fn version_bytes() -> (r: Vec<u8>)
    ensures
        r@ == version_lit(),
{
    let mut r: Vec<u8> = Vec::new();
    r.push(118);
    r.push(101);
    r.push(114);
    r.push(115);
    r.push(105);
    r.push(111);
    r.push(110);
    proof {
        assert(r@ =~= version_lit());
    }
    r
}

/// The byte string `header.tar/header-info`.
pub open spec fn header_info_lit() -> Seq<u8> {
    seq![104u8, 101u8, 97u8, 100u8, 101u8, 114u8, 46u8, 116u8, 97u8, 114u8, 47u8, 104u8, 101u8, 97u8, 100u8, 101u8, 114u8, 45u8, 105u8, 110u8, 102u8, 111u8]
}

/// Builds the byte string `header.tar/header-info`.
pub fn header_info_bytes() -> (r: Vec<u8>)
    ensures
        r@ == header_info_lit(),
{
    let mut r: Vec<u8> = Vec::new();
    r.push(104);
    r.push(101);
    r.push(97);
    r.push(100);
    r.push(101);
    r.push(114);
    r.push(46);
    r.push(116);
    r.push(97);
    r.push(114);
    r.push(47);
    r.push(104);
    r.push(101);
    r.push(97);
    r.push(100);
    r.push(101);
    r.push(114);
    r.push(45);
    r.push(105);
    r.push(110);
    r.push(102);
    r.push(111);
    proof {
        assert(r@ =~= header_info_lit());
    }
    r
}

/// The byte string `header.tar/headers`.
pub open spec fn headers_prefix_lit() -> Seq<u8> {
    seq![104u8, 101u8, 97u8, 100u8, 101u8, 114u8, 46u8, 116u8, 97u8, 114u8, 47u8, 104u8, 101u8, 97u8, 100u8, 101u8, 114u8, 115u8]
}

/// Builds the byte string `header.tar/headers`.
pub fn headers_prefix_bytes() -> (r: Vec<u8>)
    ensures
        r@ == headers_prefix_lit(),
{
    let mut r: Vec<u8> = Vec::new();
    r.push(104);
    r.push(101);
    r.push(97);
    r.push(100);
    r.push(101);
    r.push(114);
    r.push(46);
    r.push(116);
    r.push(97);
    r.push(114);
    r.push(47);
    r.push(104);
    r.push(101);
    r.push(97);
    r.push(100);
    r.push(101);
    r.push(114);
    r.push(115);
    proof {
        assert(r@ =~= headers_prefix_lit());
    }
    r
}

/// The byte string `header.tar/headers/`.
pub open spec fn headers_slash_lit() -> Seq<u8> {
    seq![104u8, 101u8, 97u8, 100u8, 101u8, 114u8, 46u8, 116u8, 97u8, 114u8, 47u8, 104u8, 101u8, 97u8, 100u8, 101u8, 114u8, 115u8, 47u8]
}

/// Builds the byte string `header.tar/headers/`.
pub fn headers_slash_bytes() -> (r: Vec<u8>)
    ensures
        r@ == headers_slash_lit(),
{
    let mut r: Vec<u8> = Vec::new();
    r.push(104);
    r.push(101);
    r.push(97);
    r.push(100);
    r.push(101);
    r.push(114);
    r.push(46);
    r.push(116);
    r.push(97);
    r.push(114);
    r.push(47);
    r.push(104);
    r.push(101);
    r.push(97);
    r.push(100);
    r.push(101);
    r.push(114);
    r.push(115);
    r.push(47);
    proof {
        assert(r@ =~= headers_slash_lit());
    }
    r
}

/// The byte string `type-info`.
pub open spec fn typeinfo_suffix_lit() -> Seq<u8> {
    seq![116u8, 121u8, 112u8, 101u8, 45u8, 105u8, 110u8, 102u8, 111u8]
}

/// Builds the byte string `type-info`.
pub fn typeinfo_suffix_bytes() -> (r: Vec<u8>)
    ensures
        r@ == typeinfo_suffix_lit(),
{
    let mut r: Vec<u8> = Vec::new();
    r.push(116);
    r.push(121);
    r.push(112);
    r.push(101);
    r.push(45);
    r.push(105);
    r.push(110);
    r.push(102);
    r.push(111);
    proof {
        assert(r@ =~= typeinfo_suffix_lit());
    }
    r
}

/// The byte string `/type-info`.
pub open spec fn slash_typeinfo_lit() -> Seq<u8> {
    seq![47u8, 116u8, 121u8, 112u8, 101u8, 45u8, 105u8, 110u8, 102u8, 111u8]
}

/// Builds the byte string `/type-info`.
pub fn slash_typeinfo_bytes() -> (r: Vec<u8>)
    ensures
        r@ == slash_typeinfo_lit(),
{
    let mut r: Vec<u8> = Vec::new();
    r.push(47);
    r.push(116);
    r.push(121);
    r.push(112);
    r.push(101);
    r.push(45);
    r.push(105);
    r.push(110);
    r.push(102);
    r.push(111);
    proof {
        assert(r@ =~= slash_typeinfo_lit());
    }
    r
}

/// The byte string `meta-data`.
pub open spec fn metadata_suffix_lit() -> Seq<u8> {
    seq![109u8, 101u8, 116u8, 97u8, 45u8, 100u8, 97u8, 116u8, 97u8]
}

/// Builds the byte string `meta-data`.
pub fn metadata_suffix_bytes() -> (r: Vec<u8>)
    ensures
        r@ == metadata_suffix_lit(),
{
    let mut r: Vec<u8> = Vec::new();
    r.push(109);
    r.push(101);
    r.push(116);
    r.push(97);
    r.push(45);
    r.push(100);
    r.push(97);
    r.push(116);
    r.push(97);
    proof {
        assert(r@ =~= metadata_suffix_lit());
    }
    r
}

/// The byte string `/meta-data`.
pub open spec fn slash_metadata_lit() -> Seq<u8> {
    seq![47u8, 109u8, 101u8, 116u8, 97u8, 45u8, 100u8, 97u8, 116u8, 97u8]
}

/// Builds the byte string `/meta-data`.
pub fn slash_metadata_bytes() -> (r: Vec<u8>)
    ensures
        r@ == slash_metadata_lit(),
{
    let mut r: Vec<u8> = Vec::new();
    r.push(47);
    r.push(109);
    r.push(101);
    r.push(116);
    r.push(97);
    r.push(45);
    r.push(100);
    r.push(97);
    r.push(116);
    r.push(97);
    proof {
        assert(r@ =~= slash_metadata_lit());
    }
    r
}

/// The byte string `data`.
pub open spec fn data_prefix_lit() -> Seq<u8> {
    seq![100u8, 97u8, 116u8, 97u8]
}

/// Builds the byte string `data`.
pub fn data_prefix_bytes() -> (r: Vec<u8>)
    ensures
        r@ == data_prefix_lit(),
{
    let mut r: Vec<u8> = Vec::new();
    r.push(100);
    r.push(97);
    r.push(116);
    r.push(97);
    proof {
        assert(r@ =~= data_prefix_lit());
    }
    r
}

/// The byte string `data/`.
pub open spec fn data_slash_lit() -> Seq<u8> {
    seq![100u8, 97u8, 116u8, 97u8, 47u8]
}

/// Builds the byte string `data/`.
pub fn data_slash_bytes() -> (r: Vec<u8>)
    ensures
        r@ == data_slash_lit(),
{
    let mut r: Vec<u8> = Vec::new();
    r.push(100);
    r.push(97);
    r.push(116);
    r.push(97);
    r.push(47);
    proof {
        assert(r@ =~= data_slash_lit());
    }
    r
}

/// The byte string `format`.
pub open spec fn format_key_lit() -> Seq<u8> {
    seq![102u8, 111u8, 114u8, 109u8, 97u8, 116u8]
}

/// Builds the byte string `format`.
pub fn format_key_bytes() -> (r: Vec<u8>)
    ensures
        r@ == format_key_lit(),
{
    let mut r: Vec<u8> = Vec::new();
    r.push(102);
    r.push(111);
    r.push(114);
    r.push(109);
    r.push(97);
    r.push(116);
    proof {
        assert(r@ =~= format_key_lit());
    }
    r
}

/// The byte string `mender`.
pub open spec fn mender_val_lit() -> Seq<u8> {
    seq![109u8, 101u8, 110u8, 100u8, 101u8, 114u8]
}

/// Builds the byte string `mender`.
pub fn mender_val_bytes() -> (r: Vec<u8>)
    ensures
        r@ == mender_val_lit(),
{
    let mut r: Vec<u8> = Vec::new();
    r.push(109);
    r.push(101);
    r.push(110);
    r.push(100);
    r.push(101);
    r.push(114);
    proof {
        assert(r@ =~= mender_val_lit());
    }
    r
}

/// The byte string `type`.
pub open spec fn type_key_lit() -> Seq<u8> {
    seq![116u8, 121u8, 112u8, 101u8]
}

/// Builds the byte string `type`.
pub fn type_key_bytes() -> (r: Vec<u8>)
    ensures
        r@ == type_key_lit(),
{
    let mut r: Vec<u8> = Vec::new();
    r.push(116);
    r.push(121);
    r.push(112);
    r.push(101);
    proof {
        assert(r@ =~= type_key_lit());
    }
    r
}

/// The byte string `rootfs-image.checksum`.
pub open spec fn rootfs_key_lit() -> Seq<u8> {
    seq![114u8, 111u8, 111u8, 116u8, 102u8, 115u8, 45u8, 105u8, 109u8, 97u8, 103u8, 101u8, 46u8, 99u8, 104u8, 101u8, 99u8, 107u8, 115u8, 117u8, 109u8]
}

/// Builds the byte string `rootfs-image.checksum`.
pub fn rootfs_key_bytes() -> (r: Vec<u8>)
    ensures
        r@ == rootfs_key_lit(),
{
    let mut r: Vec<u8> = Vec::new();
    r.push(114);
    r.push(111);
    r.push(111);
    r.push(116);
    r.push(102);
    r.push(115);
    r.push(45);
    r.push(105);
    r.push(109);
    r.push(97);
    r.push(103);
    r.push(101);
    r.push(46);
    r.push(99);
    r.push(104);
    r.push(101);
    r.push(99);
    r.push(107);
    r.push(115);
    r.push(117);
    r.push(109);
    proof {
        assert(r@ =~= rootfs_key_lit());
    }
    r
}

/// The byte string `module-image.checksum`.
pub open spec fn module_key_lit() -> Seq<u8> {
    seq![109u8, 111u8, 100u8, 117u8, 108u8, 101u8, 45u8, 105u8, 109u8, 97u8, 103u8, 101u8, 46u8, 99u8, 104u8, 101u8, 99u8, 107u8, 115u8, 117u8, 109u8]
}

/// Builds the byte string `module-image.checksum`.
pub fn module_key_bytes() -> (r: Vec<u8>)
    ensures
        r@ == module_key_lit(),
{
    let mut r: Vec<u8> = Vec::new();
    r.push(109);
    r.push(111);
    r.push(100);
    r.push(117);
    r.push(108);
    r.push(101);
    r.push(45);
    r.push(105);
    r.push(109);
    r.push(97);
    r.push(103);
    r.push(101);
    r.push(46);
    r.push(99);
    r.push(104);
    r.push(101);
    r.push(99);
    r.push(107);
    r.push(115);
    r.push(117);
    r.push(109);
    proof {
        assert(r@ =~= module_key_lit());
    }
    r
}

/// All bytes of `s` from `e` on are NUL and the byte before `e` (if any) is
/// not: then trimming trailing NULs cuts exactly at `e`.
proof fn lemma_trim_end_cut(s: Seq<u8>, e: int)
    requires
        0 <= e <= s.len(),
        forall|k: int| e <= k < s.len() ==> s[k] == 0,
        e > 0 ==> s[e - 1] != 0,
    ensures
        trim_nul_end(s) == s.take(e),
    decreases s.len(),
{
    if s.len() > 0 && s.last() == 0 {
        assert(e < s.len());
        lemma_trim_end_cut(s.drop_last(), e);
        assert(s.drop_last().take(e) =~= s.take(e));
    } else {
        assert(e == s.len());
        assert(s.take(e) =~= s);
    }
}

/// All bytes of `s` before `f` are NUL and the byte at `f` (if any) is not:
/// then trimming leading NULs cuts exactly at `f`.
proof fn lemma_trim_front_cut(s: Seq<u8>, f: int)
    requires
        0 <= f <= s.len(),
        forall|k: int| 0 <= k < f ==> s[k] == 0,
        f < s.len() ==> s[f] != 0,
    ensures
        trim_nul_front(s) == s.skip(f),
    decreases f,
{
    if s.len() > 0 && s.first() == 0 {
        assert(f > 0);
        lemma_trim_front_cut(s.drop_first(), f - 1);
        assert(s.drop_first().skip(f - 1) =~= s.skip(f));
    } else {
        assert(f == 0);
        assert(s.skip(0) =~= s);
    }
}

/// `s` with NUL bytes removed from both ends.
pub fn trim_nuls_exec(s: &[u8]) -> (r: Vec<u8>)
    ensures
        r@ == trim_nuls(s@),
{
    let n: usize = s.len();
    let mut e: usize = n;
    while e > 0 && s[e - 1] == 0
        invariant
            e <= n,
            n == s@.len(),
            forall|k: int| e <= k < n ==> s@[k] == 0,
        decreases e,
    {
        e = e - 1;
    }
    proof {
        lemma_trim_end_cut(s@, e as int);
    }
    let mut f: usize = 0;
    while f < e && s[f] == 0
        invariant
            f <= e <= n,
            n == s@.len(),
            forall|k: int| 0 <= k < f ==> s@[k] == 0,
        decreases e - f,
    {
        f = f + 1;
    }
    proof {
        let t = s@.take(e as int);
        lemma_trim_front_cut(t, f as int);
        assert(t.skip(f as int) =~= s@.subrange(f as int, e as int));
    }
    copy_range(s, f, e)
}

/// The path with the current file removed, keeping the innermost tar.
pub fn pop_name_exec(name: &[u8]) -> (r: Vec<u8>)
    ensures
        r@ == pop_name(name@),
{
    let nl: usize = name.len();
    let tar: Vec<u8> = tar_bytes();
    match crate::bytesutil::find_last(name, tar.as_slice()) {
        Some(p) => {
            proof {
                crate::bytesutil::lemma_last_occ_before_is_occ(
                    name@,
                    tar_lit(),
                    name@.len() - 4,
                    p as int,
                );
                assert(name@.take(p + 4) =~= name@.subrange(0, p + 4));
            }
            copy_range(name, 0, p + 4)
        },
        None => Vec::new(),
    }
}

/// The path with a nested tar level removed.
pub fn pop_tar_level_exec(name: &[u8]) -> (r: Vec<u8>)
    ensures
        r@ == pop_tar_level(name@),
{
    let nl: usize = name.len();
    if nl == 0 {
        return Vec::new();
    }
    let tar: Vec<u8> = tar_bytes();
    match crate::bytesutil::find_last(name, tar.as_slice()) {
        Some(p) => {
            proof {
                crate::bytesutil::lemma_last_occ_before_is_occ(
                    name@,
                    tar_lit(),
                    name@.len() - 4,
                    p as int,
                );
            }
            let t: Vec<u8> = copy_range(name, 0, p);
            proof {
                assert(t@ =~= name@.take(p as int));
            }
            match crate::bytesutil::find_first(t.as_slice(), tar.as_slice()) {
                Some(_) => t,
                None => Vec::new(),
            }
        },
        None => Vec::new(),
    }
}

/// The payload file name inside a data tar.
pub fn fname_of_exec(name: &[u8]) -> (r: Vec<u8>)
    ensures
        r@ == fname_of(name@),
{
    let nl: usize = name.len();
    let tar: Vec<u8> = tar_bytes();
    match crate::bytesutil::find_first(name, tar.as_slice()) {
        Some(p) => {
            proof {
                crate::bytesutil::lemma_first_occ_from_is_occ(name@, tar_lit(), 0, p as int);
            }
            let rest: Vec<u8> = copy_range(name, p + 4, name.len());
            proof {
                assert(rest@ =~= name@.skip(p + 4));
            }
            let seg: Vec<u8> = match crate::bytesutil::find_first(rest.as_slice(), tar.as_slice()) {
                Some(q) => {
                    proof {
                        crate::bytesutil::lemma_first_occ_from_is_occ(
                            rest@,
                            tar_lit(),
                            0,
                            q as int,
                        );
                        assert(rest@.take(q as int) =~= rest@.subrange(0, q as int));
                    }
                    copy_range(rest.as_slice(), 0, q)
                },
                None => rest,
            };
            if seg.len() > 1 {
                let r: Vec<u8> = copy_range(seg.as_slice(), 1, seg.len());
                proof {
                    assert(r@ =~= seg@.skip(1));
                }
                r
            } else {
                Vec::new()
            }
        },
        None => Vec::new(),
    }
}

/// The payload index a `data/NNNN.tar` path names.
pub fn data_index_of_exec(name: &[u8]) -> (r: Option<u32>)
    ensures
        match r {
            Some(v) => data_index_of(name@) == Some(v as int),
            None => data_index_of(name@) is None,
        },
{
    let prefix: Vec<u8> = data_slash_bytes();
    if !begins_with_exec(name, prefix.as_slice()) {
        return None;
    }
    let nl: usize = name.len();
    let rest: Vec<u8> = copy_range(name, 5, nl);
    proof {
        assert(rest@ =~= name@.skip(5));
    }
    let tar: Vec<u8> = tar_bytes();
    let seg: Vec<u8> = match crate::bytesutil::find_first(rest.as_slice(), tar.as_slice()) {
        Some(q) => {
            proof {
                crate::bytesutil::lemma_first_occ_from_is_occ(rest@, tar_lit(), 0, q as int);
                assert(rest@.take(q as int) =~= rest@.subrange(0, q as int));
            }
            copy_range(rest.as_slice(), 0, q)
        },
        None => rest,
    };
    parse_u32_dec(seg.as_slice())
}

/// The payload index a `header.tar/headers/NNNN/...` path names.
pub fn header_index_of_exec(name: &[u8]) -> (r: Option<u32>)
    ensures
        match r {
            Some(v) => header_index_of(name@) == Some(v as int),
            None => header_index_of(name@) is None,
        },
{
    let prefix: Vec<u8> = headers_slash_bytes();
    if !begins_with_exec(name, prefix.as_slice()) {
        return None;
    }
    let nl: usize = name.len();
    let rest: Vec<u8> = copy_range(name, 19, nl);
    proof {
        assert(rest@ =~= name@.skip(19));
    }
    let slash: Vec<u8> = slash_bytes();
    match crate::bytesutil::find_first(rest.as_slice(), slash.as_slice()) {
        Some(e) => {
            proof {
                crate::bytesutil::lemma_first_occ_from_is_occ(rest@, slash_lit(), 0, e as int);
                assert(rest@.take(e as int) =~= rest@.subrange(0, e as int));
            }
            let seg: Vec<u8> = copy_range(rest.as_slice(), 0, e);
            parse_u32_dec(seg.as_slice())
        },
        None => None,
    }
}

/// The outcome of one executable parser step.
pub enum AdvanceOut {
    NeedMore,
    Progressed(Vec<ArtifactEvent>),
}

impl MenderArtifactContext {
    /// A fresh parser: header phase, empty buffer, empty path, no payload.
    pub fn new() -> (r: MenderArtifactContext)
        ensures
            r@.phase == MenderArtifactStreamState::ParsingHeader,
            r@.buf == Seq::<u8>::empty(),
            r@.name == Seq::<u8>::empty(),
            r@.size == 0u32,
            r@.index == 0u32,
            r@.payload is None,
    {
        MenderArtifactContext {
            stream_state: MenderArtifactStreamState::ParsingHeader,
            input_data: Vec::new(),
            file_name: Vec::new(),
            file_size: 0,
            file_index: 0,
            payload: None,
        }
    }

    /// Drops `k` consumed bytes from the front of the buffer.
    fn consume(&mut self, k: usize)
        requires
            k <= old(self)@.buf.len(),
        ensures
            final(self)@ == (AView { buf: old(self)@.buf.skip(k as int), ..old(self)@ }),
    {
        let rest: Vec<u8> = copy_range(self.input_data.as_slice(), k, self.input_data.len());
        self.input_data = rest;
        proof {
            assert(self@.buf =~= old(self)@.buf.skip(k as int));
            assert(self@ == AView { buf: old(self)@.buf.skip(k as int), ..old(self)@ });
        }
    }

    /// Finishes the current file: consume `k` bytes, pop the path, reset the
    /// cursor and return to the header phase.
    fn finish(&mut self, k: usize)
        requires
            k <= old(self)@.buf.len(),
        ensures
            final(self)@ == finish_file(old(self)@, k as int),
    {
        self.consume(k);
        let popped: Vec<u8> = pop_name_exec(self.file_name.as_slice());
        self.file_name = popped;
        self.file_size = 0;
        self.file_index = 0;
        self.stream_state = MenderArtifactStreamState::ParsingHeader;
    }
}


impl MenderArtifactContext {
    /// One machine step on the buffered bytes: mirrors `astep` exactly.
    /// Returns `Ok(false)` when more bytes are needed, `Ok(true)` after a
    /// step (events appended to `events`), and the failure status when the
    /// stream is invalid.
    #[verifier::rlimit(100)]
    #[verifier::spinoff_prover]
    fn advance(&mut self, events: &mut Vec<ArtifactEvent>) -> (r: Result<bool, MenderStatus>)
        ensures
            match astep(old(self)@) {
                SpecStep::NeedMore => r == Ok::<bool, MenderStatus>(false)
                    && final(self)@ == old(self)@ && final(events)@ == old(events)@,
                SpecStep::Fail => r == Err::<bool, MenderStatus>(MenderStatus::Failed)
                    && final(events)@ == old(events)@,
                SpecStep::Advance(s2, evs) => r == Ok::<bool, MenderStatus>(true) && final(self)@
                    == s2 && evs_view(final(events)@) == evs_view(old(events)@) + evs,
            },
    {
        let ghost pre = self@;
        match self.stream_state {
            MenderArtifactStreamState::ParsingHeader => {
                if self.input_data.len() < 512 {
                    return Ok(false);
                }
                if self.input_data[0] == 0 {
                    if self.input_data.len() < 1024 {
                        return Ok(false);
                    }
                    self.consume(1024);
                    let popped: Vec<u8> = pop_tar_level_exec(self.file_name.as_slice());
                    self.file_name = popped;
                    proof {
                        assert(self@ == astep(pre)->Advance_0);
                        assert(evs_view(events@) =~= evs_view(events@) + Seq::<EventV>::empty());
                    }
                    return Ok(true);
                }
                let ustar: Vec<u8> = ustar_bytes();
                let magic_ok: bool = crate::bytesutil::occurs_at_exec(
                    self.input_data.as_slice(),
                    ustar.as_slice(),
                    257,
                );
                proof {
                    assert(pre.buf.subrange(257, 262) =~= pre.buf.subrange(
                        257,
                        257 + ustar_lit().len() as int,
                    ));
                }
                if !magic_ok {
                    return Err(MenderStatus::Failed);
                }
                let hname_raw: Vec<u8> = copy_range(self.input_data.as_slice(), 0, 100);
                let hname: Vec<u8> = trim_nuls_exec(hname_raw.as_slice());
                let size_raw: Vec<u8> = copy_range(self.input_data.as_slice(), 124, 136);
                let size_str: Vec<u8> = trim_nuls_exec(size_raw.as_slice());
                let size: u32 = match parse_u32_oct(size_str.as_slice()) {
                    Some(v) => v,
                    None => {
                        return Err(MenderStatus::Failed);
                    },
                };
                let new_name: Vec<u8> = if self.file_name.len() == 0 {
                    hname
                } else {
                    let mut nm: Vec<u8> = copy_range(
                        self.file_name.as_slice(),
                        0,
                        self.file_name.len(),
                    );
                    proof {
                        assert(nm@ =~= pre.name);
                    }
                    nm.push(47);
                    let mut j: usize = 0;
                    while j < hname.len()
                        invariant
                            j <= hname@.len(),
                            nm@ =~= pre.name + slash_lit() + hname@.take(j as int),
                        decreases hname@.len() - j,
                    {
                        nm.push(hname[j]);
                        j = j + 1;
                    }
                    proof {
                        assert(nm@ =~= pre.name + slash_lit() + hname@);
                    }
                    nm
                };
                self.consume(512);
                self.file_name = new_name;
                self.file_size = size;
                self.file_index = 0;
                self.stream_state = MenderArtifactStreamState::ParsingData;
                proof {
                    assert(self@ == astep(pre)->Advance_0);
                    assert(evs_view(events@) =~= evs_view(events@) + Seq::<EventV>::empty());
                }
                return Ok(true);
            },
            MenderArtifactStreamState::ParsingData => {
                let padded64: u64 = round_up_u64(self.file_size, 512);
                let buf_len: usize = self.input_data.len();
                let version_l: Vec<u8> = version_bytes();
                let headers_prefix: Vec<u8> = headers_prefix_bytes();
                let data_prefix: Vec<u8> = data_prefix_bytes();
                if crate::bytesutil::eq_bytes(self.file_name.as_slice(), version_l.as_slice()) {
                    if buf_len == 0 || (buf_len as u64) < padded64 {
                        return Ok(false);
                    }
                    let padded: usize = padded64 as usize;
                    let content: Vec<u8> = copy_range(
                        self.input_data.as_slice(),
                        0,
                        self.file_size as usize,
                    );
                    proof {
                        assert(content@ =~= pre.buf.take(pre.size as int));
                    }
                    let fk: Vec<u8> = format_key_bytes();
                    let mv: Vec<u8> = mender_val_bytes();
                    let fmt_ok: bool = match json_find_string(content.as_slice(), fk.as_slice()) {
                        Some(v) => crate::bytesutil::eq_bytes(v.as_slice(), mv.as_slice()),
                        None => false,
                    };
                    let ver_ok: bool = json_int_equals(content.as_slice(), version_l.as_slice(), 3);
                    if fmt_ok && ver_ok {
                        self.finish(padded);
                        proof {
                            assert(self@ == astep(pre)->Advance_0);
                            assert(evs_view(events@) =~= evs_view(events@)
                                + Seq::<EventV>::empty());
                        }
                        return Ok(true);
                    }
                    return Err(MenderStatus::Failed);
                }
                let header_info_l: Vec<u8> = header_info_bytes();
                if crate::bytesutil::eq_bytes(self.file_name.as_slice(), header_info_l.as_slice()) {
                    if buf_len == 0 || (buf_len as u64) < padded64 {
                        return Ok(false);
                    }
                    let padded: usize = padded64 as usize;
                    let content: Vec<u8> = copy_range(
                        self.input_data.as_slice(),
                        0,
                        self.file_size as usize,
                    );
                    proof {
                        assert(content@ =~= pre.buf.take(pre.size as int));
                    }
                    let tk: Vec<u8> = type_key_bytes();
                    let tp: Vec<u8> = match json_find_string(content.as_slice(), tk.as_slice()) {
                        Some(v) => v,
                        None => {
                            return Err(MenderStatus::Failed);
                        },
                    };
                    self.payload = Some(
                        MenderArtifactPayload {
                            payload_type: tp,
                            checksum: Vec::new(),
                            meta_data: None,
                        },
                    );
                    self.finish(padded);
                    proof {
                        assert(self@ == astep(pre)->Advance_0);
                        assert(evs_view(events@) =~= evs_view(events@) + Seq::<EventV>::empty());
                    }
                    return Ok(true);
                }
                let is_headers: bool = begins_with_exec(
                    self.file_name.as_slice(),
                    headers_prefix.as_slice(),
                );
                let typeinfo_suffix: Vec<u8> = typeinfo_suffix_bytes();
                let metadata_suffix: Vec<u8> = metadata_suffix_bytes();
                if is_headers && finishes_with_exec(
                    self.file_name.as_slice(),
                    typeinfo_suffix.as_slice(),
                ) {
                    if buf_len == 0 || (buf_len as u64) < padded64 {
                        return Ok(false);
                    }
                    let padded: usize = padded64 as usize;
                    let content: Vec<u8> = copy_range(
                        self.input_data.as_slice(),
                        0,
                        self.file_size as usize,
                    );
                    proof {
                        assert(content@ =~= pre.buf.take(pre.size as int));
                    }
                    let rk: Vec<u8> = rootfs_key_bytes();
                    let mk: Vec<u8> = module_key_bytes();
                    let cs: Vec<u8> = match json_find_string(content.as_slice(), rk.as_slice()) {
                        Some(v) => v,
                        None => {
                            match json_find_string(content.as_slice(), mk.as_slice()) {
                                Some(v) => v,
                                None => {
                                    return Err(MenderStatus::Failed);
                                },
                            }
                        },
                    };
                    let st: Vec<u8> = slash_typeinfo_bytes();
                    if !finishes_with_exec(self.file_name.as_slice(), st.as_slice()) {
                        return Err(MenderStatus::Failed);
                    }
                    let ix: u32 = match header_index_of_exec(self.file_name.as_slice()) {
                        Some(v) => v,
                        None => {
                            return Err(MenderStatus::Failed);
                        },
                    };
                    if self.payload.is_none() || ix >= 1 {
                        return Err(MenderStatus::Failed);
                    }
                    let tp: Vec<u8>;
                    let meta_opt: Option<Vec<u8>>;
                    {
                        let p: &MenderArtifactPayload = self.payload.as_ref().unwrap();
                        tp = copy_range(p.payload_type.as_slice(), 0, p.payload_type.len());
                        meta_opt = match p.meta_data.as_ref() {
                            Some(m) => Some(copy_range(m.as_slice(), 0, m.len())),
                            None => None,
                        };
                    }
                    self.payload = Some(
                        MenderArtifactPayload { payload_type: tp, checksum: cs, meta_data: meta_opt },
                    );
                    self.finish(padded);
                    proof {
                        assert(self@.payload == astep(pre)->Advance_0.payload);
                        assert(self@ == astep(pre)->Advance_0);
                        assert(evs_view(events@) =~= evs_view(events@) + Seq::<EventV>::empty());
                    }
                    return Ok(true);
                }
                if is_headers && finishes_with_exec(
                    self.file_name.as_slice(),
                    metadata_suffix.as_slice(),
                ) {
                    let sm: Vec<u8> = slash_metadata_bytes();
                    if !finishes_with_exec(self.file_name.as_slice(), sm.as_slice()) {
                        return Err(MenderStatus::Failed);
                    }
                    let ix: u32 = match header_index_of_exec(self.file_name.as_slice()) {
                        Some(v) => v,
                        None => {
                            return Err(MenderStatus::Failed);
                        },
                    };
                    if self.payload.is_none() || ix >= 1 {
                        return Err(MenderStatus::Failed);
                    }
                    if padded64 == 0 {
                        self.finish(0);
                        proof {
                            assert(self@ == astep(pre)->Advance_0);
                            assert(evs_view(events@) =~= evs_view(events@)
                                + Seq::<EventV>::empty());
                        }
                        return Ok(true);
                    }
                    if buf_len == 0 || (buf_len as u64) < padded64 {
                        return Ok(false);
                    }
                    let padded: usize = padded64 as usize;
                    let content: Vec<u8> = copy_range(
                        self.input_data.as_slice(),
                        0,
                        self.file_size as usize,
                    );
                    proof {
                        assert(content@ =~= pre.buf.take(pre.size as int));
                    }
                    let tp: Vec<u8>;
                    let cs: Vec<u8>;
                    {
                        let p: &MenderArtifactPayload = self.payload.as_ref().unwrap();
                        tp = copy_range(p.payload_type.as_slice(), 0, p.payload_type.len());
                        cs = copy_range(p.checksum.as_slice(), 0, p.checksum.len());
                    }
                    self.payload = Some(
                        MenderArtifactPayload {
                            payload_type: tp,
                            checksum: cs,
                            meta_data: Some(content),
                        },
                    );
                    self.finish(padded);
                    proof {
                        assert(self@ == astep(pre)->Advance_0);
                        assert(evs_view(events@) =~= evs_view(events@) + Seq::<EventV>::empty());
                    }
                    return Ok(true);
                }
                if begins_with_exec(self.file_name.as_slice(), data_prefix.as_slice()) {
                    let ix: u32 = match data_index_of_exec(self.file_name.as_slice()) {
                        Some(v) => v,
                        None => {
                            return Err(MenderStatus::Failed);
                        },
                    };
                    if self.payload.is_none() || ix >= 1 {
                        return Err(MenderStatus::Failed);
                    }
                    let tp: Vec<u8>;
                    let cs: Vec<u8>;
                    let meta: Vec<u8>;
                    {
                        let p: &MenderArtifactPayload = self.payload.as_ref().unwrap();
                        tp = copy_range(p.payload_type.as_slice(), 0, p.payload_type.len());
                        cs = copy_range(p.checksum.as_slice(), 0, p.checksum.len());
                        meta = match p.meta_data.as_ref() {
                            Some(m) => copy_range(m.as_slice(), 0, m.len()),
                            None => Vec::new(),
                        };
                    }
                    if self.file_name.len() == 13 {
                        let ev: ArtifactEvent = ArtifactEvent::Begin {
                            payload_type: tp,
                            meta: meta,
                            checksum: cs,
                        };
                        let ghost ev_v = ev@;
                        events.push(ev);
                        self.finish(0);
                        proof {
                            assert(self@ == astep(pre)->Advance_0);
                            assert(evs_view(events@) =~= evs_view(old(events)@) + seq![ev_v]);
                        }
                        return Ok(true);
                    }
                    if padded64 == 0 {
                        self.finish(0);
                        proof {
                            assert(self@ == astep(pre)->Advance_0);
                            assert(evs_view(events@) =~= evs_view(events@)
                                + Seq::<EventV>::empty());
                        }
                        return Ok(true);
                    }
                    if self.file_index < self.file_size {
                        if buf_len == 0 || buf_len < 512 {
                            return Ok(false);
                        }
                        let blen: u32 = if self.file_size - self.file_index < 512 {
                            self.file_size - self.file_index
                        } else {
                            512
                        };
                        let data: Vec<u8> = copy_range(
                            self.input_data.as_slice(),
                            0,
                            blen as usize,
                        );
                        proof {
                            assert(data@ =~= pre.buf.take(blen as int));
                        }
                        let fname: Vec<u8> = fname_of_exec(self.file_name.as_slice());
                        let ev: ArtifactEvent = ArtifactEvent::Chunk {
                            filename: fname,
                            size: self.file_size,
                            data: data,
                            offset: self.file_index,
                            total: blen,
                            checksum: cs,
                        };
                        let ghost ev_v = ev@;
                        events.push(ev);
                        self.consume(512);
                        self.file_index = if self.file_index <= 0xFFFFFFFFu32 - 512 {
                            self.file_index + 512
                        } else {
                            0xFFFFFFFFu32
                        };
                        proof {
                            assert(self@ == astep(pre)->Advance_0);
                            assert(evs_view(events@) =~= evs_view(old(events)@) + seq![ev_v]);
                        }
                        return Ok(true);
                    }
                    self.finish(0);
                    proof {
                        assert(self@ == astep(pre)->Advance_0);
                        assert(evs_view(events@) =~= evs_view(events@) + Seq::<EventV>::empty());
                    }
                    return Ok(true);
                }
                let tar: Vec<u8> = tar_bytes();
                if !finishes_with_exec(self.file_name.as_slice(), tar.as_slice()) {
                    if padded64 == 0 {
                        self.finish(0);
                        proof {
                            assert(self@ == astep(pre)->Advance_0);
                            assert(evs_view(events@) =~= evs_view(events@)
                                + Seq::<EventV>::empty());
                        }
                        return Ok(true);
                    }
                    if self.file_index < self.file_size {
                        if buf_len == 0 || buf_len < 512 {
                            return Ok(false);
                        }
                        self.consume(512);
                        self.file_index = if self.file_index <= 0xFFFFFFFFu32 - 512 {
                            self.file_index + 512
                        } else {
                            0xFFFFFFFFu32
                        };
                        proof {
                            assert(self@ == astep(pre)->Advance_0);
                            assert(evs_view(events@) =~= evs_view(events@)
                                + Seq::<EventV>::empty());
                        }
                        return Ok(true);
                    }
                    self.finish(0);
                    proof {
                        assert(self@ == astep(pre)->Advance_0);
                        assert(evs_view(events@) =~= evs_view(events@) + Seq::<EventV>::empty());
                    }
                    return Ok(true);
                }
                self.finish(0);
                proof {
                    assert(self@ == astep(pre)->Advance_0);
                    assert(evs_view(events@) =~= evs_view(events@) + Seq::<EventV>::empty());
                }
                return Ok(true);
            },
        }
    }

    /// Feeds one chunk of the artifact stream and drains the machine: the
    /// resulting state, events and verdict are those of `drive` on the
    /// buffered bytes with the chunk appended, so they depend only on the
    /// bytes fed so far and never on how the stream was split into chunks.
    #[verifier::rlimit(100)]
    #[verifier::spinoff_prover]
    pub fn mender_artifact_process_data(&mut self, input: &[u8]) -> (r: Result<
        Vec<ArtifactEvent>,
        MenderStatus,
    >)
        ensures
            ({
                let s0 = AView { buf: old(self)@.buf + input@, ..old(self)@ };
                let d = drive(s0);
                match r {
                    Ok(evs) => !d.failed && final(self)@ == d.state && evs_view(evs@) == d.events,
                    Err(e) => e == MenderStatus::Failed && d.failed,
                }
            }),
    {
        let ghost s0 = AView { buf: old(self)@.buf + input@, ..old(self)@ };
        let mut i: usize = 0;
        while i < input.len()
            invariant
                i <= input@.len(),
                self@ == (AView { buf: old(self)@.buf + input@.take(i as int), ..old(self)@ }),
            decreases input@.len() - i,
        {
            let ghost prev = self@;
            self.input_data.push(input[i]);
            proof {
                assert(self@.buf =~= old(self)@.buf + input@.take(i + 1));
                assert(self@ == AView { buf: old(self)@.buf + input@.take(i + 1), ..old(self)@ });
            }
            i = i + 1;
        }
        proof {
            assert(input@.take(input@.len() as int) =~= input@);
            assert(self@ == s0);
        }
        let mut events: Vec<ArtifactEvent> = Vec::new();
        proof {
            assert(evs_view(events@) =~= Seq::<EventV>::empty());
            assert(Seq::<EventV>::empty() + drive(s0).events =~= drive(s0).events);
        }
        loop
            invariant
                s0 == (AView { buf: old(self)@.buf + input@, ..old(self)@ }),
                drive(s0).state == drive(self@).state,
                drive(s0).failed == drive(self@).failed,
                drive(s0).events == evs_view(events@) + drive(self@).events,
            decreases self@.buf.len(), phase_rank(self@),
        {
            let ghost pre = self@;
            let ghost pre_events = events@;
            let stepped: bool = match self.advance(&mut events) {
                Ok(b) => b,
                Err(e) => {
                    proof {
                        assert(astep(pre) is Fail);
                        assert(drive(pre).failed);
                        assert(drive(s0).failed);
                    }
                    return Err(e);
                },
            };
            if !stepped {
                proof {
                    assert(astep(pre) is NeedMore);
                    assert(self@ == pre);
                    assert(events@ == pre_events);
                    assert(drive(pre).state == pre);
                    assert(!drive(pre).failed);
                    assert(drive(pre).events =~= Seq::<EventV>::empty());
                    assert(drive(s0).events == evs_view(pre_events) + drive(pre).events);
                    assert(evs_view(pre_events) + Seq::<EventV>::empty()
                        =~= evs_view(pre_events));
                    assert(drive(s0).events == evs_view(events@));
                    assert(drive(s0).state == self@);
                    assert(!drive(s0).failed);
                }
                return Ok(events);
            }
            proof {
                let s2 = astep(pre)->Advance_0;
                let evs = astep(pre)->Advance_1;
                lemma_astep_decreases(pre);
                assert(drive(pre).state == drive(s2).state);
                assert(drive(pre).failed == drive(s2).failed);
                assert(drive(pre).events == evs + drive(s2).events);
                assert(evs_view(events@) =~= evs_view(pre_events) + evs);
                assert(evs_view(pre_events) + (evs + drive(s2).events) =~= (evs_view(pre_events)
                    + evs) + drive(s2).events);
            }
        }
    }
}


/// The state with `e` appended to the unconsumed bytes.
pub open spec fn ext_state(s: AView, e: Seq<u8>) -> AView {
    AView { buf: s.buf + e, ..s }
}

/// Appending bytes never changes an enabled step: a step that fails still
/// fails, and a step that advances consumes the same bytes and emits the
/// same events, because every step reads only a prefix of the buffer whose
/// length its guard has already established.
#[verifier::rlimit(100)]
#[verifier::spinoff_prover]
pub proof fn lemma_astep_extension(s: AView, e: Seq<u8>)
    ensures
        match astep(s) {
            SpecStep::NeedMore => true,
            SpecStep::Fail => astep(ext_state(s, e)) is Fail,
            SpecStep::Advance(s2, evs) => astep(ext_state(s, e)) == SpecStep::Advance(
                ext_state(s2, e),
                evs,
            ),
        },
{
    let t = ext_state(s, e);
    assert(t.buf.len() == s.buf.len() + e.len());
    match s.phase {
        MenderArtifactStreamState::ParsingHeader => {
            if s.buf.len() < 512 {
            } else {
                assert(t.buf[0] == s.buf[0]);
                if s.buf[0] == 0 {
                    if s.buf.len() < 1024 {
                    } else {
                        assert(t.buf.skip(1024) =~= s.buf.skip(1024) + e);
                        let s2 = astep(s)->Advance_0;
                        assert(ext_state(s2, e).buf =~= t.buf.skip(1024));
                        assert(astep(t) == SpecStep::Advance(ext_state(s2, e), Seq::<
                            EventV,
                        >::empty()));
                    }
                } else {
                    assert(t.buf.subrange(257, 262) =~= s.buf.subrange(257, 262));
                    if s.buf.subrange(257, 262) != ustar_lit() {
                    } else {
                        assert(t.buf.subrange(0, 100) =~= s.buf.subrange(0, 100));
                        assert(t.buf.subrange(124, 136) =~= s.buf.subrange(124, 136));
                        let size_str = trim_nuls(s.buf.subrange(124, 136));
                        if !(oct_ok(size_str) && oct_val(size_str) <= u32::MAX) {
                        } else {
                            assert(t.buf.skip(512) =~= s.buf.skip(512) + e);
                            let s2 = astep(s)->Advance_0;
                            assert(ext_state(s2, e).buf =~= t.buf.skip(512));
                            assert(astep(t) == SpecStep::Advance(ext_state(s2, e), Seq::<
                                EventV,
                            >::empty()));
                        }
                    }
                }
            }
        },
        MenderArtifactStreamState::ParsingData => {
            let padded = spec_round_up(s.size as int, 512);
            assert(padded >= s.size) by {
                vstd::arithmetic::div_mod::lemma_mod_division_less_than_divisor(
                    s.size as int,
                    512,
                );
                vstd::arithmetic::div_mod::lemma_mod_bound(
                    512 - (s.size as int) % 512,
                    512,
                );
            }
            if astep(s) is NeedMore {
            } else if astep(s) is Fail {
                if s.buf.len() >= padded && s.buf.len() > 0 {
                    assert(t.buf.take(s.size as int) =~= s.buf.take(s.size as int));
                }
            } else {
                let s2 = astep(s)->Advance_0;
                let evs = astep(s)->Advance_1;
                if s.buf.len() >= padded && s.buf.len() > 0 && padded <= s.buf.len() {
                    assert(t.buf.take(s.size as int) =~= s.buf.take(s.size as int));
                }
                if s.buf.len() >= 512 {
                    assert(t.buf.take(512) =~= s.buf.take(512));
                    if s.size > s.index && s.size - s.index < 512 {
                        assert(t.buf.take((s.size - s.index) as int) =~= s.buf.take(
                            (s.size - s.index) as int,
                        ));
                    }
                    assert(t.buf.skip(512) =~= s.buf.skip(512) + e);
                }
                if padded <= s.buf.len() {
                    assert(t.buf.skip(padded) =~= s.buf.skip(padded) + e);
                }
                assert(t.buf.skip(0) =~= s.buf.skip(0) + e);
                assert(ext_state(s2, e).buf =~= (astep(t)->Advance_0).buf);
                assert(astep(t) == SpecStep::Advance(ext_state(s2, e), evs));
            }
        },
    }
}

/// Running the machine on a buffer with more bytes appended first replays
/// exactly the steps and events of the shorter run, then continues from its
/// final state with the appended bytes.
#[verifier::rlimit(100)]
#[verifier::spinoff_prover]
pub proof fn lemma_drive_extension(s: AView, e: Seq<u8>)
    ensures
        !drive(s).failed ==> {
            let rest = drive(ext_state(drive(s).state, e));
            &&& drive(ext_state(s, e)).state == rest.state
            &&& drive(ext_state(s, e)).failed == rest.failed
            &&& drive(ext_state(s, e)).events == drive(s).events + rest.events
        },
    decreases s.buf.len(), phase_rank(s),
{
    lemma_astep_extension(s, e);
    match astep(s) {
        SpecStep::NeedMore => {
            assert(drive(s).state == s);
            assert(drive(s).events =~= Seq::<EventV>::empty());
            assert(Seq::<EventV>::empty() + drive(ext_state(s, e)).events =~= drive(
                ext_state(s, e),
            ).events);
        },
        SpecStep::Fail => {
        },
        SpecStep::Advance(s2, evs) => {
            lemma_astep_decreases(s);
            if !drive(s).failed {
                lemma_drive_extension(s2, e);
                let t = ext_state(s, e);
                let t2 = ext_state(s2, e);
                assert(astep(t) == SpecStep::Advance(t2, evs));
                assert(t2.buf.len() < t.buf.len() || (t2.buf.len() == t.buf.len()
                    && phase_rank(t2) < phase_rank(t)));
                assert(drive(t).events == evs + drive(t2).events);
                assert(drive(s).events == evs + drive(s2).events);
                let rest = drive(ext_state(drive(s2).state, e));
                assert(drive(t2).events == drive(s2).events + rest.events);
                assert(evs + (drive(s2).events + rest.events) =~= (evs + drive(s2).events)
                    + rest.events);
            }
        },
    }
}

/// Chunking invariance: any split of the stream into two chunks delivers
/// the same final state, the same events in the same order, and the same
/// verdict as delivering the concatenation at once. Together with the
/// contract of `mender_artifact_process_data` (whose outcome is exactly
/// `drive` of the buffered bytes), the parser's output never depends on how
/// the incoming stream was chunked.
pub proof fn lemma_process_chunking(s: AView, a: Seq<u8>, b: Seq<u8>)
    ensures
        !drive(ext_state(s, a)).failed ==> {
            let first = drive(ext_state(s, a));
            let second = drive(ext_state(first.state, b));
            let whole = drive(ext_state(s, a + b));
            &&& whole.state == second.state
            &&& whole.failed == second.failed
            &&& whole.events == first.events + second.events
        },
{
    assert(ext_state(ext_state(s, a), b) == ext_state(s, a + b)) by {
        assert((s.buf + a) + b =~= s.buf + (a + b));
    }
    lemma_drive_extension(ext_state(s, a), b);
}


} // verus!
