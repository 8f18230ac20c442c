//! CAN ingress and the telemetry outbox. Only extended (29-bit) frames are
//! accepted; frames queue in a bounded FIFO whose delivery order is the
//! arrival order, so frames queued before a transport switch and not
//! dropped leave in their original order after the switch.

use vstd::prelude::*;

verus! {

/// The CAN identifier whose frames are forwarded to the broker.
pub const MQTT_CAN_PACKET: u32 = 0x00001234;

/// Capacity of the outbox.
pub const OUTBOX_CAPACITY: usize = 16;

/// One CAN frame as the uplink sees it.
#[derive(Debug, Clone, Copy, PartialEq, Eq)]
pub struct CanFrame {
    pub id: u32,
    pub len: u8,
    pub data: [u8; 8],
}

/// Whether an incoming frame is forwarded: only extended frames with the
/// telemetry identifier are.
pub open spec fn spec_frame_accepted(extended: bool, id: u32) -> bool {
    extended && id == MQTT_CAN_PACKET
}

/// Decides whether a received frame is queued for the broker.
pub fn frame_accepted(extended: bool, id: u32) -> (r: bool)
    ensures
        r == spec_frame_accepted(extended, id),
{
    extended && id == MQTT_CAN_PACKET
}

/// A bounded FIFO of frames awaiting publication. When full, the newest
/// frame is dropped at the producer.
pub struct Outbox {
    frames: Vec<CanFrame>,
}

impl Outbox {
    /// The queued frames, oldest first.
    pub closed spec fn queued(&self) -> Seq<CanFrame> {
        self.frames@
    }

    /// An empty outbox.
    pub fn new() -> (r: Outbox)
        ensures
            r.queued() == Seq::<CanFrame>::empty(),
    {
        Outbox { frames: Vec::new() }
    }

    /// How many frames wait.
    pub fn len(&self) -> (n: usize)
        ensures
            n == self.queued().len(),
    {
        self.frames.len()
    }

    /// Queues a frame behind all earlier ones; a full outbox drops it and
    /// reports false.
    pub fn try_send(&mut self, f: CanFrame) -> (r: bool)
        ensures
            old(self).queued().len() < OUTBOX_CAPACITY ==> r
                && final(self).queued() == old(self).queued().push(f),
            old(self).queued().len() >= OUTBOX_CAPACITY ==> !r
                && final(self).queued() == old(self).queued(),
    {
        if self.frames.len() >= OUTBOX_CAPACITY {
            return false;
        }
        self.frames.push(f);
        true
    }

    /// Takes the oldest queued frame.
    pub fn try_receive(&mut self) -> (r: Option<CanFrame>)
        ensures
            match r {
                Some(f) => old(self).queued().len() > 0 && f == old(self).queued()[0]
                    && final(self).queued() == old(self).queued().drop_first(),
                None => old(self).queued().len() == 0
                    && final(self).queued() == old(self).queued(),
            },
    {
        if self.frames.len() == 0 {
            return None;
        }
        let f: CanFrame = self.frames.remove(0);
        proof {
            assert(self.frames@ =~= old(self).queued().drop_first());
        }
        Some(f)
    }
}

/// Delivery order law: receiving from the outbox yields exactly the queued
/// frames, oldest first — in particular, frames queued before a transport
/// switch and not dropped come out in their original order after the
/// switch, which never touches the queue.
pub proof fn lemma_outbox_fifo(q: Seq<CanFrame>, k: int)
    requires
        0 <= k < q.len(),
    ensures
        q.drop_first().len() == q.len() - 1,
        k > 0 ==> q.drop_first()[k - 1] == q[k],
{
}

/// An uppercase hexadecimal digit.
pub open spec fn hex_upper_digit(d: u32) -> u8 {
    if d < 10 {
        (48 + d) as u8
    } else {
        (55 + d) as u8
    }
}

/// The eight uppercase hexadecimal digits of a 32-bit identifier.
pub open spec fn spec_hex8_upper(x: u32) -> Seq<u8> {
    Seq::new(8nat, |i: int| hex_upper_digit((x >> ((28 - 4 * i) as u32)) & 0xF))
}

/// Renders a 32-bit identifier as eight uppercase hexadecimal digits.
pub fn hex8_upper(x: u32) -> (r: Vec<u8>)
    ensures
        r@ == spec_hex8_upper(x),
{
    let mut r: Vec<u8> = Vec::new();
    let mut i: u32 = 0;
    while i < 8
        invariant
            i <= 8,
            r@ =~= spec_hex8_upper(x).take(i as int),
        decreases 8 - i,
    {
        let sh: u32 = 28 - 4 * i;
        let d: u32 = (x >> sh) & 0xF;
        proof {
            let y = x >> sh;
            assert(y & 0xF < 16) by (bit_vector);
        }
        r.push(
            if d < 10 {
                (48 + d) as u8
            } else {
                (55 + d) as u8
            },
        );
        proof {
            assert(r@ =~= spec_hex8_upper(x).take(i + 1));
        }
        i = i + 1;
    }
    proof {
        assert(spec_hex8_upper(x).take(8) =~= spec_hex8_upper(x));
    }
    r
}

/// The two uppercase hexadecimal digits of a byte.
pub open spec fn spec_hex2_upper(b: u8) -> Seq<u8> {
    seq![hex_upper_digit((b as u32) / 16), hex_upper_digit((b as u32) % 16)]
}

/// The publish topic for a message kind: `channels/<client>/messages/client/`
/// followed by the kind.
pub open spec fn spec_mqtt_topic(client_id: Seq<u8>, kind: Seq<u8>) -> Seq<u8> {
    "channels/"@.map_values(|c: char| c as u8) + client_id + "/messages/client/"@.map_values(
        |c: char| c as u8,
    ) + kind
}

/// Builds the publish topic for a message kind.
pub fn mqtt_topic(client_id: &[u8], kind: &[u8]) -> (r: Vec<u8>)
    ensures
        r@ == spec_mqtt_topic(client_id@, kind@),
{
    let mut r: Vec<u8> = Vec::new();
    crate::bytesutil::push_bytes(&mut r, &[99, 104, 97, 110, 110, 101, 108, 115, 47]);
    crate::bytesutil::push_bytes(&mut r, client_id);
    crate::bytesutil::push_bytes(
        &mut r,
        &[47, 109, 101, 115, 115, 97, 103, 101, 115, 47, 99, 108, 105, 101, 110, 116, 47],
    );
    crate::bytesutil::push_bytes(&mut r, kind);
    proof {
        reveal_strlit("channels/");
        reveal_strlit("/messages/client/");
        assert(r@ =~= spec_mqtt_topic(client_id@, kind@));
    }
    r
}

/// The comma-separated uppercase hex dump of the first `n` data bytes.
pub open spec fn spec_data_list(data: Seq<u8>, n: int) -> Seq<u8>
    decreases n,
{
    if n <= 0 {
        Seq::empty()
    } else {
        spec_data_list(data, n - 1) + (if n > 1 {
            seq![44u8, 32u8]
        } else {
            Seq::empty()
        }) + spec_hex2_upper(data[n - 1])
    }
}

/// The JSON line published for a frame: its identifier in uppercase hex,
/// its length, and its eight data bytes as a hex dump.
pub open spec fn spec_frame_json(f: CanFrame) -> Seq<u8> {
    "{\"id\": \""@.map_values(|c: char| c as u8) + spec_hex8_upper(f.id)
        + "\", \"len\": "@.map_values(|c: char| c as u8) + crate::bytesutil::dec_digits(
        f.len as nat,
    ) + ", \"data\": \"["@.map_values(|c: char| c as u8) + spec_data_list(f.data@, 8)
        + "]\"}"@.map_values(|c: char| c as u8)
}

/// Renders the JSON line published for a frame.
pub fn can_frame_json(f: &CanFrame) -> (r: Vec<u8>)
    ensures
        r@ == spec_frame_json(*f),
{
    let mut r: Vec<u8> = Vec::new();
    crate::bytesutil::push_bytes(&mut r, &[123, 34, 105, 100, 34, 58, 32, 34]);
    let idhex: Vec<u8> = hex8_upper(f.id);
    crate::bytesutil::push_bytes(&mut r, idhex.as_slice());
    crate::bytesutil::push_bytes(&mut r, &[34, 44, 32, 34, 108, 101, 110, 34, 58, 32]);
    crate::bytesutil::push_dec(&mut r, f.len as u32);
    crate::bytesutil::push_bytes(
        &mut r,
        &[44, 32, 34, 100, 97, 116, 97, 34, 58, 32, 34, 91],
    );
    let mut i: usize = 0;
    let ghost mid = r@;
    while i < 8
        invariant
            i <= 8,
            r@ =~= mid + spec_data_list(f.data@, i as int),
        decreases 8 - i,
    {
        if i > 0 {
            r.push(44);
            r.push(32);
        }
        let b: u8 = f.data[i];
        let hi: u32 = (b as u32) / 16;
        let lo: u32 = (b as u32) % 16;
        r.push(
            if hi < 10 {
                (48 + hi) as u8
            } else {
                (55 + hi) as u8
            },
        );
        r.push(
            if lo < 10 {
                (48 + lo) as u8
            } else {
                (55 + lo) as u8
            },
        );
        proof {
            assert(r@ =~= mid + spec_data_list(f.data@, i + 1));
        }
        i = i + 1;
    }
    crate::bytesutil::push_bytes(&mut r, &[93, 34, 125]);
    proof {
        reveal_strlit("{\"id\": \"");
        reveal_strlit("\", \"len\": ");
        reveal_strlit(", \"data\": \"[");
        reveal_strlit("]\"}");
        assert(r@ =~= spec_frame_json(*f));
    }
    r
}

} // verus!

