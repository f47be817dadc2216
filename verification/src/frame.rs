//! The wire format: each message crosses the transport as one frame, a
//! 4-byte little-endian unsigned length followed by exactly that many
//! payload bytes. There is no magic number, version byte, or checksum.
//!
//! `encode_frame` is the framed writer's step: it turns one message into its
//! frame. `FrameReader` is the framed reader's state machine: fed the exact
//! chunks it asks for, it yields one message per frame. `read_messages` runs
//! that machine over a whole buffer, and the lemmas at the end state the
//! round-trip and order-preservation guarantees of the format.

use vstd::prelude::*;
use vstd::bytes::{
    spec_u32_from_le_bytes, spec_u32_to_le_bytes, lemma_auto_spec_u32_to_from_le_bytes,
    u32_from_le_bytes, u32_to_le_bytes,
};

verus! {

/// A message fits in a frame when its length is representable in 32 bits.
pub open spec fn fits_frame(m: Seq<u8>) -> bool {
    m.len() <= u32::MAX
}

/// The wire image of one message: a 4-byte little-endian length prefix
/// followed by the payload bytes.
pub open spec fn frame_of(m: Seq<u8>) -> Seq<u8> {
    spec_u32_to_le_bytes(m.len() as u32) + m
}

/// The wire image of a whole conversation in one direction: the frames of
/// the messages, in the order they were sent, with nothing in between.
pub open spec fn wire_of(ms: Seq<Seq<u8>>) -> Seq<u8>
    decreases ms.len(),
{
    if ms.len() == 0 {
        Seq::empty()
    } else {
        frame_of(ms[0]) + wire_of(ms.drop_first())
    }
}

/// The messages a framed reader takes from a byte stream: repeatedly strip a
/// 4-byte length prefix and that many payload bytes. A trailing incomplete
/// frame yields nothing; the reader would still be waiting for its bytes.
pub open spec fn decode_wire(b: Seq<u8>) -> Seq<Seq<u8>>
    decreases b.len(),
{
    if b.len() < 4 {
        Seq::empty()
    } else {
        let n = spec_u32_from_le_bytes(b.subrange(0, 4)) as int;
        if b.len() < 4 + n {
            Seq::empty()
        } else {
            seq![b.subrange(4, 4 + n)] + decode_wire(b.skip(4 + n))
        }
    }
}

/// The element-wise views of a vector of messages.
pub open spec fn views_of(ms: Seq<Vec<u8>>) -> Seq<Seq<u8>> {
    ms.map_values(|m: Vec<u8>| m@)
}

/// Builds the frame for one message: the length prefix, then the payload.
/// Returns `None` exactly when the message is too long for a 32-bit length.
pub fn encode_frame(m: &Vec<u8>) -> (r: Option<Vec<u8>>)
    ensures
        fits_frame(m@) ==> r is Some && r->Some_0@ == frame_of(m@),
        !fits_frame(m@) ==> r is None,
{
    if m.len() > u32::MAX as usize {
        return None;
    }
    let mut out = u32_to_le_bytes(m.len() as u32);
    let mut i: usize = 0;
    while i < m.len()
        invariant
            i <= m@.len(),
            out@ == spec_u32_to_le_bytes(m@.len() as u32) + m@.subrange(0, i as int),
        decreases m@.len() - i,
    {
        out.push(m[i]);
        i = i + 1;
        assert(out@ =~= spec_u32_to_le_bytes(m@.len() as u32) + m@.subrange(0, i as int));
    }
    assert(m@.subrange(0, m@.len() as int) =~= m@);
    Some(out)
}

/// What the framed reader is waiting for: the next length prefix, or the
/// payload of the length it has already read.
pub enum ReadState {
    WantLen,
    WantPayload(u32),
}

/// How many bytes the reader must be handed next in the given state.
pub open spec fn needed(s: ReadState) -> nat {
    match s {
        ReadState::WantLen => 4,
        ReadState::WantPayload(n) => n as nat,
    }
}

/// The framed reader's state machine, free of the blocking read itself: the
/// caller reads exactly `bytes_needed()` bytes from the transport and hands
/// them to `feed`, which yields a message once per frame.
pub struct FrameReader {
    pub state: ReadState,
}

impl FrameReader {
    /// A reader at a frame boundary, waiting for a length prefix.
    pub fn new() -> (r: FrameReader)
        ensures
            r.state == ReadState::WantLen,
    {
        FrameReader { state: ReadState::WantLen }
    }

    /// How many bytes to read from the transport before the next `feed`.
    pub fn bytes_needed(&self) -> (n: usize)
        ensures
            n == needed(self.state),
    {
        match self.state {
            ReadState::WantLen => 4,
            ReadState::WantPayload(n) => n as usize,
        }
    }

    /// Advances the machine by one exact read: a length prefix moves it to
    /// waiting for that many payload bytes; a payload is handed back whole,
    /// unaltered, and the machine returns to the frame boundary.
    pub fn feed(&mut self, chunk: Vec<u8>) -> (msg: Option<Vec<u8>>)
        requires
            chunk@.len() == needed(old(self).state),
        ensures
            match old(self).state {
                ReadState::WantLen => msg is None && final(self).state
                    == ReadState::WantPayload(spec_u32_from_le_bytes(chunk@)),
                ReadState::WantPayload(_) => msg is Some && msg->Some_0 == chunk
                    && final(self).state == ReadState::WantLen,
            },
    {
        match self.state {
            ReadState::WantLen => {
                let n = u32_from_le_bytes(chunk.as_slice());
                self.state = ReadState::WantPayload(n);
                None
            },
            ReadState::WantPayload(_) => {
                self.state = ReadState::WantLen;
                Some(chunk)
            },
        }
    }
}

/// The messages still to come from a byte sequence, given the state the
/// reader is in when it starts on it.
pub open spec fn decode_rest(s: ReadState, b: Seq<u8>) -> Seq<Seq<u8>> {
    match s {
        ReadState::WantLen => decode_wire(b),
        ReadState::WantPayload(n) => if b.len() < n as int {
            Seq::empty()
        } else {
            seq![b.take(n as int)] + decode_wire(b.skip(n as int))
        },
    }
}

/// Which side of a frame boundary the reader stands on; payload reads come
/// strictly before the boundary they end at.
pub open spec fn phase(s: ReadState) -> nat {
    match s {
        ReadState::WantLen => 0,
        ReadState::WantPayload(_) => 1,
    }
}

/// Consuming a length prefix leaves the stream's remaining messages intact.
proof fn lemma_consume_len(b: Seq<u8>)
    requires
        b.len() >= 4,
    ensures
        decode_wire(b) == decode_rest(
            ReadState::WantPayload(spec_u32_from_le_bytes(b.subrange(0, 4))),
            b.skip(4),
        ),
{
    let n = spec_u32_from_le_bytes(b.subrange(0, 4)) as int;
    if b.len() < 4 + n {
        assert(b.skip(4).len() < n);
    } else {
        assert(b.skip(4).take(n) =~= b.subrange(4, 4 + n));
        assert(b.skip(4).skip(n) =~= b.skip(4 + n));
    }
}

/// Consuming a payload yields it as the next message and leaves the rest of
/// the stream's messages intact.
proof fn lemma_consume_payload(n: u32, b: Seq<u8>)
    requires
        b.len() >= n,
    ensures
        decode_rest(ReadState::WantPayload(n), b) == seq![b.take(n as int)] + decode_wire(
            b.skip(n as int),
        ),
{
}

/// The framed reader's loop over a buffer already in memory: every complete
/// frame becomes one message, in wire order; a trailing incomplete frame is
/// left unconsumed.
pub fn read_messages(wire: &Vec<u8>) -> (msgs: Vec<Vec<u8>>)
    ensures
        views_of(msgs@) == decode_wire(wire@),
{
    let mut reader = FrameReader::new();
    let mut msgs: Vec<Vec<u8>> = Vec::new();
    let mut pos: usize = 0;
    proof {
        assert(wire@.skip(0) =~= wire@);
        assert(views_of(msgs@) + decode_wire(wire@) =~= decode_wire(wire@));
    }
    loop
        invariant
            pos <= wire@.len(),
            decode_wire(wire@) == views_of(msgs@) + decode_rest(reader.state, wire@.skip(pos as int)),
        ensures
            views_of(msgs@) == decode_wire(wire@),
        decreases wire@.len() - pos, phase(reader.state),
    {
        let need = reader.bytes_needed();
        if wire.len() - pos < need {
            proof {
                assert(decode_rest(reader.state, wire@.skip(pos as int)) =~= Seq::<Seq<u8>>::empty());
                assert(views_of(msgs@) + Seq::<Seq<u8>>::empty() =~= views_of(msgs@));
            }
            break;
        }
        let ghost old_state = reader.state;
        let ghost old_msgs = msgs@;
        let ghost old_rest = wire@.skip(pos as int);
        let mut chunk: Vec<u8> = Vec::new();
        let mut j: usize = 0;
        while j < need
            invariant
                j <= need,
                pos + need <= wire@.len(),
                wire@.len() <= usize::MAX,
                chunk@ == wire@.subrange(pos as int, pos + j),
            decreases need - j,
        {
            chunk.push(wire[pos + j]);
            j = j + 1;
            assert(chunk@ =~= wire@.subrange(pos as int, pos + j));
        }
        proof {
            assert(chunk@ =~= old_rest.take(need as int));
        }
        let produced = reader.feed(chunk);
        pos = pos + need;
        proof {
            assert(wire@.skip(pos as int) =~= old_rest.skip(need as int));
        }
        match produced {
            Some(m) => {
                msgs.push(m);
                proof {
                    match old_state {
                        ReadState::WantPayload(k) => {
                            lemma_consume_payload(k, old_rest);
                            assert(m@ =~= old_rest.take(k as int));
                            assert(views_of(msgs@) =~= views_of(old_msgs).push(m@));
                            assert(views_of(old_msgs) + (seq![m@] + decode_wire(
                                old_rest.skip(k as int),
                            )) =~= views_of(msgs@) + decode_wire(old_rest.skip(k as int)));
                        },
                        ReadState::WantLen => {},
                    }
                }
            },
            None => {
                proof {
                    assert(chunk@ =~= old_rest.subrange(0, 4));
                    lemma_consume_len(old_rest);
                }
            },
        }
    }
    msgs
}

/// Framing round trip: for every message that fits a frame, the framed
/// reader takes exactly that message, and nothing else, from the framed
/// writer's output.
pub proof fn lemma_frame_round_trip(m: Seq<u8>)
    requires
        fits_frame(m),
    ensures
        decode_wire(frame_of(m)) == seq![m],
{
    lemma_wire_append(m, Seq::empty());
    assert(frame_of(m) + Seq::<u8>::empty() =~= frame_of(m));
    assert(decode_wire(Seq::empty()) =~= Seq::<Seq<u8>>::empty());
    assert(seq![m] + Seq::<Seq<u8>>::empty() =~= seq![m]);
}

/// Peeling one frame off the front of a stream: the first message out is the
/// framed one, and the rest of the stream decodes independently.
pub proof fn lemma_wire_append(m: Seq<u8>, rest: Seq<u8>)
    requires
        fits_frame(m),
    ensures
        decode_wire(frame_of(m) + rest) == seq![m] + decode_wire(rest),
{
    lemma_auto_spec_u32_to_from_le_bytes();
    let b = frame_of(m) + rest;
    let prefix = spec_u32_to_le_bytes(m.len() as u32);
    assert(prefix.len() == 4);
    assert(b.subrange(0, 4) =~= prefix);
    let n = m.len() as int;
    assert(spec_u32_from_le_bytes(b.subrange(0, 4)) == m.len() as u32);
    assert(b.len() == 4 + n + rest.len());
    assert(b.subrange(4, 4 + n) =~= m);
    assert(b.skip(4 + n) =~= rest);
    assert(decode_wire(b) == seq![m] + decode_wire(rest));
}

/// Order preservation: the messages a framed reader takes from the wire
/// image of a conversation are exactly the messages sent, in their order,
/// unmodified.
pub proof fn lemma_wire_order(ms: Seq<Seq<u8>>)
    requires
        forall|i: int| 0 <= i < ms.len() ==> fits_frame(#[trigger] ms[i]),
    ensures
        decode_wire(wire_of(ms)) == ms,
    decreases ms.len(),
{
    if ms.len() == 0 {
        assert(decode_wire(wire_of(ms)) =~= ms);
    } else {
        lemma_wire_append(ms[0], wire_of(ms.drop_first()));
        lemma_wire_order(ms.drop_first());
        assert(seq![ms[0]] + ms.drop_first() =~= ms);
    }
}

} // verus!
