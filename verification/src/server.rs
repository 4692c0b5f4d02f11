//! The control server's data: the listening endpoint, a connection's
//! identity, the outer wire enum, and the splitting of a byte stream into
//! terminator-delimited frames. The sockets themselves live outside the
//! core.

use vstd::prelude::*;
use crate::sched::SchedulerMessage;

verus! {

/// The byte that ends one control frame on the wire.
pub const ENDING_BYTE: u8 = 0x07;

/// The control server's listening endpoint.
pub struct BuboCoreServer {
    /// The address to bind, as text.
    pub ip: String,
    /// The port to bind.
    pub port: u16,
}

/// One accepted connection's identity.
pub struct Connection {
    /// A unique identifier for the connection.
    pub id: String,
    /// A display name for the connection.
    pub name: String,
    /// The stable identifier of the device the connection serves, when it
    /// serves one.
    pub device_id: Option<usize>,
}

/// The outer wire enum: what one control frame carries, and what the reply
/// frame carries. Every request receives exactly one response frame.
pub enum BuboCoreMessage {
    /// A control message for the scheduler.
    SchedulerControl(SchedulerMessage),
    /// The request was applied.
    Success,
    /// The request failed, with a report.
    Error(String),
}

/// Split a received byte stream into complete frames (the bytes before each
/// terminator, in order) and the unterminated tail.
pub fn split_frames(buf: &Vec<u8>) -> (r: (Vec<Vec<u8>>, Vec<u8>))
    ensures
        // Rebuilding the stream from the frames and the tail gives the
        // input back: frames carry no terminator, the tail is what remains.
        spec_frames_rejoin(r.0@.map_values(|f: Vec<u8>| f@), r.1@) == buf@,
        forall|i: int, j: int| 0 <= i < r.0@.len()
            && 0 <= j < (#[trigger] r.0@[i])@.len()
            ==> #[trigger] r.0@[i]@[j] != ENDING_BYTE,
        forall|j: int| 0 <= j < r.1@.len() ==> (#[trigger] r.1@[j]) != ENDING_BYTE,
{
    let n = buf.len();
    let mut frames: Vec<Vec<u8>> = Vec::new();
    let mut current: Vec<u8> = Vec::new();
    let mut i: usize = 0;
    while i < n
        invariant
            i <= n,
            n == buf@.len(),
            spec_frames_rejoin(frames@.map_values(|f: Vec<u8>| f@), current@)
                == buf@.subrange(0, i as int),
            forall|a: int, b: int| 0 <= a < frames@.len()
                && 0 <= b < (#[trigger] frames@[a])@.len()
                ==> #[trigger] frames@[a]@[b] != ENDING_BYTE,
            forall|j: int| 0 <= j < current@.len()
                ==> (#[trigger] current@[j]) != ENDING_BYTE,
        decreases n - i,
    {
        let ghost pre_frames = frames@;
        let ghost pre_current = current@;
        let byte = buf[i];
        if byte == ENDING_BYTE {
            frames.push(current);
            current = Vec::new();
            proof {
                assert(frames@.map_values(|f: Vec<u8>| f@)
                    =~= pre_frames.map_values(|f: Vec<u8>| f@).push(pre_current));
                lemma_rejoin_push_frame(
                    pre_frames.map_values(|f: Vec<u8>| f@), pre_current);
                assert(spec_frames_rejoin(frames@.map_values(|f: Vec<u8>| f@), current@)
                    =~= buf@.subrange(0, i + 1));
            }
        } else {
            current.push(byte);
            proof {
                lemma_rejoin_grow_tail(
                    frames@.map_values(|f: Vec<u8>| f@), pre_current, byte);
                assert(spec_frames_rejoin(frames@.map_values(|f: Vec<u8>| f@), current@)
                    =~= buf@.subrange(0, i + 1));
            }
        }
        i = i + 1;
    }
    proof {
        assert(buf@.subrange(0, n as int) =~= buf@);
    }
    (frames, current)
}

/// The byte stream a frame list and a tail came from: each frame followed
/// by the terminator, then the tail.
pub open spec fn spec_frames_rejoin(frames: Seq<Seq<u8>>, tail: Seq<u8>) -> Seq<u8>
    decreases frames.len(),
{
    if frames.len() == 0 {
        tail
    } else {
        frames[0] + seq![ENDING_BYTE] + spec_frames_rejoin(frames.drop_first(), tail)
    }
}

/// Closing the current frame appends it and the terminator to the rebuilt
/// stream.
proof fn lemma_rejoin_push_frame(frames: Seq<Seq<u8>>, tail: Seq<u8>)
    ensures
        spec_frames_rejoin(frames.push(tail), Seq::empty())
            =~= spec_frames_rejoin(frames, tail) + seq![ENDING_BYTE],
    decreases frames.len(),
{
    if frames.len() == 0 {
        assert(frames.push(tail)[0] == tail);
        assert(frames.push(tail).drop_first() =~= Seq::<Seq<u8>>::empty());
        assert(spec_frames_rejoin(frames.push(tail).drop_first(), Seq::empty())
            =~= Seq::<u8>::empty());
        assert(spec_frames_rejoin(frames.push(tail), Seq::empty())
            =~= tail + seq![ENDING_BYTE]);
        assert(spec_frames_rejoin(frames, tail) == tail);
    } else {
        assert(frames.push(tail)[0] == frames[0]);
        assert(frames.push(tail).drop_first() =~= frames.drop_first().push(tail));
        lemma_rejoin_push_frame(frames.drop_first(), tail);
        assert(spec_frames_rejoin(frames.push(tail).drop_first(), Seq::empty())
            == spec_frames_rejoin(frames.drop_first().push(tail), Seq::empty()));
        assert(spec_frames_rejoin(frames.push(tail), Seq::empty())
            == frames[0] + seq![ENDING_BYTE]
                + spec_frames_rejoin(frames.drop_first().push(tail), Seq::empty()));
        assert(spec_frames_rejoin(frames.drop_first().push(tail), Seq::empty())
            =~= spec_frames_rejoin(frames.drop_first(), tail) + seq![ENDING_BYTE]);
        assert(spec_frames_rejoin(frames, tail)
            == frames[0] + seq![ENDING_BYTE] + spec_frames_rejoin(frames.drop_first(), tail));
    }
}

/// Extending the tail extends the rebuilt stream.
proof fn lemma_rejoin_grow_tail(frames: Seq<Seq<u8>>, tail: Seq<u8>, byte: u8)
    ensures
        spec_frames_rejoin(frames, tail.push(byte))
            =~= spec_frames_rejoin(frames, tail).push(byte),
    decreases frames.len(),
{
    if frames.len() > 0 {
        lemma_rejoin_grow_tail(frames.drop_first(), tail, byte);
    }
}

} // verus!
