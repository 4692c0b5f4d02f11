//! The dispatcher's data: a stable priority queue of timed messages keyed by
//! due time with a monotonic sequence tie-break, the late-message rule, and
//! the per-device active-note tracker that closes hanging notes.

use vstd::prelude::*;
use crate::SyncTime;
use crate::protocol::{MIDIMessage, MIDIMessageType, TimedMessage};

verus! {

/// Default tolerance before a message is dropped as late, in microseconds.
pub const DEFAULT_GRACE: u64 = 1_000;

/// One queued message with its submission sequence number.
pub struct QueueEntry {
    /// The message and its due time.
    pub msg: TimedMessage,
    /// Submission order: assigned from a counter that only grows.
    pub seq: u64,
}

/// Lexicographic priority: `a` is served strictly after `b`.
pub open spec fn spec_after(a: QueueEntry, b: QueueEntry) -> bool {
    a.msg.time > b.msg.time || (a.msg.time == b.msg.time && a.seq > b.seq)
}

/// A stable priority queue of timed messages. Entries are held sorted with
/// the latest-served first, so the next message to deliver is the last
/// entry: the one with the smallest due time, and among equal due times the
/// one submitted first.
pub struct DispatchQueue {
    /// The entries, sorted strictly descending by (due time, sequence).
    pub entries: Vec<QueueEntry>,
    /// The next sequence number to assign.
    pub next_seq: u64,
}

impl DispatchQueue {
    /// Well-formedness: strictly descending priority (so sequence numbers
    /// are pairwise distinct), and every assigned sequence number is below
    /// the counter.
    pub open spec fn wf(self) -> bool {
        &&& (forall|i: int, j: int| 0 <= i < j < self.entries@.len()
            ==> spec_after(#[trigger] self.entries@[i], #[trigger] self.entries@[j]))
        &&& (forall|i: int| 0 <= i < self.entries@.len()
            ==> (#[trigger] self.entries@[i]).seq < self.next_seq)
    }

    /// An empty queue.
    pub fn new() -> (q: DispatchQueue)
        ensures
            q.wf(),
            q.entries@.len() == 0,
            q.next_seq == 0,
    {
        DispatchQueue { entries: Vec::new(), next_seq: 0 }
    }

    /// How many messages wait.
    pub fn len(&self) -> (r: usize)
        ensures
            r == self.entries@.len(),
    {
        self.entries.len()
    }

    /// Submit a message: it is placed by due time, after every earlier
    /// submission with the same due time.
    pub fn push(&mut self, msg: TimedMessage)
        requires
            old(self).wf(),
            old(self).next_seq < u64::MAX,
        ensures
            final(self).wf(),
            final(self).next_seq == old(self).next_seq + 1,
            final(self).entries@.len() == old(self).entries@.len() + 1,
            // The new entry sits at some position with everything before it
            // served later and everything after it served earlier; the rest
            // of the queue is exactly the old queue.
            exists|i: int| 0 <= i <= old(self).entries@.len()
                && final(self).entries@ == old(self).entries@.insert(
                    i,
                    (QueueEntry { msg, seq: old(self).next_seq }),
                ),
    {
        let seq = self.next_seq;
        self.next_seq = self.next_seq + 1;
        let e = QueueEntry { msg, seq };
        // Find the insertion point from the back: the new entry goes to
        // the left of every entry with an equal or smaller due time, which
        // is served before it.
        let mut i: usize = self.entries.len();
        while i > 0 && self.entries[i - 1].msg.time <= e.msg.time
            invariant
                i <= self.entries@.len(),
                self.wf(),
                e.seq == old(self).next_seq,
                forall|j: int| 0 <= j < self.entries@.len()
                    ==> (#[trigger] self.entries@[j]).seq < e.seq,
                e == (QueueEntry { msg, seq: old(self).next_seq }),
                self.entries == old(self).entries,
                forall|j: int| i <= j < self.entries@.len()
                    ==> spec_after(e, #[trigger] self.entries@[j]),
            decreases i,
        {
            proof {
                assert(spec_after(e, self.entries@[i - 1]));
            }
            i = i - 1;
        }
        let ghost pre = self.entries@;
        let ghost ipos = i as int;
        self.entries.insert(i, e);
        proof {
            assert(self.entries@ == pre.insert(ipos, e));
            assert forall|a: int, b: int| 0 <= a < b < self.entries@.len()
                implies spec_after(#[trigger] self.entries@[a], #[trigger] self.entries@[b])
            by {
                if a < ipos && b == ipos {
                    assert(self.entries@[a] == pre[a]);
                    // The scan stopped: the entry left of the insertion
                    // point is due strictly later, and so is everything
                    // before it.
                    assert(pre[ipos - 1].msg.time > e.msg.time);
                    if a < ipos - 1 {
                        assert(spec_after(pre[a], pre[ipos - 1]));
                    }
                    assert(pre[a].msg.time > e.msg.time);
                } else if a == ipos && b > ipos {
                    assert(self.entries@[b] == pre[b - 1]);
                } else if a < ipos && b > ipos {
                    assert(self.entries@[a] == pre[a]);
                    assert(self.entries@[b] == pre[b - 1]);
                } else if a < ipos && b < ipos {
                    assert(self.entries@[a] == pre[a]);
                    assert(self.entries@[b] == pre[b]);
                } else {
                    assert(self.entries@[a] == pre[a - 1]);
                    assert(self.entries@[b] == pre[b - 1]);
                }
            }
        }
    }

    /// The due time of the next message to deliver, when one waits; the
    /// consumer sleeps until it, bounded by a short maximum so that an
    /// earlier submission can pre-empt the sleep.
    pub fn next_due(&self) -> (r: Option<SyncTime>)
        ensures
            match r {
                Some(t) => self.entries@.len() > 0 && t == self.entries@.last().msg.time,
                None => self.entries@.len() == 0,
            },
    {
        if self.entries.len() == 0 {
            None
        } else {
            Some(self.entries[self.entries.len() - 1].msg.time)
        }
    }

    /// Take the next message to deliver: the one with the smallest due
    /// time; among equal due times, the one submitted first.
    pub fn pop(&mut self) -> (r: Option<QueueEntry>)
        requires
            old(self).wf(),
        ensures
            final(self).wf(),
            final(self).next_seq == old(self).next_seq,
            match r {
                Some(e) => old(self).entries@.len() > 0
                    && e == old(self).entries@.last()
                    && final(self).entries@ == old(self).entries@.drop_last()
                    // Minimality: everything still queued is served after it.
                    && (forall|i: int| 0 <= i < final(self).entries@.len()
                        ==> spec_after(#[trigger] final(self).entries@[i], e)),
                None => old(self).entries@.len() == 0
                    && final(self).entries@ == old(self).entries@,
            },
    {
        let r = self.entries.pop();
        proof {
            if old(self).entries@.len() > 0 {
                assert(self.entries@ =~= old(self).entries@.drop_last());
                let last = old(self).entries@.len() - 1;
                assert forall|i: int| 0 <= i < self.entries@.len()
                    implies spec_after(#[trigger] self.entries@[i], old(self).entries@[last])
                by {
                    assert(self.entries@[i] == old(self).entries@[i]);
                    assert(spec_after(old(self).entries@[i], old(self).entries@[last]));
                }
            }
        }
        r
    }
}

/// Law: messages for the same due time leave the queue in submission order.
/// In a well-formed queue, whenever one entry is served before another with
/// the same due time, the one served first carries the smaller sequence
/// number, that is, it was submitted first.
pub proof fn lemma_ties_leave_in_submission_order(q: DispatchQueue, i: int, j: int)
    requires
        q.wf(),
        0 <= i < j < q.entries@.len(),
        q.entries@[i].msg.time == q.entries@[j].msg.time,
    ensures
        // Entry `j` is nearer the queue's tail, so it is served first, and
        // it was submitted first.
        q.entries@[j].seq < q.entries@[i].seq,
{
    assert(spec_after(q.entries@[i], q.entries@[j]));
}

/// What the dispatcher does with a message at an instant.
#[derive(Clone, Copy, PartialEq, Eq, Structural, Debug)]
pub enum DeliveryAction {
    /// The due time has been reached and is within tolerance: deliver now.
    Deliver,
    /// The message is early: sleep and try again.
    Wait,
    /// The message is older than the tolerance: drop it with a warning.
    DropLate,
}

/// Decide what to do with a message due at `due`, at instant `now`, with a
/// lateness tolerance of `grace` microseconds: early messages wait, messages
/// within `[now - grace, now]` are delivered, older ones are dropped.
pub fn delivery_action(due: SyncTime, now: SyncTime, grace: u64) -> (r: DeliveryAction)
    ensures
        r == (if due > now {
            DeliveryAction::Wait
        } else if due + grace < now {
            DeliveryAction::DropLate
        } else {
            DeliveryAction::Deliver
        }),
{
    if due > now {
        DeliveryAction::Wait
    } else if now - due > grace {
        DeliveryAction::DropLate
    } else {
        DeliveryAction::Deliver
    }
}

/// The active notes of one open MIDI device: every note that was switched on
/// and not yet off, with its channel.
pub struct NoteTracker {
    /// The held notes as (note, channel) pairs, first held first.
    pub notes: Vec<(u8, u8)>,
}

impl NoteTracker {
    /// Well-formedness: a note is tracked at most once.
    pub open spec fn wf(self) -> bool {
        forall|i: int, j: int| 0 <= i < j < self.notes@.len()
            ==> (#[trigger] self.notes@[i]) != (#[trigger] self.notes@[j])
    }

    /// No notes held.
    pub fn new() -> (t: NoteTracker)
        ensures
            t.wf(),
            t.notes@.len() == 0,
    {
        NoteTracker { notes: Vec::new() }
    }

    /// Record a delivered MIDI message: a key-down with positive velocity
    /// adds the note, a key-up or a key-down with velocity zero removes it;
    /// anything else changes nothing.
    pub fn apply(&mut self, m: &MIDIMessage)
        requires
            old(self).wf(),
            old(self).notes@.len() < usize::MAX,
        ensures
            final(self).wf(),
            match m.payload {
                MIDIMessageType::NoteOn { note, velocity } => if velocity > 0 {
                    final(self).notes@.contains((note, m.channel))
                        && (forall|p: (u8, u8)| #[trigger] final(self).notes@.contains(p)
                            <==> old(self).notes@.contains(p) || p == (note, m.channel))
                } else {
                    forall|p: (u8, u8)| #[trigger] final(self).notes@.contains(p)
                        <==> old(self).notes@.contains(p) && p != (note, m.channel)
                },
                MIDIMessageType::NoteOff { note, .. } =>
                    forall|p: (u8, u8)| #[trigger] final(self).notes@.contains(p)
                        <==> old(self).notes@.contains(p) && p != (note, m.channel),
                _ => *final(self) == *old(self),
            },
    {
        match &m.payload {
            MIDIMessageType::NoteOn { note, velocity } => {
                if *velocity > 0 {
                    self.add_note(*note, m.channel);
                } else {
                    self.remove_note(*note, m.channel);
                }
            },
            MIDIMessageType::NoteOff { note, .. } => {
                self.remove_note(*note, m.channel);
            },
            _ => {},
        }
    }

    /// Track a note, once.
    fn add_note(&mut self, note: u8, channel: u8)
        requires
            old(self).wf(),
            old(self).notes@.len() < usize::MAX,
        ensures
            final(self).wf(),
            final(self).notes@.contains((note, channel)),
            forall|p: (u8, u8)| #[trigger] final(self).notes@.contains(p)
                <==> old(self).notes@.contains(p) || p == (note, channel),
    {
        let n = self.notes.len();
        let mut i: usize = 0;
        while i < n
            invariant
                i <= n,
                n == self.notes@.len(),
                *self == *old(self),
                self.wf(),
                forall|j: int| 0 <= j < i
                    ==> (#[trigger] self.notes@[j]) != (note, channel),
            decreases n - i,
        {
            if self.notes[i].0 == note && self.notes[i].1 == channel {
                proof {
                    assert(self.notes@[i as int] == (note, channel));
                    assert(self.notes@.contains((note, channel)));
                }
                return;
            }
            i = i + 1;
        }
        let ghost pre = self.notes@;
        self.notes.push((note, channel));
        proof {
            assert(self.notes@[pre.len() as int] == (note, channel));
            assert forall|p: (u8, u8)| #[trigger] self.notes@.contains(p)
                implies (pre.contains(p) || p == (note, channel))
            by {
                let w = choose|w: int| 0 <= w < self.notes@.len()
                    && (#[trigger] self.notes@[w]) == p;
                if w < pre.len() {
                    assert(pre[w] == p);
                }
            }
            assert forall|p: (u8, u8)| pre.contains(p)
                implies #[trigger] self.notes@.contains(p)
            by {
                let w = choose|w: int| 0 <= w < pre.len() && (#[trigger] pre[w]) == p;
                assert(self.notes@[w] == p);
            }
            assert forall|a: int, b: int| 0 <= a < b < self.notes@.len()
                implies (#[trigger] self.notes@[a]) != (#[trigger] self.notes@[b])
            by {
                if b == pre.len() {
                    assert(self.notes@[a] == pre[a]);
                    assert(pre[a] != (note, channel));
                }
            }
        }
    }

    /// Stop tracking a note.
    fn remove_note(&mut self, note: u8, channel: u8)
        requires
            old(self).wf(),
        ensures
            final(self).wf(),
            forall|p: (u8, u8)| #[trigger] final(self).notes@.contains(p)
                <==> old(self).notes@.contains(p) && p != (note, channel),
    {
        let n = self.notes.len();
        let mut i: usize = 0;
        while i < n
            invariant
                i <= n,
                n == self.notes@.len(),
                *self == *old(self),
                self.wf(),
                forall|j: int| 0 <= j < i
                    ==> (#[trigger] self.notes@[j]) != (note, channel),
            decreases n - i,
        {
            if self.notes[i].0 == note && self.notes[i].1 == channel {
                let ghost pre = self.notes@;
                self.notes.remove(i);
                proof {
                    assert forall|p: (u8, u8)| #[trigger] self.notes@.contains(p)
                        implies (pre.contains(p) && p != (note, channel))
                    by {
                        let w = choose|w: int| 0 <= w < self.notes@.len()
                            && (#[trigger] self.notes@[w]) == p;
                        if w < i {
                            assert(pre[w] == p);
                        } else {
                            assert(pre[w + 1] == p);
                            assert(pre[w + 1] != pre[i as int]);
                        }
                    }
                    assert forall|p: (u8, u8)| pre.contains(p) && p != (note, channel)
                        implies #[trigger] self.notes@.contains(p)
                    by {
                        let w = choose|w: int| 0 <= w < pre.len() && (#[trigger] pre[w]) == p;
                        if w < i {
                            assert(self.notes@[w] == p);
                        } else {
                            assert(w != i);
                            assert(self.notes@[w - 1] == p);
                        }
                    }
                    assert forall|a: int, b: int| 0 <= a < b < self.notes@.len()
                        implies (#[trigger] self.notes@[a]) != (#[trigger] self.notes@[b])
                    by {
                        if a < i && b < i {
                            assert(self.notes@[a] == pre[a] && self.notes@[b] == pre[b]);
                        } else if a < i {
                            assert(self.notes@[a] == pre[a] && self.notes@[b] == pre[b + 1]);
                        } else {
                            assert(self.notes@[a] == pre[a + 1] && self.notes@[b] == pre[b + 1]);
                        }
                    }
                }
                return;
            }
            i = i + 1;
        }
        proof {
            assert forall|p: (u8, u8)| #[trigger] self.notes@.contains(p)
                implies (old(self).notes@.contains(p) && p != (note, channel))
            by {
                let w = choose|w: int| 0 <= w < self.notes@.len()
                    && (#[trigger] self.notes@[w]) == p;
            }
        }
    }

    /// Close the device: one key-up with velocity zero for every held note,
    /// on that note's channel, in the order the notes were first held; the
    /// tracker is left empty.
    pub fn close(&mut self) -> (r: Vec<MIDIMessage>)
        requires
            old(self).wf(),
        ensures
            final(self).wf(),
            final(self).notes@.len() == 0,
            r@.len() == old(self).notes@.len(),
            forall|i: int| 0 <= i < r@.len()
                ==> (#[trigger] r@[i]) == (MIDIMessage {
                    payload: MIDIMessageType::NoteOff {
                        note: old(self).notes@[i].0,
                        velocity: 0,
                    },
                    channel: old(self).notes@[i].1,
                }),
    {
        let mut r: Vec<MIDIMessage> = Vec::new();
        let n = self.notes.len();
        let mut i: usize = 0;
        while i < n
            invariant
                i <= n,
                n == self.notes@.len(),
                self.notes == old(self).notes,
                r@.len() == i,
                forall|j: int| 0 <= j < i
                    ==> (#[trigger] r@[j]) == (MIDIMessage {
                        payload: MIDIMessageType::NoteOff {
                            note: old(self).notes@[j].0,
                            velocity: 0,
                        },
                        channel: old(self).notes@[j].1,
                    }),
            decreases n - i,
        {
            r.push(MIDIMessage {
                payload: MIDIMessageType::NoteOff { note: self.notes[i].0, velocity: 0 },
                channel: self.notes[i].1,
            });
            i = i + 1;
        }
        self.notes.clear();
        r
    }
}

} // verus!
