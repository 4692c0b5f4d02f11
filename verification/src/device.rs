//! The device map: a registry of stable device identifiers, the set of
//! registered output connections, the slot table, and the translation of
//! abstract events into timed protocol messages.
//!
//! Identifiers are assigned on first sight and never reused: a name's
//! identifier is its position in the name registry, which only ever grows.
//! Disconnection removes the connection, never the identifier.

use vstd::prelude::*;
use crate::{SyncTime, ErrorKind};
use crate::protocol::{
    ConcreteEvent, LogMessage, MIDIMessage, MIDIMessageType, OSCMessage, ProtocolMessage,
    ProtocolPayload, Severity, TimedMessage,
};

verus! {

/// The built-in log device's reserved identifier.
pub const LOG_DEVICE_ID: usize = 0;

/// The largest user-assignable slot; slot zero means "unassigned".
pub const MAX_ASSIGNABLE_SLOT: usize = 16;

/// What kind of endpoint a device is.
#[derive(Clone, Copy, PartialEq, Eq, Structural, Debug)]
pub enum DeviceKind {
    /// A MIDI port.
    Midi,
    /// An OSC endpoint.
    Osc,
    /// The built-in log sink.
    Log,
}

/// Which way a device carries data.
#[derive(Clone, Copy, PartialEq, Eq, Structural, Debug)]
pub enum DeviceDirection {
    /// Into the engine.
    In,
    /// Out of the engine.
    Out,
}

/// One entry of the device list handed to user interfaces.
pub struct DeviceInfo {
    /// Stable identifier.
    pub id: usize,
    /// Port or endpoint name.
    pub name: String,
    /// What kind of endpoint this is.
    pub kind: DeviceKind,
    /// Which way it carries data.
    pub direction: DeviceDirection,
    /// Whether a connection is currently registered.
    pub is_connected: bool,
    /// The slot it is assigned to, when any.
    pub slot_id: Option<usize>,
    /// The address keying the live connection, when one is registered.
    pub address: Option<String>,
}

/// The device map.
pub struct DeviceMap {
    /// Every name ever seen; a name's position is its stable identifier.
    pub names: Vec<String>,
    /// The output connections, indexed by identifier: an entry remembers
    /// the device's kind and whether its connection is currently open, so a
    /// device that returns reconnects under its own kind. The open
    /// operating-system handles live outside the engine core, keyed by the
    /// same identifiers.
    pub connections: Vec<Option<(DeviceKind, bool)>>,
    /// The slot table: user-facing slot number to device name.
    pub slots: Vec<(usize, String)>,
}

/// The first position of `name` in the registry.
pub open spec fn spec_index_of_name(names: Seq<String>, name: Seq<char>) -> Option<int>
    decreases names.len(),
{
    if names.len() == 0 {
        None
    } else if names[0]@ == name {
        Some(0int)
    } else {
        match spec_index_of_name(names.drop_first(), name) {
            None => None,
            Some(j) => Some(j + 1),
        }
    }
}

proof fn lemma_index_of_name_found(names: Seq<String>, name: Seq<char>, i: int)
    requires
        0 <= i < names.len(),
        names[i]@ == name,
        forall|j: int| 0 <= j < i ==> (#[trigger] names[j])@ != name,
    ensures
        spec_index_of_name(names, name) == Some(i),
    decreases i,
{
    if i == 0 {
    } else {
        assert(names[0]@ != name);
        let t = names.drop_first();
        assert(t[i - 1] == names[i]);
        assert(forall|j: int| 0 <= j < i - 1 ==> (#[trigger] t[j]) == names[j + 1]
            && t[j]@ != name);
        lemma_index_of_name_found(t, name, i - 1);
    }
}

proof fn lemma_index_of_name_none(names: Seq<String>, name: Seq<char>)
    requires
        forall|j: int| 0 <= j < names.len() ==> (#[trigger] names[j])@ != name,
    ensures
        spec_index_of_name(names, name) == None::<int>,
    decreases names.len(),
{
    if names.len() > 0 {
        let t = names.drop_first();
        assert(forall|j: int| 0 <= j < t.len() ==> (#[trigger] t[j]) == names[j + 1]
            && t[j]@ != name);
        lemma_index_of_name_none(t, name);
    }
}

/// Law: identifiers are stable. Extending the registry at the end never
/// changes the identifier of a name that already has one: once a name's
/// identifier is `k`, it is `k` forever, whatever sequence of appearances
/// and disappearances follows.
pub proof fn lemma_index_of_name_stable(names: Seq<String>, longer: Seq<String>, name: Seq<char>)
    requires
        names.len() <= longer.len(),
        forall|j: int| 0 <= j < names.len() ==> (#[trigger] longer[j]) == names[j],
        spec_index_of_name(names, name) is Some,
    ensures
        spec_index_of_name(longer, name) == spec_index_of_name(names, name),
    decreases names.len(),
{
    if names.len() > 0 {
        if names[0]@ == name {
            assert(longer[0] == names[0]);
        } else {
            let t = names.drop_first();
            let lt = longer.drop_first();
            assert(forall|j: int| 0 <= j < t.len() ==> (#[trigger] lt[j]) == longer[j + 1]
                && lt[j] == t[j]);
            lemma_index_of_name_stable(t, lt, name);
        }
    }
}

impl DeviceMap {
    /// Well-formedness: the log device holds identifier zero; names are
    /// never repeated, so identifiers are unambiguous; every registered
    /// connection is at a known identifier; and the slot table is injective
    /// both ways: one device per slot, at most one slot per device, slots
    /// in the user-assignable range.
    pub open spec fn wf(self) -> bool {
        &&& self.names@.len() >= 1
        &&& self.names@[0]@ == "log"@
        &&& (forall|i: int, j: int| 0 <= i < j < self.names@.len()
            ==> (#[trigger] self.names@[i])@ != (#[trigger] self.names@[j])@)
        &&& self.connections@.len() <= self.names@.len()
        &&& (forall|i: int| 0 <= i < self.slots@.len()
            ==> 1 <= (#[trigger] self.slots@[i]).0 <= MAX_ASSIGNABLE_SLOT)
        &&& (forall|i: int, j: int| 0 <= i < j < self.slots@.len()
            ==> (#[trigger] self.slots@[i]).0 != (#[trigger] self.slots@[j]).0
                && self.slots@[i].1@ != self.slots@[j].1@)
    }

    /// The identifier of a name, when the name has been seen.
    pub open spec fn spec_id_of(self, name: Seq<char>) -> Option<int> {
        spec_index_of_name(self.names@, name)
    }

    /// Whether a connection is registered and open for the identifier.
    pub open spec fn spec_connected(self, id: int) -> bool {
        0 <= id < self.connections@.len()
            && (self.connections@[id] matches Some(e) && e.1)
    }

    /// The kind of the open connection at an identifier, when one is open.
    pub open spec fn spec_connection_kind(self, id: int) -> Option<DeviceKind> {
        if 0 <= id < self.connections@.len() {
            match self.connections@[id] {
                Some(e) => if e.1 {
                    Some(e.0)
                } else {
                    None
                },
                None => None,
            }
        } else {
            None
        }
    }

    /// The kind the identifier was last registered with, open or not.
    pub open spec fn spec_known_kind(self, id: int) -> Option<DeviceKind> {
        if 0 <= id < self.connections@.len() {
            match self.connections@[id] {
                Some(e) => Some(e.0),
                None => None,
            }
        } else {
            None
        }
    }

    /// A fresh map: the log device is known under identifier zero and
    /// registered as connected; no slots are assigned.
    pub fn new() -> (m: DeviceMap)
        ensures
            m.wf(),
            m.names@.len() == 1,
            m.spec_id_of("log"@) == Some(0int),
            m.spec_connected(LOG_DEVICE_ID as int),
            m.spec_connection_kind(LOG_DEVICE_ID as int) == Some(DeviceKind::Log),
            m.slots@.len() == 0,
    {
        let mut names: Vec<String> = Vec::new();
        names.push(String::from_str("log"));
        let mut connections: Vec<Option<(DeviceKind, bool)>> = Vec::new();
        connections.push(Some((DeviceKind::Log, true)));
        let m = DeviceMap { names, connections, slots: Vec::new() };
        proof {
            assert(m.names@[0]@ == "log"@);
            lemma_index_of_name_found(m.names@, "log"@, 0);
        }
        m
    }

    /// Find the identifier of a name, without assigning one.
    pub fn find_id(&self, name: &String) -> (r: Option<usize>)
        requires
            self.wf(),
        ensures
            match r {
                Some(k) => self.spec_id_of(name@) == Some(k as int) && k < self.names@.len(),
                None => self.spec_id_of(name@) == None::<int>
                    && (forall|j: int| 0 <= j < self.names@.len()
                        ==> (#[trigger] self.names@[j])@ != name@),
            },
    {
        let n = self.names.len();
        let mut i: usize = 0;
        while i < n
            invariant
                i <= n,
                n == self.names@.len(),
                forall|j: int| 0 <= j < i ==> (#[trigger] self.names@[j])@ != name@,
            decreases n - i,
        {
            if self.names[i].eq(name) {
                proof {
                    lemma_index_of_name_found(self.names@, name@, i as int);
                }
                return Some(i);
            }
            i = i + 1;
        }
        proof {
            lemma_index_of_name_none(self.names@, name@);
        }
        None
    }

    /// Assign a stable identifier to a name, keeping an existing assignment:
    /// a name seen before keeps its identifier; a new name gets the next
    /// one, never one that was used. Existing identifiers never change.
    pub fn ensure_device_id(&mut self, name: &String) -> (id: usize)
        requires
            old(self).wf(),
            old(self).names@.len() < usize::MAX,
        ensures
            final(self).wf(),
            final(self).spec_id_of(name@) == Some(id as int),
            id < final(self).names@.len(),
            final(self).connections == old(self).connections,
            final(self).slots == old(self).slots,
            match old(self).spec_id_of(name@) {
                Some(k) => id == k && *final(self) == *old(self),
                None => id == old(self).names@.len()
                    && final(self).names@ == old(self).names@.push(*name),
            },
            // Identifier stability: every name keeps the identifier it had.
            forall|n: Seq<char>| (#[trigger] old(self).spec_id_of(n)) is Some
                ==> final(self).spec_id_of(n) == old(self).spec_id_of(n),
    {
        match self.find_id(name) {
            Some(k) => k,
            None => {
                let id = self.names.len();
                let ghost pre = self.names@;
                self.names.push(name.clone());
                proof {
                    assert(forall|j: int| 0 <= j < pre.len()
                        ==> (#[trigger] self.names@[j]) == pre[j]);
                    assert(self.names@[id as int]@ == name@);
                    assert(forall|j: int| 0 <= j < id
                        ==> (#[trigger] self.names@[j])@ != name@);
                    lemma_index_of_name_found(self.names@, name@, id as int);
                    assert forall|n: Seq<char>|
                        (#[trigger] spec_index_of_name(pre, n)) is Some
                        implies spec_index_of_name(self.names@, n)
                            == spec_index_of_name(pre, n)
                    by {
                        lemma_index_of_name_stable(pre, self.names@, n);
                    }
                    assert forall|i: int, j: int| 0 <= i < j < self.names@.len()
                        implies (#[trigger] self.names@[i])@ != (#[trigger] self.names@[j])@
                    by {
                        if j == id {
                            assert(self.names@[i]@ != name@);
                        }
                    }
                }
                id
            },
        }
    }

    /// The name bound to an identifier, when the identifier exists.
    pub fn get_device_name_by_id(&self, id: usize) -> (r: Option<&String>)
        ensures
            match r {
                Some(n) => id < self.names@.len() && *n == self.names@[id as int],
                None => id >= self.names@.len(),
            },
    {
        if id < self.names.len() {
            Some(&self.names[id])
        } else {
            None
        }
    }

    /// Whether a connection is registered and open for the identifier.
    pub fn is_connected(&self, id: usize) -> (r: bool)
        ensures
            r == self.spec_connected(id as int),
    {
        if id < self.connections.len() {
            match self.connections[id] {
                Some((_, open)) => open,
                None => false,
            }
        } else {
            false
        }
    }

    /// The kind of the open connection at an identifier.
    pub fn connection_kind(&self, id: usize) -> (r: Option<DeviceKind>)
        ensures
            r == self.spec_connection_kind(id as int),
    {
        if id < self.connections.len() {
            match self.connections[id] {
                Some((kind, open)) => if open {
                    Some(kind)
                } else {
                    None
                },
                None => None,
            }
        } else {
            None
        }
    }

    /// The kind the identifier was last registered with, open or not.
    pub fn known_kind(&self, id: usize) -> (r: Option<DeviceKind>)
        ensures
            r == self.spec_known_kind(id as int),
    {
        if id < self.connections.len() {
            match self.connections[id] {
                Some((kind, _)) => Some(kind),
                None => None,
            }
        } else {
            None
        }
    }

    /// Register an output connection for a name, assigning it an identifier
    /// if it has none. Registering an already-registered device replaces its
    /// entry; every other registration is untouched.
    pub fn register_output_connection(&mut self, name: &String, kind: DeviceKind) -> (id: usize)
        requires
            old(self).wf(),
            old(self).names@.len() < usize::MAX,
        ensures
            final(self).wf(),
            final(self).spec_id_of(name@) == Some(id as int),
            final(self).spec_connected(id as int),
            final(self).spec_connection_kind(id as int) == Some(kind),
            final(self).slots == old(self).slots,
            final(self).names@.len() == (if old(self).spec_id_of(name@) is Some {
                old(self).names@.len() as int
            } else {
                old(self).names@.len() as int + 1
            }),
            forall|n: Seq<char>| (#[trigger] old(self).spec_id_of(n)) is Some
                ==> final(self).spec_id_of(n) == old(self).spec_id_of(n),
            forall|other: int| other != id
                && (#[trigger] old(self).spec_known_kind(other)) is Some
                ==> final(self).spec_known_kind(other) == old(self).spec_known_kind(other)
                    && final(self).spec_connection_kind(other)
                        == old(self).spec_connection_kind(other),
    {
        let id = self.ensure_device_id(name);
        let ghost names1 = self.names;
        let ghost slots1 = self.slots;
        while self.connections.len() <= id
            invariant
                id < self.names@.len(),
                self.names == names1,
                self.slots == slots1,
                self.connections@.len() <= self.names@.len(),
                self.connections@.len() >= old(self).connections@.len(),
                forall|j: int| 0 <= j < old(self).connections@.len() && j < self.connections@.len()
                    ==> (#[trigger] self.connections@[j]) == old(self).connections@[j],
                forall|j: int| old(self).connections@.len() <= j < self.connections@.len()
                    ==> (#[trigger] self.connections@[j]) is None,
            decreases id + 1 - self.connections@.len(),
        {
            self.connections.push(None);
        }
        self.connections.set(id, Some((kind, true)));
        id
    }

    /// Remove the registration for an identifier. The identifier itself is
    /// preserved, so the device keeps it if it returns. Fails when the
    /// identifier is unknown or nothing is registered for it.
    pub fn disconnect_output(&mut self, id: usize) -> (r: Result<(), ErrorKind>)
        requires
            old(self).wf(),
        ensures
            final(self).wf(),
            final(self).names == old(self).names,
            final(self).slots == old(self).slots,
            match r {
                Ok(()) => id < old(self).names@.len() && old(self).spec_connected(id as int)
                    && !final(self).spec_connected(id as int)
                    // The identifier keeps the kind it was registered with.
                    && final(self).spec_known_kind(id as int)
                        == old(self).spec_known_kind(id as int)
                    && (forall|other: int| other != id
                        ==> (#[trigger] final(self).spec_known_kind(other))
                            == old(self).spec_known_kind(other)
                            && final(self).spec_connection_kind(other)
                                == old(self).spec_connection_kind(other)),
                Err(e) => *final(self) == *old(self)
                    && (e == ErrorKind::DeviceNotFound)
                    && (id >= old(self).names@.len() || !old(self).spec_connected(id as int)),
            },
    {
        if id >= self.names.len() {
            return Err(ErrorKind::DeviceNotFound);
        }
        if id >= self.connections.len() {
            return Err(ErrorKind::DeviceNotFound);
        }
        match self.connections[id] {
            Some((kind, true)) => {
                self.connections.set(id, Some((kind, false)));
                Ok(())
            },
            _ => Err(ErrorKind::DeviceNotFound),
        }
    }
}

impl DeviceMap {
    /// The slot holding `name`, when one does.
    pub fn slot_of_name(&self, name: &String) -> (r: Option<usize>)
        ensures
            match r {
                Some(s) => exists|i: int| 0 <= i < self.slots@.len()
                    && (#[trigger] self.slots@[i]).0 == s && self.slots@[i].1@ == name@,
                None => forall|i: int| 0 <= i < self.slots@.len()
                    ==> (#[trigger] self.slots@[i]).1@ != name@,
            },
    {
        let n = self.slots.len();
        let mut i: usize = 0;
        while i < n
            invariant
                i <= n,
                n == self.slots@.len(),
                forall|j: int| 0 <= j < i ==> (#[trigger] self.slots@[j]).1@ != name@,
            decreases n - i,
        {
            if self.slots[i].1.eq(name) {
                return Some(self.slots[i].0);
            }
            i = i + 1;
        }
        None
    }

    /// The device name assigned to `slot`, when any.
    pub fn name_of_slot(&self, slot: usize) -> (r: Option<&String>)
        ensures
            match r {
                Some(nm) => exists|i: int| 0 <= i < self.slots@.len()
                    && (#[trigger] self.slots@[i]).0 == slot && self.slots@[i].1 == *nm,
                None => forall|i: int| 0 <= i < self.slots@.len()
                    ==> (#[trigger] self.slots@[i]).0 != slot,
            },
    {
        let n = self.slots.len();
        let mut i: usize = 0;
        while i < n
            invariant
                i <= n,
                n == self.slots@.len(),
                forall|j: int| 0 <= j < i ==> (#[trigger] self.slots@[j]).0 != slot,
            decreases n - i,
        {
            if self.slots[i].0 == slot {
                return Some(&self.slots[i].1);
            }
            i = i + 1;
        }
        None
    }

    /// Bind a device name to a slot. Slot zero and slots past the largest
    /// assignable one are invalid. A slot occupied by a different device, or
    /// a device already holding a different slot, is a conflict: moving a
    /// device is unassign-then-assign, never a direct move. Re-assigning the
    /// same device to its own slot does nothing.
    pub fn assign_device_to_slot(&mut self, slot: usize, name: &String) -> (r: Result<(), ErrorKind>)
        requires
            old(self).wf(),
            old(self).slots@.len() < usize::MAX,
        ensures
            final(self).wf(),
            final(self).names == old(self).names,
            final(self).connections == old(self).connections,
            match r {
                Ok(()) => {
                    &&& 1 <= slot <= MAX_ASSIGNABLE_SLOT
                    &&& (exists|i: int| 0 <= i < final(self).slots@.len()
                        && (#[trigger] final(self).slots@[i]).0 == slot
                        && final(self).slots@[i].1@ == name@)
                    &&& (forall|i: int| 0 <= i < old(self).slots@.len()
                        && (#[trigger] old(self).slots@[i]).0 != slot
                        ==> final(self).slots@.contains(old(self).slots@[i]))
                },
                Err(e) => *final(self) == *old(self) && ({
                    ||| (e == ErrorKind::InvalidArgument
                        && (slot == 0 || slot > MAX_ASSIGNABLE_SLOT))
                    ||| (e == ErrorKind::SlotConflict
                        && (exists|i: int| 0 <= i < old(self).slots@.len()
                            && ((#[trigger] old(self).slots@[i]).0 == slot
                                    && old(self).slots@[i].1@ != name@
                                || old(self).slots@[i].0 != slot
                                    && old(self).slots@[i].1@ == name@)))
                }),
            },
    {
        if slot == 0 || slot > MAX_ASSIGNABLE_SLOT {
            return Err(ErrorKind::InvalidArgument);
        }
        let n = self.slots.len();
        let mut i: usize = 0;
        while i < n
            invariant
                i <= n,
                n == self.slots@.len(),
                *self == *old(self),
                self.wf(),
                1 <= slot <= MAX_ASSIGNABLE_SLOT,
                forall|j: int| 0 <= j < i ==> (#[trigger] self.slots@[j]).0 != slot
                    && self.slots@[j].1@ != name@,
            decreases n - i,
        {
            let same_slot = self.slots[i].0 == slot;
            let same_name = self.slots[i].1.eq(name);
            if same_slot && same_name {
                proof {
                    assert(self.slots@[i as int].0 == slot && self.slots@[i as int].1@ == name@);
                }
                return Ok(());
            }
            if same_slot || same_name {
                return Err(ErrorKind::SlotConflict);
            }
            i = i + 1;
        }
        let ghost pre = self.slots@;
        self.slots.push((slot, name.clone()));
        proof {
            let last = pre.len() as int;
            assert(self.slots@[last].0 == slot && self.slots@[last].1@ == name@);
            assert(forall|j: int| 0 <= j < pre.len()
                ==> (#[trigger] self.slots@[j]) == pre[j]);
            assert forall|j: int| 0 <= j < pre.len() && (#[trigger] pre[j]).0 != slot
                implies self.slots@.contains(pre[j])
            by {
                assert(self.slots@[j] == pre[j]);
            }
        }
        Ok(())
    }

    /// Free a slot. Slot zero and slots past the largest assignable one are
    /// invalid; freeing an empty slot does nothing.
    pub fn unassign_device_from_slot(&mut self, slot: usize) -> (r: Result<(), ErrorKind>)
        requires
            old(self).wf(),
        ensures
            final(self).wf(),
            final(self).names == old(self).names,
            final(self).connections == old(self).connections,
            match r {
                Ok(()) => {
                    &&& 1 <= slot <= MAX_ASSIGNABLE_SLOT
                    &&& (forall|i: int| 0 <= i < final(self).slots@.len()
                        ==> (#[trigger] final(self).slots@[i]).0 != slot)
                    &&& (forall|i: int| 0 <= i < old(self).slots@.len()
                        && (#[trigger] old(self).slots@[i]).0 != slot
                        ==> final(self).slots@.contains(old(self).slots@[i]))
                },
                Err(e) => *final(self) == *old(self) && e == ErrorKind::InvalidArgument
                    && (slot == 0 || slot > MAX_ASSIGNABLE_SLOT),
            },
    {
        if slot == 0 || slot > MAX_ASSIGNABLE_SLOT {
            return Err(ErrorKind::InvalidArgument);
        }
        let n = self.slots.len();
        let mut i: usize = 0;
        while i < n
            invariant
                i <= n,
                n == self.slots@.len(),
                *self == *old(self),
                self.wf(),
                1 <= slot <= MAX_ASSIGNABLE_SLOT,
                forall|j: int| 0 <= j < i ==> (#[trigger] self.slots@[j]).0 != slot,
            decreases n - i,
        {
            if self.slots[i].0 == slot {
                let ghost pre = self.slots@;
                self.slots.remove(i);
                proof {
                    assert forall|j: int| 0 <= j < self.slots@.len()
                        implies (#[trigger] self.slots@[j]).0 != slot
                    by {
                        if j < i {
                            assert(self.slots@[j] == pre[j]);
                        } else {
                            assert(self.slots@[j] == pre[j + 1]);
                            assert(pre[j + 1].0 != pre[i as int].0);
                        }
                    }
                    assert forall|j: int| 0 <= j < pre.len() && (#[trigger] pre[j]).0 != slot
                        implies self.slots@.contains(pre[j])
                    by {
                        if j < i {
                            assert(self.slots@[j] == pre[j]);
                        } else {
                            assert(j != i);
                            assert(self.slots@[j - 1] == pre[j]);
                        }
                    }
                }
                return Ok(());
            }
            i = i + 1;
        }
        Ok(())
    }

    /// Create a virtual output port entry. The name is rejected when it is
    /// already known to the registry or appears among the system port names;
    /// otherwise it gets a fresh identifier and is registered as a connected
    /// MIDI output.
    pub fn create_virtual_midi_output(&mut self, name: &String, system_names: &Vec<String>)
        -> (r: Result<usize, ErrorKind>)
        requires
            old(self).wf(),
            old(self).names@.len() < usize::MAX,
        ensures
            final(self).wf(),
            final(self).names@.len() <= old(self).names@.len() + 1,
            final(self).slots == old(self).slots,
            forall|n: Seq<char>| (#[trigger] old(self).spec_id_of(n)) is Some
                ==> final(self).spec_id_of(n) == old(self).spec_id_of(n),
            match r {
                Ok(id) => old(self).spec_id_of(name@) == None::<int>
                    && (forall|i: int| 0 <= i < system_names@.len()
                        ==> (#[trigger] system_names@[i])@ != name@)
                    && final(self).spec_id_of(name@) == Some(id as int)
                    && final(self).spec_connected(id as int)
                    && final(self).spec_connection_kind(id as int) == Some(DeviceKind::Midi),
                Err(e) => *final(self) == *old(self) && e == ErrorKind::InvalidArgument
                    && (old(self).spec_id_of(name@) is Some
                        || exists|i: int| 0 <= i < system_names@.len()
                            && (#[trigger] system_names@[i])@ == name@),
            },
    {
        match self.find_id(name) {
            Some(_) => Err(ErrorKind::InvalidArgument),
            None => {
                let n = system_names.len();
                let mut i: usize = 0;
                while i < n
                    invariant
                        i <= n,
                        n == system_names@.len(),
                        *self == *old(self),
                        old(self).wf(),
                        old(self).names@.len() < usize::MAX,
                        old(self).spec_id_of(name@) == None::<int>,
                        forall|j: int| 0 <= j < i
                            ==> (#[trigger] system_names@[j])@ != name@,
                    decreases n - i,
                {
                    if system_names[i].eq(name) {
                        return Err(ErrorKind::InvalidArgument);
                    }
                    i = i + 1;
                }
                let id = self.register_output_connection(name, DeviceKind::Midi);
                Ok(id)
            },
        }
    }
}

/// The zero-based MIDI channel of a one-based user channel: one below it,
/// wrapped to four bits; a zero user channel reads as channel zero.
pub open spec fn spec_midi_channel(ch: u64) -> u8 {
    (((if ch == 0 { 0int } else { ch - 1 }) % 16) as u8)
}

/// A value truncated to one byte, as event fields are wider than the wire.
pub open spec fn spec_byte(x: u64) -> u8 {
    ((x as int) % 256) as u8
}

/// Convert a one-based user channel.
pub fn midi_channel(ch: u64) -> (r: u8)
    ensures
        r == spec_midi_channel(ch),
        r < 16,
{
    if ch == 0 {
        0
    } else {
        ((ch - 1) % 16) as u8
    }
}

/// Truncate an event field to one byte.
pub fn byte_of(x: u64) -> (r: u8)
    ensures
        r == spec_byte(x),
{
    (x % 256) as u8
}

/// One timed MIDI message for a device.
pub open spec fn spec_timed_midi(id: usize, payload: MIDIMessageType, channel: u8, time: SyncTime)
    -> TimedMessage {
    TimedMessage {
        message: ProtocolMessage {
            device_id: id,
            payload: ProtocolPayload::MIDI(MIDIMessage { payload, channel }),
        },
        time,
    }
}

/// The MIDI translation table: what timed messages one event produces for a
/// MIDI device. A note becomes a key-down at its date and a key-up with
/// velocity zero one duration later; every other MIDI event becomes a single
/// message at its date; system messages use channel zero; events that are
/// not MIDI produce nothing.
pub open spec fn spec_midi_messages(e: ConcreteEvent, date: SyncTime, id: usize)
    -> Seq<TimedMessage> {
    match e {
        ConcreteEvent::MidiNote { note, velocity, channel, duration, .. } => seq![
            spec_timed_midi(id, MIDIMessageType::NoteOn {
                note: spec_byte(note),
                velocity: spec_byte(velocity),
            }, spec_midi_channel(channel), date),
            spec_timed_midi(id, MIDIMessageType::NoteOff {
                note: spec_byte(note),
                velocity: 0,
            }, spec_midi_channel(channel), (date + duration) as u64),
        ],
        ConcreteEvent::MidiControl { control, value, channel, .. } => seq![
            spec_timed_midi(id, MIDIMessageType::ControlChange {
                control: spec_byte(control),
                value: spec_byte(value),
            }, spec_midi_channel(channel), date),
        ],
        ConcreteEvent::MidiProgram { program, channel, .. } => seq![
            spec_timed_midi(id, MIDIMessageType::ProgramChange {
                program: spec_byte(program),
            }, spec_midi_channel(channel), date),
        ],
        ConcreteEvent::MidiAftertouch { note, value, channel, .. } => seq![
            spec_timed_midi(id, MIDIMessageType::Aftertouch {
                note: spec_byte(note),
                value: spec_byte(value),
            }, spec_midi_channel(channel), date),
        ],
        ConcreteEvent::MidiChannelPressure { value, channel, .. } => seq![
            spec_timed_midi(id, MIDIMessageType::ChannelPressure {
                value: spec_byte(value),
            }, spec_midi_channel(channel), date),
        ],
        ConcreteEvent::MidiSystemExclusive { data, .. } => seq![
            spec_timed_midi(id, MIDIMessageType::SystemExclusive { data }, 0, date),
        ],
        ConcreteEvent::MidiStart { .. } => seq![
            spec_timed_midi(id, MIDIMessageType::Start, 0, date),
        ],
        ConcreteEvent::MidiStop { .. } => seq![
            spec_timed_midi(id, MIDIMessageType::Stop, 0, date),
        ],
        ConcreteEvent::MidiContinue { .. } => seq![
            spec_timed_midi(id, MIDIMessageType::Continue, 0, date),
        ],
        ConcreteEvent::MidiClock { .. } => seq![
            spec_timed_midi(id, MIDIMessageType::Clock, 0, date),
        ],
        ConcreteEvent::MidiReset { .. } => seq![
            spec_timed_midi(id, MIDIMessageType::Reset, 0, date),
        ],
        ConcreteEvent::Nop => Seq::empty(),
        ConcreteEvent::Osc { .. } => Seq::empty(),
    }
}

/// The string rendering of an event, as the log device reports it: a tag
/// naming the event kind, then its numeric fields in order.
pub open spec fn spec_render_event(e: ConcreteEvent) -> Seq<char> {
    match e {
        ConcreteEvent::Nop => "nop"@,
        ConcreteEvent::MidiNote { note, velocity, channel, duration, .. } =>
            "midi note "@ + crate::text::dec_chars_of(note as int)
                + " "@ + crate::text::dec_chars_of(velocity as int)
                + " "@ + crate::text::dec_chars_of(channel as int)
                + " "@ + crate::text::dec_chars_of(duration as int),
        ConcreteEvent::MidiControl { control, value, channel, .. } =>
            "midi control "@ + crate::text::dec_chars_of(control as int)
                + " "@ + crate::text::dec_chars_of(value as int)
                + " "@ + crate::text::dec_chars_of(channel as int),
        ConcreteEvent::MidiProgram { program, channel, .. } =>
            "midi program "@ + crate::text::dec_chars_of(program as int)
                + " "@ + crate::text::dec_chars_of(channel as int),
        ConcreteEvent::MidiAftertouch { note, value, channel, .. } =>
            "midi aftertouch "@ + crate::text::dec_chars_of(note as int)
                + " "@ + crate::text::dec_chars_of(value as int)
                + " "@ + crate::text::dec_chars_of(channel as int),
        ConcreteEvent::MidiChannelPressure { value, channel, .. } =>
            "midi pressure "@ + crate::text::dec_chars_of(value as int)
                + " "@ + crate::text::dec_chars_of(channel as int),
        ConcreteEvent::MidiSystemExclusive { data, .. } =>
            "midi sysex "@ + crate::text::dec_chars_of(data@.len() as int),
        ConcreteEvent::MidiStart { .. } => "midi start"@,
        ConcreteEvent::MidiStop { .. } => "midi stop"@,
        ConcreteEvent::MidiContinue { .. } => "midi continue"@,
        ConcreteEvent::MidiClock { .. } => "midi clock"@,
        ConcreteEvent::MidiReset { .. } => "midi reset"@,
        ConcreteEvent::Osc { addr, .. } => "osc "@ + addr@,
    }
}

/// The report written when an event names an unknown or unconnected device.
pub open spec fn spec_missing_device_text(id: int) -> Seq<char> {
    "unable to find target device "@ + crate::text::dec_chars_of(id)
}

/// Append the decimal numeral of a number to a string.
pub fn push_dec(s: &mut String, n: u64)
    ensures
        final(s)@ == old(s)@ + crate::text::dec_chars_of(n as int),
{
    let digits = crate::text::dec_chars(n);
    let mut i: usize = 0;
    while i < digits.len()
        invariant
            i <= digits@.len(),
            s@ =~= old(s)@ + digits@.subrange(0, i as int),
        decreases digits@.len() - i,
    {
        crate::text::push_char(s, digits[i]);
        proof {
            assert(s@ =~= old(s)@ + digits@.subrange(0, i + 1));
        }
        i = i + 1;
    }
    proof {
        assert(digits@.subrange(0, digits@.len() as int) =~= digits@);
        assert(s@ =~= old(s)@ + digits@);
    }
}

/// Render an event as the log device reports it.
pub fn render_event(e: &ConcreteEvent) -> (r: String)
    ensures
        r@ == spec_render_event(*e),
{
    match e {
        ConcreteEvent::Nop => String::from_str("nop"),
        ConcreteEvent::MidiNote { note, velocity, channel, duration, .. } => {
            let mut s = String::from_str("midi note ");
            push_dec(&mut s, *note);
            s.append(" ");
            push_dec(&mut s, *velocity);
            s.append(" ");
            push_dec(&mut s, *channel);
            s.append(" ");
            push_dec(&mut s, *duration);
            proof {
                assert(s@ =~= spec_render_event(*e));
            }
            s
        },
        ConcreteEvent::MidiControl { control, value, channel, .. } => {
            let mut s = String::from_str("midi control ");
            push_dec(&mut s, *control);
            s.append(" ");
            push_dec(&mut s, *value);
            s.append(" ");
            push_dec(&mut s, *channel);
            proof {
                assert(s@ =~= spec_render_event(*e));
            }
            s
        },
        ConcreteEvent::MidiProgram { program, channel, .. } => {
            let mut s = String::from_str("midi program ");
            push_dec(&mut s, *program);
            s.append(" ");
            push_dec(&mut s, *channel);
            proof {
                assert(s@ =~= spec_render_event(*e));
            }
            s
        },
        ConcreteEvent::MidiAftertouch { note, value, channel, .. } => {
            let mut s = String::from_str("midi aftertouch ");
            push_dec(&mut s, *note);
            s.append(" ");
            push_dec(&mut s, *value);
            s.append(" ");
            push_dec(&mut s, *channel);
            proof {
                assert(s@ =~= spec_render_event(*e));
            }
            s
        },
        ConcreteEvent::MidiChannelPressure { value, channel, .. } => {
            let mut s = String::from_str("midi pressure ");
            push_dec(&mut s, *value);
            s.append(" ");
            push_dec(&mut s, *channel);
            proof {
                assert(s@ =~= spec_render_event(*e));
            }
            s
        },
        ConcreteEvent::MidiSystemExclusive { data, .. } => {
            let mut s = String::from_str("midi sysex ");
            push_dec(&mut s, data.len() as u64);
            proof {
                assert(s@ =~= spec_render_event(*e));
            }
            s
        },
        ConcreteEvent::MidiStart { .. } => String::from_str("midi start"),
        ConcreteEvent::MidiStop { .. } => String::from_str("midi stop"),
        ConcreteEvent::MidiContinue { .. } => String::from_str("midi continue"),
        ConcreteEvent::MidiClock { .. } => String::from_str("midi clock"),
        ConcreteEvent::MidiReset { .. } => String::from_str("midi reset"),
        ConcreteEvent::Osc { addr, .. } => {
            let mut s = String::from_str("osc ");
            s.append(addr.as_str());
            proof {
                assert(s@ =~= spec_render_event(*e));
            }
            s
        },
    }
}

/// Translate a MIDI event into its timed messages for device `id`.
fn midi_messages_for(e: ConcreteEvent, date: SyncTime, id: usize) -> (r: Vec<TimedMessage>)
    requires
        match e {
            ConcreteEvent::MidiNote { duration, .. } => date + duration <= u64::MAX,
            _ => true,
        },
    ensures
        r@ == spec_midi_messages(e, date, id),
{
    let mut r: Vec<TimedMessage> = Vec::new();
    match e {
        ConcreteEvent::MidiNote { note, velocity, channel, duration, .. } => {
            let ch = midi_channel(channel);
            r.push(ProtocolMessage {
                device_id: id,
                payload: ProtocolPayload::MIDI(MIDIMessage {
                    payload: MIDIMessageType::NoteOn {
                        note: byte_of(note),
                        velocity: byte_of(velocity),
                    },
                    channel: ch,
                }),
            }.timed(date));
            r.push(ProtocolMessage {
                device_id: id,
                payload: ProtocolPayload::MIDI(MIDIMessage {
                    payload: MIDIMessageType::NoteOff { note: byte_of(note), velocity: 0 },
                    channel: ch,
                }),
            }.timed(date + duration));
        },
        ConcreteEvent::MidiControl { control, value, channel, .. } => {
            r.push(ProtocolMessage {
                device_id: id,
                payload: ProtocolPayload::MIDI(MIDIMessage {
                    payload: MIDIMessageType::ControlChange {
                        control: byte_of(control),
                        value: byte_of(value),
                    },
                    channel: midi_channel(channel),
                }),
            }.timed(date));
        },
        ConcreteEvent::MidiProgram { program, channel, .. } => {
            r.push(ProtocolMessage {
                device_id: id,
                payload: ProtocolPayload::MIDI(MIDIMessage {
                    payload: MIDIMessageType::ProgramChange { program: byte_of(program) },
                    channel: midi_channel(channel),
                }),
            }.timed(date));
        },
        ConcreteEvent::MidiAftertouch { note, value, channel, .. } => {
            r.push(ProtocolMessage {
                device_id: id,
                payload: ProtocolPayload::MIDI(MIDIMessage {
                    payload: MIDIMessageType::Aftertouch {
                        note: byte_of(note),
                        value: byte_of(value),
                    },
                    channel: midi_channel(channel),
                }),
            }.timed(date));
        },
        ConcreteEvent::MidiChannelPressure { value, channel, .. } => {
            r.push(ProtocolMessage {
                device_id: id,
                payload: ProtocolPayload::MIDI(MIDIMessage {
                    payload: MIDIMessageType::ChannelPressure { value: byte_of(value) },
                    channel: midi_channel(channel),
                }),
            }.timed(date));
        },
        ConcreteEvent::MidiSystemExclusive { data, .. } => {
            r.push(ProtocolMessage {
                device_id: id,
                payload: ProtocolPayload::MIDI(MIDIMessage {
                    payload: MIDIMessageType::SystemExclusive { data },
                    channel: 0,
                }),
            }.timed(date));
        },
        ConcreteEvent::MidiStart { .. } => {
            r.push(ProtocolMessage {
                device_id: id,
                payload: ProtocolPayload::MIDI(MIDIMessage {
                    payload: MIDIMessageType::Start,
                    channel: 0,
                }),
            }.timed(date));
        },
        ConcreteEvent::MidiStop { .. } => {
            r.push(ProtocolMessage {
                device_id: id,
                payload: ProtocolPayload::MIDI(MIDIMessage {
                    payload: MIDIMessageType::Stop,
                    channel: 0,
                }),
            }.timed(date));
        },
        ConcreteEvent::MidiContinue { .. } => {
            r.push(ProtocolMessage {
                device_id: id,
                payload: ProtocolPayload::MIDI(MIDIMessage {
                    payload: MIDIMessageType::Continue,
                    channel: 0,
                }),
            }.timed(date));
        },
        ConcreteEvent::MidiClock { .. } => {
            r.push(ProtocolMessage {
                device_id: id,
                payload: ProtocolPayload::MIDI(MIDIMessage {
                    payload: MIDIMessageType::Clock,
                    channel: 0,
                }),
            }.timed(date));
        },
        ConcreteEvent::MidiReset { .. } => {
            r.push(ProtocolMessage {
                device_id: id,
                payload: ProtocolPayload::MIDI(MIDIMessage {
                    payload: MIDIMessageType::Reset,
                    channel: 0,
                }),
            }.timed(date));
        },
        ConcreteEvent::Nop => {},
        ConcreteEvent::Osc { .. } => {},
    }
    proof {
        assert(r@ =~= spec_midi_messages(e, date, id));
    }
    r
}

impl DeviceMap {
    /// Translate one event into timed protocol messages at its due date.
    /// The target is resolved by the event's device identifier: an unknown
    /// or unconnected target yields a single error report routed to the log
    /// device at the same date; the log device yields a single rendering of
    /// the event; a MIDI device yields the MIDI translation (a note becomes
    /// a key-down at the date and a key-up one duration later); an OSC
    /// device yields the event's message stamped for bundling at the date.
    pub fn map_event(&self, event: ConcreteEvent, date: SyncTime) -> (r: Vec<TimedMessage>)
        requires
            match event {
                ConcreteEvent::MidiNote { duration, .. } => date + duration <= u64::MAX,
                _ => true,
            },
        ensures
            match self.spec_connection_kind(event.spec_device_id()) {
                None => r@.len() == 1 && r@[0].time == date
                    && r@[0].message.device_id == LOG_DEVICE_ID
                    && (r@[0].message.payload matches ProtocolPayload::LOG(m)
                        && m.level == Severity::Error
                        && m.msg@ == spec_missing_device_text(event.spec_device_id())),
                Some(k) => match k {
                    DeviceKind::Midi => r@ == spec_midi_messages(
                        event, date, event.spec_device_id() as usize),
                    DeviceKind::Log => r@.len() == 1 && r@[0].time == date
                        && r@[0].message.device_id == event.spec_device_id()
                        && (r@[0].message.payload matches ProtocolPayload::LOG(m)
                            && m.level == Severity::Info
                            && m.msg@ == spec_render_event(event)),
                    DeviceKind::Osc => r@ == spec_osc_messages(
                        event, date, event.spec_device_id() as usize),
                },
            },
    {
        let id = event.device_id();
        match self.connection_kind(id) {
            None => {
                let mut msg = String::from_str("unable to find target device ");
                push_dec(&mut msg, id as u64);
                let mut r: Vec<TimedMessage> = Vec::new();
                r.push(ProtocolMessage {
                    device_id: LOG_DEVICE_ID,
                    payload: ProtocolPayload::LOG(LogMessage::error(msg)),
                }.timed(date));
                r
            },
            Some(DeviceKind::Midi) => midi_messages_for(event, date, id),
            Some(DeviceKind::Log) => {
                let msg = render_event(&event);
                let mut r: Vec<TimedMessage> = Vec::new();
                r.push(ProtocolMessage {
                    device_id: id,
                    payload: ProtocolPayload::LOG(LogMessage::info(msg)),
                }.timed(date));
                r
            },
            Some(DeviceKind::Osc) => {
                let mut r: Vec<TimedMessage> = Vec::new();
                match event {
                    ConcreteEvent::Osc { addr, args, .. } => {
                        r.push(ProtocolMessage {
                            device_id: id,
                            payload: ProtocolPayload::OSC(OSCMessage {
                                addr,
                                args,
                                timetag: Some(date),
                            }),
                        }.timed(date));
                    },
                    _ => {},
                }
                proof {
                    assert(r@ =~= spec_osc_messages(event, date, id));
                }
                r
            },
        }
    }
}

impl DeviceMap {
    /// Enumerate every known device: the discovered system MIDI output and
    /// input ports (each assigned a stable identifier on first sight), the
    /// built-in log device, and every registered open connection (covering
    /// virtual ports that no system scan shows). The result is sorted by
    /// identifier; each entry carries the registry name for its identifier
    /// and the address of its live connection; the log device always reads
    /// as connected, every other entry's flag states whether a connection
    /// is currently open.
    #[verifier::rlimit(100)]
    #[verifier::spinoff_prover]
    pub fn device_list(&mut self, midi_out_names: &Vec<String>, midi_in_names: &Vec<String>)
        -> (r: Vec<DeviceInfo>)
        requires
            old(self).wf(),
            old(self).names@.len() + midi_out_names@.len() + midi_in_names@.len() < usize::MAX,
        ensures
            final(self).wf(),
            final(self).connections == old(self).connections,
            final(self).slots == old(self).slots,
            forall|n: Seq<char>| (#[trigger] old(self).spec_id_of(n)) is Some
                ==> final(self).spec_id_of(n) == old(self).spec_id_of(n),
            // Sorted by identifier, one entry each.
            forall|i: int, j: int| 0 <= i < j < r@.len()
                ==> (#[trigger] r@[i]).id < (#[trigger] r@[j]).id,
            // Entries carry the registry's name for their identifier.
            forall|i: int| 0 <= i < r@.len()
                ==> (#[trigger] r@[i]).id < final(self).names@.len()
                    && r@[i].name@ == final(self).names@[r@[i].id as int]@,
            // The connected flag: the log device always reads connected,
            // everything else reads its registration state.
            forall|i: int| 0 <= i < r@.len() && (#[trigger] r@[i]).id == LOG_DEVICE_ID
                ==> r@[i].is_connected,
            forall|i: int| 0 <= i < r@.len() && (#[trigger] r@[i]).id != LOG_DEVICE_ID
                ==> r@[i].is_connected == final(self).spec_connected(r@[i].id as int),
            // The address keys the live connection: the entry's own name
            // when one is open, nothing otherwise.
            forall|i: int| 0 <= i < r@.len()
                ==> (#[trigger] r@[i]).address == (if r@[i].is_connected {
                    Some(r@[i].name)
                } else {
                    None::<String>
                }),
            // The log device is always listed.
            exists|i: int| 0 <= i < r@.len() && (#[trigger] r@[i]).id == LOG_DEVICE_ID,
            // Every discovered port and every open connection is listed.
            forall|k: int| 0 <= k < midi_out_names@.len()
                ==> exists|i: int| 0 <= i < r@.len()
                    && (#[trigger] r@[i]).name@ == (#[trigger] midi_out_names@[k])@,
            forall|k: int| 0 <= k < midi_in_names@.len()
                ==> exists|i: int| 0 <= i < r@.len()
                    && (#[trigger] r@[i]).name@ == (#[trigger] midi_in_names@[k])@,
            forall|id: int| #[trigger] final(self).spec_connected(id)
                ==> exists|i: int| 0 <= i < r@.len() && (#[trigger] r@[i]).id == id,
    {
        // Assign identifiers to every discovered port name.
        let mut out_ids: Vec<usize> = Vec::new();
        let mut k: usize = 0;
        while k < midi_out_names.len()
            invariant
                k <= midi_out_names@.len(),
                self.wf(),
                self.connections == old(self).connections,
                self.slots == old(self).slots,
                self.names@.len() <= old(self).names@.len() + k,
                old(self).names@.len() + midi_out_names@.len() + midi_in_names@.len()
                    < usize::MAX,
                forall|n: Seq<char>| (#[trigger] old(self).spec_id_of(n)) is Some
                    ==> self.spec_id_of(n) == old(self).spec_id_of(n),
                out_ids@.len() == k,
                forall|j: int| 0 <= j < k
                    ==> self.spec_id_of((#[trigger] midi_out_names@[j])@)
                            == Some(out_ids@[j] as int),
                forall|j: int| 0 <= j < k ==> (#[trigger] out_ids@[j]) < self.names@.len(),
            decreases midi_out_names@.len() - k,
        {
            let id = self.ensure_device_id(&midi_out_names[k]);
            out_ids.push(id);
            k = k + 1;
        }
        let mut in_ids: Vec<usize> = Vec::new();
        let ghost mid = *self;
        let mut k: usize = 0;
        while k < midi_in_names.len()
            invariant
                k <= midi_in_names@.len(),
                self.wf(),
                self.connections == mid.connections,
                self.slots == mid.slots,
                self.names@.len() <= mid.names@.len() + k,
                mid.names@.len() + midi_in_names@.len() < usize::MAX,
                forall|n: Seq<char>| (#[trigger] mid.spec_id_of(n)) is Some
                    ==> self.spec_id_of(n) == mid.spec_id_of(n),
                in_ids@.len() == k,
                forall|j: int| 0 <= j < k
                    ==> self.spec_id_of((#[trigger] midi_in_names@[j])@)
                            == Some(in_ids@[j] as int),
                forall|j: int| 0 <= j < k ==> (#[trigger] in_ids@[j]) < self.names@.len(),
                forall|j: int| 0 <= j < out_ids@.len()
                    ==> self.spec_id_of((#[trigger] midi_out_names@[j])@)
                            == Some(out_ids@[j] as int),
                forall|j: int| 0 <= j < out_ids@.len()
                    ==> (#[trigger] out_ids@[j]) < self.names@.len(),
                out_ids@.len() == midi_out_names@.len(),
            decreases midi_in_names@.len() - k,
        {
            let id = self.ensure_device_id(&midi_in_names[k]);
            in_ids.push(id);
            k = k + 1;
        }
        // Mark, per identifier, what the list will show.
        let n = self.names.len();
        let mut marks: Vec<Option<(DeviceKind, DeviceDirection, bool)>> = Vec::new();
        let mut k: usize = 0;
        while k < n
            invariant
                k <= n,
                marks@.len() == k,
                forall|j: int| 0 <= j < k ==> (#[trigger] marks@[j]) is None,
            decreases n - k,
        {
            marks.push(None);
            k = k + 1;
        }
        let mut k: usize = 0;
        while k < out_ids.len()
            invariant
                k <= out_ids@.len(),
                marks@.len() == n,
                forall|j: int| 0 <= j < out_ids@.len() ==> (#[trigger] out_ids@[j]) < n,
                forall|j: int| 0 <= j < k ==> (#[trigger] marks@[out_ids@[j] as int]) is Some,
                forall|j: int| 0 <= j < n && (#[trigger] marks@[j]) is Some
                    ==> (marks@[j] matches Some(m) && !m.2),
            decreases out_ids@.len() - k,
        {
            let id = out_ids[k];
            if marks[id].is_none() {
                marks.set(id, Some((DeviceKind::Midi, DeviceDirection::Out, false)));
            }
            k = k + 1;
        }
        let mut k: usize = 0;
        while k < in_ids.len()
            invariant
                k <= in_ids@.len(),
                marks@.len() == n,
                forall|j: int| 0 <= j < in_ids@.len() ==> (#[trigger] in_ids@[j]) < n,
                forall|j: int| 0 <= j < out_ids@.len() ==> (#[trigger] out_ids@[j]) < n,
                forall|j: int| 0 <= j < k ==> (#[trigger] marks@[in_ids@[j] as int]) is Some,
                forall|j: int| 0 <= j < out_ids@.len()
                    ==> (#[trigger] marks@[out_ids@[j] as int]) is Some,
                forall|j: int| 0 <= j < n && (#[trigger] marks@[j]) is Some
                    ==> (marks@[j] matches Some(m) && !m.2),
            decreases in_ids@.len() - k,
        {
            let id = in_ids[k];
            if marks[id].is_none() {
                marks.set(id, Some((DeviceKind::Midi, DeviceDirection::In, false)));
            }
            k = k + 1;
        }
        // The log device and the registered open connections.
        marks.set(LOG_DEVICE_ID, Some((DeviceKind::Log, DeviceDirection::Out, true)));
        let mut k: usize = 0;
        while k < self.connections.len()
            invariant
                k <= self.connections@.len(),
                self.connections@.len() <= n,
                marks@.len() == n,
                marks@[LOG_DEVICE_ID as int] is Some,
                forall|j: int| 0 <= j < out_ids@.len() ==> (#[trigger] out_ids@[j]) < n,
                forall|j: int| 0 <= j < in_ids@.len() ==> (#[trigger] in_ids@[j]) < n,
                forall|j: int| 0 <= j < out_ids@.len()
                    ==> (#[trigger] marks@[out_ids@[j] as int]) is Some,
                forall|j: int| 0 <= j < in_ids@.len()
                    ==> (#[trigger] marks@[in_ids@[j] as int]) is Some,
                forall|j: int| 0 <= j < k && self.spec_connected(j)
                    ==> (#[trigger] marks@[j]) is Some,
                forall|j: int| 0 <= j < n && j != LOG_DEVICE_ID && (#[trigger] marks@[j]) is Some
                    ==> (marks@[j] matches Some(m)
                        && m.2 == (j < k && self.spec_connected(j))),
                forall|j: int| 0 <= j < n && j == LOG_DEVICE_ID && (#[trigger] marks@[j]) is Some
                    ==> (marks@[j] matches Some(m) && m.2),
            decreases self.connections@.len() - k,
        {
            match self.connections[k] {
                Some((kind, true)) => {
                    match marks[k] {
                        None => {
                            marks.set(k, Some((kind, DeviceDirection::Out, true)));
                        },
                        Some(m) => {
                            if k != LOG_DEVICE_ID {
                                marks.set(k, Some((m.0, m.1, true)));
                            }
                        },
                    }
                },
                _ => {},
            }
            k = k + 1;
        }
        // Walk the identifiers in order, so the list is sorted by
        // construction.
        let mut r: Vec<DeviceInfo> = Vec::new();
        let mut k: usize = 0;
        while k < n
            invariant
                k <= n,
                n == self.names@.len(),
                marks@.len() == n,
                self.wf(),
                forall|i: int, j: int| 0 <= i < j < r@.len()
                    ==> (#[trigger] r@[i]).id < (#[trigger] r@[j]).id,
                forall|i: int| 0 <= i < r@.len() ==> (#[trigger] r@[i]).id < k,
                forall|i: int| 0 <= i < r@.len()
                    ==> (#[trigger] r@[i]).id < n
                        && r@[i].name@ == self.names@[r@[i].id as int]@,
                forall|i: int| 0 <= i < r@.len()
                    ==> (#[trigger] r@[i]).is_connected
                        == (marks@[r@[i].id as int] matches Some(m) && m.2),
                forall|i: int| 0 <= i < r@.len()
                    ==> (#[trigger] r@[i]).address == (if r@[i].is_connected {
                        Some(r@[i].name)
                    } else {
                        None::<String>
                    }),
                forall|j: int| 0 <= j < k && (#[trigger] marks@[j]) is Some
                    ==> exists|i: int| 0 <= i < r@.len() && (#[trigger] r@[i]).id == j,
            decreases n - k,
        {
            match marks[k] {
                Some(m) => {
                    let slot = self.slot_of_name(&self.names[k]);
                    let ghost pre = r@;
                    let entry_name = self.names[k].clone();
                    let entry_address: Option<String> = if m.2 {
                        Some(self.names[k].clone())
                    } else {
                        None
                    };
                    r.push(DeviceInfo {
                        id: k,
                        name: entry_name,
                        kind: m.0,
                        direction: m.1,
                        is_connected: m.2,
                        slot_id: slot,
                        address: entry_address,
                    });
                    proof {
                        assert(r@[pre.len() as int].id == k);
                        assert forall|j: int| 0 <= j < k + 1 && (#[trigger] marks@[j]) is Some
                            implies exists|i: int| 0 <= i < r@.len()
                                && (#[trigger] r@[i]).id == j
                        by {
                            if j < k {
                                let i = choose|i: int| 0 <= i < pre.len()
                                    && (#[trigger] pre[i]).id == j;
                                assert(r@[i].id == j);
                            } else {
                                assert(r@[pre.len() as int].id == j);
                            }
                        }
                    }
                },
                None => {},
            }
            k = k + 1;
        }
        proof {
            assert forall|i: int| 0 <= i < r@.len() && (#[trigger] r@[i]).id == LOG_DEVICE_ID
                implies r@[i].is_connected
            by {
                assert(marks@[LOG_DEVICE_ID as int] is Some);
            }
            assert forall|i: int| 0 <= i < r@.len() && (#[trigger] r@[i]).id != LOG_DEVICE_ID
                implies r@[i].is_connected == self.spec_connected(r@[i].id as int)
            by {
                let j = r@[i].id as int;
                if self.spec_connected(j) {
                    assert(marks@[j] is Some);
                }
            }
            assert forall|kk: int| 0 <= kk < midi_out_names@.len()
                implies exists|i: int| 0 <= i < r@.len()
                    && (#[trigger] r@[i]).name@ == (#[trigger] midi_out_names@[kk])@
            by {
                let id = out_ids@[kk] as int;
                assert(marks@[id] is Some);
                let i = choose|i: int| 0 <= i < r@.len() && (#[trigger] r@[i]).id == id;
                lemma_index_of_name_at(self.names@, midi_out_names@[kk]@, id);
                assert(r@[i].name@ == midi_out_names@[kk]@);
            }
            assert forall|kk: int| 0 <= kk < midi_in_names@.len()
                implies exists|i: int| 0 <= i < r@.len()
                    && (#[trigger] r@[i]).name@ == (#[trigger] midi_in_names@[kk])@
            by {
                let id = in_ids@[kk] as int;
                assert(marks@[id] is Some);
                let i = choose|i: int| 0 <= i < r@.len() && (#[trigger] r@[i]).id == id;
                lemma_index_of_name_at(self.names@, midi_in_names@[kk]@, id);
                assert(r@[i].name@ == midi_in_names@[kk]@);
            }
            assert forall|id: int| #[trigger] self.spec_connected(id)
                implies exists|i: int| 0 <= i < r@.len() && (#[trigger] r@[i]).id == id
            by {
                assert(marks@[id] is Some);
            }
        }
        r
    }
}

/// A name whose registry position the search reports is the name stored
/// there.
proof fn lemma_index_of_name_at(names: Seq<String>, name: Seq<char>, i: int)
    requires
        spec_index_of_name(names, name) == Some(i),
    ensures
        0 <= i < names.len(),
        names[i]@ == name,
    decreases names.len(),
{
    if names.len() > 0 {
        if names[0]@ == name {
        } else {
            let t = names.drop_first();
            lemma_index_of_name_at(t, name, i - 1);
            assert(t[i - 1] == names[i]);
        }
    }
}

/// Law: the slot table is injective both ways. In a well-formed device map
/// no two slots hold the same device, and no device holds two slots.
pub proof fn lemma_slot_table_injective(m: DeviceMap)
    requires
        m.wf(),
    ensures
        forall|i: int, j: int| 0 <= i < m.slots@.len() && 0 <= j < m.slots@.len() && i != j
            ==> (#[trigger] m.slots@[i]).0 != (#[trigger] m.slots@[j]).0
                && m.slots@[i].1@ != m.slots@[j].1@,
{
    assert forall|i: int, j: int| 0 <= i < m.slots@.len() && 0 <= j < m.slots@.len() && i != j
        implies (#[trigger] m.slots@[i]).0 != (#[trigger] m.slots@[j]).0
            && m.slots@[i].1@ != m.slots@[j].1@
    by {
        if i < j {
        } else {
            assert(m.slots@[j].0 != m.slots@[i].0 && m.slots@[j].1@ != m.slots@[i].1@);
        }
    }
}

/// The OSC translation: an OSC event becomes one message stamped for
/// bundling at its date; any other event produces nothing for an OSC
/// device.
pub open spec fn spec_osc_messages(e: ConcreteEvent, date: SyncTime, id: usize)
    -> Seq<TimedMessage> {
    match e {
        ConcreteEvent::Osc { addr, args, .. } => seq![
            TimedMessage {
                message: ProtocolMessage {
                    device_id: id,
                    payload: ProtocolPayload::OSC(OSCMessage {
                        addr,
                        args,
                        timetag: Some(date),
                    }),
                },
                time: date,
            },
        ],
        _ => Seq::empty(),
    }
}

} // verus!
