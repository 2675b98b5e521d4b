use vstd::prelude::*;

use crate::codec::packet_claimed_len;
use crate::codec::packet_length;
use crate::codec::packet_to_bytes;
use crate::codec::packet_wire;
use crate::codec::MAX_WIRE_LEN;
use crate::codec::PACKET_SIZE;

verus! {

/// The distinct ways establishing a serial connection can fail: the requested
/// name matches no visible device, it matches more than one device, or exactly
/// one device matched but the port could not be opened.
#[derive(Clone, Copy, Debug, PartialEq, Eq, Structural)]
pub enum HostSerialPortErrors {
    NoDeviceFoundByThatName,
    MultipleDevicesFoundByThatName,
    ErrorConnectingToDevice,
}

/// How many entries of `names` are exactly `target`.
pub open spec fn match_count(names: Seq<Seq<char>>, target: Seq<char>) -> nat
    decreases names.len(),
{
    if names.len() == 0 {
        0
    } else {
        match_count(names.drop_last(), target) + if names.last() == target {
            1nat
        } else {
            0nat
        }
    }
}

/// The character sequences of a list of names.
pub open spec fn name_views(names: Seq<String>) -> Seq<Seq<char>> {
    names.map_values(|s: String| s@)
}

/// Resolves a device name against the list of currently visible device names.
/// Succeeds exactly when the name matches one device; zero matches and
/// duplicate matches are distinct, mutually exclusive errors.
pub fn select_port(available: &Vec<String>, port_name: &String) -> (r: Result<
    (),
    HostSerialPortErrors,
>)
    ensures
        r is Ok <==> match_count(name_views(available@), port_name@) == 1,
        r == Err::<(), HostSerialPortErrors>(HostSerialPortErrors::NoDeviceFoundByThatName)
            <==> match_count(name_views(available@), port_name@) == 0,
        r == Err::<(), HostSerialPortErrors>(HostSerialPortErrors::MultipleDevicesFoundByThatName)
            <==> match_count(name_views(available@), port_name@) >= 2,
{
    let mut count: usize = 0;
    let mut i: usize = 0;
    while i < available.len()
        invariant
            i <= available@.len(),
            count <= i,
            count == match_count(name_views(available@).take(i as int), port_name@),
        decreases available@.len() - i,
    {
        proof {
            assert(name_views(available@).take(i + 1).drop_last() =~= name_views(
                available@,
            ).take(i as int));
            assert(name_views(available@).take(i + 1).last() == available@[i as int]@);
        }
        if available[i] == *port_name {
            count = count + 1;
        }
        i = i + 1;
    }
    proof {
        assert(name_views(available@).take(available@.len() as int) =~= name_views(available@));
    }
    if count == 0 {
        Err(HostSerialPortErrors::NoDeviceFoundByThatName)
    } else if count == 1 {
        Ok(())
    } else {
        Err(HostSerialPortErrors::MultipleDevicesFoundByThatName)
    }
}

/// The state a torn-down session is left in, whatever state it was in
/// before: no port held, listener stopped.
pub open spec fn torn_down(s: FlemSerial) -> FlemSerial {
    FlemSerial { connected: false, listening: false }
}

/// Law: tearing a session down is idempotent. A second tear-down finds the
/// torn-down state and leaves it exactly as it is, so calling `disconnect`
/// twice in a row is a no-fault no-op the second time.
pub proof fn lemma_disconnect_idempotent(s: FlemSerial)
    ensures
        torn_down(torn_down(s)) == torn_down(s),
{
}

/// The lifecycle state of one serial session. `connected` records whether a
/// port is currently held; `listening` is the shared shutdown flag of the
/// background listener: off at construction, set exactly when listening
/// starts, cleared to request the listener's cooperative stop — or left
/// cleared by the listener itself when the device is lost for good, which is
/// how callers tell an unexpected stop after joining it.
pub struct FlemSerial {
    pub connected: bool,
    pub listening: bool,
}

impl FlemSerial {
    /// A fresh session: no port held, listener not running.
    pub fn new() -> (s: Self)
        ensures
            !s.connected,
            !s.listening,
    {
        FlemSerial { connected: false, listening: false }
    }

    /// Records that a port was opened for this session. Opening while already
    /// connected replaces the prior connection.
    pub fn mark_connected(&mut self)
        ensures
            final(self).connected,
            final(self).listening == old(self).listening,
    {
        self.connected = true;
    }

    /// Starts a listening phase: raises the shutdown flag. A session must be
    /// connected before it can listen.
    pub fn listen(&mut self)
        requires
            old(self).connected,
        ensures
            final(self).connected,
            final(self).listening,
    {
        self.listening = true;
    }

    /// Requests the listener's stop by clearing the shutdown flag. Never
    /// blocks and never fails; the listener observes the cleared flag on its
    /// next iteration.
    pub fn unlisten(&mut self)
        ensures
            final(self).connected == old(self).connected,
            !final(self).listening,
    {
        self.listening = false;
    }

    /// Tears the session down: requests the listener's stop and gives up the
    /// held port. Idempotent: a second call finds the torn-down state and
    /// leaves it unchanged, reporting success both times.
    pub fn disconnect(&mut self) -> (r: Option<()>)
        ensures
            *final(self) == torn_down(*old(self)),
            !final(self).connected,
            !final(self).listening,
            r == Some(()),
    {
        self.unlisten();
        self.connected = false;
        Some(())
    }

    /// The synchronous send path's serialization step: yields the packet's
    /// full wire bytes exactly when the session holds a port and the packet
    /// claims a wire length its capacity can really hold — a packet left on
    /// the oversized-length fault path claims more, and serializing it would
    /// read past its end, so it is refused here instead. The caller writes
    /// the bytes to the transmit handle and flushes; a failed write is
    /// reported once, never retried here.
    pub fn send_payload(&self, packet: &flem::Packet<PACKET_SIZE>) -> (r: Option<Vec<u8>>)
        ensures
            r is Some <==> self.connected && packet_claimed_len(*packet) <= MAX_WIRE_LEN,
            (r matches Some(bytes) ==> bytes@ == packet_wire(*packet)),
    {
        if !self.connected {
            return None;
        }
        let claimed = packet_length(packet);
        if claimed <= MAX_WIRE_LEN {
            Some(packet_to_bytes(packet))
        } else {
            None
        }
    }
}

} // verus!
