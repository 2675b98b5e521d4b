use vstd::prelude::*;

use crate::codec::accum_after;
use crate::codec::accums_of;
use crate::codec::assembler_ready;
use crate::codec::feed_bytes;
use crate::codec::frames_emitted;
use crate::codec::packet_accum;
use crate::codec::packet_wire;
use crate::codec::PACKET_SIZE;

verus! {

/// What one attempt to read raw bytes from the link produced: a run of
/// bytes, a timed-out read of an idle line, a transient read error, or a
/// clearly non-recoverable loss of the device (unplugged, gone for good).
pub enum ReadEvent {
    Data(Vec<u8>),
    Idle,
    Failed,
    Lost,
}

/// What the listener loop should do after a step: go straight to the next
/// read, sleep briefly first to avoid spinning on an idle line, or stop for
/// good. The loop ends in exactly two ways: the shutdown flag was cleared,
/// or the device was lost — the loop then stops and leaves the flag
/// cleared, so callers can tell an unexpected stop by testing the flag
/// after joining. A transient read error never stops it.
#[derive(Clone, Copy, Debug, PartialEq, Eq, Structural)]
pub enum ListenerAction {
    Proceed,
    Sleep,
    Stop,
}

/// One iteration of the listener loop, after the shutdown flag was observed
/// set and one read attempt was made. Received bytes are fed to the
/// assembler in arrival order and every completed frame is appended to
/// `completed`; an idle line asks for a brief sleep; a transient read error
/// changes nothing and is retried; a non-recoverable device loss stops the
/// loop. The assembler must be in the reassembly discipline, as `new_packet`
/// creates it and as every step leaves it again.
pub fn listener_step(
    assembler: &mut flem::Packet<PACKET_SIZE>,
    event: ReadEvent,
    completed: &mut Vec<flem::Packet<PACKET_SIZE>>,
) -> (action: ListenerAction)
    requires
        assembler_ready(*old(assembler)),
    ensures
        assembler_ready(*final(assembler)),
        (match event {
            ReadEvent::Data(bytes) => {
                &&& packet_accum(*final(assembler)) == accum_after(
                    packet_accum(*old(assembler)),
                    bytes@,
                )
                &&& accums_of(final(completed)@) == accums_of(old(completed)@) + frames_emitted(
                    packet_accum(*old(assembler)),
                    bytes@,
                )
                &&& forall|j: int|
                    0 <= j < old(completed)@.len() ==> final(completed)@[j] == old(completed)@[j]
                &&& forall|j: int|
                    old(completed)@.len() <= j < final(completed)@.len() ==> packet_wire(
                        #[trigger] final(completed)@[j],
                    ) == packet_accum(final(completed)@[j])
                &&& action == ListenerAction::Proceed
            },
            ReadEvent::Idle => {
                &&& *final(assembler) == *old(assembler)
                &&& final(completed)@ == old(completed)@
                &&& action == ListenerAction::Sleep
            },
            ReadEvent::Failed => {
                &&& *final(assembler) == *old(assembler)
                &&& final(completed)@ == old(completed)@
                &&& action == ListenerAction::Proceed
            },
            ReadEvent::Lost => {
                &&& *final(assembler) == *old(assembler)
                &&& final(completed)@ == old(completed)@
                &&& action == ListenerAction::Stop
            },
        }),
{
    match event {
        ReadEvent::Data(bytes) => {
            feed_bytes(assembler, bytes.as_slice(), completed);
            ListenerAction::Proceed
        },
        ReadEvent::Idle => ListenerAction::Sleep,
        ReadEvent::Failed => ListenerAction::Proceed,
        ReadEvent::Lost => ListenerAction::Stop,
    }
}

} // verus!
