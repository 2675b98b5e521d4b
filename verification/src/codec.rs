use vstd::prelude::*;

verus! {

/// Payload capacity, in bytes, of every packet of a session. Each frame
/// carries at most this much data on top of its fixed ten-byte header.
pub const PACKET_SIZE: usize = 512;

#[verifier::external_type_specification]
#[verifier::external_body]
pub struct ExFlemPacket<const T: usize>(flem::Packet<T>);

/// A completed frame's routing outcome, as the external assembler reports it
/// after each byte: the frame is still being built, a whole frame arrived and
/// was validated, the two fixed header bytes were not found, or some other
/// framing fault (bad checksum, overlong data) was detected.
#[derive(Clone, Copy, Debug, PartialEq, Eq, Structural)]
pub enum FeedStatus {
    Building,
    Complete,
    HeaderInvalid,
    Other,
}

/// What a frame assembler has accumulated: the raw bytes of the frame its
/// fields currently record, which are the bytes fed to
/// `flem::Packet::construct`, in order, since the packet was created or last
/// reset — for as long as every byte was accepted. A packet that just
/// reported a fault records nothing usable of the faulted frame (the byte
/// that faulted is discarded, not stored), so nothing is claimed of the
/// accumulator then; the library resets such a packet before feeding on.
pub uninterp spec fn packet_accum(p: flem::Packet<PACKET_SIZE>) -> Seq<u8>;

/// What `flem::Packet::length` reports: the whole wire length the packet's
/// fields currently claim, its fixed ten-byte header included. A packet fed a
/// header that claims an oversized frame keeps that claim on its fault path,
/// so the claim can exceed the packet's real capacity.
pub uninterp spec fn packet_claimed_len(p: flem::Packet<PACKET_SIZE>) -> nat;

/// The reassembly discipline's states: a packet that is fresh, just reset,
/// or mid-frame with every byte fed so far accepted as still building. Only
/// in these states do the packet's fields record its accumulator
/// unambiguously; a packet left un-reset after a completed frame or a fault
/// is outside the discipline (feeding it re-enters `construct` mid-header,
/// where the report no longer tracks a single accumulator), so `feed_byte`
/// requires this and the library re-establishes it by resetting after every
/// completed frame and every fault.
pub uninterp spec fn assembler_ready(p: flem::Packet<PACKET_SIZE>) -> bool;

/// A packet's serialized wire form, as `flem::Packet::bytes` returns it: the
/// ten header bytes followed by the packet's data bytes. flem reads it out
/// of the packet's raw in-memory form, so this view, like the checksum flem
/// computes over it, is stated for the little-endian targets this crate
/// builds for.
pub uninterp spec fn packet_wire(p: flem::Packet<PACKET_SIZE>) -> Seq<u8>;

/// What `flem::Packet::construct` reports after the bytes `accum` have been
/// fed, one at a time, to a fresh assembler. The report is a function of
/// those bytes alone (per target: flem validates its checksum over the
/// packet's raw in-memory form, so the verdict is stated for the
/// little-endian targets this crate builds for).
pub uninterp spec fn construct_status(accum: Seq<u8>) -> FeedStatus;

/// Relies on `flem::Packet::new`: a fresh assembler with no bytes fed yet.
/// Its bounds assertion on the capacity cannot fire below `u16::MAX`.
#[verifier::external_body]
pub fn new_packet() -> (p: flem::Packet<PACKET_SIZE>)
    ensures
        packet_accum(p) == Seq::<u8>::empty(),
        assembler_ready(p),
{
    flem::Packet::new()
}

/// Relies on `flem::Packet::construct`, called under the reassembly
/// discipline: on a packet whose bytes so far were all accepted, the
/// reported status is a function of the bytes fed since the last reset
/// alone (the stale header and data bytes that a lazy reset leaves behind
/// are overwritten before they are ever read). The byte is appended to the
/// accumulator only when it is accepted: on a fault `construct` discards it
/// without storing anything, so nothing is claimed of the accumulator then,
/// and a packet that completed a frame or faulted leaves the discipline
/// until it is reset. When a frame completes, the packet's wire form is
/// exactly the bytes that were fed for it (on the little-endian targets
/// this crate builds for).
#[verifier::external_body]
pub(crate) fn feed_byte(p: &mut flem::Packet<PACKET_SIZE>, byte: u8) -> (s: FeedStatus)
    requires
        assembler_ready(*old(p)),
    ensures
        (s == FeedStatus::Building || s == FeedStatus::Complete) ==> packet_accum(*final(p))
            == packet_accum(*old(p)).push(byte),
        s == FeedStatus::Building ==> assembler_ready(*final(p)),
        s == construct_status(packet_accum(*old(p)).push(byte)),
        s == FeedStatus::Complete ==> packet_wire(*final(p)) == packet_accum(*final(p)),
{
    match p.construct(byte) {
        Ok(()) => FeedStatus::Complete,
        Err(flem::Status::PacketBuilding) => FeedStatus::Building,
        Err(flem::Status::HeaderBytesNotFound) => FeedStatus::HeaderInvalid,
        Err(_) => FeedStatus::Other,
    }
}

/// Relies on `flem::Packet::reset_lazy`: discards the in-flight frame, so the
/// assembler behaves like a fresh one again.
#[verifier::external_body]
pub(crate) fn reset_packet(p: &mut flem::Packet<PACKET_SIZE>)
    ensures
        packet_accum(*final(p)) == Seq::<u8>::empty(),
        assembler_ready(*final(p)),
{
    p.reset_lazy()
}

/// Relies on `flem::Packet`'s derived `Clone`, a field-for-field copy of the
/// packet.
#[verifier::external_body]
pub(crate) fn clone_packet(p: &flem::Packet<PACKET_SIZE>) -> (r: flem::Packet<PACKET_SIZE>)
    ensures
        packet_accum(r) == packet_accum(*p),
        packet_wire(r) == packet_wire(*p),
{
    p.clone()
}

/// Relies on `flem::Packet::length`: ten plus the packet's data-length
/// field, a total function of the packet value.
#[verifier::external_body]
pub(crate) fn packet_length(p: &flem::Packet<PACKET_SIZE>) -> (n: usize)
    ensures
        n == packet_claimed_len(*p),
{
    p.length()
}

/// The longest wire form a packet of this session can really hold: its data
/// capacity plus the fixed ten-byte frame header.
pub const MAX_WIRE_LEN: usize = PACKET_SIZE + 10;

/// Relies on `flem::Packet::bytes`: the packet's serialized wire form, copied
/// out into an owned vector. `bytes` builds a raw slice of the claimed wire
/// length over the packet's memory, so it must only be called on a packet
/// whose claim does not exceed the capacity; a packet left unreset on the
/// oversized-length fault path would be read past its end.
#[verifier::external_body]
pub(crate) fn packet_to_bytes(p: &flem::Packet<PACKET_SIZE>) -> (r: Vec<u8>)
    requires
        packet_claimed_len(*p) <= MAX_WIRE_LEN,
    ensures
        r@ == packet_wire(*p),
{
    p.bytes().to_vec()
}

/// The assembler's accumulator after `bytes` have been fed one at a time,
/// starting from the in-flight state `acc`, under the listener's routing
/// discipline: keep accumulating while a frame is building, discard the
/// accumulator as soon as a frame completes or the assembler reports a fault.
pub open spec fn accum_after(acc: Seq<u8>, bytes: Seq<u8>) -> Seq<u8>
    decreases bytes.len(),
{
    if bytes.len() == 0 {
        acc
    } else {
        let grown = acc.push(bytes[0]);
        let rest = bytes.subrange(1, bytes.len() as int);
        if construct_status(grown) == FeedStatus::Building {
            accum_after(grown, rest)
        } else {
            accum_after(Seq::<u8>::empty(), rest)
        }
    }
}

/// The frames the listener emits while feeding `bytes` one at a time from the
/// in-flight state `acc`: each maximal byte run that the assembler reports
/// complete, in arrival order. Bytes of a faulted frame are silently dropped.
pub open spec fn frames_emitted(acc: Seq<u8>, bytes: Seq<u8>) -> Seq<Seq<u8>>
    decreases bytes.len(),
{
    if bytes.len() == 0 {
        Seq::<Seq<u8>>::empty()
    } else {
        let grown = acc.push(bytes[0]);
        let rest = bytes.subrange(1, bytes.len() as int);
        if construct_status(grown) == FeedStatus::Complete {
            seq![grown] + frames_emitted(Seq::<u8>::empty(), rest)
        } else if construct_status(grown) == FeedStatus::Building {
            frames_emitted(grown, rest)
        } else {
            frames_emitted(Seq::<u8>::empty(), rest)
        }
    }
}

/// The accumulated-byte views of a sequence of packets.
pub open spec fn accums_of(ps: Seq<flem::Packet<PACKET_SIZE>>) -> Seq<Seq<u8>> {
    ps.map_values(|q: flem::Packet<PACKET_SIZE>| packet_accum(q))
}

/// A byte sequence that the assembler, starting fresh, accepts as one whole
/// frame: feeding it reports a completed frame on its last byte and a frame
/// still building on every byte before that.
pub open spec fn is_wellformed_frame(f: Seq<u8>) -> bool {
    &&& f.len() > 0
    &&& construct_status(f) == FeedStatus::Complete
    &&& forall|j: int|
        0 < j < f.len() ==> construct_status(#[trigger] f.subrange(0, j)) == FeedStatus::Building
}

/// Splitting a byte run anywhere splits its processing: the frames emitted
/// for the whole run are those of the first part followed by those of the
/// second part fed from the in-flight state the first part left behind.
pub proof fn lemma_feed_concat(acc: Seq<u8>, s1: Seq<u8>, s2: Seq<u8>)
    ensures
        accum_after(acc, s1 + s2) == accum_after(accum_after(acc, s1), s2),
        frames_emitted(acc, s1 + s2) == frames_emitted(acc, s1) + frames_emitted(
            accum_after(acc, s1),
            s2,
        ),
    decreases s1.len(),
{
    if s1.len() == 0 {
        assert(s1 + s2 =~= s2);
        assert(frames_emitted(acc, s1) + frames_emitted(acc, s2) =~= frames_emitted(acc, s2));
    } else {
        let grown = acc.push(s1[0]);
        let rest1 = s1.subrange(1, s1.len() as int);
        assert((s1 + s2)[0] == s1[0]);
        assert((s1 + s2).subrange(1, (s1 + s2).len() as int) =~= rest1 + s2);
        let next = if construct_status(grown) == FeedStatus::Building {
            grown
        } else {
            Seq::<u8>::empty()
        };
        lemma_feed_concat(next, rest1, s2);
        if construct_status(grown) == FeedStatus::Complete {
            assert((seq![grown] + frames_emitted(next, rest1)) + frames_emitted(
                accum_after(next, rest1),
                s2,
            ) =~= seq![grown] + (frames_emitted(next, rest1) + frames_emitted(
                accum_after(next, rest1),
                s2,
            )));
        }
    }
}

/// Walks one well-formed frame from its byte at position `k` to its end: the
/// remaining bytes complete exactly that frame and leave the assembler fresh.
proof fn lemma_frame_emitted_from(f: Seq<u8>, k: int)
    requires
        is_wellformed_frame(f),
        0 <= k < f.len(),
    ensures
        frames_emitted(f.subrange(0, k), f.subrange(k, f.len() as int)) == seq![f],
        accum_after(f.subrange(0, k), f.subrange(k, f.len() as int)) == Seq::<u8>::empty(),
    decreases f.len() - k,
{
    let acc = f.subrange(0, k);
    let rem = f.subrange(k, f.len() as int);
    assert(rem[0] == f[k]);
    assert(acc.push(f[k]) =~= f.subrange(0, k + 1));
    assert(rem.subrange(1, rem.len() as int) =~= f.subrange(k + 1, f.len() as int));
    if k + 1 == f.len() {
        assert(f.subrange(0, k + 1) =~= f);
        assert(f.subrange(k + 1, f.len() as int) =~= Seq::<u8>::empty());
        assert(accum_after(Seq::<u8>::empty(), Seq::<u8>::empty()) == Seq::<u8>::empty());
        assert(seq![f] + frames_emitted(Seq::<u8>::empty(), Seq::<u8>::empty()) =~= seq![f]);
    } else {
        assert(construct_status(f.subrange(0, k + 1)) == FeedStatus::Building);
        lemma_frame_emitted_from(f, k + 1);
    }
}

/// Feeding one well-formed frame to a fresh assembler emits exactly that
/// frame and leaves the assembler fresh again.
pub proof fn lemma_frame_emitted(f: Seq<u8>)
    requires
        is_wellformed_frame(f),
    ensures
        frames_emitted(Seq::<u8>::empty(), f) == seq![f],
        accum_after(Seq::<u8>::empty(), f) == Seq::<u8>::empty(),
{
    assert(f.subrange(0, 0) =~= Seq::<u8>::empty());
    assert(f.subrange(0, f.len() as int) =~= f);
    lemma_frame_emitted_from(f, 0);
}

/// The concatenation of a run of frames, in order.
pub open spec fn concat_frames(fs: Seq<Seq<u8>>) -> Seq<u8>
    decreases fs.len(),
{
    if fs.len() == 0 {
        Seq::<u8>::empty()
    } else {
        fs[0] + concat_frames(fs.subrange(1, fs.len() as int))
    }
}

/// Feeding a fresh assembler a byte run equal to exactly K well-formed frames
/// concatenated emits exactly those K frames, in order, and leaves the
/// assembler fresh.
pub proof fn lemma_frames_in_order(fs: Seq<Seq<u8>>)
    requires
        forall|i: int| 0 <= i < fs.len() ==> is_wellformed_frame(#[trigger] fs[i]),
    ensures
        frames_emitted(Seq::<u8>::empty(), concat_frames(fs)) == fs,
        accum_after(Seq::<u8>::empty(), concat_frames(fs)) == Seq::<u8>::empty(),
    decreases fs.len(),
{
    if fs.len() == 0 {
        assert(frames_emitted(Seq::<u8>::empty(), concat_frames(fs)) =~= fs);
    } else {
        let tail = fs.subrange(1, fs.len() as int);
        lemma_frame_emitted(fs[0]);
        lemma_feed_concat(Seq::<u8>::empty(), fs[0], concat_frames(tail));
        lemma_frames_in_order(tail);
        assert(seq![fs[0]] + tail =~= fs);
    }
}

/// A well-formed frame followed by garbage that the assembler rejects and
/// discards, followed by anything further: the frame is still emitted, the
/// garbage produces nothing, and the later bytes are processed as if the
/// garbage had never arrived.
pub proof fn lemma_frame_survives_garbage(f: Seq<u8>, garbage: Seq<u8>, rest: Seq<u8>)
    requires
        is_wellformed_frame(f),
        frames_emitted(Seq::<u8>::empty(), garbage) == Seq::<Seq<u8>>::empty(),
        accum_after(Seq::<u8>::empty(), garbage) == Seq::<u8>::empty(),
    ensures
        frames_emitted(Seq::<u8>::empty(), f + garbage + rest) == seq![f] + frames_emitted(
            Seq::<u8>::empty(),
            rest,
        ),
        accum_after(Seq::<u8>::empty(), f + garbage + rest) == accum_after(
            Seq::<u8>::empty(),
            rest,
        ),
{
    lemma_frame_emitted(f);
    lemma_feed_concat(Seq::<u8>::empty(), f, garbage);
    assert(f + garbage + rest =~= (f + garbage) + rest);
    lemma_feed_concat(Seq::<u8>::empty(), f + garbage, rest);
    assert(frames_emitted(Seq::<u8>::empty(), f + garbage) =~= seq![f]);
    assert(seq![f] + frames_emitted(Seq::<u8>::empty(), rest) =~= frames_emitted(
        Seq::<u8>::empty(),
        f + garbage,
    ) + frames_emitted(Seq::<u8>::empty(), rest));
}

/// Feeds a run of received bytes to the assembler one at a time, in arrival
/// order, and appends every frame that completes to `completed`, in the order
/// the frames completed. Faulted frames are dropped and the assembler
/// resynchronizes on the following byte; packets already in `completed` are
/// left untouched. The assembler must be in the reassembly discipline, as
/// `new_packet` creates it; every completed frame and every fault is reset
/// here at once, so the discipline is also re-established.
pub fn feed_bytes(
    assembler: &mut flem::Packet<PACKET_SIZE>,
    bytes: &[u8],
    completed: &mut Vec<flem::Packet<PACKET_SIZE>>,
)
    requires
        assembler_ready(*old(assembler)),
    ensures
        assembler_ready(*final(assembler)),
        packet_accum(*final(assembler)) == accum_after(packet_accum(*old(assembler)), bytes@),
        accums_of(final(completed)@) == accums_of(old(completed)@) + frames_emitted(
            packet_accum(*old(assembler)),
            bytes@,
        ),
        forall|j: int|
            0 <= j < old(completed)@.len() ==> final(completed)@[j] == old(completed)@[j],
        forall|j: int|
            old(completed)@.len() <= j < final(completed)@.len() ==> packet_wire(
                #[trigger] final(completed)@[j],
            ) == packet_accum(final(completed)@[j]),
{
    let ghost acc0 = packet_accum(*assembler);
    let ghost frames = frames_emitted(acc0, bytes@);
    let ghost n0 = completed@.len();
    proof {
        assert(bytes@.subrange(0, bytes@.len() as int) =~= bytes@);
        assert(completed@.subrange(n0 as int, completed@.len() as int) =~= Seq::<
            flem::Packet<PACKET_SIZE>,
        >::empty());
        assert(accums_of(Seq::<flem::Packet<PACKET_SIZE>>::empty()) =~= Seq::<Seq<u8>>::empty());
    }
    let mut i: usize = 0;
    while i < bytes.len()
        invariant
            assembler_ready(*assembler),
            i <= bytes@.len(),
            n0 <= completed@.len(),
            accum_after(acc0, bytes@) == accum_after(
                packet_accum(*assembler),
                bytes@.subrange(i as int, bytes@.len() as int),
            ),
            frames == accums_of(completed@.subrange(n0 as int, completed@.len() as int))
                + frames_emitted(
                packet_accum(*assembler),
                bytes@.subrange(i as int, bytes@.len() as int),
            ),
            forall|j: int| 0 <= j < n0 ==> completed@[j] == old(completed)@[j],
            forall|j: int|
                n0 <= j < completed@.len() ==> packet_wire(#[trigger] completed@[j])
                    == packet_accum(completed@[j]),
        decreases bytes@.len() - i,
    {
        let ghost prev = packet_accum(*assembler);
        let ghost rem = bytes@.subrange(i as int, bytes@.len() as int);
        let ghost done = completed@;
        proof {
            assert(rem[0] == bytes@[i as int]);
            assert(rem.subrange(1, rem.len() as int) =~= bytes@.subrange(
                i + 1,
                bytes@.len() as int,
            ));
        }
        let b = bytes[i];
        let s = feed_byte(assembler, b);
        let ghost grown = prev.push(b);
        match s {
            FeedStatus::Complete => {
                let frame = clone_packet(assembler);
                completed.push(frame);
                reset_packet(assembler);
                proof {
                    assert(completed@.subrange(n0 as int, completed@.len() as int) =~= done
                        .subrange(n0 as int, done.len() as int).push(frame));
                    assert(accums_of(done.subrange(n0 as int, done.len() as int).push(frame)) =~=
                    accums_of(done.subrange(n0 as int, done.len() as int)).push(packet_accum(
                        frame,
                    )));
                    assert(frames_emitted(prev, rem) == seq![grown] + frames_emitted(
                        Seq::<u8>::empty(),
                        rem.subrange(1, rem.len() as int),
                    ));
                    assert(accums_of(done.subrange(n0 as int, done.len() as int)).push(grown) =~=
                    accums_of(done.subrange(n0 as int, done.len() as int)) + seq![grown]);
                    assert(frames =~= accums_of(
                        completed@.subrange(n0 as int, completed@.len() as int),
                    ) + frames_emitted(
                        packet_accum(*assembler),
                        bytes@.subrange(i + 1, bytes@.len() as int),
                    ));
                }
            },
            FeedStatus::Building => {},
            FeedStatus::HeaderInvalid => {
                reset_packet(assembler);
            },
            FeedStatus::Other => {
                reset_packet(assembler);
            },
        }
        i = i + 1;
    }
    proof {
        let tail = bytes@.subrange(i as int, bytes@.len() as int);
        assert(tail =~= Seq::<u8>::empty());
        assert(accums_of(completed@) =~= accums_of(completed@.subrange(0, n0 as int)) + accums_of(
            completed@.subrange(n0 as int, completed@.len() as int),
        ));
        assert(completed@.subrange(0, n0 as int) =~= old(completed)@);
    }
}

} // verus!
