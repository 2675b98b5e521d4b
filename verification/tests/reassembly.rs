use flem_serial::feed_bytes;
use flem_serial::listener_step;
use flem_serial::new_packet;
use flem_serial::ListenerAction;
use flem_serial::ReadEvent;

fn make_frame(request: u16, data: &[u8]) -> Vec<u8> {
    let mut packet = flem::Packet::<512>::new();
    packet.pack_data(request, data).unwrap();
    packet.bytes().to_vec()
}

#[test]
fn test_two_frames_in_order() {
    let mut bytes = make_frame(0x10, &[1, 2, 3]);
    bytes.extend_from_slice(&make_frame(0x20, &[4, 5]));

    let mut assembler = new_packet();
    let mut completed = Vec::new();
    let action = listener_step(&mut assembler, ReadEvent::Data(bytes), &mut completed);

    assert_eq!(action, ListenerAction::Proceed);
    assert_eq!(completed.len(), 2);
    assert_eq!(completed[0].get_request(), 0x10);
    assert_eq!(completed[1].get_request(), 0x20);
    assert_eq!(&completed[0].get_data()[..3], &[1, 2, 3]);
    assert_eq!(&completed[1].get_data()[..2], &[4, 5]);
}

#[test]
fn test_feed_bytes_emits_frame() {
    let bytes = make_frame(0x99, &[42]);
    let mut assembler = new_packet();
    let mut completed = Vec::new();
    feed_bytes(&mut assembler, &bytes, &mut completed);
    assert_eq!(completed.len(), 1);
    assert_eq!(completed[0].get_request(), 0x99);
    assert_eq!(completed[0].get_data()[0], 42);
}

#[test]
fn test_garbage_between_frames_is_dropped() {
    let mut bytes = make_frame(0x10, &[9, 9, 9, 9]);
    bytes.extend_from_slice(&[0xAA, 0xBB, 0xCC]);
    bytes.extend_from_slice(&make_frame(0x20, &[7, 7, 7, 7]));

    let mut assembler = new_packet();
    let mut completed = Vec::new();
    listener_step(&mut assembler, ReadEvent::Data(bytes), &mut completed);

    assert_eq!(completed.len(), 2);
    assert_eq!(completed[0].get_request(), 0x10);
    assert_eq!(completed[1].get_request(), 0x20);
}

#[test]
fn test_bad_header_prefix_is_discarded() {
    // A frame, then the first header byte of a frame that goes bad, then a
    // whole frame: the partial prefix must not affect the later frame.
    let mut bytes = make_frame(0x11, &[5]);
    bytes.extend_from_slice(&[0x55, 0x00]);
    bytes.extend_from_slice(&make_frame(0x22, &[6]));

    let mut assembler = new_packet();
    let mut completed = Vec::new();
    listener_step(&mut assembler, ReadEvent::Data(bytes), &mut completed);

    assert_eq!(completed.len(), 2);
    assert_eq!(completed[0].get_request(), 0x11);
    assert_eq!(completed[1].get_request(), 0x22);
}

#[test]
fn test_corrupted_checksum_emits_nothing() {
    let mut bad = make_frame(0x33, &[1, 2, 3, 4]);
    let last = bad.len() - 1;
    bad[last] ^= 0xFF;

    let mut assembler = new_packet();
    let mut completed = Vec::new();
    listener_step(&mut assembler, ReadEvent::Data(bad), &mut completed);
    assert_eq!(completed.len(), 0);

    // The assembler resynchronizes: a good frame right after still arrives.
    listener_step(
        &mut assembler,
        ReadEvent::Data(make_frame(0x44, &[8])),
        &mut completed,
    );
    assert_eq!(completed.len(), 1);
    assert_eq!(completed[0].get_request(), 0x44);
}

#[test]
fn test_zero_length_frame() {
    let bytes = make_frame(0x55, &[]);
    assert_eq!(bytes.len(), 10);

    let mut assembler = new_packet();
    let mut completed = Vec::new();
    listener_step(&mut assembler, ReadEvent::Data(bytes), &mut completed);
    assert_eq!(completed.len(), 1);
    assert_eq!(completed[0].get_request(), 0x55);
}

#[test]
fn test_frame_split_across_reads() {
    let bytes = make_frame(0x66, &[1, 2, 3, 4, 5]);
    let (first, second) = bytes.split_at(6);

    let mut assembler = new_packet();
    let mut completed = Vec::new();
    listener_step(&mut assembler, ReadEvent::Data(first.to_vec()), &mut completed);
    assert_eq!(completed.len(), 0);
    listener_step(&mut assembler, ReadEvent::Data(second.to_vec()), &mut completed);
    assert_eq!(completed.len(), 1);
    assert_eq!(completed[0].get_request(), 0x66);
}

#[test]
fn test_empty_read_changes_nothing() {
    let mut assembler = new_packet();
    let mut completed = Vec::new();
    let action = listener_step(&mut assembler, ReadEvent::Data(Vec::new()), &mut completed);
    assert_eq!(action, ListenerAction::Proceed);
    assert_eq!(completed.len(), 0);
}

#[test]
fn test_idle_read_asks_for_sleep() {
    let mut assembler = new_packet();
    let mut completed = Vec::new();
    let action = listener_step(&mut assembler, ReadEvent::Idle, &mut completed);
    assert_eq!(action, ListenerAction::Sleep);
    assert_eq!(completed.len(), 0);
}

#[test]
fn test_device_loss_stops_the_loop() {
    let mut assembler = new_packet();
    let mut completed = Vec::new();
    listener_step(
        &mut assembler,
        ReadEvent::Data(make_frame(0x88, &[1, 2])),
        &mut completed,
    );
    assert_eq!(completed.len(), 1);

    let action = listener_step(&mut assembler, ReadEvent::Lost, &mut completed);
    assert_eq!(action, ListenerAction::Stop);
    assert_eq!(completed.len(), 1);
}

#[test]
fn test_read_errors_never_stop_the_loop() {
    let mut assembler = new_packet();
    let mut completed = Vec::new();
    for _ in 0..100 {
        let action = listener_step(&mut assembler, ReadEvent::Failed, &mut completed);
        assert_eq!(action, ListenerAction::Proceed);
    }
    assert_eq!(completed.len(), 0);

    // Once the errors stop, processing succeeds as if they never happened.
    listener_step(
        &mut assembler,
        ReadEvent::Data(make_frame(0x77, &[3, 1, 4])),
        &mut completed,
    );
    assert_eq!(completed.len(), 1);
    assert_eq!(completed[0].get_request(), 0x77);
}
