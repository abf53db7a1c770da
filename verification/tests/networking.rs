use voxel::networking::{
    check_length, entry_header, entry_kind, forward_inputs, message_length, receive_message, start_message, AckReader,
    AckWriter, EntryKind, FrameError, InputStream,
};
use voxel::states::game::input_recorder::acknowledged_inputs;

#[test]
fn header_gives_the_message_length() {
    assert_eq!(message_length([5, 99]), 5);
    assert_eq!(message_length([127, 0]), 127);
    assert_eq!(message_length([0x80 | 3, 2]), 3 + 2 * 128);
    assert_eq!(message_length([0xFF, 0xFF]), 32767);
}

#[test]
fn short_messages_start_with_the_second_header_byte() {
    let mut buf = vec![9u8; 10];
    assert_eq!(start_message([3, 7], &mut buf), 1);
    assert_eq!(buf, vec![7, 9, 9]);
    let mut buf = Vec::new();
    assert_eq!(start_message([0x81, 1], &mut buf), 0);
    assert_eq!(buf.len(), 129);
    assert!(buf.iter().all(|b| *b == 0));
    // A two-byte header announcing a short length is read as a short message.
    let mut buf = Vec::new();
    assert_eq!(start_message([0x82, 0], &mut buf), 1);
    assert_eq!(buf, vec![0, 0]);
}

#[test]
fn server_refuses_empty_and_overlong_messages() {
    assert_eq!(check_length(0, 10), Err(FrameError::Empty));
    assert_eq!(check_length(10, 10), Err(FrameError::TooLong));
    assert_eq!(check_length(9, 10), Ok(()));
    let mut buf = vec![1u8, 2];
    assert_eq!(receive_message([0, 5], &mut buf, 100), Err(FrameError::Empty));
    assert_eq!(buf, vec![1, 2]);
    assert_eq!(receive_message([50, 5], &mut buf, 50), Err(FrameError::TooLong));
    assert_eq!(receive_message([4, 5], &mut buf, 50), Ok(1));
    assert_eq!(buf, vec![5, 2, 0, 0]);
}

#[test]
fn entity_entries_by_their_low_bits() {
    assert_eq!(entry_kind(8), EntryKind::Added(2));
    assert_eq!(entry_kind(10), EntryKind::Removed(2));
    assert_eq!(entry_kind(5), EntryKind::Moved(2));
    assert_eq!(entry_kind(7), EntryKind::Moved(3));
    assert_eq!(entry_kind(0), EntryKind::Added(0));
}

#[test]
fn acknowledgements_let_go_of_covered_inputs() {
    // Inputs 7, 8 and 9 are held.
    assert_eq!(acknowledged_inputs(10, 3, 7), Some(1));
    assert_eq!(acknowledged_inputs(10, 3, 9), Some(3));
    assert_eq!(acknowledged_inputs(10, 3, 6), None);
    assert_eq!(acknowledged_inputs(10, 3, 10), None);
    // Inputs 65534, 65535 and 0 are held.
    assert_eq!(acknowledged_inputs(1, 3, 65535), Some(2));
    assert_eq!(acknowledged_inputs(1, 3, 0), Some(3));
    assert_eq!(acknowledged_inputs(1, 0, 0), None);
}

#[test]
fn input_stream_measures_gaps_and_drops_repeats() {
    let mut s = InputStream::new();
    assert_eq!(s.on_datagram(0), None);
    assert_eq!(s.on_datagram(1), Some(1));
    assert_eq!(s.on_datagram(1), None);
    assert_eq!(s.on_datagram(4), Some(3));
    // Across the wrap of the 16-bit numbering.
    assert_eq!(s.on_datagram(65534), Some(65530));
    assert_eq!(s.on_datagram(1), Some(3));
}

#[test]
fn forwarded_inputs_oldest_first_with_gap_on_the_first() {
    assert_eq!(forward_inputs(10, 1, 0), vec![(10, 0)]);
    assert_eq!(forward_inputs(10, 4, 2), vec![(8, 3), (9, 0), (10, 0)]);
    assert_eq!(forward_inputs(1, 3, 2), vec![(65535, 2), (0, 0), (1, 0)]);
}

#[test]
fn entry_headers_read_back() {
    for kind in [EntryKind::Added(5), EntryKind::Removed(0x3fff), EntryKind::Moved(0x7fff)] {
        assert_eq!(entry_kind(entry_header(kind)), kind);
    }
    assert_eq!(entry_header(EntryKind::Added(5)), 20);
    assert_eq!(entry_header(EntryKind::Removed(5)), 22);
    assert_eq!(entry_header(EntryKind::Moved(5)), 11);
}

#[test]
fn acknowledged_tags_tell_new_data() {
    let mut w = AckWriter::new();
    let mut r = AckReader::new();
    let t = w.header_tag(None);
    assert!(!r.on_tag(t));
    let t = w.header_tag(Some(7));
    assert!(r.on_tag(t));
    let t = w.header_tag(None);
    assert_eq!(t, 7);
    assert!(!r.on_tag(t));
}
