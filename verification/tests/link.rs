use xbee_rust_modem_library::link::FrameReader;

#[test]
fn frames_split_at_the_delimiter_and_keep_the_rest() {
    let mut reader = FrameReader::new();
    assert_eq!(reader.next_frame(), None);
    reader.extend(&[1, 2, 0, 3, 4]);
    assert_eq!(reader.next_frame(), Some(vec![1, 2, 0]));
    assert_eq!(reader.next_frame(), None);
    reader.extend(&[5, 0, 0]);
    assert_eq!(reader.next_frame(), Some(vec![3, 4, 5, 0]));
    assert_eq!(reader.next_frame(), Some(vec![0]));
    assert_eq!(reader.next_frame(), None);
}

#[test]
fn bytes_arriving_in_pieces_make_one_frame() {
    let mut reader = FrameReader::new();
    for b in [9u8, 8, 7] {
        reader.extend(&[b]);
        assert_eq!(reader.next_frame(), None);
    }
    reader.extend(&[0]);
    assert_eq!(reader.next_frame(), Some(vec![9, 8, 7, 0]));
}
