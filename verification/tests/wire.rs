use shareflow::connection::{bind_address, FrameReader, MAX_PENDING};
use shareflow::protocol::{decode_message, encode_message};

#[test]
fn a_frame_has_its_length_in_front() {
    assert_eq!(encode_message(&[]), vec![0, 0, 0, 0]);
    assert_eq!(encode_message(&[7, 8, 9]), vec![0, 0, 0, 3, 7, 8, 9]);
    let long = vec![1u8; 0x0001_0203];
    assert_eq!(encode_message(&long)[..4], [0, 1, 2, 3]);
}

#[test]
fn decoding_gives_back_what_was_encoded() {
    let mut buf = encode_message(b"hello");
    buf.extend_from_slice(b"rest");
    assert_eq!(decode_message(&buf), Some((b"hello".to_vec(), 9)));
}

#[test]
fn decoding_waits_for_the_whole_frame() {
    let buf = encode_message(b"hello");
    for n in 0..buf.len() {
        assert_eq!(decode_message(&buf[..n]), None);
    }
}

#[test]
fn a_stream_may_be_cut_anywhere() {
    let payloads: Vec<Vec<u8>> = vec![b"one".to_vec(), vec![], b"three".to_vec()];
    let mut stream = Vec::new();
    for p in &payloads {
        stream.extend_from_slice(&encode_message(p));
    }
    stream.extend_from_slice(&[0, 0]);
    for size in 1..stream.len() + 1 {
        let mut reader = FrameReader::new();
        let mut got = Vec::new();
        for chunk in stream.chunks(size) {
            assert!(reader.receive(chunk));
            got.extend(reader.take_frames());
        }
        assert_eq!(got, payloads);
        assert_eq!(reader.next_frame(), None);
    }
}

#[test]
fn too_many_pending_bytes_close_the_connection() {
    let mut reader = FrameReader::new();
    assert!(reader.receive(&[0xFF; 4]));
    assert!(reader.receive(&vec![0; MAX_PENDING - 4]));
    assert!(!reader.receive(&[0]));
}

#[test]
fn the_server_listens_on_all_addresses() {
    assert_eq!(bind_address(24800), "0.0.0.0:24800");
    assert_eq!(bind_address(0), "0.0.0.0:0");
}
