use stream_audio::error::ErrorRepr;
use stream_audio::pkt_decoder::{Payload, Pkt, PktDecoder};

#[test]
fn parse_reads_big_endian_counter() {
    let mut dec = PktDecoder::new();
    let datagram = [0x01u8, 0x02, 0x03, 0x04, 9, 8, 7];
    let pkt = dec.parse(&datagram).unwrap();
    assert_eq!(pkt.cnt, 0x0102_0304);
    assert_eq!(pkt.len(), 3);
    let mut out = Vec::new();
    assert!(pkt.copy_to_vec(&mut out));
    assert_eq!(out, vec![9u8, 8, 7]);
}

#[test]
fn parse_counter_only_gives_empty_payload() {
    let mut dec = PktDecoder::new();
    let datagram = [0xffu8, 0xff, 0xff, 0xff];
    let pkt = dec.parse(&datagram).unwrap();
    assert_eq!(pkt.cnt, u32::MAX);
    assert!(!pkt.is_empty());
    assert_eq!(pkt.len(), 0);
}

#[test]
fn parse_short_datagram_fails() {
    let mut dec = PktDecoder::new();
    match dec.parse(&[1u8, 2, 3]) {
        Err(e) => assert!(matches!(*e.repr, ErrorRepr::WrongArgument(_))),
        Ok(_) => panic!("a three-byte datagram was parsed"),
    }
}

#[test]
fn placeholder_has_no_payload() {
    let pkt = Pkt::new_empty(7);
    assert!(pkt.is_empty());
    assert_eq!(pkt.len(), 0);
    let mut out = vec![1u8];
    assert!(!pkt.copy_to_vec(&mut out));
    assert_eq!(out, vec![1u8]);
}

#[test]
fn copy_from_takes_owned_copy() {
    let data = [5u8, 6];
    let src = Pkt::new_borrower(42, &data);
    let mut dst = Pkt::new_owner(0);
    dst.copy_from(&src);
    assert_eq!(dst.cnt, 42);
    assert!(matches!(dst.data, Some(Payload::Owned(_))));
    let mut out = Vec::new();
    assert!(dst.copy_to_vec(&mut out));
    assert_eq!(out, vec![5u8, 6]);
}

#[test]
fn copy_from_placeholder_changes_nothing() {
    let data = [5u8, 6];
    let mut dst = Pkt::new_borrower(3, &data);
    dst.copy_from(&Pkt::new_empty(9));
    assert_eq!(dst.cnt, 3);
    assert_eq!(dst.len(), 2);
}
