use aether_radio::{Packet, Sequence, StreamId, Timestamp};

#[test]
fn packet_holds_payload() {
    let pkt = Packet::new(StreamId(1), Sequence(42), Timestamp(100), vec![1, 2, 3]);
    assert_eq!(pkt.payload.len(), 3);
    assert_eq!(pkt.sequence, Sequence(42));
}

#[test]
fn packet_clone_is_equal() {
    let pkt = Packet::new(StreamId(2), Sequence(1), Timestamp(5), vec![4, 5]);
    assert_eq!(pkt.clone(), pkt);
}
