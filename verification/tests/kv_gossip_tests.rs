use fern_core::gossip::{GuestGossip, InboundGossipMsg, Mailbox, OutboundGossipMsg, ChannelFull};
use fern_core::json::JVal;
use fern_core::kv::GuestKvData;

#[test]
fn kv_store_then_read_roundtrip() {
    let mut kv = GuestKvData::new();
    let value = JVal::Obj(vec![("hello".to_string(), JVal::Str("world".to_string()))]);
    let stored = kv.kv_store("settings".to_string(), "greeting".to_string(), value);
    assert!(stored);
    let expected = JVal::Obj(vec![("hello".to_string(), JVal::Str("world".to_string()))]);
    let read = kv.kv_read(&"settings".to_string(), &"greeting".to_string());
    assert_eq!(read, Some(&expected));
}

#[test]
fn kv_reads_are_idempotent() {
    let mut kv = GuestKvData::new();
    kv.kv_store("t".to_string(), "k".to_string(), JVal::Int(7));
    let first = kv.kv_read(&"t".to_string(), &"k".to_string());
    let second = kv.kv_read(&"t".to_string(), &"k".to_string());
    assert_eq!(first, second);
}

#[test]
fn kv_store_overwrites_and_isolates_pairs() {
    let mut kv = GuestKvData::new();
    kv.kv_store("t".to_string(), "k".to_string(), JVal::Int(1));
    kv.kv_store("t".to_string(), "k".to_string(), JVal::Int(2));
    assert_eq!(kv.kv_read(&"t".to_string(), &"k".to_string()), Some(&JVal::Int(2)));
    // the same key in another table is a different pair
    kv.kv_store("u".to_string(), "k".to_string(), JVal::Int(3));
    assert_eq!(kv.kv_read(&"t".to_string(), &"k".to_string()), Some(&JVal::Int(2)));
    assert_eq!(kv.kv_read(&"u".to_string(), &"k".to_string()), Some(&JVal::Int(3)));
    // an unwritten pair reads as nothing
    assert_eq!(kv.kv_read(&"t".to_string(), &"missing".to_string()), None);
}

#[test]
fn mailbox_is_fifo_and_bounded() {
    let mut mb: Mailbox<u32> = Mailbox::new(2);
    assert_eq!(mb.try_send(1), Ok(()));
    assert_eq!(mb.try_send(2), Ok(()));
    // full: fail fast, nothing queued is lost
    assert_eq!(mb.try_send(3), Err(ChannelFull));
    assert_eq!(mb.len(), 2);
    assert_eq!(mb.recv(), Some(1));
    assert_eq!(mb.try_send(4), Ok(()));
    let rest = mb.drain();
    assert_eq!(rest, vec![2, 4]);
    assert_eq!(mb.recv(), None);
}

#[test]
fn gossip_messages_dispatch_in_arrival_order() {
    let mut gossip = GuestGossip::new();
    let first = InboundGossipMsg { topic: "global".to_string(), content: JVal::Int(1) };
    let second = InboundGossipMsg { topic: "global".to_string(), content: JVal::Int(2) };
    gossip.accept_inbound(first).expect("inbox should accept");
    gossip.accept_inbound(second).expect("inbox should accept");
    let delivered = gossip.drain_inbox();
    assert_eq!(delivered.len(), 2);
    assert_eq!(delivered[0].content, JVal::Int(1));
    assert_eq!(delivered[1].content, JVal::Int(2));
    // after a drain the inbox is empty
    assert!(gossip.drain_inbox().is_empty());
}

#[test]
fn broadcast_queues_outbound_message() {
    let mut gossip = GuestGossip::new();
    let msg = OutboundGossipMsg {
        topic: "global".to_string(),
        content: JVal::Obj(vec![("hello".to_string(), JVal::Str("world".to_string()))]),
    };
    gossip.broadcast_msg(msg).expect("outbound should accept");
    let queued = gossip.outbound.drain();
    assert_eq!(queued.len(), 1);
    assert_eq!(queued[0].topic, "global");
}

#[test]
fn global_topic_is_digest_of_well_known_name() {
    let id = fern_core::hashing::global_topic_id();
    assert_eq!(id.len(), 32);
    assert_eq!(id.as_slice(), blake3::hash(b"fern-global").as_bytes());
    assert_eq!(fern_core::hashing::topic_id("fern-global"), id);
}

#[test]
fn module_hash_is_lowercase_hex_digest() {
    assert_eq!(
        fern_core::hashing::blake3_hex(b""),
        "af1349b9f5f9a1a6a0404dea36dcc9499bcb25c9adc112b7cc9a93cae41f3262"
    );
    assert_eq!(fern_core::hashing::blake3_hex(b"abc"), blake3::hash(b"abc").to_string());
    assert_eq!(fern_core::hashing::hex_lower(&[0x00, 0xff, 0x1a]), "00ff1a");
}
