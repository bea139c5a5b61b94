use piko::digest::{calculate_hash, calculate_node_id, shorten_hash, PRIME_THREE};
use piko::proto::{ResourceRequest, Session};
use piko::time::Timestamp;

const HI_AT_123456789: [u8; 32] = [
    51, 74, 137, 210, 178, 135, 19, 151, 245, 114, 16, 238, 53, 61, 47, 20, 205, 143, 172, 175, 9,
    233, 44, 247, 183, 2, 20, 220, 229, 194, 71, 88,
];

#[test]
fn shorthand_of_known_digests() {
    assert_eq!(shorten_hash(&[0u8; 32]), 0);
    assert_eq!(shorten_hash(&[255u8; 32]), 849414009564170952);
    let mut counting = [0u8; 32];
    for i in 0..32 {
        counting[i] = i as u8;
    }
    assert_eq!(shorten_hash(&counting), 232711025358608356);
    assert_eq!(shorten_hash(&HI_AT_123456789), 6278988712044180270);
    assert!(shorten_hash(&[255u8; 32]) < PRIME_THREE);
}

#[test]
fn digest_covers_the_message_and_the_nanoseconds() {
    let message = vec![b'h', b'i'];
    let at = Timestamp { secs: 1_700_000_000, nanos: 123_456_789 };
    let (hash, shorthand) = calculate_hash(&message, &at);
    assert_eq!(hash, HI_AT_123456789);
    assert_eq!(shorthand, 6278988712044180270);
    // The digest is not the message handed back.
    assert_ne!(&hash[..2], &message[..]);
}

#[test]
fn digest_of_the_empty_message() {
    let (hash, shorthand) = calculate_hash(&Vec::new(), &Timestamp { secs: 0, nanos: 0 });
    assert_eq!(
        hash,
        [
            223, 63, 97, 152, 4, 169, 47, 219, 64, 87, 25, 45, 196, 61, 215, 72, 234, 119, 138,
            220, 82, 188, 73, 140, 232, 5, 36, 192, 20, 184, 17, 25
        ]
    );
    assert_eq!(shorthand, 11985016745731162961);
}

#[test]
fn seconds_do_not_enter_the_digest() {
    let message = vec![1u8, 2, 3];
    let a = calculate_hash(&message, &Timestamp { secs: 1, nanos: 77 });
    let b = calculate_hash(&message, &Timestamp { secs: 2_000_000, nanos: 77 });
    let c = calculate_hash(&message, &Timestamp { secs: 1, nanos: 78 });
    assert_eq!(a, b);
    assert_ne!(a.0, c.0);
}

#[test]
fn long_messages_are_digested() {
    let message = vec![0xabu8; 100_000];
    let at = Timestamp { secs: 5, nanos: 5 };
    let (hash, shorthand) = calculate_hash(&message, &at);
    assert_eq!(shorthand, shorten_hash(&hash));
    assert_eq!(calculate_hash(&message, &at), (hash, shorthand));
}

#[test]
fn node_id_is_the_shorthand_of_the_name() {
    assert_eq!(calculate_node_id(&"alpha".to_string()), 4210106920948092973);
    assert_eq!(calculate_node_id(&"alpha".to_string()), calculate_node_id(&"alpha".to_string()));
    assert_ne!(calculate_node_id(&"alpha".to_string()), calculate_node_id(&"beta".to_string()));
}

#[test]
fn generate_at_fills_both_halves() {
    let at = Timestamp { secs: 1_700_000_000, nanos: 123_456_789 };
    let (req, rel) = ResourceRequest::generate_at(42, vec![b'h', b'i'], at);
    assert_eq!(req.owner, 42);
    assert_eq!(req.message_hash, HI_AT_123456789);
    assert_eq!(req.shorthand, 6278988712044180270);
    assert_eq!(req.timestamp, at);
    assert_eq!(req.sequence, 0);
    assert_eq!(rel.owner, 42);
    assert_eq!(rel.message_hash, req.message_hash);
    assert_eq!(rel.shorthand, req.shorthand);
    assert_eq!(rel.timestamp, at);
    assert_eq!(rel.message.message, vec![b'h', b'i']);
    assert_eq!(rel.message.sequence, 0);
    assert_eq!(rel.message.receiver_mask, 0);
    assert!(!rel.local);
    assert_eq!(rel.sequence, 0);
}

#[test]
fn same_bytes_at_the_same_instant_give_the_same_fingerprint() {
    let at = Timestamp { secs: 9, nanos: 1 };
    let (a, ra) = ResourceRequest::generate_at(1, vec![7, 7, 7], at);
    let (b, rb) = ResourceRequest::generate_at(2, vec![7, 7, 7], at);
    assert_eq!(a.message_hash, b.message_hash);
    assert_eq!(a.shorthand, b.shorthand);
    assert_eq!(ra.message_hash, rb.message_hash);
    assert_eq!(ra.shorthand, rb.shorthand);
}

#[test]
fn generate_stamps_the_pair_with_one_time_and_the_sender() {
    let mut session = Session::new();
    piko::proto::set_sender_id(&mut session, 17);
    let message = vec![b'h', b'i'];
    let (req, rel) = ResourceRequest::generate(&session, message.clone());
    assert_eq!(req.owner, 17);
    assert_eq!(rel.owner, 17);
    assert_eq!(req.timestamp, rel.timestamp);
    assert_eq!(calculate_hash(&message, &req.timestamp), (req.message_hash, req.shorthand));
    assert_eq!(rel.message_hash, req.message_hash);
    assert_eq!(rel.shorthand, req.shorthand);
    assert_eq!(rel.message.message, message);
    assert!(req.timestamp.secs > 1_500_000_000);
    assert!(req.timestamp.nanos < 2_000_000_000);
}
