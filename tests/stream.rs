use base64_fixpoint::base64_fixpoint;
use base64_fixpoint::fixpoint::{seed_byte, FixpointDriver};
use base64_fixpoint::queue::Base64Queue;

fn is_symbol(c: u8) -> bool {
    c.is_ascii_alphanumeric() || c == b'+' || c == b'/'
}

#[test]
fn seed_round_trips() {
    let mut q = Base64Queue::new();
    for b in [b'V', b'm', b'0'] {
        q.push(b);
        assert_eq!(q.pop(), Some(b));
    }
}

#[test]
fn seed_bytes() {
    assert_eq!([seed_byte(0), seed_byte(1), seed_byte(2)], [b'V', b'm', b'0']);
}

#[test]
fn stream_opens_with_seed_then_symbols() {
    let out = base64_fixpoint(1000);
    assert_eq!(out.len(), 1000);
    assert_eq!(&out[..3], b"Vm0");
    assert!(out[3..].iter().all(|c| is_symbol(*c)));
    assert!(!out.contains(&b'='));
}

#[test]
fn stream_known_opening() {
    assert_eq!(base64_fixpoint(16), b"Vm0wd2QyUXlVWGxW".to_vec());
}

#[test]
fn stream_is_deterministic() {
    let first = base64_fixpoint(1000);
    let second = base64_fixpoint(1000);
    assert_eq!(first, second);
    assert_eq!(base64_fixpoint(10)[..], first[..10]);
}

#[test]
fn stream_short_lengths() {
    assert_eq!(base64_fixpoint(0), Vec::<u8>::new());
    assert_eq!(base64_fixpoint(2), b"Vm".to_vec());
    assert_eq!(base64_fixpoint(4), b"Vm0w".to_vec());
}

#[test]
fn driver_matches_batch_function() {
    let mut d = FixpointDriver::new();
    let bytes: Vec<u8> = (0..200).map(|_| d.next_byte()).collect();
    assert_eq!(bytes, base64_fixpoint(200));
}

#[test]
fn stream_encodes_itself() {
    let out = base64_fixpoint(400);
    let encoded = base64_fixpoint::encode::encode_all(&out[..300].to_vec());
    assert_eq!(&encoded[..], &out[..400]);
}
