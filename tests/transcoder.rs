use base64_fixpoint::alphabet::symbol;
use base64_fixpoint::encode::encode_all;
use base64_fixpoint::queue::Base64Queue;

fn encode_str(s: &str) -> String {
    String::from_utf8(encode_all(&s.as_bytes().to_vec())).unwrap()
}

fn drain(q: &mut Base64Queue) -> Vec<u8> {
    let mut out = Vec::new();
    while let Some(c) = q.pop() {
        out.push(c);
    }
    out
}

#[test]
fn encodes_empty_input() {
    assert_eq!(encode_str(""), "");
}

#[test]
fn encodes_full_group() {
    assert_eq!(encode_str("Man"), "TWFu");
}

#[test]
fn pads_one_trailing_byte() {
    assert_eq!(encode_str("M"), "TQ==");
    assert_eq!(encode_str("A"), "QQ==");
}

#[test]
fn pads_two_trailing_bytes() {
    assert_eq!(encode_str("Ma"), "TWE=");
}

#[test]
fn encodes_several_groups() {
    assert_eq!(encode_str("hello world"), "aGVsbG8gd29ybGQ=");
    assert_eq!(encode_str("foobar"), "Zm9vYmFy");
}

#[test]
fn encodes_high_bytes() {
    assert_eq!(encode_all(&vec![0xff, 0xfe, 0xfd]), b"//79".to_vec());
    assert_eq!(encode_all(&vec![0x00, 0x00, 0x00]), b"AAAA".to_vec());
    assert_eq!(encode_all(&vec![0xfb, 0xff]), b"+/8=".to_vec());
}

#[test]
fn pop_on_fresh_queue_has_no_data() {
    let mut q = Base64Queue::new();
    assert_eq!(q.pop(), None);
    assert_eq!(q.pop(), None);
}

#[test]
fn push_all_then_pop_all_matches_batch() {
    let mut q = Base64Queue::new();
    for b in b"any carnal pleas" {
        q.push(*b);
    }
    assert_eq!(drain(&mut q), b"YW55IGNhcm5hbCBwbGVhcw==".to_vec());
    assert_eq!(q.pop(), None);
}

#[test]
fn phase_zero_peeks_without_consuming() {
    let mut q = Base64Queue::new();
    q.push(b'M');
    assert_eq!(q.pop(), Some(b'T'));
    q.push(b'a');
    q.push(b'n');
    assert_eq!(drain(&mut q), b"WFu".to_vec());
}

#[test]
fn look_ahead_treats_absent_byte_as_zero() {
    let mut q = Base64Queue::new();
    q.push(b'M');
    assert_eq!(q.pop(), Some(b'T'));
    assert_eq!(q.pop(), Some(b'Q'));
    assert_eq!(q.pop(), Some(b'='));
    assert_eq!(q.pop(), Some(b'='));
    assert_eq!(q.pop(), None);
}

#[test]
fn push_then_pop_never_runs_dry() {
    let mut q = Base64Queue::new();
    for i in 0..1000u32 {
        q.push((i * 37 % 256) as u8);
        assert!(q.pop().is_some());
    }
}

#[test]
fn phase_cycles_every_four_symbols() {
    let mut a = Base64Queue::new();
    let mut b = Base64Queue::new();
    for c in b"abcdef" {
        a.push(*c);
    }
    b.push(b'a');
    let mut out_a = Vec::new();
    let mut out_b = Vec::new();
    for _ in 0..4 {
        out_a.push(a.pop().unwrap());
    }
    out_b.push(b.pop().unwrap());
    b.push(b'b');
    b.push(b'c');
    out_b.push(b.pop().unwrap());
    out_b.push(b.pop().unwrap());
    b.push(b'd');
    out_b.push(b.pop().unwrap());
    b.push(b'e');
    b.push(b'f');
    for _ in 0..4 {
        out_a.push(a.pop().unwrap());
        out_b.push(b.pop().unwrap());
    }
    assert_eq!(out_a, out_b);
    assert_eq!(out_a, b"YWJjZGVm".to_vec());
    assert_eq!(a.pop(), None);
    assert_eq!(b.pop(), None);
}

#[test]
fn alphabet_table_order() {
    assert_eq!(symbol(0), b'A');
    assert_eq!(symbol(25), b'Z');
    assert_eq!(symbol(26), b'a');
    assert_eq!(symbol(51), b'z');
    assert_eq!(symbol(52), b'0');
    assert_eq!(symbol(61), b'9');
    assert_eq!(symbol(62), b'+');
    assert_eq!(symbol(63), b'/');
}
