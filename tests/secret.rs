use wireauth::secret::SecureSecret;

#[test]
fn consume_zeroizes_backing_bytes() {
    let mut s = SecureSecret::new(vec![0x42u8; 32]);
    let sum = s.consume_in_place(|b: &[u8]| b.iter().map(|&x| x as u32).sum::<u32>());
    assert_eq!(sum, 0x42 * 32);
    assert_eq!(s.len(), 32);
    assert!(s.is_zeroized());
}

#[test]
fn consume_zeroizes_on_failure_too() {
    let mut s = SecureSecret::new(vec![7u8; 16]);
    let r: Result<u8, &str> = s.consume_in_place(|_b: &[u8]| Err("derivation failed"));
    assert_eq!(r, Err("derivation failed"));
    assert!(s.is_zeroized());
}

#[test]
fn consume_by_move_returns_derived_value() {
    let s = SecureSecret::new(vec![1u8, 2, 3]);
    let v = s.consume(|b: &[u8]| b.to_vec());
    assert_eq!(v, vec![1u8, 2, 3]);
}

#[test]
fn wipe_keeps_length() {
    let mut s = SecureSecret::new(vec![9u8; 5]);
    assert!(!s.is_zeroized());
    s.wipe();
    assert_eq!(s.len(), 5);
    assert!(s.is_zeroized());
}

#[test]
fn empty_secret_is_zeroized() {
    let s = SecureSecret::new(Vec::new());
    assert!(s.is_zeroized());
}
