use darim::bytes::{copy_bytes, ct_eq};
use darim::hashing::hash_bytes;

#[test]
fn ct_eq_equal_and_unequal() {
    assert!(ct_eq(&b"P9d82Jc5".to_vec(), &b"P9d82Jc5".to_vec()));
    assert!(!ct_eq(&b"P9d82Jc5".to_vec(), &b"P9d82Jc6".to_vec()));
    assert!(!ct_eq(&b"short".to_vec(), &b"longer-string".to_vec()));
    assert!(ct_eq(&Vec::new(), &Vec::new()));
    assert!(!ct_eq(&Vec::new(), &b"x".to_vec()));
}

#[test]
fn copy_bytes_copies_exactly() {
    let v = b"d63ee429".to_vec();
    assert_eq!(copy_bytes(&v), v);
}

#[test]
fn hash_is_deterministic_and_separates_inputs() {
    let a = hash_bytes(&b"Ir5c7y8dS3".to_vec());
    let b = hash_bytes(&b"Ir5c7y8dS3".to_vec());
    assert_eq!(a, b);
    assert_ne!(hash_bytes(&b"a".to_vec()), hash_bytes(&b"b".to_vec()));
    // The digest of the empty string is the bare seed.
    assert_eq!(hash_bytes(&Vec::new()), 5381);
    // One concrete digest, computed by the fold's definition.
    assert_eq!(hash_bytes(&b"a".to_vec()), (5381 * 31 + 97) % 0x1_0000_0000);
}
