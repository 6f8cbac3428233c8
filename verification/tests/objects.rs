use mega::object::{blob_object_bytes, calc_file_blob_hash, decimal_bytes, SHA1};

fn hex(s: &str) -> [u8; 20] {
    let mut out = [0u8; 20];
    for i in 0..20 {
        out[i] = u8::from_str_radix(&s[2 * i..2 * i + 2], 16).unwrap();
    }
    out
}

#[test]
fn blob_hash_matches_git() {
    assert_eq!(calc_file_blob_hash(b"hello\n"), SHA1(hex("ce013625030ba8dba906f756967f9e9ca394464a")));
    assert_eq!(calc_file_blob_hash(b""), SHA1(hex("e69de29bb2d1d6434b8b29ae775ad8c2e48c5391")));
}

#[test]
fn blob_object_framing() {
    assert_eq!(blob_object_bytes(b"hello\n"), b"blob 6\0hello\n".to_vec());
    assert_eq!(blob_object_bytes(b""), b"blob 0\0".to_vec());
}

#[test]
fn decimal_digits() {
    assert_eq!(decimal_bytes(0), b"0".to_vec());
    assert_eq!(decimal_bytes(7), b"7".to_vec());
    assert_eq!(decimal_bytes(1024), b"1024".to_vec());
    assert_eq!(decimal_bytes(usize::MAX), usize::MAX.to_string().into_bytes());
}

#[test]
fn different_contents_frame_differently() {
    assert_ne!(blob_object_bytes(b"1"), blob_object_bytes(b"10"));
    assert_ne!(calc_file_blob_hash(b"a"), calc_file_blob_hash(b"b"));
}
