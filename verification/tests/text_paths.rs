use bice_server::text::{channel_key, contains_bytes, push_signed_decimal, upload_path, user_dir, version_path};

fn uid() -> [u8; 16] {
    *uuid::Uuid::parse_str("67e55044-10b1-426f-9247-bb680e5fe0c8").unwrap().as_bytes()
}

fn token() -> [u8; 16] {
    *uuid::Uuid::parse_str("0192f3a4-b5c6-4d7e-8f90-a1b2c3d4e5f6").unwrap().as_bytes()
}

#[test]
fn channel_key_uses_hyphenated_uuid() {
    assert_eq!(channel_key(&token()), "bice:hs:0192f3a4-b5c6-4d7e-8f90-a1b2c3d4e5f6");
    assert_eq!(channel_key(&token()), format!("bice:hs:{}", uuid::Uuid::from_bytes(token())));
}

#[test]
fn storage_paths() {
    assert_eq!(user_dir(&uid()), "storage/67e55044-10b1-426f-9247-bb680e5fe0c8");
    assert_eq!(version_path(&uid(), 12), "storage/67e55044-10b1-426f-9247-bb680e5fe0c8/12.bin");
    assert_eq!(version_path(&uid(), 0), "storage/67e55044-10b1-426f-9247-bb680e5fe0c8/0.bin");
    assert_eq!(version_path(&uid(), -5), "storage/67e55044-10b1-426f-9247-bb680e5fe0c8/-5.bin");
    assert_eq!(
        upload_path(&uid(), &token()),
        "storage/67e55044-10b1-426f-9247-bb680e5fe0c8/upload_0192f3a4-b5c6-4d7e-8f90-a1b2c3d4e5f6.bin"
    );
}

#[test]
fn decimal_text_matches_format() {
    for n in [0i32, 7, 10, 99, 100, 12345, i32::MAX, -1, -10, i32::MIN] {
        let mut s = String::from("v");
        push_signed_decimal(&mut s, n);
        assert_eq!(s, format!("v{}", n));
    }
}

#[test]
fn distinct_versions_have_distinct_paths() {
    let a = version_path(&uid(), 1);
    let b = version_path(&uid(), 10);
    let c = version_path(&uid(), -1);
    assert_ne!(a, b);
    assert_ne!(a, c);
    assert_ne!(upload_path(&uid(), &token()), a);
}

#[test]
fn byte_search() {
    assert!(contains_bytes(b"ERROR: duplicate key value violates", b"duplicate key"));
    assert!(contains_bytes(b"duplicate key", b"duplicate key"));
    assert!(!contains_bytes(b"duplicate ke", b"duplicate key"));
    assert!(!contains_bytes(b"connection refused", b"duplicate key"));
    assert!(contains_bytes(b"anything", b""));
    assert!(contains_bytes(b"", b""));
}
