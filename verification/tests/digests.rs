use file_sharing::digest::{to_hex, ContentHasher, MAX_CONTENT};

const DIGEST_OF_ABC: &str = "ba7816bf8f01cfea414140de5dae2223b00361a396177a9cb410ff61f20015ad";
const DIGEST_OF_NOTHING: &str = "e3b0c44298fc1c149afbf4c8996fb92427ae41e4649b934ca495991b7852b855";

#[test]
fn digest_of_abc() {
    let hasher = ContentHasher::new().update(b"abc");
    assert_eq!(hasher.len(), 3);
    assert_eq!(hasher.finish(), DIGEST_OF_ABC);
}

#[test]
fn digest_of_nothing() {
    let hasher = ContentHasher::new();
    assert_eq!(hasher.len(), 0);
    assert_eq!(hasher.finish(), DIGEST_OF_NOTHING);
}

#[test]
fn digest_of_two_blocks() {
    let content = b"abcdbcdecdefdefgefghfghighijhijkijkljklmklmnlmnomnopnopq";
    assert_eq!(
        ContentHasher::new().update(content).finish(),
        "248d6a61d20638b8e5c026930c3e6039a33ce45964ff2167f6ecedd419db06c1"
    );
}

#[test]
fn digest_does_not_depend_on_the_pieces() {
    let hasher = ContentHasher::new().update(b"a").update(b"").update(b"bc");
    assert_eq!(hasher.finish(), DIGEST_OF_ABC);
}

#[test]
fn digest_depends_on_the_order_of_the_pieces() {
    let hasher = ContentHasher::new().update(b"bc").update(b"a");
    assert_ne!(hasher.finish(), DIGEST_OF_ABC);
}

#[test]
fn hexadecimal_digits() {
    assert_eq!(to_hex(&[0x00, 0x09, 0x0a, 0x0f, 0x10, 0x9f, 0xa0, 0xff]), "00090a0f109fa0ff");
    assert_eq!(to_hex(&[]), "");
}

#[test]
fn a_digest_covers_two_exbibytes_less_one_byte() {
    assert_eq!(MAX_CONTENT, (1 << 61) - 1);
}
