use crabsoup::digest::{digest_hex, to_hex, DigestAlgorithm};

#[test]
fn hex_is_lowercase_two_digits() {
    assert_eq!(to_hex(&vec![0x00, 0xff, 0x1a]), "00ff1a");
    assert_eq!(to_hex(&Vec::new()), "");
}

#[test]
fn digests_of_abc() {
    assert_eq!(digest_hex(DigestAlgorithm::Md5, b"abc"), "900150983cd24fb0d6963f7d28e17f72");
    assert_eq!(digest_hex(DigestAlgorithm::Sha1, b"abc"), "a9993e364706816aba3e25717850c26c9cd0d89d");
    assert_eq!(
        digest_hex(DigestAlgorithm::Sha256, b"abc"),
        "ba7816bf8f01cfea414140de5dae2223b00361a396177a9cb410ff61f20015ad"
    );
    assert_eq!(
        digest_hex(DigestAlgorithm::Sha512, b"abc"),
        "ddaf35a193617abacc417349ae20413112e6fa4e89a97ea20a9eeee64b55d39a2192992a274fc1a836ba3c23a3feebbd454d4423643ce80e2a9ac94fa54ca49f"
    );
    assert_eq!(
        digest_hex(DigestAlgorithm::Blake2s, b"abc"),
        "508c5e8c327c14e2e1a72ba34eeb452f37458b209ed63a294d999b4c86675982"
    );
    assert_eq!(
        digest_hex(DigestAlgorithm::Blake2b, b"abc"),
        "ba80a53f981c4d0d6a2797b69f12f6e94c212f14685ac4b74b12bb6fdbffa2d17d87c5392aab792dc252d5de4533cc9518d38aa8dbf1925ab92386edd4009923"
    );
}

#[test]
fn digests_of_empty() {
    assert_eq!(digest_hex(DigestAlgorithm::Md5, b""), "d41d8cd98f00b204e9800998ecf8427e");
    assert_eq!(
        digest_hex(DigestAlgorithm::Sha256, b""),
        "e3b0c44298fc1c149afbf4c8996fb92427ae41e4649b934ca495991b7852b855"
    );
}
