use bitsrun::checksum::checksum;
use bitsrun::hex::to_hex;
use bitsrun::radix64::to_text;
use bitsrun::sha1::digest;

#[test]
fn digest_known_vectors() {
    assert_eq!(to_hex(&digest(b"abc")), "a9993e364706816aba3e25717850c26c9cd0d89d");
    assert_eq!(to_hex(&digest(b"")), "da39a3ee5e6b4b0d3255bfef95601890afd80709");
    assert_eq!(to_hex(&digest(&[b'a'; 55])), "c1c8bbdc22796e28c0e15163d20899b65621d65a");
    assert_eq!(to_hex(&digest(&[b'a'; 56])), "c2db330f6083854c99d4b5bfb6e8f29f201be699");
    assert_eq!(to_hex(&digest(&[b'a'; 64])), "0098ba824b5c16427bd7a1122a5a442a25ec644d");
    assert_eq!(to_hex(&digest(&[b'a'; 1000])), "291e9a6c66994949b57ba5e650361e98fc36b1ba");
    assert_eq!(digest(b"abc").len(), 20);
}

#[test]
fn hex_is_lower_case_two_digits_per_byte() {
    assert_eq!(to_hex(&[]), "");
    assert_eq!(to_hex(&[0x00, 0x0f, 0xa0, 0xff, 0x5c]), "000fa0ff5c");
}

#[test]
fn checksum_is_the_digest_of_the_concatenation() {
    assert_eq!(checksum(&["abc"]), "a9993e364706816aba3e25717850c26c9cd0d89d");
    assert_eq!(checksum(&["a", "b", "c"]), "a9993e364706816aba3e25717850c26c9cd0d89d");
    assert_eq!(checksum(&[]), "da39a3ee5e6b4b0d3255bfef95601890afd80709");
    assert_eq!(checksum(&["u1", "abcd1234"]), "69d7a6b138a2ce76cc8a2b06d794729fb8ab83fa");
}

#[test]
fn checksum_is_repeatable() {
    let parts = ["u1", "abcd1234", "p1"];
    assert_eq!(checksum(&parts), checksum(&parts));
    assert_eq!(checksum(&parts).len(), 40);
}

#[test]
fn checksum_ignores_where_the_boundaries_lie() {
    assert_eq!(checksum(&["ab", "cd"]), checksum(&["a", "bcd"]));
    assert_eq!(checksum(&["ab", "cd"]), checksum(&["abcd"]));
    assert_eq!(checksum(&["ab", "", "cd"]), checksum(&["abc", "d"]));
}

#[test]
fn checksum_depends_on_the_order_of_the_parts() {
    assert_ne!(checksum(&["u1", "abcd1234"]), checksum(&["abcd1234", "u1"]));
    assert_ne!(checksum(&["alice", "token", "pw"]), checksum(&["alice", "pw", "token"]));
}

#[test]
fn radix64_uses_the_gateway_alphabet() {
    assert_eq!(to_text(b""), "");
    assert_eq!(to_text(b"f"), "1S==");
    assert_eq!(to_text(b"fo"), "1U4=");
    assert_eq!(to_text(b"foo"), "1U5w");
    assert_eq!(to_text(b"foob"), "1U5wZS==");
    assert_eq!(to_text(&[0, 16, 131, 251, 255]), "LVoJQA4=");
}

#[test]
fn radix64_digits_in_order_of_value() {
    let all: Vec<u8> = vec![
        0x00, 0x10, 0x83, 0x10, 0x51, 0x87, 0x20, 0x92, 0x8b, 0x30, 0xd3, 0x8f, 0x41, 0x14, 0x93,
        0x51, 0x55, 0x97, 0x61, 0x96, 0x9b, 0x71, 0xd7, 0x9f, 0x82, 0x18, 0xa3, 0x92, 0x59, 0xa7,
        0xa2, 0x9a, 0xab, 0xb2, 0xdb, 0xaf, 0xc3, 0x1c, 0xb3, 0xd3, 0x5d, 0xb7, 0xe3, 0x9e, 0xbb,
        0xf3, 0xdf, 0xbf,
    ];
    assert_eq!(
        to_text(&all),
        "LVoJPiCN2R8G90yg+hmFHuacZ1OWMnrsSTXkYpUq/3dlbfKwv6xztjI7DeBE45QA"
    );
}
