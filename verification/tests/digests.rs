use crypto_hype::hashes::md5;
use crypto_hype::hashes::md5::Md5Fingerprint;
use crypto_hype::hashes::sha1;
use crypto_hype::hashes::sha1::Sha1Fingerprint;

fn md5_same(s: &str, fingerprint: &str) {
    assert_eq!(md5::hash(s.as_bytes()), Md5Fingerprint::from_hex(fingerprint).unwrap());
}

fn sha1_same(s: &str, fingerprint: &str) {
    assert_eq!(sha1::hash(s.as_bytes()), Sha1Fingerprint::from_hex(fingerprint).unwrap());
}

#[test]
fn md5_hashing() {
    md5_same("a", "0cc175b9c0f1b6a831c399e269772661");
    md5_same("abc", "900150983cd24fb0d6963f7d28e17f72");
    md5_same("message digest", "f96b697d7cb7938d525a2f31aaf161d0");
    md5_same(
        "abcdefghijklmnopqrstuvwxyz",
        "c3fcd3d76192e4007dfb496cca67e13b",
    );
    md5_same(
        "ABCDEFGHIJKLMNOPQRSTUVWXYZabcdefghijklmnopqrstuvwxyz0123456789",
        "d174ab98d277d9f5a5611c2c9f419d9f",
    );
    md5_same(
        "12345678901234567890123456789012345678901234567890123456789012345678901234567890",
        "57edf4a22be3c955ac49da2e2107b67a",
    );
}

#[test]
fn padding_lens() {
    assert_eq!(md5::pad_zero_amount(100), 448 - 100 - 1);
    assert_eq!(md5::pad_zero_amount(0), 448 - 1);
    assert_eq!(md5::pad_zero_amount(512), 448 - 1);
    assert_eq!(md5::pad_zero_amount(448), 511);
    assert_eq!(md5::pad_zero_amount(512 + 448), 511);
}

#[test]
fn pad() {
    let msg = [0b01100001, 0b01100010, 0b01100011, 0b01100100, 0b01100101];
    let padded = sha1::pad(&msg);
    let mut expected: Vec<u8> = vec![0x61, 0x62, 0x63, 0x64, 0x65, 0x80];
    while expected.len() < 63 {
        expected.push(0x00);
    }
    expected.push(0x28);
    assert_eq!(padded, expected);
}

#[test]
fn sha1_hashing() {
    sha1_same("", "da39a3ee5e6b4b0d3255bfef95601890afd80709");
    sha1_same("a", "86f7e437faa5a7fce15d1ddcb9eaeaea377667b8");
    sha1_same("abc", "a9993e364706816aba3e25717850c26c9cd0d89d");
    sha1_same("message digest", "c12252ceda8be8994d5fa0290a47231c1d16aae3");
    sha1_same(
        "abcdefghijklmnopqrstuvwxyz",
        "32d10c7b8cf96570ca04ce37f2a19d84240d3a89",
    );
    sha1_same(
        "ABCDEFGHIJKLMNOPQRSTUVWXYZabcdefghijklmnopqrstuvwxyz0123456789",
        "761c457bf73b14d27e9e9265c46f4b4dda11f940",
    );
    sha1_same(
        "12345678901234567890123456789012345678901234567890123456789012345678901234567890",
        "50abf5706a150990a08b2c5ea40fa0e585554732",
    );
    sha1_same(
        "8217498327598324983271489372149837214987239847239847238947239847983247298347298347238947238947289\
        3257239587348957432098574389257438957348975849357438957489357849357439857438957439857438957348957346\
        289053420574238574395743298543895743890574389574398057348957348957438957439857438957438957438957438\
        4290854390765493025784932574893578394758943578493574893758493758493758493574389574389573489574389574\
        4290854390765493025784932574893578394758943578493574893758493758493758493574389574389573489574389574\
        4290854390765493025784932574893578394758943578493574893758493758493758493574389574389573489574389574\
        4290854390765493025784932574893578394758943578493574893758493758493758493574389574389573489574389574\
        4290854390765493025784932574893578394758943578493574893758493758493758493574389574389573489574389574",
        "bce570bbcccdc49d51d2a8e09ea5000beed0f31e",
    );
}
