use crypto_hype::hashes::md5;
use crypto_hype::hashes::md5::Md5Fingerprint;
use crypto_hype::hashes::sha1;
use crypto_hype::hashes::sha1::Sha1Fingerprint;
use crypto_hype::utils::HexError;

#[test]
fn md5_empty_message() {
    assert_eq!(md5::hash(b"").to_hex(), "d41d8cd98f00b204e9800998ecf8427e");
}

#[test]
fn to_hex_known_values() {
    assert_eq!(md5::hash(b"abc").to_hex(), "900150983cd24fb0d6963f7d28e17f72");
    assert_eq!(
        sha1::hash(b"abc").to_hex(),
        "a9993e364706816aba3e25717850c26c9cd0d89d"
    );
}

#[test]
fn default_is_all_zero() {
    assert_eq!(
        Md5Fingerprint::default().to_hex(),
        "00000000000000000000000000000000"
    );
    assert_eq!(
        Sha1Fingerprint::default().to_hex(),
        "0000000000000000000000000000000000000000"
    );
}

#[test]
fn hex_round_trip() {
    let f = md5::hash(b"round trip");
    assert_eq!(Md5Fingerprint::from_hex(&f.to_hex()).unwrap(), f);
    let g = sha1::hash(b"round trip");
    assert_eq!(Sha1Fingerprint::from_hex(&g.to_hex()).unwrap(), g);
}

#[test]
fn from_hex_rejects_wrong_length() {
    assert_eq!(
        Md5Fingerprint::from_hex("0cc175b9c0f1b6a831c399e26977266"),
        Err(HexError::InvalidLength)
    );
    assert_eq!(
        Md5Fingerprint::from_hex("0cc175b9c0f1b6a831c399e2697726611"),
        Err(HexError::InvalidLength)
    );
    assert_eq!(Md5Fingerprint::from_hex(""), Err(HexError::InvalidLength));
    assert_eq!(
        Sha1Fingerprint::from_hex("da39a3ee5e6b4b0d3255bfef95601890afd8070"),
        Err(HexError::InvalidLength)
    );
    assert_eq!(
        Sha1Fingerprint::from_hex("0cc175b9c0f1b6a831c399e269772661"),
        Err(HexError::InvalidLength)
    );
}

#[test]
fn from_hex_rejects_bad_digits() {
    assert_eq!(
        Md5Fingerprint::from_hex("0cc175b9c0f1b6a831c399e26977266g"),
        Err(HexError::InvalidDigit)
    );
    assert_eq!(
        Md5Fingerprint::from_hex("0CC175B9C0F1B6A831C399E269772661"),
        Err(HexError::InvalidDigit)
    );
    assert_eq!(
        Sha1Fingerprint::from_hex("da39a3ee5e6b4b0d3255bfef95601890afd8070z"),
        Err(HexError::InvalidDigit)
    );
    assert_eq!(
        Sha1Fingerprint::from_hex("DA39A3EE5E6B4B0D3255BFEF95601890AFD80709"),
        Err(HexError::InvalidDigit)
    );
}

#[test]
fn hashing_is_deterministic() {
    let msg = vec![0x5au8; 200];
    assert_eq!(md5::hash(&msg), md5::hash(&msg));
    assert_eq!(sha1::hash(&msg), sha1::hash(&msg));
}

#[test]
fn padding_boundaries() {
    assert_eq!(md5::pad_zero_amount(447), 0);
    assert_eq!(md5::pad_zero_amount(448), 511);
}

#[test]
fn length_field_is_big_endian_in_sha1_pad() {
    let padded = sha1::pad(&[0x61, 0x62, 0x63, 0x64, 0x65]);
    assert_eq!(padded.len(), 64);
    // Forty bits: the count sits in the last byte; a little-endian field
    // would have put it at the start of the eight-byte length field.
    assert_eq!(padded[63], 0x28);
    assert_eq!(padded[56], 0x00);
}

#[test]
fn multi_block_padding_length() {
    // A 56-byte message no longer fits its own block: padding appends a
    // whole further block.
    let padded = sha1::pad(&[0x61u8; 56]);
    assert_eq!(padded.len(), 128);
    let padded = sha1::pad(&[0x61u8; 55]);
    assert_eq!(padded.len(), 64);
}
