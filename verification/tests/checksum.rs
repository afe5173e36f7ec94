use redshirt::checksum::{swap_words, ChecksumBuilder, DIGEST_LEN, MAX_INPUT_LEN};

const EMPTY: [u8; 20] = [
    0xEE, 0xA3, 0x39, 0xDA, 0x0D, 0x4B, 0x6B, 0x5E, 0xEF, 0xBF, 0x55, 0x32, 0x90, 0x18, 0x60, 0x95,
    0x09, 0x07, 0xD8, 0xAF,
];
const ABC: [u8; 20] = [
    0x36, 0x3E, 0x99, 0xA9, 0x6A, 0x81, 0x06, 0x47, 0x71, 0x25, 0x3E, 0xBA, 0x6C, 0xC2, 0x50, 0x78,
    0x9D, 0xD8, 0xD0, 0x9C,
];

#[test]
fn digest_of_nothing() {
    assert_eq!(ChecksumBuilder::new().finish(), EMPTY);
    assert_eq!(ChecksumBuilder::default().finish(), EMPTY);
}

#[test]
fn digest_of_abc() {
    let mut builder = ChecksumBuilder::new();
    builder.update(b"abc");
    assert_eq!(builder.len(), 3);
    assert_eq!(builder.finish(), ABC);
}

#[test]
fn digest_does_not_depend_on_how_the_input_is_cut() {
    let mut builder = ChecksumBuilder::new();
    builder.update(b"a");
    builder.update(b"");
    builder.update(b"bc");
    assert_eq!(builder.len(), 3);
    assert_eq!(builder.finish(), ABC);
}

#[test]
fn clone_carries_what_was_given() {
    let mut builder = ChecksumBuilder::new();
    builder.update(b"ab");
    let mut copy = builder.clone();
    copy.update(b"c");
    assert_eq!(copy.finish(), ABC);
    builder.update(b"c");
    assert_eq!(builder.finish(), ABC);
}

#[test]
fn clone_is_independent() {
    let mut builder = ChecksumBuilder::new();
    let copy = builder.clone();
    builder.update(b"abc");
    assert_eq!(copy.finish(), EMPTY);
    assert_eq!(builder.finish(), ABC);
}

#[test]
fn swap_words_reverses_each_word() {
    let digest: [u8; 20] = [
        0, 1, 2, 3, 4, 5, 6, 7, 8, 9, 10, 11, 12, 13, 14, 15, 16, 17, 18, 19,
    ];
    assert_eq!(
        swap_words(digest),
        [3, 2, 1, 0, 7, 6, 5, 4, 11, 10, 9, 8, 15, 14, 13, 12, 19, 18, 17, 16]
    );
}

#[test]
fn swap_words_twice_is_identity() {
    assert_eq!(swap_words(swap_words(ABC)), ABC);
}

#[test]
fn constants() {
    assert_eq!(DIGEST_LEN, 20);
    assert_eq!(MAX_INPUT_LEN, (1u64 << 61) - 1);
}
