use sitewatch::fingerprint::{fingerprint, fingerprint_hex, to_hex, OFFSET_BASIS, PRIME, PRIME_INVERSE};

#[test]
fn empty_content_has_the_offset_basis() {
    assert_eq!(fingerprint(b""), 0xcbf2_9ce4_8422_2325);
    assert_eq!(fingerprint(b""), OFFSET_BASIS);
}

#[test]
fn known_digests() {
    assert_eq!(fingerprint(b"a"), 0xaf63_dc4c_8601_ec8c);
    assert_eq!(fingerprint(b"foobar"), 0x8594_4171_f739_67e8);
    assert_eq!(fingerprint(b"v1"), 0x08cf_0b07_b570_9128);
    assert_eq!(fingerprint(b"v2"), 0x08cf_0e07_b570_9641);
}

#[test]
fn one_round_is_xor_then_multiply() {
    let expected = (OFFSET_BASIS ^ 0x61).wrapping_mul(PRIME);
    assert_eq!(fingerprint(b"a"), expected);
}

#[test]
fn prime_inverse_undoes_the_multiplication() {
    assert_eq!(PRIME.wrapping_mul(PRIME_INVERSE), 1);
    let state: u64 = 0x0123_4567_89ab_cdef;
    assert_eq!(state.wrapping_mul(PRIME).wrapping_mul(PRIME_INVERSE), state);
}

#[test]
fn hex_is_sixteen_lowercase_digits() {
    assert_eq!(to_hex(0), "0000000000000000");
    assert_eq!(to_hex(u64::MAX), "ffffffffffffffff");
    assert_eq!(to_hex(0x0123_4567_89ab_cdef), "0123456789abcdef");
    assert_eq!(to_hex(0xf), "000000000000000f");
    assert_eq!(to_hex(0xa000_0000_0000_0000), "a000000000000000");
}

#[test]
fn hex_of_known_contents() {
    assert_eq!(fingerprint_hex(b""), "cbf29ce484222325");
    assert_eq!(fingerprint_hex(b"v1"), "08cf0b07b5709128");
    assert_eq!(fingerprint_hex(b"v2"), "08cf0e07b5709641");
    assert_eq!(fingerprint_hex(b"foobar"), "85944171f73967e8");
}

#[test]
fn same_content_same_digest() {
    let content = b"the quick brown fox".to_vec();
    let copy = content.clone();
    assert_eq!(fingerprint(&content), fingerprint(&copy));
    assert_eq!(fingerprint_hex(&content), fingerprint_hex(&copy));
}

#[test]
fn substituting_one_byte_changes_the_digest() {
    let content = b"<html><body>price: 42</body></html>".to_vec();
    let digest = fingerprint(&content);
    for at in 0..content.len() {
        for byte in 0..=255u8 {
            if byte != content[at] {
                let mut changed = content.clone();
                changed[at] = byte;
                assert_ne!(fingerprint(&changed), digest);
                assert_ne!(fingerprint_hex(&changed), to_hex(digest));
            }
        }
    }
}

#[test]
fn distinct_random_contents_have_distinct_digests() {
    let mut state: u64 = 0x9e37_79b9_7f4a_7c15;
    let mut contents: Vec<Vec<u8>> = Vec::new();
    for _ in 0..3000 {
        state = state.wrapping_mul(6364136223846793005).wrapping_add(1442695040888963407);
        let len = ((state >> 33) % 40) as usize;
        let mut bytes = Vec::new();
        for _ in 0..len {
            state = state.wrapping_mul(6364136223846793005).wrapping_add(1442695040888963407);
            bytes.push((state >> 56) as u8);
        }
        contents.push(bytes);
    }
    contents.sort();
    contents.dedup();
    let mut digests: Vec<u64> = contents.iter().map(|c| fingerprint(c)).collect();
    digests.sort();
    digests.dedup();
    assert_eq!(digests.len(), contents.len());
}

#[test]
fn prefix_and_extension_differ() {
    assert_ne!(fingerprint(b"v1"), fingerprint(b"v1 "));
    assert_ne!(fingerprint(b""), fingerprint(b"\0"));
    assert_ne!(fingerprint(b"ab"), fingerprint(b"ba"));
}
