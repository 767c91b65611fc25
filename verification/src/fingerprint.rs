//! Content fingerprints: the 64-bit FNV-1a hash of the content bytes.

use vstd::prelude::*;

verus! {

/// The state the hash starts from.
pub const OFFSET_BASIS: u64 = 0xcbf2_9ce4_8422_2325;

/// The multiplier of each round.
pub const PRIME: u64 = 0x0000_0100_0000_01b3;

/// One round: the byte is xored into the state, and the state multiplied by
/// `PRIME` modulo 2^64.
pub open spec fn mix(state: u64, byte: u8) -> u64 {
    (state ^ (byte as u64)).wrapping_mul(PRIME)
}

/// The digest of a byte sequence: the rounds folded over it from the left,
/// starting at `OFFSET_BASIS`.
pub open spec fn digest_of(content: Seq<u8>) -> u64
    decreases content.len(),
{
    if content.len() == 0 {
        OFFSET_BASIS
    } else {
        mix(digest_of(content.drop_last()), content.last())
    }
}

/// Computes the digest of `content`.
pub fn fingerprint(content: &[u8]) -> (digest: u64)
    ensures
        digest == digest_of(content@),
{
    let mut state: u64 = OFFSET_BASIS;
    let mut i: usize = 0;
    while i < content.len()
        invariant
            i <= content.len(),
            state == digest_of(content@.subrange(0, i as int)),
        decreases content.len() - i,
    {
        let byte: u8 = content[i];
        proof {
            let next = content@.subrange(0, i + 1);
            assert(next.drop_last() =~= content@.subrange(0, i as int));
            assert(next.last() == byte);
        }
        state = (state ^ (byte as u64)).wrapping_mul(PRIME);
        i += 1;
    }
    proof {
        assert(content@.subrange(0, i as int) =~= content@);
    }
    state
}

/// The inverse of `PRIME` modulo 2^64.
pub const PRIME_INVERSE: u64 = 0xce96_5057_aff6_957b;

proof fn lemma_multiplication_undone(x: u64)
    ensures
        x.wrapping_mul(PRIME).wrapping_mul(PRIME_INVERSE) == x,
{
    let y = x.wrapping_mul(PRIME);
    assert(y == (x * 0x0000_0100_0000_01b3u64) as u64) by (bit_vector)
        requires
            y == ((x as nat * 0x0000_0100_0000_01b3u64 as nat) % 0x1_0000_0000_0000_0000) as u64,
    ;
    let z = y.wrapping_mul(PRIME_INVERSE);
    assert(z == x) by (bit_vector)
        requires
            y == (x * 0x0000_0100_0000_01b3u64) as u64,
            z == ((y as nat * 0xce96_5057_aff6_957bu64 as nat) % 0x1_0000_0000_0000_0000) as u64,
    ;
}

/// A round loses nothing: from its result, the state xored with the byte
/// can be recovered.
pub proof fn lemma_mix_injective(s1: u64, b1: u8, s2: u64, b2: u8)
    requires
        mix(s1, b1) == mix(s2, b2),
    ensures
        s1 ^ (b1 as u64) == s2 ^ (b2 as u64),
{
    lemma_multiplication_undone(s1 ^ (b1 as u64));
    lemma_multiplication_undone(s2 ^ (b2 as u64));
}

/// Replacing one byte of the content by a different byte always changes the
/// digest.
pub proof fn law_substitution_changes_digest(content: Seq<u8>, at: int, byte: u8)
    requires
        0 <= at < content.len(),
        byte != content[at],
    ensures
        digest_of(content.update(at, byte)) != digest_of(content),
    decreases content.len(),
{
    let changed = content.update(at, byte);
    let before = digest_of(content.drop_last());
    let after = digest_of(changed.drop_last());
    if at == content.len() - 1 {
        assert(changed.drop_last() =~= content.drop_last());
        if mix(after, byte) == mix(before, content[at]) {
            lemma_mix_injective(after, byte, before, content[at]);
            let x = byte as u64;
            let y = content[at] as u64;
            assert(x == y) by (bit_vector)
                requires
                    before ^ x == before ^ y,
            ;
        }
    } else {
        assert(changed.drop_last() =~= content.drop_last().update(at, byte));
        law_substitution_changes_digest(content.drop_last(), at, byte);
        let last = content.last();
        if mix(after, last) == mix(before, last) {
            lemma_mix_injective(after, last, before, last);
            let x = last as u64;
            assert(after == before) by (bit_vector)
                requires
                    after ^ x == before ^ x,
            ;
        }
    }
}

/// The lower-case hexadecimal digit of a value below sixteen.
pub open spec fn hex_char(nibble: u8) -> char {
    seq!['0', '1', '2', '3', '4', '5', '6', '7', '8', '9', 'a', 'b', 'c', 'd', 'e', 'f'][nibble as int]
}

/// The `i`-th group of four bits of a digest, counted from the most
/// significant one.
pub open spec fn nibble_at(digest: u64, i: int) -> u8 {
    ((digest >> ((60 - 4 * i) as u64)) & 0xf) as u8
}

/// The text form of a digest: sixteen lower-case hexadecimal digits, most
/// significant first.
pub open spec fn hex_of(digest: u64) -> Seq<char> {
    Seq::new(16, |i: int| hex_char(nibble_at(digest, i)))
}

/// The text form of the digest of a byte sequence.
pub open spec fn fingerprint_text(content: Seq<u8>) -> Seq<char> {
    hex_of(digest_of(content))
}

fn hex_digit(nibble: u8) -> (digit: &'static str)
    requires
        nibble < 16,
    ensures
        digit@ == seq![hex_char(nibble)],
{
    proof {
        reveal_strlit("0");
        reveal_strlit("1");
        reveal_strlit("2");
        reveal_strlit("3");
        reveal_strlit("4");
        reveal_strlit("5");
        reveal_strlit("6");
        reveal_strlit("7");
        reveal_strlit("8");
        reveal_strlit("9");
        reveal_strlit("a");
        reveal_strlit("b");
        reveal_strlit("c");
        reveal_strlit("d");
        reveal_strlit("e");
        reveal_strlit("f");
    }
    let digit = match nibble {
        0 => "0",
        1 => "1",
        2 => "2",
        3 => "3",
        4 => "4",
        5 => "5",
        6 => "6",
        7 => "7",
        8 => "8",
        9 => "9",
        10 => "a",
        11 => "b",
        12 => "c",
        13 => "d",
        14 => "e",
        _ => "f",
    };
    assert(digit@ =~= seq![hex_char(nibble)]);
    digit
}

/// Writes a digest as sixteen lower-case hexadecimal digits.
pub fn to_hex(digest: u64) -> (text: String)
    ensures
        text@ == hex_of(digest),
{
    let mut text = String::new();
    let mut i: u64 = 0;
    while i < 16
        invariant
            i <= 16,
            text@ == Seq::new(i as nat, |k: int| hex_char(nibble_at(digest, k))),
        decreases 16 - i,
    {
        let shift: u64 = 60 - 4 * i;
        let masked: u64 = (digest >> shift) & 0xf;
        assert(masked < 16) by (bit_vector)
            requires
                masked == (digest >> shift) & 0xf,
        ;
        let nibble: u8 = masked as u8;
        let digit = hex_digit(nibble);
        text.append(digit);
        assert(text@ =~= Seq::new((i + 1) as nat, |k: int| hex_char(nibble_at(digest, k))));
        i += 1;
    }
    text
}

/// Computes the digest of `content` and writes it as text.
pub fn fingerprint_hex(content: &[u8]) -> (text: String)
    ensures
        text@ == fingerprint_text(content@),
{
    to_hex(fingerprint(content))
}

proof fn lemma_hex_char_injective(a: u8, b: u8)
    requires
        a < 16,
        b < 16,
        hex_char(a) == hex_char(b),
    ensures
        a == b,
{
}

/// Two digests with the same text form are the same digest.
pub proof fn law_hex_injective(x: u64, y: u64)
    requires
        hex_of(x) == hex_of(y),
    ensures
        x == y,
{
    assert forall|i: int| 0 <= i < 16 implies nibble_at(x, i) == nibble_at(y, i) by {
        assert(hex_of(x)[i] == hex_char(nibble_at(x, i)));
        assert(hex_of(y)[i] == hex_char(nibble_at(y, i)));
        let a = nibble_at(x, i);
        let b = nibble_at(y, i);
        let shift = (60 - 4 * i) as u64;
        assert(((x >> shift) & 0xf) < 16) by (bit_vector);
        assert(((y >> shift) & 0xf) < 16) by (bit_vector);
        lemma_hex_char_injective(a, b);
    }
    assert(nibble_at(x, 0) == nibble_at(y, 0));
    assert(nibble_at(x, 1) == nibble_at(y, 1));
    assert(nibble_at(x, 2) == nibble_at(y, 2));
    assert(nibble_at(x, 3) == nibble_at(y, 3));
    assert(nibble_at(x, 4) == nibble_at(y, 4));
    assert(nibble_at(x, 5) == nibble_at(y, 5));
    assert(nibble_at(x, 6) == nibble_at(y, 6));
    assert(nibble_at(x, 7) == nibble_at(y, 7));
    assert(nibble_at(x, 8) == nibble_at(y, 8));
    assert(nibble_at(x, 9) == nibble_at(y, 9));
    assert(nibble_at(x, 10) == nibble_at(y, 10));
    assert(nibble_at(x, 11) == nibble_at(y, 11));
    assert(nibble_at(x, 12) == nibble_at(y, 12));
    assert(nibble_at(x, 13) == nibble_at(y, 13));
    assert(nibble_at(x, 14) == nibble_at(y, 14));
    assert(nibble_at(x, 15) == nibble_at(y, 15));
    assert(x == y) by (bit_vector)
        requires
            ((x >> 60) & 0xf) as u8 == ((y >> 60) & 0xf) as u8,
            ((x >> 56) & 0xf) as u8 == ((y >> 56) & 0xf) as u8,
            ((x >> 52) & 0xf) as u8 == ((y >> 52) & 0xf) as u8,
            ((x >> 48) & 0xf) as u8 == ((y >> 48) & 0xf) as u8,
            ((x >> 44) & 0xf) as u8 == ((y >> 44) & 0xf) as u8,
            ((x >> 40) & 0xf) as u8 == ((y >> 40) & 0xf) as u8,
            ((x >> 36) & 0xf) as u8 == ((y >> 36) & 0xf) as u8,
            ((x >> 32) & 0xf) as u8 == ((y >> 32) & 0xf) as u8,
            ((x >> 28) & 0xf) as u8 == ((y >> 28) & 0xf) as u8,
            ((x >> 24) & 0xf) as u8 == ((y >> 24) & 0xf) as u8,
            ((x >> 20) & 0xf) as u8 == ((y >> 20) & 0xf) as u8,
            ((x >> 16) & 0xf) as u8 == ((y >> 16) & 0xf) as u8,
            ((x >> 12) & 0xf) as u8 == ((y >> 12) & 0xf) as u8,
            ((x >> 8) & 0xf) as u8 == ((y >> 8) & 0xf) as u8,
            ((x >> 4) & 0xf) as u8 == ((y >> 4) & 0xf) as u8,
            ((x >> 0) & 0xf) as u8 == ((y >> 0) & 0xf) as u8,
    ;
}

} // verus!
