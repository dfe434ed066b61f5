use vstd::prelude::*;

verus! {

/// A digest of eight BabyBear field elements, each held as its canonical `u32`.
pub type Digest = [u32; 8];

/// The order of the BabyBear field.
pub const BABY_BEAR_ORDER: u32 = 2013265921;

/// All entries are canonical field elements.
pub open spec fn is_canonical(d: Digest) -> bool {
    forall|i: int| 0 <= i < 8 ==> d[i] < BABY_BEAR_ORDER
}

/// The all-zero digest used for padding.
pub open spec fn is_zero_digest(d: Digest) -> bool {
    forall|i: int| 0 <= i < 8 ==> d[i] == 0
}

/// Returns the all-zero digest.
pub fn zero_digest() -> (r: Digest)
    ensures
        is_zero_digest(r),
{
    [0u32; 8]
}

/// Compares two digests entry by entry.
pub fn digest_eq(a: &Digest, b: &Digest) -> (r: bool)
    ensures
        r == (*a == *b),
{
    let mut i: usize = 0;
    while i < 8
        invariant
            0 <= i <= 8,
            forall|k: int| 0 <= k < i ==> a[k] == b[k],
        decreases 8 - i,
    {
        if a[i] != b[i] {
            return false;
        }
        i = i + 1;
    }
    assert(*a =~= *b);
    true
}

/// The bytes of a committed-value digest: 32 limbs, each holding one byte of the digest.
pub open spec fn limb_bytes(limbs: Seq<u32>) -> Seq<u8> {
    Seq::new(limbs.len(), |k: int| limbs[k] as u8)
}

/// Reads the committed-value digest bytes out of its 32 limbs, keeping the low byte of each.
pub fn committed_value_digest_bytes(limbs: &[u32; 32]) -> (r: Vec<u8>)
    ensures
        r@ == limb_bytes(limbs@),
{
    let mut r: Vec<u8> = Vec::new();
    let mut i: usize = 0;
    while i < 32
        invariant
            0 <= i <= 32,
            r@ =~= limb_bytes(limbs@).take(i as int),
        decreases 32 - i,
    {
        r.push(limbs[i] as u8);
        i = i + 1;
    }
    assert(r@ =~= limb_bytes(limbs@));
    r
}

/// Little-endian byte `j` (0 to 3) of the word `w`.
pub open spec fn le_byte(w: u32, j: int) -> u8 {
    ((w as int / pow256(j)) % 256) as u8
}

pub open spec fn pow256(j: int) -> int
    decreases j,
{
    if j <= 0 {
        1
    } else {
        256 * pow256(j - 1)
    }
}

/// Byte `k` of the little-endian serialisation of a sequence of words.
pub open spec fn words_le_byte(words: Seq<u32>, k: int) -> u8 {
    le_byte(words[k / 4], k % 4)
}

/// Serialises eight words to 32 bytes, each word little-endian.
pub fn words_to_bytes(words: &[u32; 8]) -> (bytes: [u8; 32])
    ensures
        forall|k: int| 0 <= k < 32 ==> bytes@[k] == words_le_byte(words@, k),
{
    let mut bytes = [0u8; 32];
    let mut i: usize = 0;
    while i < 8
        invariant
            0 <= i <= 8,
            bytes@.len() == 32,
            forall|k: int| 0 <= k < 4 * i ==> bytes@[k] == words_le_byte(words@, k),
        decreases 8 - i,
    {
        let w = words[i];
        let b0 = (w & 0xff) as u8;
        let b1 = ((w >> 8) & 0xff) as u8;
        let b2 = ((w >> 16) & 0xff) as u8;
        let b3 = ((w >> 24) & 0xff) as u8;
        assert(b0 == le_byte(w, 0) && b1 == le_byte(w, 1) && b2 == le_byte(w, 2) && b3 == le_byte(w, 3)) by {
            reveal_with_fuel(pow256, 4);
            assert(w & 0xff == w % 256) by (bit_vector);
            assert((w >> 8) & 0xff == (w / 256) % 256) by (bit_vector);
            assert((w >> 16) & 0xff == (w / 65536) % 256) by (bit_vector);
            assert((w >> 24) & 0xff == (w / 16777216) % 256) by (bit_vector);
        }
        bytes[4 * i] = b0;
        bytes[4 * i + 1] = b1;
        bytes[4 * i + 2] = b2;
        bytes[4 * i + 3] = b3;
        i = i + 1;
    }
    bytes
}

} // verus!
