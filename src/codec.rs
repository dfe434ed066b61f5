use vstd::prelude::*;
use vstd::utf8::{encode_utf8, decode_utf8, encode_utf8_decode_utf8};

use crate::bundle::{
    MONEROCHANProof, MONEROCHANProofWithPublicValues, ReduceProof, ShardProof, SnarkProof,
};
use crate::digest::Digest;
use crate::public_values::{ExecutionState, PublicValues};

verus! {

/// `r` is what the decoder `d` gives, with the position as a `usize`.
pub open spec fn same_read<T>(r: Option<(T, usize)>, d: Option<(T, int)>) -> bool {
    match r {
        None => d is None,
        Some((x, q)) => d == Some((x, q as int)),
    }
}

/// `s` holds `e` from position `p` on.
pub open spec fn holds_at(s: Seq<u8>, p: int, e: Seq<u8>) -> bool {
    &&& 0 <= p
    &&& p + e.len() <= s.len()
    &&& s.subrange(p, p + e.len()) == e
}

pub proof fn lemma_holds_split(s: Seq<u8>, p: int, a: Seq<u8>, b: Seq<u8>)
    requires
        holds_at(s, p, a + b),
    ensures
        holds_at(s, p, a),
        holds_at(s, p + a.len(), b),
{
    let t = s.subrange(p, p + (a + b).len());
    assert forall|i: int| 0 <= i < a.len() implies s.subrange(p, p + a.len())[i] == a[i] by {
        assert(t[i] == (a + b)[i]);
    }
    assert forall|i: int| 0 <= i < b.len() implies s.subrange(p + a.len(), p + a.len() + b.len())[i]
        == b[i] by {
        assert(t[a.len() + i] == (a + b)[a.len() + i]);
    }
    assert(s.subrange(p, p + a.len()) =~= a);
    assert(s.subrange(p + a.len(), p + a.len() + b.len()) =~= b);
}

/// Four bytes, least significant first.
pub open spec fn enc_u32(v: u32) -> Seq<u8> {
    seq![
        (v & 0xff) as u8,
        ((v >> 8u32) & 0xff) as u8,
        ((v >> 16u32) & 0xff) as u8,
        ((v >> 24u32) & 0xff) as u8,
    ]
}

/// The word whose little-endian bytes start at `p`.
pub open spec fn u32_at(s: Seq<u8>, p: int) -> u32 {
    (s[p] as u32) | ((s[p + 1] as u32) << 8u32) | ((s[p + 2] as u32) << 16u32) | ((s[p + 3] as u32)
        << 24u32)
}

pub open spec fn dec_u32(s: Seq<u8>, p: int) -> Option<(u32, int)> {
    if 0 <= p && p + 4 <= s.len() {
        Some((u32_at(s, p), p + 4))
    } else {
        None
    }
}

pub proof fn lemma_u32_round(s: Seq<u8>, p: int, v: u32)
    requires
        holds_at(s, p, enc_u32(v)),
    ensures
        u32_at(s, p) == v,
        dec_u32(s, p) == Some((v, p + 4)),
{
    let e = enc_u32(v);
    assert(s[p] == e[0] && s[p + 1] == e[1] && s[p + 2] == e[2] && s[p + 3] == e[3]) by {
        assert(s.subrange(p, p + 4)[0] == s[p]);
        assert(s.subrange(p, p + 4)[1] == s[p + 1]);
        assert(s.subrange(p, p + 4)[2] == s[p + 2]);
        assert(s.subrange(p, p + 4)[3] == s[p + 3]);
    }
    let b0 = s[p];
    let b1 = s[p + 1];
    let b2 = s[p + 2];
    let b3 = s[p + 3];
    assert(b0 == (v & 0xff) as u8 && b1 == ((v >> 8u32) & 0xff) as u8 && b2 == ((v >> 16u32)
        & 0xff) as u8 && b3 == ((v >> 24u32) & 0xff) as u8 ==> (b0 as u32) | ((b1 as u32) << 8u32)
        | ((b2 as u32) << 16u32) | ((b3 as u32) << 24u32) == v) by (bit_vector);
}

pub fn put_u32(out: &mut Vec<u8>, v: u32)
    ensures
        final(out)@ == old(out)@ + enc_u32(v),
{
    out.push((v & 0xff) as u8);
    out.push(((v >> 8u32) & 0xff) as u8);
    out.push(((v >> 16u32) & 0xff) as u8);
    out.push(((v >> 24u32) & 0xff) as u8);
    assert(out@ =~= old(out)@ + enc_u32(v));
}

pub fn get_u32(data: &[u8], pos: usize) -> (r: Option<(u32, usize)>)
    ensures
        same_read(r, dec_u32(data@, pos as int)),
{
    if pos > data.len() || data.len() - pos < 4 {
        return None;
    }
    let v = (data[pos] as u32) | ((data[pos + 1] as u32) << 8u32) | ((data[pos + 2] as u32)
        << 16u32) | ((data[pos + 3] as u32) << 24u32);
    Some((v, pos + 4))
}

/// A run of words, each as four little-endian bytes.
pub open spec fn enc_u32s(w: Seq<u32>) -> Seq<u8>
    decreases w.len(),
{
    if w.len() == 0 {
        Seq::empty()
    } else {
        enc_u32s(w.drop_last()) + enc_u32(w.last())
    }
}

pub open spec fn dec_u32s(s: Seq<u8>, p: int, n: nat) -> Option<(Seq<u32>, int)> {
    if 0 <= p && p + 4 * n <= s.len() {
        Some((Seq::new(n, |i: int| u32_at(s, p + 4 * i)), p + 4 * n))
    } else {
        None
    }
}

pub proof fn lemma_u32s_len(w: Seq<u32>)
    ensures
        enc_u32s(w).len() == 4 * w.len(),
    decreases w.len(),
{
    if w.len() > 0 {
        lemma_u32s_len(w.drop_last());
    }
}

pub proof fn lemma_u32s_round(s: Seq<u8>, p: int, w: Seq<u32>)
    requires
        holds_at(s, p, enc_u32s(w)),
    ensures
        dec_u32s(s, p, w.len()) == Some((w, p + 4 * w.len())),
    decreases w.len(),
{
    lemma_u32s_len(w);
    if w.len() > 0 {
        let d = w.drop_last();
        lemma_u32s_len(d);
        lemma_holds_split(s, p, enc_u32s(d), enc_u32(w.last()));
        lemma_u32s_round(s, p, d);
        lemma_u32_round(s, p + 4 * d.len(), w.last());
        let got = Seq::new(w.len(), |i: int| u32_at(s, p + 4 * i));
        assert forall|i: int| 0 <= i < w.len() implies got[i] == w[i] by {
            if i < d.len() {
                assert(dec_u32s(s, p, d.len()) == Some((d, p + 4 * d.len())));
                assert(Seq::new(d.len(), |k: int| u32_at(s, p + 4 * k))[i] == d[i]);
            }
        }
        assert(got =~= w);
    } else {
        assert(Seq::new(0, |i: int| u32_at(s, p + 4 * i)) =~= w);
    }
}

pub fn put_u32s(out: &mut Vec<u8>, w: &[u32])
    ensures
        final(out)@ == old(out)@ + enc_u32s(w@),
{
    let mut i: usize = 0;
    assert(w@.take(0) =~= Seq::<u32>::empty());
    assert(out@ =~= old(out)@ + enc_u32s(w@.take(0)));
    while i < w.len()
        invariant
            i <= w@.len(),
            out@ == old(out)@ + enc_u32s(w@.take(i as int)),
        decreases w@.len() - i,
    {
        put_u32(out, w[i]);
        assert(w@.take(i + 1).drop_last() =~= w@.take(i as int));
        assert(out@ =~= old(out)@ + enc_u32s(w@.take(i + 1)));
        i = i + 1;
    }
    assert(w@.take(w@.len() as int) =~= w@);
}

pub fn get_u32s(data: &[u8], pos: usize, n: usize) -> (r: Option<(Vec<u32>, usize)>)
    ensures
        match r {
            None => dec_u32s(data@, pos as int, n as nat) is None,
            Some((v, q)) => dec_u32s(data@, pos as int, n as nat) == Some((v@, q as int)),
        },
{
    if pos > data.len() || (data.len() - pos) / 4 < n {
        return None;
    }
    let mut v: Vec<u32> = Vec::new();
    let mut q: usize = pos;
    let mut i: usize = 0;
    while i < n
        invariant
            pos <= data@.len(),
            4 * n <= data@.len() - pos,
            i <= n,
            q == pos + 4 * i,
            v@ =~= Seq::new(i as nat, |k: int| u32_at(data@, pos + 4 * k)),
        decreases n - i,
    {
        let (x, next) = match get_u32(data, q) {
            Some(t) => t,
            None => {
                return None;
            },
        };
        v.push(x);
        q = next;
        i = i + 1;
    }
    Some((v, q))
}

/// A byte string after its length as a word.
pub open spec fn enc_bytes(b: Seq<u8>) -> Seq<u8> {
    enc_u32(b.len() as u32) + b
}

pub open spec fn dec_bytes(s: Seq<u8>, p: int) -> Option<(Seq<u8>, int)> {
    match dec_u32(s, p) {
        Some((n, q)) => if q + n <= s.len() {
            Some((s.subrange(q, q + n), q + n))
        } else {
            None
        },
        None => None,
    }
}

pub proof fn lemma_bytes_round(s: Seq<u8>, p: int, b: Seq<u8>)
    requires
        b.len() <= u32::MAX,
        holds_at(s, p, enc_bytes(b)),
    ensures
        dec_bytes(s, p) == Some((b, p + 4 + b.len())),
{
    lemma_holds_split(s, p, enc_u32(b.len() as u32), b);
    lemma_u32_round(s, p, b.len() as u32);
}

pub fn put_bytes(out: &mut Vec<u8>, b: &[u8])
    requires
        b@.len() <= u32::MAX,
    ensures
        final(out)@ == old(out)@ + enc_bytes(b@),
{
    put_u32(out, b.len() as u32);
    let ghost mid = out@;
    let mut i: usize = 0;
    while i < b.len()
        invariant
            i <= b@.len(),
            out@ == mid + b@.take(i as int),
        decreases b@.len() - i,
    {
        out.push(b[i]);
        assert(b@.take(i + 1) =~= b@.take(i as int).push(b@[i as int]));
        i = i + 1;
    }
    assert(b@.take(b@.len() as int) =~= b@);
    assert(out@ =~= old(out)@ + enc_bytes(b@));
}

/// Copies `n` bytes of `data` from `pos` on.
fn copy_range(data: &[u8], pos: usize, n: usize) -> (r: Vec<u8>)
    requires
        pos + n <= data@.len(),
    ensures
        r@ == data@.subrange(pos as int, pos + n),
{
    let mut r: Vec<u8> = Vec::new();
    let mut i: usize = 0;
    let len = data.len();
    while i < n
        invariant
            len == data@.len(),
            pos + n <= data@.len(),
            data@.len() <= usize::MAX,
            i <= n,
            r@ =~= data@.subrange(pos as int, pos + i),
        decreases n - i,
    {
        r.push(data[pos + i]);
        i = i + 1;
    }
    r
}

pub fn get_bytes(data: &[u8], pos: usize) -> (r: Option<(Vec<u8>, usize)>)
    ensures
        match r {
            None => dec_bytes(data@, pos as int) is None,
            Some((v, q)) => dec_bytes(data@, pos as int) == Some((v@, q as int)),
        },
{
    let (n, q) = match get_u32(data, pos) {
        Some(t) => t,
        None => {
            return None;
        },
    };
    if (data.len() - q) < n as usize {
        return None;
    }
    let v = copy_range(data, q, n as usize);
    Some((v, q + n as usize))
}

/// The bytes are the UTF-8 encoding of some characters.
pub open spec fn is_utf8_encoding(b: Seq<u8>) -> bool {
    exists|c: Seq<char>| encode_utf8(c) == b
}

/// Relies on `String::from_utf8`: it accepts exactly the byte strings that encode characters,
/// and keeps the bytes as they are.
#[verifier::external_body]
fn string_from_utf8(bytes: Vec<u8>) -> (r: Option<String>)
    ensures
        r is Some ==> encode_utf8(r->Some_0@) == bytes@,
        is_utf8_encoding(bytes@) ==> r is Some,
{
    String::from_utf8(bytes).ok()
}

/// A string as the byte string of its UTF-8 encoding.
pub open spec fn enc_str(c: Seq<char>) -> Seq<u8> {
    enc_bytes(encode_utf8(c))
}

pub open spec fn dec_str(s: Seq<u8>, p: int) -> Option<(Seq<char>, int)> {
    match dec_bytes(s, p) {
        Some((b, q)) => if is_utf8_encoding(b) {
            Some((decode_utf8(b), q))
        } else {
            None
        },
        None => None,
    }
}

pub proof fn lemma_str_round(s: Seq<u8>, p: int, c: Seq<char>)
    requires
        encode_utf8(c).len() <= u32::MAX,
        holds_at(s, p, enc_str(c)),
    ensures
        dec_str(s, p) == Some((c, p + enc_str(c).len())),
{
    lemma_bytes_round(s, p, encode_utf8(c));
    encode_utf8_decode_utf8(c);
}

pub fn put_str(out: &mut Vec<u8>, text: &str)
    requires
        encode_utf8(text@).len() <= u32::MAX,
    ensures
        final(out)@ == old(out)@ + enc_str(text@),
{
    put_bytes(out, text.as_bytes());
}

pub fn get_str(data: &[u8], pos: usize) -> (r: Option<(String, usize)>)
    ensures
        match r {
            None => dec_str(data@, pos as int) is None,
            Some((v, q)) => dec_str(data@, pos as int) == Some((v@, q as int)),
        },
{
    let (b, q) = match get_bytes(data, pos) {
        Some(t) => t,
        None => {
            return None;
        },
    };
    let ghost bytes = b@;
    match string_from_utf8(b) {
        Some(text) => {
            proof {
                encode_utf8_decode_utf8(text@);
            }
            Some((text, q))
        },
        None => None,
    }
}

/// A run of raw bytes of known length.
pub open spec fn dec_raw(s: Seq<u8>, p: int, n: nat) -> Option<(Seq<u8>, int)> {
    if 0 <= p && p + n <= s.len() {
        Some((s.subrange(p, p + n), p + n))
    } else {
        None
    }
}

pub fn put_raw(out: &mut Vec<u8>, b: &[u8])
    ensures
        final(out)@ == old(out)@ + b@,
{
    let mut i: usize = 0;
    while i < b.len()
        invariant
            i <= b@.len(),
            out@ == old(out)@ + b@.take(i as int),
        decreases b@.len() - i,
    {
        out.push(b[i]);
        assert(b@.take(i + 1) =~= b@.take(i as int).push(b@[i as int]));
        i = i + 1;
    }
    assert(b@.take(b@.len() as int) =~= b@);
}

pub fn get_raw32(data: &[u8], pos: usize) -> (r: Option<([u8; 32], usize)>)
    ensures
        match r {
            None => dec_raw(data@, pos as int, 32) is None,
            Some((v, q)) => dec_raw(data@, pos as int, 32) == Some((v@, q as int)),
        },
{
    if pos > data.len() || data.len() - pos < 32 {
        return None;
    }
    let mut a = [0u8; 32];
    let mut i: usize = 0;
    while i < 32
        invariant
            pos + 32 <= data@.len(),
            data@.len() <= usize::MAX,
            i <= 32,
            forall|k: int| 0 <= k < i ==> a@[k] == data@[pos + k],
        decreases 32 - i,
    {
        a[i] = data[pos + i];
        i = i + 1;
    }
    assert(a@ =~= data@.subrange(pos as int, pos + 32));
    Some((a, pos + 32))
}

/// The words of a state: program counter, shard, memory digest, then the cycle count as its
/// low and high word.
pub open spec fn state_words(st: ExecutionState) -> Seq<u32> {
    seq![st.pc, st.shard] + st.memory_digest@ + seq![
        st.cycles as u32,
        (st.cycles >> 32u64) as u32,
    ]
}

/// The 65 words of a set of public values: start, end, the completion flag as 0 or 1, the
/// committed-value digest and the registry root.
pub open spec fn pv_words(pv: PublicValues) -> Seq<u32> {
    state_words(pv.start) + state_words(pv.end) + seq![if pv.is_complete { 1u32 } else { 0u32 }]
        + pv.committed_value_digest@ + pv.vk_root@
}

proof fn lemma_u64_halves(x: u64, y: u64)
    requires
        x as u32 == y as u32,
        (x >> 32u64) as u32 == (y >> 32u64) as u32,
    ensures
        x == y,
{
    assert(x as u32 == y as u32 && (x >> 32u64) as u32 == (y >> 32u64) as u32 ==> x == y)
        by (bit_vector);
}

proof fn lemma_state_words_injective(a: ExecutionState, b: ExecutionState)
    requires
        state_words(a) == state_words(b),
    ensures
        a == b,
{
    let wa = state_words(a);
    let wb = state_words(b);
    assert(wa[0] == a.pc && wb[0] == b.pc);
    assert(wa[1] == a.shard && wb[1] == b.shard);
    assert forall|i: int| 0 <= i < 8 implies a.memory_digest[i] == b.memory_digest[i] by {
        assert(wa[2 + i] == a.memory_digest@[i]);
        assert(wb[2 + i] == b.memory_digest@[i]);
    }
    assert(a.memory_digest =~= b.memory_digest);
    assert(wa[10] == a.cycles as u32 && wb[10] == b.cycles as u32);
    assert(wa[11] == (a.cycles >> 32u64) as u32 && wb[11] == (b.cycles >> 32u64) as u32);
    lemma_u64_halves(a.cycles, b.cycles);
}

/// Public values are told apart by their words.
pub proof fn lemma_pv_words_injective(a: PublicValues, b: PublicValues)
    requires
        pv_words(a) == pv_words(b),
    ensures
        a == b,
{
    let wa = pv_words(a);
    let wb = pv_words(b);
    assert(state_words(a.start) =~= wa.subrange(0, 12));
    assert(state_words(b.start) =~= wb.subrange(0, 12));
    assert(state_words(a.end) =~= wa.subrange(12, 24));
    assert(state_words(b.end) =~= wb.subrange(12, 24));
    lemma_state_words_injective(a.start, b.start);
    lemma_state_words_injective(a.end, b.end);
    assert(wa[24] == wb[24]);
    assert forall|i: int| 0 <= i < 32 implies a.committed_value_digest[i]
        == b.committed_value_digest[i] by {
        assert(wa[25 + i] == a.committed_value_digest@[i]);
        assert(wb[25 + i] == b.committed_value_digest@[i]);
    }
    assert forall|i: int| 0 <= i < 8 implies a.vk_root[i] == b.vk_root[i] by {
        assert(wa[57 + i] == a.vk_root@[i]);
        assert(wb[57 + i] == b.vk_root@[i]);
    }
    assert(a.committed_value_digest =~= b.committed_value_digest);
    assert(a.vk_root =~= b.vk_root);
}

fn push_state_words(out: &mut Vec<u32>, st: &ExecutionState)
    ensures
        final(out)@ == old(out)@ + state_words(*st),
{
    out.push(st.pc);
    out.push(st.shard);
    let mut i: usize = 0;
    while i < 8
        invariant
            i <= 8,
            out@ == old(out)@ + seq![st.pc, st.shard] + st.memory_digest@.take(i as int),
        decreases 8 - i,
    {
        out.push(st.memory_digest[i]);
        assert(st.memory_digest@.take(i + 1) =~= st.memory_digest@.take(i as int).push(
            st.memory_digest@[i as int],
        ));
        i = i + 1;
    }
    out.push(st.cycles as u32);
    out.push((st.cycles >> 32u64) as u32);
    assert(st.memory_digest@.take(8) =~= st.memory_digest@);
    assert(out@ =~= old(out)@ + state_words(*st));
}

fn push_words(out: &mut Vec<u32>, w: &[u32])
    ensures
        final(out)@ == old(out)@ + w@,
{
    let mut i: usize = 0;
    while i < w.len()
        invariant
            i <= w@.len(),
            out@ == old(out)@ + w@.take(i as int),
        decreases w@.len() - i,
    {
        out.push(w[i]);
        assert(w@.take(i + 1) =~= w@.take(i as int).push(w@[i as int]));
        i = i + 1;
    }
    assert(w@.take(w@.len() as int) =~= w@);
}

pub fn pv_to_words(pv: &PublicValues) -> (r: Vec<u32>)
    ensures
        r@ == pv_words(*pv),
{
    let mut r: Vec<u32> = Vec::new();
    push_state_words(&mut r, &pv.start);
    push_state_words(&mut r, &pv.end);
    r.push(if pv.is_complete { 1u32 } else { 0u32 });
    push_words(&mut r, &pv.committed_value_digest);
    push_words(&mut r, &pv.vk_root);
    assert(r@ =~= pv_words(*pv));
    r
}

fn digest_from_words(w: &Vec<u32>, off: usize) -> (r: Digest)
    requires
        w@.len() == 65,
        off + 8 <= w@.len(),
    ensures
        r@ == w@.subrange(off as int, off + 8),
{
    let mut a = [0u32; 8];
    let mut i: usize = 0;
    while i < 8
        invariant
            off + 8 <= w@.len(),
            w@.len() == 65,
            i <= 8,
            forall|k: int| 0 <= k < i ==> a@[k] == w@[off + k],
        decreases 8 - i,
    {
        a[i] = w[off + i];
        i = i + 1;
    }
    assert(a@ =~= w@.subrange(off as int, off + 8));
    a
}

fn state_from_words(w: &Vec<u32>, off: usize) -> (r: ExecutionState)
    requires
        w@.len() == 65,
        off + 12 <= w@.len(),
    ensures
        state_words(r) == w@.subrange(off as int, off + 12),
{
    let lo = w[off + 10];
    let hi = w[off + 11];
    let cycles = (lo as u64) | ((hi as u64) << 32u64);
    assert(cycles as u32 == lo && (cycles >> 32u64) as u32 == hi) by (bit_vector)
        requires
            cycles == (lo as u64) | ((hi as u64) << 32u64),
    ;
    let r = ExecutionState {
        pc: w[off],
        shard: w[off + 1],
        memory_digest: digest_from_words(w, off + 2),
        cycles,
    };
    assert(state_words(r) =~= w@.subrange(off as int, off + 12));
    r
}

/// Reads public values back from their words; the completion flag must be 0 or 1.
pub fn pv_from_words(w: &Vec<u32>) -> (r: PublicValues)
    requires
        w@.len() == 65,
        w@[24] <= 1,
    ensures
        pv_words(r) == w@,
{
    let mut cvd = [0u32; 32];
    let mut i: usize = 0;
    while i < 32
        invariant
            w@.len() == 65,
            i <= 32,
            forall|k: int| 0 <= k < i ==> cvd@[k] == w@[25 + k],
        decreases 32 - i,
    {
        cvd[i] = w[25 + i];
        i = i + 1;
    }
    let r = PublicValues {
        start: state_from_words(w, 0),
        end: state_from_words(w, 12),
        is_complete: w[24] == 1,
        committed_value_digest: cvd,
        vk_root: digest_from_words(w, 57),
    };
    assert(cvd@ =~= w@.subrange(25, 57));
    assert(pv_words(r) =~= w@);
    r
}

/// Public values: their 65 words, with a completion flag of 0 or 1.
pub open spec fn dec_pv(s: Seq<u8>, p: int) -> Option<(Seq<u32>, int)> {
    match dec_u32s(s, p, 65) {
        Some((w, q)) => if w[24] <= 1 {
            Some((w, q))
        } else {
            None
        },
        None => None,
    }
}

pub fn put_pv(out: &mut Vec<u8>, pv: &PublicValues)
    ensures
        final(out)@ == old(out)@ + enc_u32s(pv_words(*pv)),
{
    let w = pv_to_words(pv);
    put_u32s(out, w.as_slice());
}

pub fn get_pv(data: &[u8], pos: usize) -> (r: Option<(PublicValues, usize)>)
    ensures
        match r {
            None => dec_pv(data@, pos as int) is None,
            Some((v, q)) => dec_pv(data@, pos as int) == Some((pv_words(v), q as int)),
        },
{
    let (w, q) = match get_u32s(data, pos, 65) {
        Some(t) => t,
        None => {
            return None;
        },
    };
    if w[24] > 1 {
        return None;
    }
    Some((pv_from_words(&w), q))
}

pub proof fn lemma_pv_words_valid(pv: PublicValues)
    ensures
        pv_words(pv).len() == 65,
        pv_words(pv)[24] <= 1,
{
}

/// What a shard proof holds, as plain values: its public-value words and its proof bytes.
pub type ShardModel = (Seq<u32>, Seq<u8>);

/// What a compressed proof holds: key digest words, public-value words and proof bytes.
pub type ReduceModel = (Seq<u32>, Seq<u32>, Seq<u8>);

/// What a SNARK holds: its two public inputs, its two proof strings and its key hash.
pub type SnarkModel = (Seq<char>, Seq<char>, Seq<char>, Seq<char>, Seq<u8>);

/// What a proof holds, by mode.
pub enum ProofModel {
    Core(Seq<ShardModel>),
    Compressed(ReduceModel),
    Plonk(SnarkModel),
    Groth16(SnarkModel),
}

/// What a bundle holds: its proof, its public values and its version.
pub type BundleModel = (ProofModel, Seq<u8>, Seq<char>);

pub open spec fn shard_model(p: ShardProof) -> ShardModel {
    (pv_words(p.public_values), p.stark_proof@)
}

pub open spec fn reduce_model(p: ReduceProof) -> ReduceModel {
    (p.vk_digest@, pv_words(p.public_values), p.stark_proof@)
}

pub open spec fn snark_model(p: SnarkProof) -> SnarkModel {
    (p.public_inputs[0]@, p.public_inputs[1]@, p.encoded_proof@, p.raw_proof@, p.vkey_hash@)
}

pub open spec fn proof_model(p: MONEROCHANProof) -> ProofModel {
    match p {
        MONEROCHANProof::Core(v) => ProofModel::Core(
            Seq::new(v@.len(), |i: int| shard_model(v@[i])),
        ),
        MONEROCHANProof::Compressed(r) => ProofModel::Compressed(reduce_model(r)),
        MONEROCHANProof::Plonk(sn) => ProofModel::Plonk(snark_model(sn)),
        MONEROCHANProof::Groth16(sn) => ProofModel::Groth16(snark_model(sn)),
    }
}

pub open spec fn bundle_model(b: MONEROCHANProofWithPublicValues) -> BundleModel {
    (proof_model(b.proof), b.public_values@, b.monerochan_version@)
}

/// Every length in the bundle fits in a word, as the format writes lengths as words.
pub open spec fn fits(b: MONEROCHANProofWithPublicValues) -> bool {
    &&& b.public_values@.len() <= u32::MAX
    &&& encode_utf8(b.monerochan_version@).len() <= u32::MAX
    &&& match b.proof {
        MONEROCHANProof::Core(v) => v@.len() <= u32::MAX && forall|i: int|
            0 <= i < v@.len() ==> (#[trigger] v@[i]).stark_proof@.len() <= u32::MAX,
        MONEROCHANProof::Compressed(r) => r.stark_proof@.len() <= u32::MAX,
        MONEROCHANProof::Plonk(sn) => snark_fits(sn),
        MONEROCHANProof::Groth16(sn) => snark_fits(sn),
    }
}

pub open spec fn snark_fits(sn: SnarkProof) -> bool {
    &&& encode_utf8(sn.public_inputs[0]@).len() <= u32::MAX
    &&& encode_utf8(sn.public_inputs[1]@).len() <= u32::MAX
    &&& encode_utf8(sn.encoded_proof@).len() <= u32::MAX
    &&& encode_utf8(sn.raw_proof@).len() <= u32::MAX
}

fn str_fits(text: &String) -> (r: bool)
    ensures
        r == (encode_utf8(text@).len() <= u32::MAX),
{
    let bytes = text.as_str().as_bytes();
    bytes.len() as u64 <= u32::MAX as u64
}

fn snark_fits_check(sn: &SnarkProof) -> (r: bool)
    ensures
        r == snark_fits(*sn),
{
    str_fits(&sn.public_inputs[0]) && str_fits(&sn.public_inputs[1]) && str_fits(&sn.encoded_proof)
        && str_fits(&sn.raw_proof)
}

/// Tells whether every length in the bundle fits in a word, as `serialize` needs.
pub fn check_fits(b: &MONEROCHANProofWithPublicValues) -> (r: bool)
    ensures
        r == fits(*b),
{
    if b.public_values.len() as u64 > u32::MAX as u64 || !str_fits(&b.monerochan_version) {
        return false;
    }
    let tagged = &b.proof;
    match tagged {
        MONEROCHANProof::Core(v) => {
            if v.len() as u64 > u32::MAX as u64 {
                return false;
            }
            let mut i: usize = 0;
            while i < v.len()
                invariant
                    i <= v@.len(),
                    b.proof == MONEROCHANProof::Core(*v),
                    forall|k: int| 0 <= k < i ==> (#[trigger] v@[k]).stark_proof@.len() <= u32::MAX,
                decreases v@.len() - i,
            {
                if v[i].stark_proof.len() as u64 > u32::MAX as u64 {
                    assert(!(v@[i as int].stark_proof@.len() <= u32::MAX));
                    return false;
                }
                i = i + 1;
            }
            true
        },
        MONEROCHANProof::Compressed(r) => r.stark_proof.len() as u64 <= u32::MAX as u64,
        MONEROCHANProof::Plonk(sn) => snark_fits_check(sn),
        MONEROCHANProof::Groth16(sn) => snark_fits_check(sn),
    }
}

pub open spec fn enc_shard(m: ShardModel) -> Seq<u8> {
    enc_u32s(m.0) + enc_bytes(m.1)
}

pub open spec fn enc_shard_list(l: Seq<ShardModel>) -> Seq<u8>
    decreases l.len(),
{
    if l.len() == 0 {
        Seq::empty()
    } else {
        enc_shard_list(l.drop_last()) + enc_shard(l.last())
    }
}

pub open spec fn enc_reduce(m: ReduceModel) -> Seq<u8> {
    enc_u32s(m.0) + enc_u32s(m.1) + enc_bytes(m.2)
}

pub open spec fn enc_snark(m: SnarkModel) -> Seq<u8> {
    enc_str(m.0) + enc_str(m.1) + enc_str(m.2) + enc_str(m.3) + m.4
}

/// A proof: a tag byte for its mode, then its contents; shards come after their count.
#[verifier::opaque]
pub open spec fn enc_proof(m: ProofModel) -> Seq<u8> {
    match m {
        ProofModel::Core(l) => seq![0u8] + enc_u32(l.len() as u32) + enc_shard_list(l),
        ProofModel::Compressed(r) => seq![1u8] + enc_reduce(r),
        ProofModel::Plonk(sn) => seq![2u8] + enc_snark(sn),
        ProofModel::Groth16(sn) => seq![3u8] + enc_snark(sn),
    }
}

/// A bundle: its proof, its public values, then its version.
#[verifier::opaque]
pub open spec fn enc_bundle(m: BundleModel) -> Seq<u8> {
    enc_proof(m.0) + enc_bytes(m.1) + enc_str(m.2)
}

pub open spec fn dec_shard(s: Seq<u8>, p: int) -> Option<(ShardModel, int)> {
    match dec_pv(s, p) {
        Some((w, q)) => match dec_bytes(s, q) {
            Some((b, r)) => Some(((w, b), r)),
            None => None,
        },
        None => None,
    }
}

pub open spec fn dec_shard_list(s: Seq<u8>, p: int, n: nat) -> Option<(Seq<ShardModel>, int)>
    decreases n,
{
    if n == 0 {
        Some((Seq::empty(), p))
    } else {
        match dec_shard_list(s, p, (n - 1) as nat) {
            Some((l, q)) => match dec_shard(s, q) {
                Some((x, r)) => Some((l.push(x), r)),
                None => None,
            },
            None => None,
        }
    }
}

pub open spec fn dec_reduce(s: Seq<u8>, p: int) -> Option<(ReduceModel, int)> {
    match dec_u32s(s, p, 8) {
        Some((vk, q)) => match dec_pv(s, q) {
            Some((w, r)) => match dec_bytes(s, r) {
                Some((b, t)) => Some(((vk, w, b), t)),
                None => None,
            },
            None => None,
        },
        None => None,
    }
}

pub open spec fn dec_snark(s: Seq<u8>, p: int) -> Option<(SnarkModel, int)> {
    match dec_str(s, p) {
        Some((a, at1)) => match dec_str(s, at1) {
            Some((b, at2)) => match dec_str(s, at2) {
                Some((c, at3)) => match dec_str(s, at3) {
                    Some((d, at4)) => match dec_raw(s, at4, 32) {
                        Some((h, at5)) => Some(((a, b, c, d, h), at5)),
                        None => None,
                    },
                    None => None,
                },
                None => None,
            },
            None => None,
        },
        None => None,
    }
}

#[verifier::opaque]
pub open spec fn dec_proof(s: Seq<u8>, p: int) -> Option<(ProofModel, int)> {
    if p < 0 || p >= s.len() {
        None
    } else if s[p] == 0 {
        match dec_u32(s, p + 1) {
            Some((n, q)) => match dec_shard_list(s, q, n as nat) {
                Some((l, r)) => Some((ProofModel::Core(l), r)),
                None => None,
            },
            None => None,
        }
    } else if s[p] == 1 {
        match dec_reduce(s, p + 1) {
            Some((m, r)) => Some((ProofModel::Compressed(m), r)),
            None => None,
        }
    } else if s[p] == 2 {
        match dec_snark(s, p + 1) {
            Some((m, r)) => Some((ProofModel::Plonk(m), r)),
            None => None,
        }
    } else if s[p] == 3 {
        match dec_snark(s, p + 1) {
            Some((m, r)) => Some((ProofModel::Groth16(m), r)),
            None => None,
        }
    } else {
        None
    }
}

/// The bundle that `s` holds, which must end where the bytes end.
#[verifier::opaque]
pub open spec fn dec_bundle(s: Seq<u8>) -> Option<BundleModel> {
    match dec_proof(s, 0) {
        Some((m, at1)) => match dec_bytes(s, at1) {
            Some((pv, at2)) => match dec_str(s, at2) {
                Some((v, at3)) => if at3 == s.len() {
                    Some((m, pv, v))
                } else {
                    None
                },
                None => None,
            },
            None => None,
        },
        None => None,
    }
}

pub open spec fn valid_words(w: Seq<u32>) -> bool {
    w.len() == 65 && w[24] <= 1
}

pub open spec fn valid_shard(m: ShardModel) -> bool {
    valid_words(m.0) && m.1.len() <= u32::MAX
}

pub open spec fn valid_reduce(m: ReduceModel) -> bool {
    m.0.len() == 8 && valid_words(m.1) && m.2.len() <= u32::MAX
}

pub open spec fn valid_snark(m: SnarkModel) -> bool {
    &&& encode_utf8(m.0).len() <= u32::MAX
    &&& encode_utf8(m.1).len() <= u32::MAX
    &&& encode_utf8(m.2).len() <= u32::MAX
    &&& encode_utf8(m.3).len() <= u32::MAX
    &&& m.4.len() == 32
}

pub open spec fn valid_proof(m: ProofModel) -> bool {
    match m {
        ProofModel::Core(l) => l.len() <= u32::MAX && forall|i: int|
            0 <= i < l.len() ==> valid_shard(#[trigger] l[i]),
        ProofModel::Compressed(r) => valid_reduce(r),
        ProofModel::Plonk(sn) => valid_snark(sn),
        ProofModel::Groth16(sn) => valid_snark(sn),
    }
}

pub open spec fn valid_bundle(m: BundleModel) -> bool {
    valid_proof(m.0) && m.1.len() <= u32::MAX && encode_utf8(m.2).len() <= u32::MAX
}

pub proof fn lemma_fits_valid(b: MONEROCHANProofWithPublicValues)
    requires
        fits(b),
    ensures
        valid_bundle(bundle_model(b)),
{
    match b.proof {
        MONEROCHANProof::Core(v) => {
            let l = Seq::new(v@.len(), |i: int| shard_model(v@[i]));
            assert forall|i: int| 0 <= i < l.len() implies valid_shard(#[trigger] l[i]) by {
                lemma_pv_words_valid(v@[i].public_values);
            }
        },
        MONEROCHANProof::Compressed(r) => {
            lemma_pv_words_valid(r.public_values);
        },
        _ => {},
    }
}

proof fn lemma_pv_words_round(s: Seq<u8>, p: int, w: Seq<u32>)
    requires
        valid_words(w),
        holds_at(s, p, enc_u32s(w)),
    ensures
        dec_pv(s, p) == Some((w, p + enc_u32s(w).len())),
        enc_u32s(w).len() == 260,
{
    lemma_u32s_round(s, p, w);
    lemma_u32s_len(w);
}

proof fn lemma_shard_round(s: Seq<u8>, p: int, m: ShardModel)
    requires
        valid_shard(m),
        holds_at(s, p, enc_shard(m)),
    ensures
        dec_shard(s, p) == Some((m, p + enc_shard(m).len())),
{
    lemma_holds_split(s, p, enc_u32s(m.0), enc_bytes(m.1));
    lemma_pv_words_round(s, p, m.0);
    lemma_bytes_round(s, p + 260, m.1);
}

proof fn lemma_shard_list_round(s: Seq<u8>, p: int, l: Seq<ShardModel>)
    requires
        forall|i: int| 0 <= i < l.len() ==> valid_shard(#[trigger] l[i]),
        holds_at(s, p, enc_shard_list(l)),
    ensures
        dec_shard_list(s, p, l.len()) == Some((l, p + enc_shard_list(l).len())),
    decreases l.len(),
{
    if l.len() > 0 {
        let d = l.drop_last();
        lemma_holds_split(s, p, enc_shard_list(d), enc_shard(l.last()));
        assert forall|i: int| 0 <= i < d.len() implies valid_shard(#[trigger] d[i]) by {
            assert(d[i] == l[i]);
        }
        lemma_shard_list_round(s, p, d);
        assert(valid_shard(l[l.len() - 1]));
        lemma_shard_round(s, p + enc_shard_list(d).len(), l.last());
        assert(d.push(l.last()) =~= l);
    } else {
        assert(l =~= Seq::<ShardModel>::empty());
    }
}

proof fn lemma_reduce_round(s: Seq<u8>, p: int, m: ReduceModel)
    requires
        valid_reduce(m),
        holds_at(s, p, enc_reduce(m)),
    ensures
        dec_reduce(s, p) == Some((m, p + enc_reduce(m).len())),
{
    lemma_holds_split(s, p, enc_u32s(m.0) + enc_u32s(m.1), enc_bytes(m.2));
    lemma_holds_split(s, p, enc_u32s(m.0), enc_u32s(m.1));
    lemma_u32s_round(s, p, m.0);
    lemma_u32s_len(m.0);
    lemma_pv_words_round(s, p + 32, m.1);
    lemma_bytes_round(s, p + 292, m.2);
}

#[verifier::spinoff_prover]
proof fn lemma_snark_round(s: Seq<u8>, p: int, m: SnarkModel)
    requires
        valid_snark(m),
        holds_at(s, p, enc_snark(m)),
    ensures
        dec_snark(s, p) == Some((m, p + enc_snark(m).len())),
{
    let e0 = enc_str(m.0);
    let e1 = enc_str(m.1);
    let e2 = enc_str(m.2);
    let e3 = enc_str(m.3);
    lemma_holds_split(s, p, e0 + e1 + e2 + e3, m.4);
    lemma_holds_split(s, p, e0 + e1 + e2, e3);
    lemma_holds_split(s, p, e0 + e1, e2);
    lemma_holds_split(s, p, e0, e1);
    lemma_str_round(s, p, m.0);
    lemma_str_round(s, p + e0.len(), m.1);
    lemma_str_round(s, p + e0.len() + e1.len(), m.2);
    lemma_str_round(s, p + e0.len() + e1.len() + e2.len(), m.3);
    let at4 = p + e0.len() + e1.len() + e2.len() + e3.len();
    assert(dec_raw(s, at4, 32) == Some((m.4, at4 + 32)));
    assert(dec_snark(s, p) == Some((m, at4 + 32)));
}

#[verifier::spinoff_prover]
proof fn lemma_proof_round(s: Seq<u8>, p: int, m: ProofModel)
    requires
        valid_proof(m),
        holds_at(s, p, enc_proof(m)),
    ensures
        dec_proof(s, p) == Some((m, p + enc_proof(m).len())),
{
    reveal(dec_proof);
    reveal(enc_proof);
    let e = enc_proof(m);
    assert(s[p] == e[0]) by {
        assert(s.subrange(p, p + e.len())[0] == s[p]);
    }
    match m {
        ProofModel::Core(l) => {
            lemma_holds_split(s, p, seq![0u8] + enc_u32(l.len() as u32), enc_shard_list(l));
            lemma_holds_split(s, p, seq![0u8], enc_u32(l.len() as u32));
            lemma_u32_round(s, p + 1, l.len() as u32);
            lemma_shard_list_round(s, p + 5, l);
        },
        ProofModel::Compressed(r) => {
            lemma_holds_split(s, p, seq![1u8], enc_reduce(r));
            lemma_reduce_round(s, p + 1, r);
        },
        ProofModel::Plonk(sn) => {
            lemma_holds_split(s, p, seq![2u8], enc_snark(sn));
            lemma_snark_round(s, p + 1, sn);
        },
        ProofModel::Groth16(sn) => {
            lemma_holds_split(s, p, seq![3u8], enc_snark(sn));
            lemma_snark_round(s, p + 1, sn);
        },
    }
}

proof fn lemma_dec_bundle_parts(s: Seq<u8>, m: BundleModel, at1: int, at2: int)
    requires
        dec_proof(s, 0) == Some((m.0, at1)),
        dec_bytes(s, at1) == Some((m.1, at2)),
        dec_str(s, at2) == Some((m.2, s.len() as int)),
    ensures
        dec_bundle(s) == Some(m),
{
    reveal(dec_bundle);
}

proof fn lemma_tail_round(s: Seq<u8>, at1: int, pv: Seq<u8>, version: Seq<char>)
    requires
        pv.len() <= u32::MAX,
        encode_utf8(version).len() <= u32::MAX,
        holds_at(s, at1, enc_bytes(pv) + enc_str(version)),
        s.len() == at1 + enc_bytes(pv).len() + enc_str(version).len(),
    ensures
        dec_bytes(s, at1) == Some((pv, at1 + enc_bytes(pv).len())),
        dec_str(s, at1 + enc_bytes(pv).len()) == Some((version, s.len() as int)),
{
    lemma_holds_split(s, at1, enc_bytes(pv), enc_str(version));
    lemma_bytes_round(s, at1, pv);
    lemma_str_round(s, at1 + enc_bytes(pv).len(), version);
}

/// Reading back what was written gives the same bundle.
#[verifier::spinoff_prover]
pub proof fn lemma_bundle_round_trip(m: BundleModel)
    requires
        valid_bundle(m),
    ensures
        dec_bundle(enc_bundle(m)) == Some(m),
{
    let s = enc_bundle(m);
    let a = enc_proof(m.0);
    let t = enc_bytes(m.1) + enc_str(m.2);
    assert(s == a + t) by {
        reveal(enc_bundle);
        assert(a + enc_bytes(m.1) + enc_str(m.2) =~= a + t);
    }
    assert(holds_at(s, 0, a + t)) by {
        assert(s.subrange(0, s.len() as int) =~= s);
    }
    lemma_holds_split(s, 0, a, t);
    assert(valid_proof(m.0));
    lemma_proof_round(s, 0, m.0);
    lemma_tail_round(s, a.len() as int, m.1, m.2);
    lemma_dec_bundle_parts(s, m, a.len() as int, (a.len() + enc_bytes(m.1).len()) as int);
}

pub open spec fn shard_models(v: Seq<ShardProof>) -> Seq<ShardModel> {
    Seq::new(v.len(), |i: int| shard_model(v[i]))
}

fn put_shard(out: &mut Vec<u8>, sp: &ShardProof)
    requires
        sp.stark_proof@.len() <= u32::MAX,
    ensures
        final(out)@ == old(out)@ + enc_shard(shard_model(*sp)),
{
    put_pv(out, &sp.public_values);
    put_bytes(out, sp.stark_proof.as_slice());
    assert(out@ =~= old(out)@ + enc_shard(shard_model(*sp)));
}

fn put_snark(out: &mut Vec<u8>, sn: &SnarkProof)
    requires
        snark_fits(*sn),
    ensures
        final(out)@ == old(out)@ + enc_snark(snark_model(*sn)),
{
    put_str(out, sn.public_inputs[0].as_str());
    put_str(out, sn.public_inputs[1].as_str());
    put_str(out, sn.encoded_proof.as_str());
    put_str(out, sn.raw_proof.as_str());
    put_raw(out, &sn.vkey_hash);
    assert(out@ =~= old(out)@ + enc_snark(snark_model(*sn)));
}

fn put_proof(out: &mut Vec<u8>, b: &MONEROCHANProofWithPublicValues)
    requires
        fits(*b),
    ensures
        final(out)@ == old(out)@ + enc_proof(proof_model(b.proof)),
{
    reveal(enc_proof);
    let tagged = &b.proof;
    match tagged {
        MONEROCHANProof::Core(v) => {
            out.push(0u8);
            put_u32(out, v.len() as u32);
            let ghost head = out@;
            let mut i: usize = 0;
            assert(shard_models(v@).take(0) =~= Seq::<ShardModel>::empty());
            while i < v.len()
                invariant
                    i <= v@.len(),
                    forall|k: int| 0 <= k < v@.len() ==> (#[trigger] v@[k]).stark_proof@.len() <= u32::MAX,
                    out@ == head + enc_shard_list(shard_models(v@).take(i as int)),
                decreases v@.len() - i,
            {
                put_shard(out, &v[i]);
                assert(shard_models(v@).take(i + 1).drop_last() =~= shard_models(v@).take(i as int));
                assert(out@ =~= head + enc_shard_list(shard_models(v@).take(i + 1)));
                i = i + 1;
            }
            assert(shard_models(v@).take(v@.len() as int) =~= shard_models(v@));
            assert(out@ =~= old(out)@ + enc_proof(proof_model(b.proof)));
        },
        MONEROCHANProof::Compressed(r) => {
            out.push(1u8);
            put_u32s(out, &r.vk_digest);
            put_pv(out, &r.public_values);
            put_bytes(out, r.stark_proof.as_slice());
            assert(out@ =~= old(out)@ + enc_proof(proof_model(b.proof)));
        },
        MONEROCHANProof::Plonk(sn) => {
            out.push(2u8);
            put_snark(out, sn);
            assert(out@ =~= old(out)@ + enc_proof(proof_model(b.proof)));
        },
        MONEROCHANProof::Groth16(sn) => {
            out.push(3u8);
            put_snark(out, sn);
            assert(out@ =~= old(out)@ + enc_proof(proof_model(b.proof)));
        },
    }
}

/// Writes a bundle: its proof, its public values, then its version.
pub fn serialize(b: &MONEROCHANProofWithPublicValues) -> (r: Vec<u8>)
    requires
        fits(*b),
    ensures
        r@ == enc_bundle(bundle_model(*b)),
{
    let mut out: Vec<u8> = Vec::new();
    put_proof(&mut out, b);
    put_bytes(&mut out, b.public_values.as_slice());
    put_str(&mut out, b.monerochan_version.as_str());
    reveal(enc_bundle);
    assert(out@ =~= enc_bundle(bundle_model(*b)));
    out
}

fn get_shard(data: &[u8], pos: usize) -> (r: Option<(ShardProof, usize)>)
    ensures
        match r {
            None => dec_shard(data@, pos as int) is None,
            Some((v, q)) => dec_shard(data@, pos as int) == Some((shard_model(v), q as int)),
        },
{
    let (public_values, q) = match get_pv(data, pos) {
        Some(t) => t,
        None => {
            return None;
        },
    };
    let (stark_proof, q2) = match get_bytes(data, q) {
        Some(t) => t,
        None => {
            return None;
        },
    };
    Some((ShardProof { public_values, stark_proof }, q2))
}

fn digest_of_words(w: &Vec<u32>) -> (r: Digest)
    requires
        w@.len() == 8,
    ensures
        r@ == w@,
{
    let mut a = [0u32; 8];
    let mut i: usize = 0;
    while i < 8
        invariant
            w@.len() == 8,
            i <= 8,
            forall|k: int| 0 <= k < i ==> a@[k] == w@[k],
        decreases 8 - i,
    {
        a[i] = w[i];
        i = i + 1;
    }
    assert(a@ =~= w@);
    a
}

fn get_snark(data: &[u8], pos: usize) -> (r: Option<(SnarkProof, usize)>)
    ensures
        match r {
            None => dec_snark(data@, pos as int) is None,
            Some((v, q)) => dec_snark(data@, pos as int) == Some((snark_model(v), q as int)),
        },
{
    let (a, at1) = match get_str(data, pos) {
        Some(t) => t,
        None => {
            return None;
        },
    };
    let (b, at2) = match get_str(data, at1) {
        Some(t) => t,
        None => {
            return None;
        },
    };
    let (c, at3) = match get_str(data, at2) {
        Some(t) => t,
        None => {
            return None;
        },
    };
    let (d, at4) = match get_str(data, at3) {
        Some(t) => t,
        None => {
            return None;
        },
    };
    let (h, at5) = match get_raw32(data, at4) {
        Some(t) => t,
        None => {
            return None;
        },
    };
    let sn = SnarkProof { public_inputs: [a, b], encoded_proof: c, raw_proof: d, vkey_hash: h };
    Some((sn, at5))
}

proof fn lemma_shard_list_none(s: Seq<u8>, p: int, k: nat, m: nat)
    requires
        k <= m,
        dec_shard_list(s, p, k) is None,
    ensures
        dec_shard_list(s, p, m) is None,
    decreases m - k,
{
    if k < m {
        lemma_shard_list_none(s, p, k, (m - 1) as nat);
    }
}

fn get_proof(data: &[u8], pos: usize) -> (r: Option<(MONEROCHANProof, usize)>)
    ensures
        match r {
            None => dec_proof(data@, pos as int) is None,
            Some((v, q)) => dec_proof(data@, pos as int) == Some((proof_model(v), q as int)),
        },
{
    reveal(dec_proof);
    if pos >= data.len() {
        return None;
    }
    let tag = data[pos];
    if tag == 0 {
        let (n, q0) = match get_u32(data, pos + 1) {
            Some(t) => t,
            None => {
                return None;
            },
        };
        let mut v: Vec<ShardProof> = Vec::new();
        let mut q: usize = q0;
        let mut i: u32 = 0;
        while i < n
            invariant
                i <= n,
                pos < data@.len(),
                data@[pos as int] == 0,
                dec_u32(data@, pos + 1) == Some((n, q0 as int)),
                dec_shard_list(data@, q0 as int, i as nat) == Some((shard_models(v@), q as int)),
            decreases n - i,
        {
            let (sp, next) = match get_shard(data, q) {
                Some(t) => t,
                None => {
                    assert(dec_shard_list(data@, q0 as int, (i + 1) as nat) is None);
                    proof {
                        lemma_shard_list_none(data@, q0 as int, (i + 1) as nat, n as nat);
                        reveal(dec_proof);
                    }
                    return None;
                },
            };
            let ghost before = v@;
            v.push(sp);
            q = next;
            assert(shard_models(v@) =~= shard_models(before).push(shard_model(sp)));
            i = i + 1;
        }
        assert(proof_model(MONEROCHANProof::Core(v)) == ProofModel::Core(shard_models(v@)));
        Some((MONEROCHANProof::Core(v), q))
    } else if tag == 1 {
        let (vk, q1) = match get_u32s(data, pos + 1, 8) {
            Some(t) => t,
            None => {
                return None;
            },
        };
        let (public_values, q2) = match get_pv(data, q1) {
            Some(t) => t,
            None => {
                return None;
            },
        };
        let (stark_proof, q3) = match get_bytes(data, q2) {
            Some(t) => t,
            None => {
                return None;
            },
        };
        let rp = ReduceProof { vk_digest: digest_of_words(&vk), public_values, stark_proof };
        Some((MONEROCHANProof::Compressed(rp), q3))
    } else if tag == 2 {
        match get_snark(data, pos + 1) {
            Some((sn, q)) => Some((MONEROCHANProof::Plonk(sn), q)),
            None => None,
        }
    } else if tag == 3 {
        match get_snark(data, pos + 1) {
            Some((sn, q)) => Some((MONEROCHANProof::Groth16(sn), q)),
            None => None,
        }
    } else {
        None
    }
}

/// Reads a bundle back; `None` when the bytes do not hold exactly one bundle.
pub fn deserialize(data: &[u8]) -> (r: Option<MONEROCHANProofWithPublicValues>)
    ensures
        match r {
            None => dec_bundle(data@) is None,
            Some(b) => dec_bundle(data@) == Some(bundle_model(b)),
        },
{
    reveal(dec_bundle);
    let (tagged, at1) = match get_proof(data, 0) {
        Some(t) => t,
        None => {
            return None;
        },
    };
    let (public_values, at2) = match get_bytes(data, at1) {
        Some(t) => t,
        None => {
            return None;
        },
    };
    let (monerochan_version, at3) = match get_str(data, at2) {
        Some(t) => t,
        None => {
            return None;
        },
    };
    if at3 != data.len() {
        return None;
    }
    Some(MONEROCHANProofWithPublicValues { proof: tagged, public_values, monerochan_version })
}

} // verus!
