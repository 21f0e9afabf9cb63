//! Byte encodings used by the cache: the big-endian length record and the
//! composite key of a cached track.
use vstd::prelude::*;

verus! {

/// The four big-endian bytes of `n`.
pub open spec fn be_bytes(n: u32) -> Seq<u8> {
    seq![
        (n >> 24u32) as u8,
        ((n >> 16u32) & 0xffu32) as u8,
        ((n >> 8u32) & 0xffu32) as u8,
        (n & 0xffu32) as u8,
    ]
}

/// The number that four big-endian bytes stand for.
pub open spec fn be_value(b: Seq<u8>) -> u32
    recommends
        b.len() == 4,
{
    ((b[0] as u32) << 24u32) | ((b[1] as u32) << 16u32) | ((b[2] as u32) << 8u32) | (b[3] as u32)
}

/// The cache key of the track at `index` of the playlist whose id is `id`.
pub open spec fn composite_key(id: Seq<u8>, index: u32) -> Seq<u8> {
    id + be_bytes(index)
}

/// Byte-lexicographic strict order.
pub open spec fn lex_lt(a: Seq<u8>, b: Seq<u8>) -> bool {
    exists|k: int|
        0 <= k <= a.len() && k <= b.len() && #[trigger] a.subrange(0, k) == b.subrange(0, k) && (
        (k < a.len() && k < b.len() && a[k] < b[k]) || (k == a.len() && k < b.len()))
}

/// Encodes `n` as the four bytes of a length record.
pub fn encode_length(n: u32) -> (r: Vec<u8>)
    ensures
        r@ == be_bytes(n),
{
    let mut r: Vec<u8> = Vec::with_capacity(4);
    r.push((n >> 24u32) as u8);
    r.push(((n >> 16u32) & 0xffu32) as u8);
    r.push(((n >> 8u32) & 0xffu32) as u8);
    r.push((n & 0xffu32) as u8);
    assert(r@ =~= be_bytes(n));
    r
}

/// Reads a length record: four big-endian bytes, anything else is no length.
pub fn decode_length(b: &[u8]) -> (r: Option<u32>)
    ensures
        r == (if b@.len() == 4 { Some(be_value(b@)) } else { None::<u32> }),
{
    if b.len() != 4 {
        return None;
    }
    let v: u32 = ((b[0] as u32) << 24u32) | ((b[1] as u32) << 16u32) | ((b[2] as u32) << 8u32)
        | (b[3] as u32);
    Some(v)
}

/// Decoding a length record gives back the length that was encoded.
pub proof fn lemma_length_round_trip(n: u32)
    ensures
        be_bytes(n).len() == 4,
        be_value(be_bytes(n)) == n,
{
    let b = be_bytes(n);
    let (b0, b1, b2, b3) = (b[0], b[1], b[2], b[3]);
    assert(b0 == (n >> 24u32) as u8 && b1 == ((n >> 16u32) & 0xffu32) as u8 && b2 == ((n >> 8u32)
        & 0xffu32) as u8 && b3 == (n & 0xffu32) as u8);
    assert((((n >> 24u32) as u8) as u32) << 24u32 | ((((n >> 16u32) & 0xffu32) as u8) as u32)
        << 16u32 | ((((n >> 8u32) & 0xffu32) as u8) as u32) << 8u32 | (((n & 0xffu32) as u8) as u32)
        == n) by (bit_vector);
}

/// Writes `index` into the last four bytes of `key`, leaving the rest as it was.
pub fn set_index(key: &mut Vec<u8>, index: u32)
    requires
        old(key)@.len() >= 4,
    ensures
        final(key)@ == composite_key(old(key)@.subrange(0, old(key)@.len() - 4), index),
{
    let p: usize = key.len() - 4;
    key.set(p, (index >> 24u32) as u8);
    key.set(p + 1, ((index >> 16u32) & 0xffu32) as u8);
    key.set(p + 2, ((index >> 8u32) & 0xffu32) as u8);
    key.set(p + 3, (index & 0xffu32) as u8);
    assert(key@ =~= composite_key(old(key)@.subrange(0, old(key)@.len() - 4), index));
}

/// Builds the composite key of `index` for the playlist whose id bytes are `id`.
pub fn make_key(id: &[u8], index: u32) -> (r: Vec<u8>)
    ensures
        r@ == composite_key(id@, index),
{
    let mut r: Vec<u8> = Vec::new();
    let mut i: usize = 0;
    while i < id.len()
        invariant
            i <= id@.len(),
            r@ == id@.subrange(0, i as int),
        decreases id@.len() - i,
    {
        r.push(id[i]);
        i += 1;
        assert(r@ =~= id@.subrange(0, i as int));
    }
    r.push(0u8);
    r.push(0u8);
    r.push(0u8);
    r.push(0u8);
    set_index(&mut r, index);
    assert(r@.subrange(0, r@.len() - 4) =~= id@);
    r
}

/// For one playlist, composite keys sort byte-lexicographically in the order
/// of their indices.
pub proof fn lemma_key_order(id: Seq<u8>, i: u32, j: u32)
    requires
        i < j,
    ensures
        lex_lt(composite_key(id, i), composite_key(id, j)),
{
    let a = composite_key(id, i);
    let b = composite_key(id, j);
    let n = id.len();
    let (bi, bj) = (be_bytes(i), be_bytes(j));
    assert(a.len() == n + 4 && b.len() == n + 4);
    assert forall|t: int| 0 <= t < n implies a[t] == b[t] by {}
    assert forall|t: int| 0 <= t < 4 implies a[n + t] == bi[t] && b[n + t] == bj[t] by {}
    let (x0, x1, x2, x3) = ((i >> 24u32) as u8, ((i >> 16u32) & 0xffu32) as u8, ((i >> 8u32)
        & 0xffu32) as u8, (i & 0xffu32) as u8);
    let (y0, y1, y2, y3) = ((j >> 24u32) as u8, ((j >> 16u32) & 0xffu32) as u8, ((j >> 8u32)
        & 0xffu32) as u8, (j & 0xffu32) as u8);
    assert(x0 < y0 || (x0 == y0 && x1 < y1) || (x0 == y0 && x1 == y1 && x2 < y2) || (x0 == y0
        && x1 == y1 && x2 == y2 && x3 < y3)) by (bit_vector)
        requires
            i < j,
            x0 == (i >> 24u32) as u8,
            x1 == ((i >> 16u32) & 0xffu32) as u8,
            x2 == ((i >> 8u32) & 0xffu32) as u8,
            x3 == (i & 0xffu32) as u8,
            y0 == (j >> 24u32) as u8,
            y1 == ((j >> 16u32) & 0xffu32) as u8,
            y2 == ((j >> 8u32) & 0xffu32) as u8,
            y3 == (j & 0xffu32) as u8,
    ;
    let d: int = if bi[0] < bj[0] {
        0
    } else if bi[1] < bj[1] {
        1
    } else if bi[2] < bj[2] {
        2
    } else {
        3
    };
    let k = n + d;
    assert(a.subrange(0, k) =~= b.subrange(0, k));
    assert(a[k] < b[k]);
}

} // verus!
