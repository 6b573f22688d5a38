use vstd::prelude::*;

verus! {

/// Records of bytes laid end to end, the first record first.
pub open spec fn concat(parts: Seq<Seq<u8>>) -> Seq<u8>
    decreases parts.len(),
{
    if parts.len() == 0 {
        Seq::empty()
    } else {
        concat(parts.drop_last()) + parts.last()
    }
}

/// Records of one width `w` laid end to end take `w` bytes each, and record `i` is found at
/// offset `w * i`.
pub proof fn lemma_concat_fixed(parts: Seq<Seq<u8>>, w: nat)
    requires
        forall|i: int| 0 <= i < parts.len() ==> (#[trigger] parts[i]).len() == w,
    ensures
        concat(parts).len() == w * parts.len(),
        forall|i: int|
            0 <= i < parts.len() ==> concat(parts).subrange(w * i, w * i + w) == #[trigger] parts[i],
    decreases parts.len(),
{
    if parts.len() > 0 {
        let init = parts.drop_last();
        lemma_concat_fixed(init, w);
        let c = concat(parts);
        let ci = concat(init);
        assert(c == ci + parts.last());
        assert(w * parts.len() == w * init.len() + w) by (nonlinear_arith)
            requires parts.len() == init.len() + 1;
        assert forall|i: int| 0 <= i < parts.len() implies c.subrange(w * i, w * i + w)
            == #[trigger] parts[i] by {
            if i < init.len() {
                assert(w * i + w <= w * init.len()) by (nonlinear_arith)
                    requires i < init.len(), i >= 0;
                assert(0 <= w * i) by (nonlinear_arith)
                    requires i >= 0;
                assert(c.subrange(w * i, w * i + w) =~= ci.subrange(w * i, w * i + w));
                assert(init[i] == parts[i]);
            } else {
                assert(i == init.len());
                assert(c.subrange(w * i, w * i + w) =~= parts.last());
            }
        }
    }
}

/// Sequences of records of one width are equal when their concatenations are.
pub proof fn lemma_concat_fixed_injective(p: Seq<Seq<u8>>, q: Seq<Seq<u8>>, w: nat)
    requires
        w > 0,
        forall|i: int| 0 <= i < p.len() ==> (#[trigger] p[i]).len() == w,
        forall|i: int| 0 <= i < q.len() ==> (#[trigger] q[i]).len() == w,
        concat(p) == concat(q),
    ensures
        p == q,
{
    lemma_concat_fixed(p, w);
    lemma_concat_fixed(q, w);
    assert(p.len() == q.len()) by (nonlinear_arith)
        requires w * p.len() == w * q.len(), w > 0;
    assert forall|i: int| 0 <= i < p.len() implies p[i] == q[i] by {
        assert(concat(p).subrange(w * i, w * i + w) == p[i]);
        assert(concat(q).subrange(w * i, w * i + w) == q[i]);
    }
    assert(p =~= q);
}

/// A `u128` in 16 bytes, the most significant first.
pub open spec fn u128_be(x: u128) -> Seq<u8> {
    seq![
        (x >> 120u128) as u8, (x >> 112u128) as u8, (x >> 104u128) as u8, (x >> 96u128) as u8,
        (x >> 88u128) as u8, (x >> 80u128) as u8, (x >> 72u128) as u8, (x >> 64u128) as u8,
        (x >> 56u128) as u8, (x >> 48u128) as u8, (x >> 40u128) as u8, (x >> 32u128) as u8,
        (x >> 24u128) as u8, (x >> 16u128) as u8, (x >> 8u128) as u8, x as u8,
    ]
}

/// The `u128` that 16 bytes spell, the most significant first.
pub open spec fn u128_of_be(b: Seq<u8>) -> u128 {
    (b[0] as u128) << 120u128 | (b[1] as u128) << 112u128 | (b[2] as u128) << 104u128
        | (b[3] as u128) << 96u128 | (b[4] as u128) << 88u128 | (b[5] as u128) << 80u128
        | (b[6] as u128) << 72u128 | (b[7] as u128) << 64u128 | (b[8] as u128) << 56u128
        | (b[9] as u128) << 48u128 | (b[10] as u128) << 40u128 | (b[11] as u128) << 32u128
        | (b[12] as u128) << 24u128 | (b[13] as u128) << 16u128 | (b[14] as u128) << 8u128
        | (b[15] as u128)
}

/// Reading back the bytes of a `u128` gives the number.
pub proof fn lemma_u128_round_trip(x: u128)
    ensures
        u128_of_be(u128_be(x)) == x,
{
    let b = u128_be(x);
    assert(
        ((x >> 120u128) as u8 as u128) << 120u128 | ((x >> 112u128) as u8 as u128) << 112u128
        | ((x >> 104u128) as u8 as u128) << 104u128 | ((x >> 96u128) as u8 as u128) << 96u128
        | ((x >> 88u128) as u8 as u128) << 88u128 | ((x >> 80u128) as u8 as u128) << 80u128
        | ((x >> 72u128) as u8 as u128) << 72u128 | ((x >> 64u128) as u8 as u128) << 64u128
        | ((x >> 56u128) as u8 as u128) << 56u128 | ((x >> 48u128) as u8 as u128) << 48u128
        | ((x >> 40u128) as u8 as u128) << 40u128 | ((x >> 32u128) as u8 as u128) << 32u128
        | ((x >> 24u128) as u8 as u128) << 24u128 | ((x >> 16u128) as u8 as u128) << 16u128
        | ((x >> 8u128) as u8 as u128) << 8u128 | (x as u8 as u128) == x
    ) by (bit_vector);
}

/// Writing out the number that 16 bytes spell gives the bytes back.
pub proof fn lemma_u128_bytes_round_trip(b: Seq<u8>)
    requires
        b.len() == 16,
    ensures
        u128_be(u128_of_be(b)) == b,
{
    let (b0, b1, b2, b3, b4, b5, b6, b7) = (b[0], b[1], b[2], b[3], b[4], b[5], b[6], b[7]);
    let (b8, b9, b10, b11, b12, b13, b14, b15) = (
        b[8],
        b[9],
        b[10],
        b[11],
        b[12],
        b[13],
        b[14],
        b[15],
    );
    let v = u128_of_be(b);
    assert(v == (b0 as u128) << 120u128 | (b1 as u128) << 112u128 | (b2 as u128) << 104u128
        | (b3 as u128) << 96u128 | (b4 as u128) << 88u128 | (b5 as u128) << 80u128 | (b6 as u128)
        << 72u128 | (b7 as u128) << 64u128 | (b8 as u128) << 56u128 | (b9 as u128) << 48u128
        | (b10 as u128) << 40u128 | (b11 as u128) << 32u128 | (b12 as u128) << 24u128 | (b13
        as u128) << 16u128 | (b14 as u128) << 8u128 | (b15 as u128));
    assert({
        &&& (v >> 120u128) as u8 == b0
        &&& (v >> 112u128) as u8 == b1
        &&& (v >> 104u128) as u8 == b2
        &&& (v >> 96u128) as u8 == b3
        &&& (v >> 88u128) as u8 == b4
        &&& (v >> 80u128) as u8 == b5
        &&& (v >> 72u128) as u8 == b6
        &&& (v >> 64u128) as u8 == b7
        &&& (v >> 56u128) as u8 == b8
        &&& (v >> 48u128) as u8 == b9
        &&& (v >> 40u128) as u8 == b10
        &&& (v >> 32u128) as u8 == b11
        &&& (v >> 24u128) as u8 == b12
        &&& (v >> 16u128) as u8 == b13
        &&& (v >> 8u128) as u8 == b14
        &&& v as u8 == b15
    }) by (bit_vector)
        requires
            v == (b0 as u128) << 120u128 | (b1 as u128) << 112u128 | (b2 as u128) << 104u128
                | (b3 as u128) << 96u128 | (b4 as u128) << 88u128 | (b5 as u128) << 80u128 | (b6
                as u128) << 72u128 | (b7 as u128) << 64u128 | (b8 as u128) << 56u128 | (b9
                as u128) << 48u128 | (b10 as u128) << 40u128 | (b11 as u128) << 32u128 | (b12
                as u128) << 24u128 | (b13 as u128) << 16u128 | (b14 as u128) << 8u128 | (b15
                as u128),
    ;
    assert(u128_be(v) =~= b);
}

/// Appends the 16 bytes of a `u128` to a buffer.
pub fn put_u128(out: &mut Vec<u8>, x: u128)
    ensures
        final(out)@ == old(out)@ + u128_be(x),
{
    out.push((x >> 120u128) as u8);
    out.push((x >> 112u128) as u8);
    out.push((x >> 104u128) as u8);
    out.push((x >> 96u128) as u8);
    out.push((x >> 88u128) as u8);
    out.push((x >> 80u128) as u8);
    out.push((x >> 72u128) as u8);
    out.push((x >> 64u128) as u8);
    out.push((x >> 56u128) as u8);
    out.push((x >> 48u128) as u8);
    out.push((x >> 40u128) as u8);
    out.push((x >> 32u128) as u8);
    out.push((x >> 24u128) as u8);
    out.push((x >> 16u128) as u8);
    out.push((x >> 8u128) as u8);
    out.push(x as u8);
    assert(final(out)@ =~= old(out)@ + u128_be(x));
}

/// Reads the `u128` whose 16 bytes start at `off`.
pub fn get_u128(b: &Vec<u8>, off: usize) -> (r: u128)
    requires
        off + 16 <= b@.len(),
    ensures
        r == u128_of_be(b@.subrange(off as int, off + 16)),
{
    let a: [u8; 16] = get_bytes(b, off);
    (a[0] as u128) << 120u128 | (a[1] as u128) << 112u128 | (a[2] as u128) << 104u128
        | (a[3] as u128) << 96u128 | (a[4] as u128) << 88u128 | (a[5] as u128) << 80u128
        | (a[6] as u128) << 72u128 | (a[7] as u128) << 64u128 | (a[8] as u128) << 56u128
        | (a[9] as u128) << 48u128 | (a[10] as u128) << 40u128 | (a[11] as u128) << 32u128
        | (a[12] as u128) << 24u128 | (a[13] as u128) << 16u128 | (a[14] as u128) << 8u128
        | (a[15] as u128)
}

/// A `u16` in 2 bytes, the most significant first.
pub open spec fn u16_be(x: u16) -> Seq<u8> {
    seq![(x >> 8u16) as u8, x as u8]
}

/// Reading back the bytes of a `u16` gives the number.
pub proof fn lemma_u16_round_trip(x: u16)
    ensures
        ((u16_be(x)[0] as u16) << 8u16 | u16_be(x)[1] as u16) == x,
{
    assert((((x >> 8u16) as u8 as u16) << 8u16 | (x as u8 as u16)) == x) by (bit_vector);
}

/// Writing out the number that 2 bytes spell gives the bytes back.
pub proof fn lemma_u16_bytes_round_trip(b0: u8, b1: u8)
    ensures
        u16_be((b0 as u16) << 8u16 | b1 as u16) == seq![b0, b1],
{
    let v = (b0 as u16) << 8u16 | b1 as u16;
    assert((v >> 8u16) as u8 == b0 && v as u8 == b1) by (bit_vector)
        requires v == (b0 as u16) << 8u16 | b1 as u16;
    assert(u16_be(v) =~= seq![b0, b1]);
}

/// Appends the 2 bytes of a `u16` to a buffer.
pub fn put_u16(out: &mut Vec<u8>, x: u16)
    ensures
        final(out)@ == old(out)@ + u16_be(x),
{
    out.push((x >> 8u16) as u8);
    out.push(x as u8);
    assert(final(out)@ =~= old(out)@ + u16_be(x));
}

/// Appends the bytes of an array to a buffer.
pub fn put_bytes<const N: usize>(out: &mut Vec<u8>, a: &[u8; N])
    ensures
        final(out)@ == old(out)@ + a@,
{
    let ghost start = out@;
    let mut i: usize = 0;
    while i < N
        invariant
            i <= N,
            a@.len() == N,
            out@ == start + a@.subrange(0, i as int),
        decreases N - i,
    {
        out.push(a[i]);
        i = i + 1;
        assert(out@ =~= start + a@.subrange(0, i as int));
    }
    assert(a@.subrange(0, N as int) =~= a@);
}

/// Reads `N` bytes that start at `off` into an array.
pub fn get_bytes<const N: usize>(b: &Vec<u8>, off: usize) -> (r: [u8; N])
    requires
        off + N <= b@.len(),
    ensures
        r@ == b@.subrange(off as int, off + N),
{
    let len = b.len();
    let mut a: [u8; N] = [0u8; N];
    let mut i: usize = 0;
    while i < N
        invariant
            i <= N,
            len == b@.len(),
            off + N <= b@.len(),
            a@.len() == N,
            forall|j: int| 0 <= j < i ==> a@[j] == b@[off + j],
        decreases N - i,
    {
        a[i] = b[off + i];
        i = i + 1;
    }
    assert(a@ =~= b@.subrange(off as int, off + N));
    a
}

} // verus!
