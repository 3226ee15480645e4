//! Little-endian byte strings and the integers they denote.

use vstd::prelude::*;

verus! {

/// The integer denoted by a little-endian byte string.
pub open spec fn le_val(b: Seq<u8>) -> nat
    decreases b.len(),
{
    if b.len() == 0 {
        0
    } else {
        (b[0] as nat) + 256 * le_val(b.drop_first())
    }
}

/// 256 raised to the power `n`.
pub open spec fn pow256(n: nat) -> nat
    decreases n,
{
    if n == 0 {
        1
    } else {
        256 * pow256((n - 1) as nat)
    }
}

/// The eighth power of 256 is the number of values a `u64` can take.
pub proof fn lemma_pow256_8()
    ensures
        pow256(8) == 0x1_0000_0000_0000_0000,
{
    reveal_with_fuel(pow256, 9);
}

/// The fourth power of 256 is the number of values a `u32` can take.
pub proof fn lemma_pow256_4()
    ensures
        pow256(4) == 0x1_0000_0000,
{
    reveal_with_fuel(pow256, 5);
}

/// Appending one byte adds its value at the next power of 256.
pub proof fn lemma_le_val_push(b: Seq<u8>, x: u8)
    ensures
        le_val(b.push(x)) == le_val(b) + (x as nat) * pow256(b.len()),
    decreases b.len(),
{
    if b.len() == 0 {
        assert(b.push(x)[0] == x);
        assert(b.push(x).drop_first() =~= Seq::<u8>::empty());
        assert(le_val(b.push(x)) == (x as nat) + 256 * le_val(b.push(x).drop_first()));
        assert(le_val(b) == 0);
        assert(pow256(0) == 1);
        assert((x as nat) * 1 == x as nat);
    } else {
        assert(b.push(x)[0] == b[0]);
        assert(b.push(x).drop_first() =~= b.drop_first().push(x));
        lemma_le_val_push(b.drop_first(), x);
        assert(le_val(b.push(x)) == (b[0] as nat) + 256 * le_val(b.drop_first().push(x)));
        assert(le_val(b) == (b[0] as nat) + 256 * le_val(b.drop_first()));
        assert(256 * (le_val(b.drop_first()) + (x as nat) * pow256((b.len() - 1) as nat))
            == 256 * le_val(b.drop_first()) + (x as nat) * (256 * pow256((b.len() - 1) as nat)))
            by (nonlinear_arith);
        assert(pow256(b.len()) == 256 * pow256((b.len() - 1) as nat));
    }
}

/// Writes `v` as exactly eight little-endian bytes.
pub fn u64_to_le_bytes(v: u64) -> (r: Vec<u8>)
    ensures
        r@.len() == 8,
        le_val(r@) == v as nat,
{
    let mut out: Vec<u8> = Vec::new();
    let mut cur: u64 = v;
    proof {
        lemma_pow256_8();
        assert(out@ =~= Seq::<u8>::empty());
        assert(le_val(out@) == 0);
        assert(pow256(0) == 1);
        assert((cur as nat) * 1 == cur as nat);
    }
    let mut i: usize = 0;
    while i < 8
        invariant
            i <= 8,
            out@.len() == i,
            le_val(out@) + (cur as nat) * pow256(i as nat) == v as nat,
            cur < pow256((8 - i) as nat),
        decreases 8 - i,
    {
        let b: u8 = (cur % 256) as u8;
        proof {
            lemma_le_val_push(out@, b);
            assert(cur == 256 * (cur / 256) + cur % 256) by (nonlinear_arith);
            assert(le_val(out@) + (b as nat) * pow256(i as nat) + ((cur / 256) as nat) * (256
                * pow256(i as nat)) == le_val(out@) + (cur as nat) * pow256(i as nat))
                by (nonlinear_arith)
                requires
                    cur == 256 * (cur / 256) + cur % 256,
                    b == cur % 256,
            ;
            assert(cur < pow256((8 - i) as nat) ==> cur / 256 < pow256((8 - i - 1) as nat))
                by (nonlinear_arith)
                requires
                    i < 8,
                    pow256((8 - i) as nat) == 256 * pow256((8 - i - 1) as nat),
            ;
        }
        out.push(b);
        cur = cur / 256;
        i = i + 1;
    }
    proof {
        assert(pow256(0) == 1);
    }
    out
}

/// Reads the `count` little-endian bytes that start at `start`.
pub fn le_bytes_to_u64(b: &Vec<u8>, start: usize, count: usize) -> (r: u64)
    requires
        count <= 8,
        start + count <= b@.len(),
    ensures
        r as nat == le_val(b@.subrange(start as int, start as int + count)),
        r < pow256(count as nat),
{
    let n: usize = b.len();
    let mut acc: u64 = 0;
    let mut i: usize = count;
    proof {
        assert(b@.subrange(start + count, start as int + count) =~= Seq::<u8>::empty());
    }
    while i > 0
        invariant
            i <= count,
            count <= 8,
            start + count <= n,
            n == b@.len(),
            acc as nat == le_val(b@.subrange(start + i, start as int + count)),
            acc < pow256((count - i) as nat),
        decreases i,
    {
        let x: u8 = b[start + i - 1];
        proof {
            lemma_pow256_8();
            let tail = b@.subrange(start + i, start as int + count);
            let whole = b@.subrange(start + i - 1, start as int + count);
            assert(whole.drop_first() =~= tail);
            assert(whole[0] == b@[start + i - 1]);
            assert(le_val(whole) == (x as nat) + 256 * le_val(tail));
            assert((acc as nat) * 256 + (x as nat) < 256 * pow256((count - i) as nat))
                by (nonlinear_arith)
                requires
                    acc < pow256((count - i) as nat),
                    x < 256,
            ;
            assert(256 * pow256((count - i) as nat) == pow256((count - i + 1) as nat));
            lemma_pow256_le((count - i + 1) as nat, 8);
        }
        acc = acc * 256 + (x as u64);
        i = i - 1;
    }
    proof {
        assert(b@.subrange(start as int, start as int + count)
            =~= b@.subrange(start + 0, start as int + count));
        lemma_pow256_le((count - 0) as nat, count as nat);
    }
    acc
}

/// Reads the eight little-endian bytes that start at `start`.
pub fn u64_from_le_bytes(b: &Vec<u8>, start: usize) -> (r: u64)
    requires
        start + 8 <= b@.len(),
    ensures
        r as nat == le_val(b@.subrange(start as int, start as int + 8)),
{
    le_bytes_to_u64(b, start, 8)
}

/// `pow256` is monotone in its exponent.
pub proof fn lemma_pow256_le(m: nat, n: nat)
    requires
        m <= n,
    ensures
        pow256(m) <= pow256(n),
    decreases n,
{
    if m < n {
        lemma_pow256_le(m, (n - 1) as nat);
        assert(pow256(n) == 256 * pow256((n - 1) as nat));
        assert(256 * pow256((n - 1) as nat) >= 1 * pow256((n - 1) as nat)) by (nonlinear_arith);
    }
}

/// Compares two byte strings for equality.
pub fn bytes_eq(a: &Vec<u8>, b: &Vec<u8>) -> (r: bool)
    ensures
        r == (a@ =~= b@),
{
    if a.len() != b.len() {
        return false;
    }
    let mut i: usize = 0;
    while i < a.len()
        invariant
            i <= a@.len(),
            a@.len() == b@.len(),
            forall|j: int| 0 <= j < i ==> a@[j] == b@[j],
        decreases a@.len() - i,
    {
        if a[i] != b[i] {
            return false;
        }
        i = i + 1;
    }
    assert(a@ =~= b@);
    true
}

/// Copies the range `[start, end)` out of a byte string.
pub fn sub_bytes(a: &Vec<u8>, start: usize, end: usize) -> (r: Vec<u8>)
    requires
        start <= end,
        end <= a@.len(),
    ensures
        r@ == a@.subrange(start as int, end as int),
{
    let mut out: Vec<u8> = Vec::new();
    let mut i: usize = start;
    while i < end
        invariant
            start <= i <= end,
            end <= a@.len(),
            out@ =~= a@.subrange(start as int, i as int),
        decreases end - i,
    {
        out.push(a[i]);
        i = i + 1;
    }
    assert(out@ =~= a@.subrange(start as int, end as int));
    out
}

/// Appends the contents of `src` to `dst`.
pub fn append_bytes(dst: &mut Vec<u8>, src: &Vec<u8>)
    ensures
        final(dst)@ == old(dst)@ + src@,
{
    let mut i: usize = 0;
    while i < src.len()
        invariant
            i <= src@.len(),
            dst@ =~= old(dst)@ + src@.subrange(0, i as int),
        decreases src@.len() - i,
    {
        dst.push(src[i]);
        i = i + 1;
    }
    assert(dst@ =~= old(dst)@ + src@);
}

/// Returns a fresh byte string with the same contents.
pub fn copy_bytes(a: &Vec<u8>) -> (r: Vec<u8>)
    ensures
        r@ == a@,
{
    let mut out: Vec<u8> = Vec::new();
    let mut i: usize = 0;
    while i < a.len()
        invariant
            i <= a@.len(),
            out@ =~= a@.subrange(0, i as int),
        decreases a@.len() - i,
    {
        out.push(a[i]);
        i = i + 1;
    }
    assert(out@ =~= a@);
    out
}

} // verus!
