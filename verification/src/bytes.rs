//! Integers as little-endian bytes.

use vstd::prelude::*;

verus! {

/// The integer that `bytes` spell in little-endian order.
pub open spec fn le_value(bytes: Seq<u8>) -> nat
    decreases bytes.len(),
{
    if bytes.len() == 0 {
        0
    } else {
        bytes[0] as nat + 256 * le_value(bytes.drop_first())
    }
}

/// The `len` bytes that spell `n` in little-endian order, `n` taken modulo
/// `256^len`.
pub open spec fn le_bytes(n: nat, len: nat) -> Seq<u8>
    decreases len,
{
    if len == 0 {
        Seq::empty()
    } else {
        seq![(n % 256) as u8].add(le_bytes(n / 256, (len - 1) as nat))
    }
}

/// Bytes are the encoding of the integer that they spell.
pub proof fn lemma_le_bytes_of_value(s: Seq<u8>)
    ensures
        le_bytes(le_value(s), s.len()) == s,
    decreases s.len(),
{
    if s.len() > 0 {
        let t = s.drop_first();
        lemma_le_bytes_of_value(t);
        let n = le_value(s);
        assert(n == s[0] as nat + 256 * le_value(t));
        assert(n % 256 == s[0] as nat);
        assert(n / 256 == le_value(t));
        assert(le_bytes(n, s.len()) =~= s);
    }
}

/// `256^n`.
pub open spec fn pow256(n: nat) -> nat
    decreases n,
{
    if n == 0 {
        1
    } else {
        256 * pow256((n - 1) as nat)
    }
}

/// The first integer that 32 bytes cannot spell.
pub open spec fn wide_limit() -> nat {
    0x1_0000000000000000_0000000000000000_0000000000000000_0000000000000000nat
}

/// Bytes spell what their first `k` spell, plus `256^k` times what the rest
/// spell.
pub proof fn lemma_le_value_split(s: Seq<u8>, k: nat)
    requires
        k <= s.len(),
    ensures
        le_value(s) == le_value(s.take(k as int)) + pow256(k) * le_value(s.skip(k as int)),
    decreases k,
{
    if k == 0 {
        assert(s.skip(0) =~= s);
        assert(s.take(0).len() == 0);
        assert(le_value(s.take(0)) == 0);
        assert(pow256(0) == 1);
    } else {
        let t = s.drop_first();
        let head = s.take(k as int);
        lemma_le_value_split(t, (k - 1) as nat);
        assert(t.take(k - 1) =~= head.drop_first());
        assert(t.skip(k - 1) =~= s.skip(k as int));
        assert(head[0] == s[0]);
        let hi = le_value(s.skip(k as int));
        let lo = le_value(t.take(k - 1));
        let pw = pow256((k - 1) as nat);
        assert(le_value(s) == s[0] as nat + 256 * le_value(t));
        assert(le_value(head) == head[0] as nat + 256 * le_value(head.drop_first()));
        assert(le_value(t) == lo + pw * hi);
        assert(256 * (lo + pw * hi) == 256 * lo + pow256(k) * hi) by (nonlinear_arith)
            requires
                pow256(k) == 256 * pw,
        ;
    }
}

/// Bytes spell an integer below `256` to the power of their number.
pub proof fn lemma_le_value_bound(s: Seq<u8>)
    ensures
        le_value(s) < pow256(s.len()),
    decreases s.len(),
{
    if s.len() > 0 {
        lemma_le_value_bound(s.drop_first());
    }
}

/// Bytes that are all zero spell zero.
pub proof fn lemma_zero_bytes(s: Seq<u8>)
    requires
        forall|j: int| 0 <= j < s.len() ==> s[j] == 0,
    ensures
        le_value(s) == 0,
    decreases s.len(),
{
    if s.len() > 0 {
        lemma_zero_bytes(s.drop_first());
    }
}

/// Bytes of which one is not zero spell a number above zero.
pub proof fn lemma_nonzero_byte(s: Seq<u8>, i: int)
    requires
        0 <= i < s.len(),
        s[i] != 0,
    ensures
        le_value(s) > 0,
    decreases s.len(),
{
    if i > 0 {
        lemma_nonzero_byte(s.drop_first(), i - 1);
    }
}

/// What eight bytes spell.
pub proof fn lemma_le_value_8(s: Seq<u8>)
    requires
        s.len() == 8,
    ensures
        le_value(s) == s[0] as nat + 0x100 * (s[1] as nat) + 0x1_0000 * (s[2] as nat) + 0x100_0000
            * (s[3] as nat) + 0x1_0000_0000 * (s[4] as nat) + 0x100_0000_0000 * (s[5] as nat)
            + 0x1_0000_0000_0000 * (s[6] as nat) + 0x100_0000_0000_0000 * (s[7] as nat),
{
    reveal_with_fuel(le_value, 9);
    let t1 = s.drop_first();
    let t2 = t1.drop_first();
    let t3 = t2.drop_first();
    let t4 = t3.drop_first();
    let t5 = t4.drop_first();
    let t6 = t5.drop_first();
    let t7 = t6.drop_first();
    assert(t7.drop_first().len() == 0);
    assert(le_value(t7) == s[7] as nat);
    assert(le_value(t6) == s[6] as nat + 256 * le_value(t7));
    assert(le_value(t5) == s[5] as nat + 256 * le_value(t6));
    assert(le_value(t4) == s[4] as nat + 256 * le_value(t5));
    assert(le_value(t3) == s[3] as nat + 256 * le_value(t4));
    assert(le_value(t2) == s[2] as nat + 256 * le_value(t3));
    assert(le_value(t1) == s[1] as nat + 256 * le_value(t2));
    assert(le_value(s) == s[0] as nat + 256 * le_value(t1));
}

/// `256^8` and `256^16`.
pub proof fn lemma_pow256_values()
    ensures
        pow256(8) == 0x1_0000000000000000,
        pow256(16) == 0x1_0000000000000000_0000000000000000,
{
    reveal_with_fuel(pow256, 9);
    assert(pow256(8) == 0x1_0000000000000000);
    assert(pow256(16) == 0x1_0000000000000000 * pow256(8));
}

/// `256^32` is the first integer that 32 bytes cannot spell.
pub proof fn lemma_pow256_32()
    ensures
        pow256(32) == wide_limit(),
{
    reveal_with_fuel(pow256, 33);
}

/// The bytes of an integer spell it, where it fits into them.
pub proof fn lemma_le_value_of_bytes(n: nat, len: nat)
    requires
        n < pow256(len),
    ensures
        le_bytes(n, len).len() == len,
        le_value(le_bytes(n, len)) == n,
    decreases len,
{
    if len > 0 {
        lemma_le_value_of_bytes(n / 256, (len - 1) as nat);
        let s = le_bytes(n, len);
        assert(s.drop_first() =~= le_bytes(n / 256, (len - 1) as nat));
    }
}

/// The powers of 256 grow.
pub proof fn lemma_pow256_monotonic(a: nat, b: nat)
    requires
        a <= b,
    ensures
        0 < pow256(a) <= pow256(b),
    decreases b,
{
    if b == 0 {
    } else if a == b {
        lemma_pow256_monotonic((a - 1) as nat, (b - 1) as nat);
    } else {
        lemma_pow256_monotonic(a, (b - 1) as nat);
    }
}

/// Tells whether bytes spell an integer that fits into `n` bytes.
pub fn fits_in(bytes: &[u8], n: usize) -> (r: bool)
    ensures
        r == (le_value(bytes@) < pow256(n as nat)),
{
    if bytes.len() <= n {
        proof {
            lemma_le_value_bound(bytes@);
            lemma_pow256_monotonic(bytes@.len(), n as nat);
        }
        return true;
    }
    let mut k: usize = n;
    while k < bytes.len()
        invariant
            n <= k <= bytes@.len(),
            forall|j: int| n <= j < k ==> bytes@[j] == 0,
        decreases bytes.len() - k,
    {
        if bytes[k] != 0 {
            proof {
                lemma_le_value_split(bytes@, n as nat);
                lemma_nonzero_byte(bytes@.skip(n as int), k - n);
                let hi = le_value(bytes@.skip(n as int));
                let pw = pow256(n as nat);
                assert(pw * hi >= pw) by (nonlinear_arith)
                    requires
                        hi >= 1,
                        pw >= 0,
                ;
            }
            return false;
        }
        k += 1;
    }
    proof {
        lemma_le_value_split(bytes@, n as nat);
        lemma_zero_bytes(bytes@.skip(n as int));
        lemma_le_value_bound(bytes@.take(n as int));
    }
    true
}

/// Appends `bytes` to `out`.
pub fn append(out: &mut Vec<u8>, bytes: &[u8])
    ensures
        final(out)@ == old(out)@ + bytes@,
{
    let mut i: usize = 0;
    while i < bytes.len()
        invariant
            i <= bytes.len(),
            out@ == old(out)@ + bytes@.take(i as int),
        decreases bytes.len() - i,
    {
        out.push(bytes[i]);
        i += 1;
        assert(out@ =~= old(out)@ + bytes@.take(i as int));
    }
    assert(bytes@.take(bytes.len() as int) =~= bytes@);
}

/// Tells whether two byte strings are the same.
pub fn bytes_equal(a: &[u8], b: &[u8]) -> (same: bool)
    ensures
        same == (a@ == b@),
{
    if a.len() != b.len() {
        return false;
    }
    let mut i: usize = 0;
    while i < a.len()
        invariant
            i <= a.len(),
            a@.len() == b@.len(),
            forall|j: int| 0 <= j < i ==> a@[j] == b@[j],
        decreases a.len() - i,
    {
        if a[i] != b[i] {
            return false;
        }
        i += 1;
    }
    assert(a@ =~= b@);
    true
}

/// A copy of a byte string.
pub fn copy_bytes(bytes: &[u8]) -> (copy: Vec<u8>)
    ensures
        copy@ == bytes@,
{
    let mut copy: Vec<u8> = Vec::new();
    append(&mut copy, bytes);
    assert(copy@ =~= bytes@);
    copy
}

/// Appends the `len` little-endian bytes of `x` to `out`.
pub fn push_le(out: &mut Vec<u8>, x: u64, len: usize)
    requires
        len <= 8,
    ensures
        final(out)@ == old(out)@ + le_bytes(x as nat, len as nat),
{
    let mut rest: u64 = x;
    let mut i: usize = 0;
    while i < len
        invariant
            i <= len <= 8,
            out@ + le_bytes(rest as nat, (len - i) as nat) == old(out)@ + le_bytes(
                x as nat,
                len as nat,
            ),
        decreases len - i,
    {
        let ghost before = out@;
        out.push((rest % 256) as u8);
        assert(before + le_bytes(rest as nat, (len - i) as nat) =~= out@ + le_bytes(
            (rest / 256) as nat,
            (len - i - 1) as nat,
        ));
        rest = rest / 256;
        i += 1;
    }
    assert(out@ + le_bytes(rest as nat, 0) =~= out@);
}

/// The integer that the `len` bytes from `at` on spell.
pub fn read_le(bytes: &[u8], at: usize, len: usize) -> (x: u64)
    requires
        len <= 8,
        at + len <= bytes@.len(),
    ensures
        x == le_value(bytes@.subrange(at as int, at + len)),
{
    let mut x: u64 = 0;
    let mut i: usize = 0;
    let total = bytes.len();
    proof {
        assert(bytes@.subrange(at + len, at + len).len() == 0);
    }
    while i < len
        invariant
            i <= len <= 8,
            at + len <= total,
            total == bytes@.len(),
            x == le_value(bytes@.subrange(at + len - i, at + len)),
        decreases len - i,
    {
        let ghost tail = bytes@.subrange(at + len - i, at + len);
        let ghost next = bytes@.subrange(at + len - i - 1, at + len);
        proof {
            lemma_le_value_bound(tail);
            lemma_pow256_values();
            lemma_pow256_upto_8(i as nat);
            assert(next.drop_first() =~= tail);
        }
        x = x * 256 + bytes[at + len - i - 1] as u64;
        i += 1;
    }
    x
}

/// The powers of 256 up to the seventh fit into 56 bits.
pub proof fn lemma_pow256_upto_8(n: nat)
    requires
        n < 8,
    ensures
        pow256(n) <= 0x100_0000_0000_0000,
{
    reveal_with_fuel(pow256, 9);
}

/// The 32 bytes from `at` on.
pub fn read_32(bytes: &[u8], at: usize) -> (a: [u8; 32])
    requires
        at + 32 <= bytes@.len(),
    ensures
        a@ == bytes@.subrange(at as int, at + 32),
{
    let mut a: [u8; 32] = [0u8; 32];
    let mut i: usize = 0;
    let total = bytes.len();
    while i < 32
        invariant
            i <= 32,
            at + 32 <= total,
            total == bytes@.len(),
            forall|j: int| 0 <= j < i ==> a@[j] == bytes@[at + j],
        decreases 32 - i,
    {
        a[i] = bytes[at + i];
        i += 1;
    }
    assert(a@ =~= bytes@.subrange(at as int, at + 32));
    a
}

} // verus!
