//! Big-endian field elements of BN254 and their range checks.

use vstd::prelude::*;

verus! {

/// The value of a big-endian byte string.
pub open spec fn be_nat(s: Seq<u8>) -> nat
    decreases s.len(),
{
    if s.len() == 0 {
        0
    } else {
        be_nat(s.drop_last()) * 256 + s.last() as nat
    }
}

/// The `len` low-order bytes of `n`, big-endian.
pub open spec fn be_bytes(n: nat, len: nat) -> Seq<u8>
    decreases len,
{
    if len == 0 {
        Seq::empty()
    } else {
        be_bytes(n / 256, (len - 1) as nat).push((n % 256) as u8)
    }
}

pub open spec fn pow256(n: nat) -> nat
    decreases n,
{
    if n == 0 {
        1
    } else {
        256 * pow256((n - 1) as nat)
    }
}

/// A big-endian string of `len` bytes stays below `256^len`.
pub proof fn lemma_be_nat_bound(s: Seq<u8>)
    ensures
        be_nat(s) < pow256(s.len()),
    decreases s.len(),
{
    if s.len() > 0 {
        lemma_be_nat_bound(s.drop_last());
        let a = be_nat(s.drop_last());
        let b = pow256(s.drop_last().len());
        let c = s.last() as nat;
        assert(a * 256 + c < 256 * b) by (nonlinear_arith)
            requires a < b, c < 256;
    }
}

/// Writing a number below `256^len` in `len` bytes and reading it back gives it again.
pub proof fn lemma_be_bytes_value(n: nat, len: nat)
    requires
        n < pow256(len),
    ensures
        be_bytes(n, len).len() == len,
        be_nat(be_bytes(n, len)) == n,
    decreases len,
{
    if len > 0 {
        let q = n / 256;
        let r = n % 256;
        assert(n == q * 256 + r);
        assert(q < pow256((len - 1) as nat)) by (nonlinear_arith)
            requires n == q * 256 + r, 0 <= r < 256, n < 256 * pow256((len - 1) as nat);
        lemma_be_bytes_value(q, (len - 1) as nat);
        lemma_be_nat_push(be_bytes(q, (len - 1) as nat), r as u8);
    } else {
        assert(n == 0);
    }
}

/// The BN254 scalar field modulus r, big-endian:
/// 21888242871839275222246405745257275088548364400416034343698204186575808495617.
pub open spec fn fr_modulus_bytes() -> Seq<u8> {
    seq![
        0x30u8, 0x64, 0x4e, 0x72, 0xe1, 0x31, 0xa0, 0x29, 0xb8, 0x50, 0x45, 0xb6, 0x81, 0x81,
        0x58, 0x5d, 0x28, 0x33, 0xe8, 0x48, 0x79, 0xb9, 0x70, 0x91, 0x43, 0xe1, 0xf5, 0x93,
        0xf0, 0x00, 0x00, 0x01,
    ]
}

/// The BN254 base field modulus p, big-endian:
/// 21888242871839275222246405745257275088696311157297823662689037894645226208583.
pub open spec fn fp_modulus_bytes() -> Seq<u8> {
    seq![
        0x30u8, 0x64, 0x4e, 0x72, 0xe1, 0x31, 0xa0, 0x29, 0xb8, 0x50, 0x45, 0xb6, 0x81, 0x81,
        0x58, 0x5d, 0x97, 0x81, 0x6a, 0x91, 0x68, 0x71, 0xca, 0x8d, 0x3c, 0x20, 0x8c, 0x16,
        0xd8, 0x7c, 0xfd, 0x47,
    ]
}

pub open spec fn fr_modulus() -> nat {
    be_nat(fr_modulus_bytes())
}

pub open spec fn fp_modulus() -> nat {
    be_nat(fp_modulus_bytes())
}

/// A 32-byte big-endian scalar lies in the scalar field.
pub open spec fn in_fr(s: Seq<u8>) -> bool {
    be_nat(s) < fr_modulus()
}

/// A 32-byte big-endian coordinate lies in the base field.
pub open spec fn in_fp(s: Seq<u8>) -> bool {
    be_nat(s) < fp_modulus()
}

pub proof fn lemma_be_nat_push(s: Seq<u8>, c: u8)
    ensures
        be_nat(s.push(c)) == be_nat(s) * 256 + c as nat,
{
    assert(s.push(c).drop_last() =~= s);
}

/// Appending a byte to each of two equally long strings keeps a strict order.
proof fn lemma_be_nat_extend_lt(x: Seq<u8>, y: Seq<u8>, c: u8, d: u8)
    requires
        be_nat(x) < be_nat(y),
    ensures
        be_nat(x.push(c)) < be_nat(y.push(d)),
{
    assert(x.push(c).drop_last() =~= x);
    assert(y.push(d).drop_last() =~= y);
    let a = be_nat(x);
    let b = be_nat(y);
    assert(a * 256 + 256 <= b * 256) by (nonlinear_arith)
        requires a < b;
}

/// A strict order of the first `i` bytes decides the order of equally long strings.
proof fn lemma_be_nat_prefix_lt(x: Seq<u8>, y: Seq<u8>, i: int)
    requires
        x.len() == y.len(),
        0 <= i <= x.len(),
        be_nat(x.subrange(0, i)) < be_nat(y.subrange(0, i)),
    ensures
        be_nat(x) < be_nat(y),
    decreases x.len() - i,
{
    if i < x.len() {
        assert(x.subrange(0, i + 1) =~= x.subrange(0, i).push(x[i]));
        assert(y.subrange(0, i + 1) =~= y.subrange(0, i).push(y[i]));
        lemma_be_nat_extend_lt(x.subrange(0, i), y.subrange(0, i), x[i], y[i]);
        lemma_be_nat_prefix_lt(x, y, i + 1);
    } else {
        assert(x.subrange(0, i) =~= x);
        assert(y.subrange(0, i) =~= y);
    }
}

/// Whether `a >= b` as 256-bit big-endian unsigned integers.
pub fn is_ge_be_32(a: &[u8; 32], b: &[u8; 32]) -> (r: bool)
    ensures
        r == (be_nat(a@) >= be_nat(b@)),
{
    let mut i: usize = 0;
    while i < 32
        invariant
            0 <= i <= 32,
            a@.len() == 32,
            b@.len() == 32,
            a@.subrange(0, i as int) == b@.subrange(0, i as int),
        decreases 32 - i,
    {
        if a[i] < b[i] {
            proof {
                assert(a@.subrange(0, i + 1) =~= a@.subrange(0, i as int).push(a@[i as int]));
                assert(b@.subrange(0, i + 1) =~= b@.subrange(0, i as int).push(b@[i as int]));
                lemma_be_nat_push(a@.subrange(0, i as int), a@[i as int]);
                lemma_be_nat_push(b@.subrange(0, i as int), b@[i as int]);
                lemma_be_nat_prefix_lt(a@, b@, i + 1);
            }
            return false;
        }
        if a[i] > b[i] {
            proof {
                assert(a@.subrange(0, i + 1) =~= a@.subrange(0, i as int).push(a@[i as int]));
                assert(b@.subrange(0, i + 1) =~= b@.subrange(0, i as int).push(b@[i as int]));
                lemma_be_nat_push(a@.subrange(0, i as int), a@[i as int]);
                lemma_be_nat_push(b@.subrange(0, i as int), b@[i as int]);
                lemma_be_nat_prefix_lt(b@, a@, i + 1);
            }
            return true;
        }
        proof {
            assert(a@.subrange(0, i + 1) =~= a@.subrange(0, i as int).push(a@[i as int]));
            assert(b@.subrange(0, i + 1) =~= b@.subrange(0, i as int).push(b@[i as int]));
        }
        i = i + 1;
    }
    proof {
        assert(a@.subrange(0, 32) =~= a@);
        assert(b@.subrange(0, 32) =~= b@);
    }
    true
}

/// The BN254 scalar field modulus, big-endian.
pub fn fr_modulus_be() -> (r: [u8; 32])
    ensures
        be_nat(r@) == fr_modulus(),
{
    let r: [u8; 32] = [
        0x30, 0x64, 0x4e, 0x72, 0xe1, 0x31, 0xa0, 0x29, 0xb8, 0x50, 0x45, 0xb6, 0x81, 0x81,
        0x58, 0x5d, 0x28, 0x33, 0xe8, 0x48, 0x79, 0xb9, 0x70, 0x91, 0x43, 0xe1, 0xf5, 0x93,
        0xf0, 0x00, 0x00, 0x01,
    ];
    assert(r@ =~= fr_modulus_bytes());
    r
}

/// The BN254 base field modulus, big-endian.
pub fn fp_modulus_be() -> (r: [u8; 32])
    ensures
        be_nat(r@) == fp_modulus(),
{
    let r: [u8; 32] = [
        0x30, 0x64, 0x4e, 0x72, 0xe1, 0x31, 0xa0, 0x29, 0xb8, 0x50, 0x45, 0xb6, 0x81, 0x81,
        0x58, 0x5d, 0x97, 0x81, 0x6a, 0x91, 0x68, 0x71, 0xca, 0x8d, 0x3c, 0x20, 0x8c, 0x16,
        0xd8, 0x7c, 0xfd, 0x47,
    ];
    assert(r@ =~= fp_modulus_bytes());
    r
}

/// Bytes `off..off + 32` of a byte string.
pub fn word_at(p: &[u8], off: usize) -> (r: [u8; 32])
    requires
        off + 32 <= p@.len(),
    ensures
        r@ == p@.subrange(off as int, off + 32),
{
    let n: usize = p.len();
    let mut r: [u8; 32] = [0u8; 32];
    let mut i: usize = 0;
    while i < 32
        invariant
            n == p@.len(),
            off + 32 <= p@.len(),
            0 <= i <= 32,
            r@.len() == 32,
            forall|k: int| 0 <= k < i ==> r@[k] == p@[off + k],
        decreases 32 - i,
    {
        r[i] = p[off + i];
        i = i + 1;
    }
    assert(r@ =~= p@.subrange(off as int, off + 32));
    r
}

/// Byte-for-byte equality of two 32-byte strings.
pub fn eq32(a: &[u8; 32], b: &[u8; 32]) -> (r: bool)
    ensures
        r == (a@ == b@),
{
    let mut i: usize = 0;
    while i < 32
        invariant
            0 <= i <= 32,
            a@.len() == 32 && b@.len() == 32,
            forall|k: int| 0 <= k < i ==> a@[k] == b@[k],
        decreases 32 - i,
    {
        if a[i] != b[i] {
            return false;
        }
        i = i + 1;
    }
    assert(a@ =~= b@);
    true
}

/// Appends the bytes of `s` to `out`.
pub fn append_bytes(out: &mut Vec<u8>, s: &[u8])
    ensures
        final(out)@ == old(out)@ + s@,
{
    let mut i: usize = 0;
    while i < s.len()
        invariant
            0 <= i <= s@.len(),
            out@ == old(out)@ + s@.subrange(0, i as int),
        decreases s@.len() - i,
    {
        out.push(s[i]);
        i = i + 1;
        assert(out@ =~= old(out)@ + s@.subrange(0, i as int));
    }
    assert(s@.subrange(0, s@.len() as int) =~= s@);
}

} // verus!
