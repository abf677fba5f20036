//! The BN254 curve groups as mathematics: what makes a byte string a valid
//! point of G1 or G2 in the uncompressed big-endian encoding (x then y, each
//! coordinate of G2 written as c1 then c0).

use vstd::prelude::*;
use crate::field::{be_bytes, be_nat, fp_modulus, fr_modulus, in_fp};

verus! {

pub open spec fn fp_p() -> int {
    fp_modulus() as int
}

/// `a^e` in the base field.
pub open spec fn fp_pow(a: int, e: nat) -> int
    decreases e,
{
    if e == 0 {
        1
    } else {
        let h = fp_pow(a, e / 2);
        (h * h * (if e % 2 == 1 { a } else { 1 })) % fp_p()
    }
}

/// The inverse in the base field (Fermat), zero for zero.
pub open spec fn fp_inv(a: int) -> int {
    fp_pow(a % fp_p(), (fp_p() - 2) as nat)
}

/// Elements of the quadratic extension, `c0 + c1 * u` with `u^2 = -1`.
pub open spec fn fp2_add(a: (int, int), b: (int, int)) -> (int, int) {
    ((a.0 + b.0) % fp_p(), (a.1 + b.1) % fp_p())
}

pub open spec fn fp2_sub(a: (int, int), b: (int, int)) -> (int, int) {
    ((a.0 - b.0) % fp_p(), (a.1 - b.1) % fp_p())
}

pub open spec fn fp2_mul(a: (int, int), b: (int, int)) -> (int, int) {
    ((a.0 * b.0 - a.1 * b.1) % fp_p(), (a.0 * b.1 + a.1 * b.0) % fp_p())
}

pub open spec fn fp2_inv(a: (int, int)) -> (int, int) {
    let t = fp_inv(a.0 * a.0 + a.1 * a.1);
    ((a.0 * t) % fp_p(), (-a.1 * t) % fp_p())
}

/// The coefficient `3 / (9 + u)` of the sextic twist carrying G2.
pub open spec fn twist_b() -> (int, int) {
    (
        19485874751759354771024239261021720505790618469301721065564631296452457478373int,
        266929791119991161246907387137283842545076965332900288569378510910307636690int,
    )
}

/// A point of the twist in affine form, or the point at infinity.
pub enum TwistPoint {
    Infinity,
    Affine { x: (int, int), y: (int, int) },
}

pub open spec fn twist_add(p: TwistPoint, q: TwistPoint) -> TwistPoint {
    match (p, q) {
        (TwistPoint::Infinity, _) => q,
        (_, TwistPoint::Infinity) => p,
        (TwistPoint::Affine { x: x1, y: y1 }, TwistPoint::Affine { x: x2, y: y2 }) => {
            if x1 == x2 && fp2_add(y1, y2) == (0int, 0int) {
                TwistPoint::Infinity
            } else {
                let l = if x1 == x2 {
                    fp2_mul(fp2_mul((3int, 0int), fp2_mul(x1, x1)), fp2_inv(fp2_add(y1, y1)))
                } else {
                    fp2_mul(fp2_sub(y2, y1), fp2_inv(fp2_sub(x2, x1)))
                };
                let x3 = fp2_sub(fp2_sub(fp2_mul(l, l), x1), x2);
                let y3 = fp2_sub(fp2_mul(l, fp2_sub(x1, x3)), y1);
                TwistPoint::Affine { x: x3, y: y3 }
            }
        },
    }
}

/// `k * p` by doubling and adding.
pub open spec fn twist_mul(k: nat, p: TwistPoint) -> TwistPoint
    decreases k,
{
    if k == 0 {
        TwistPoint::Infinity
    } else {
        let h = twist_mul(k / 2, p);
        let d = twist_add(h, h);
        if k % 2 == 1 {
            twist_add(d, p)
        } else {
            d
        }
    }
}

/// A point of G1 in affine form, or the point at infinity.
pub enum CurvePoint {
    Infinity,
    Affine { x: int, y: int },
}

/// The group law on `y^2 = x^3 + 3` over the base field.
pub open spec fn g1_add_points(p: CurvePoint, q: CurvePoint) -> CurvePoint {
    match (p, q) {
        (CurvePoint::Infinity, _) => q,
        (_, CurvePoint::Infinity) => p,
        (CurvePoint::Affine { x: x1, y: y1 }, CurvePoint::Affine { x: x2, y: y2 }) => {
            if x1 == x2 && (y1 + y2) % fp_p() == 0 {
                CurvePoint::Infinity
            } else {
                let l = if x1 == x2 {
                    (3 * x1 * x1 * fp_inv(2 * y1)) % fp_p()
                } else {
                    ((y2 - y1) * fp_inv(x2 - x1)) % fp_p()
                };
                let x3 = (l * l - x1 - x2) % fp_p();
                let y3 = (l * (x1 - x3) - y1) % fp_p();
                CurvePoint::Affine { x: x3, y: y3 }
            }
        },
    }
}

/// `k * p` by doubling and adding.
pub open spec fn g1_mul_points(k: nat, p: CurvePoint) -> CurvePoint
    decreases k,
{
    if k == 0 {
        CurvePoint::Infinity
    } else {
        let h = g1_mul_points(k / 2, p);
        let d = g1_add_points(h, h);
        if k % 2 == 1 {
            g1_add_points(d, p)
        } else {
            d
        }
    }
}

/// The big-endian value of bytes `lo..hi` of `b`.
pub open spec fn word(b: Seq<u8>, lo: int, hi: int) -> int {
    be_nat(b.subrange(lo, hi)) as int
}

/// A 64-byte string is a valid G1 point: canonical coordinates, and either
/// both zero (the point at infinity) or on `y^2 = x^3 + 3`.
pub open spec fn g1_on_curve(b: Seq<u8>) -> bool {
    let x = word(b, 0, 32);
    let y = word(b, 32, 64);
    (x == 0 && y == 0) || (y * y) % fp_p() == (x * x * x + 3) % fp_p()
}

/// The point a 64-byte encoding stands for: (0, 0) is infinity.
pub open spec fn g1_decode(b: Seq<u8>) -> CurvePoint {
    let x = word(b, 0, 32);
    let y = word(b, 32, 64);
    if x == 0 && y == 0 {
        CurvePoint::Infinity
    } else {
        CurvePoint::Affine { x, y }
    }
}

/// The uncompressed encoding of a point: x then y, big-endian; infinity as zeros.
pub open spec fn g1_encode(p: CurvePoint) -> Seq<u8> {
    match p {
        CurvePoint::Infinity => Seq::new(64, |i: int| 0u8),
        CurvePoint::Affine { x, y } => be_bytes(x as nat, 32) + be_bytes(y as nat, 32),
    }
}

pub open spec fn g1_canonical(b: Seq<u8>) -> bool {
    &&& b.len() == 64
    &&& in_fp(b.subrange(0, 32))
    &&& in_fp(b.subrange(32, 64))
}

/// A 128-byte string holds four coordinates below p.
pub open spec fn g2_canonical(b: Seq<u8>) -> bool {
    &&& b.len() == 128
    &&& in_fp(b.subrange(0, 32))
    &&& in_fp(b.subrange(32, 64))
    &&& in_fp(b.subrange(64, 96))
    &&& in_fp(b.subrange(96, 128))
}

pub open spec fn g1_valid(b: Seq<u8>) -> bool {
    g1_canonical(b) && g1_on_curve(b)
}

/// A 128-byte string is a valid G2 point: all zero (infinity), or canonical
/// coordinates of a twist point in the subgroup of order r.
#[verifier::opaque]
pub open spec fn g2_valid(b: Seq<u8>) -> bool {
    let x = (word(b, 32, 64), word(b, 0, 32));
    let y = (word(b, 96, 128), word(b, 64, 96));
    &&& b.len() == 128
    &&& (forall|i: int| 0 <= i < 128 ==> b[i] == 0) || {
        &&& x.0 < fp_p() && x.1 < fp_p() && y.0 < fp_p() && y.1 < fp_p()
        &&& fp2_mul(y, y) == fp2_add(fp2_mul(fp2_mul(x, x), x), twist_b())
        &&& twist_mul(fr_modulus(), TwistPoint::Affine { x, y }) == TwistPoint::Infinity
    }
}

} // verus!
