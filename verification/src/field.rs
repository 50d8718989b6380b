use ark_bn254::Fr;
use ark_ff::{BigInt, PrimeField};
use ark_serialize::CanonicalSerialize;
use vstd::prelude::*;

verus! {

/// The order of the BN254 scalar field, the field of every value the
/// circuit works over.
pub open spec fn modulus() -> int {
    21888242871839275222246405745257275088548364400416034343698204186575808495617int
}

/// The integer written by four little-endian 64-bit limbs.
pub open spec fn limbs_value(l0: u64, l1: u64, l2: u64, l3: u64) -> int {
    l0 + l1 * 0x1_0000_0000_0000_0000int + l2 * 0x1_0000_0000_0000_0000_0000_0000_0000_0000int
        + l3 * 0x1_0000_0000_0000_0000_0000_0000_0000_0000_0000_0000_0000_0000int
}

/// The `n`-byte little-endian encoding of `v` (higher bytes dropped).
pub open spec fn le_encoding(v: nat, n: nat) -> Seq<u8>
    decreases n,
{
    if n == 0 {
        Seq::empty()
    } else {
        seq![(v % 256) as u8] + le_encoding(v / 256, (n - 1) as nat)
    }
}

/// An element of the BN254 scalar field, held as its canonical
/// representative: four little-endian 64-bit limbs of an integer below
/// the modulus.
#[derive(Clone, Copy, PartialEq, Eq, Structural, Debug)]
pub struct FieldElem {
    l0: u64,
    l1: u64,
    l2: u64,
    l3: u64,
}

/// Two limb vectors denote the same integer only when they are equal.
proof fn lemma_limbs_unique(a: FieldElem, b: FieldElem)
    requires
        a.value() == b.value(),
    ensures
        a == b,
{
    let k: int = 0x1_0000_0000_0000_0000int;
    let ra: int = a.l1 + a.l2 * k + a.l3 * k * k;
    let rb: int = b.l1 + b.l2 * k + b.l3 * k * k;
    assert(a.value() == a.l0 + k * ra) by (nonlinear_arith)
        requires
            ra == a.l1 + a.l2 * k + a.l3 * k * k,
            k == 0x1_0000_0000_0000_0000int,
    ;
    assert(b.value() == b.l0 + k * rb) by (nonlinear_arith)
        requires
            rb == b.l1 + b.l2 * k + b.l3 * k * k,
            k == 0x1_0000_0000_0000_0000int,
    ;
    lemma_digit_unique(a.l0 as int, ra, b.l0 as int, rb, k);
    let sa: int = a.l2 + a.l3 * k;
    let sb: int = b.l2 + b.l3 * k;
    assert(ra == a.l1 + k * sa) by (nonlinear_arith)
        requires
            ra == a.l1 + a.l2 * k + a.l3 * k * k,
            sa == a.l2 + a.l3 * k,
    ;
    assert(rb == b.l1 + k * sb) by (nonlinear_arith)
        requires
            rb == b.l1 + b.l2 * k + b.l3 * k * k,
            sb == b.l2 + b.l3 * k,
    ;
    lemma_digit_unique(a.l1 as int, sa, b.l1 as int, sb, k);
    lemma_digit_unique(a.l2 as int, a.l3 as int, b.l2 as int, b.l3 as int, k);
}

/// `d + k * r` determines the digit `d` below `k` and the rest `r`.
proof fn lemma_digit_unique(da: int, ra: int, db: int, rb: int, k: int)
    requires
        0 <= da < k,
        0 <= db < k,
        da + k * ra == db + k * rb,
    ensures
        da == db,
        ra == rb,
{
    assert(k * (ra - rb) == db - da) by (nonlinear_arith)
        requires
            da + k * ra == db + k * rb,
    ;
    if ra > rb {
        assert(k * (ra - rb) >= k) by (nonlinear_arith)
            requires
                ra - rb >= 1,
                k > 0,
        ;
    } else if ra < rb {
        assert(k * (ra - rb) <= -k) by (nonlinear_arith)
            requires
                ra - rb <= -1,
                k > 0,
        ;
    }
}

/// 256 to the power `n`: the number of values `n` bytes can encode.
pub open spec fn byte_range(n: nat) -> int
    decreases n,
{
    if n == 0 {
        1
    } else {
        256 * byte_range((n - 1) as nat)
    }
}

/// The encoding of `v` in `n` bytes has `n` bytes.
pub proof fn lemma_le_encoding_len(v: nat, n: nat)
    ensures
        le_encoding(v, n).len() == n,
    decreases n,
{
    if n > 0 {
        lemma_le_encoding_len(v / 256, (n - 1) as nat);
    }
}

/// Two integers that `n` bytes can encode have equal encodings only when
/// they are equal.
pub proof fn lemma_le_encoding_injective(a: nat, b: nat, n: nat)
    requires
        a < byte_range(n),
        b < byte_range(n),
        le_encoding(a, n) == le_encoding(b, n),
    ensures
        a == b,
    decreases n,
{
    if n > 0 {
        let m = (n - 1) as nat;
        let ea = le_encoding(a, n);
        let eb = le_encoding(b, n);
        lemma_le_encoding_len(a / 256, m);
        lemma_le_encoding_len(b / 256, m);
        assert(ea[0] == eb[0]);
        assert(ea.subrange(1, n as int) =~= le_encoding(a / 256, m));
        assert(eb.subrange(1, n as int) =~= le_encoding(b / 256, m));
        assert(a / 256 < byte_range(m)) by (nonlinear_arith)
            requires
                a < 256 * byte_range(m),
        ;
        assert(b / 256 < byte_range(m)) by (nonlinear_arith)
            requires
                b < 256 * byte_range(m),
        ;
        lemma_le_encoding_injective(a / 256, b / 256, m);
        assert(a == 256 * (a / 256) + a % 256) by (nonlinear_arith);
        assert(b == 256 * (b / 256) + b % 256) by (nonlinear_arith);
    }
}

impl FieldElem {
    /// The integer this element stands for.
    pub closed spec fn value(self) -> int {
        limbs_value(self.l0, self.l1, self.l2, self.l3)
    }

    /// Every element is held by its canonical representative.
    #[verifier::type_invariant]
    pub open spec fn is_canonical(self) -> bool {
        self.value() < modulus()
    }

    /// The canonical 32-byte little-endian encoding of the element.
    pub open spec fn le_bytes(self) -> Seq<u8> {
        le_encoding(self.value() as nat, 32)
    }

    /// Every value is a non-negative integer.
    pub proof fn lemma_value_nonneg(self)
        ensures
            0 <= self.value(),
    {
    }

    /// Four limbs encode an integer below 2^256.
    pub proof fn lemma_value_below_byte_range(self)
        ensures
            self.value() < byte_range(32),
    {
        reveal_with_fuel(byte_range, 33);
        assert(byte_range(32)
            == 0x1_0000_0000_0000_0000_0000_0000_0000_0000_0000_0000_0000_0000_0000_0000_0000_0000int);
    }

    /// Elements with the same 32-byte encoding are equal.
    pub proof fn lemma_le_bytes_injective(self, other: FieldElem)
        requires
            self.le_bytes() == other.le_bytes(),
        ensures
            self == other,
    {
        self.lemma_value_below_byte_range();
        other.lemma_value_below_byte_range();
        lemma_le_encoding_injective(self.value() as nat, other.value() as nat, 32);
        lemma_limbs_unique(self, other);
    }

    /// Elements are equal exactly when their values are.
    pub proof fn lemma_eq_iff_value_eq(self, other: FieldElem)
        ensures
            (self == other) <==> (self.value() == other.value()),
    {
        if self.value() == other.value() {
            lemma_limbs_unique(self, other);
        }
    }

    /// The element `n`.
    pub fn from_u64(n: u64) -> (r: FieldElem)
        ensures
            r.value() == n,
    {
        FieldElem { l0: n, l1: 0, l2: 0, l3: 0 }
    }

    /// The element one.
    pub fn one() -> (r: FieldElem)
        ensures
            r.value() == 1,
    {
        FieldElem::from_u64(1)
    }

    /// The element whose little-endian limbs are `limbs`, or `None` when
    /// they denote an integer not below the modulus.
    pub fn from_limbs(limbs: [u64; 4]) -> (r: Option<FieldElem>)
        ensures
            r is Some <==> limbs_value(limbs[0], limbs[1], limbs[2], limbs[3]) < modulus(),
            r matches Some(e) ==> e.value() == limbs_value(limbs[0], limbs[1], limbs[2], limbs[3]),
    {
        let l0 = limbs[0];
        let l1 = limbs[1];
        let l2 = limbs[2];
        let l3 = limbs[3];
        // The modulus, limb by limb from the most significant.
        let m3: u64 = 0x30644e72e131a029;
        let m2: u64 = 0xb85045b68181585d;
        let m1: u64 = 0x2833e84879b97091;
        let m0: u64 = 0x43e1f593f0000001;
        assert(modulus() == limbs_value(m0, m1, m2, m3));
        let below = if l3 != m3 {
            l3 < m3
        } else if l2 != m2 {
            l2 < m2
        } else if l1 != m1 {
            l1 < m1
        } else {
            l0 < m0
        };
        if below {
            Some(FieldElem { l0, l1, l2, l3 })
        } else {
            None
        }
    }

    /// The four little-endian limbs of the canonical representative.
    pub fn limbs(&self) -> (r: [u64; 4])
        ensures
            limbs_value(r[0], r[1], r[2], r[3]) == self.value(),
    {
        [self.l0, self.l1, self.l2, self.l3]
    }
}

/// The limbs an element gives back are accepted by `from_limbs`, and
/// name that element and no other.
pub proof fn law_limbs_roundtrip(e: FieldElem, l0: u64, l1: u64, l2: u64, l3: u64, f: FieldElem)
    requires
        e.is_canonical(),
        limbs_value(l0, l1, l2, l3) == e.value(),
        f.value() == limbs_value(l0, l1, l2, l3),
    ensures
        limbs_value(l0, l1, l2, l3) < modulus(),
        f == e,
{
    f.lemma_eq_iff_value_eq(e);
}

/// Field addition; calls `+` on `ark_bn254::Fr`. Claimed: the result is
/// the sum reduced modulo the field order.
#[verifier::external_body]
pub(crate) fn field_add(a: FieldElem, b: FieldElem) -> (r: FieldElem)
    requires
        a.is_canonical(),
        b.is_canonical(),
    ensures
        r.value() == (a.value() + b.value()) % modulus(),
{
    let x = Fr::from_bigint(BigInt::new([a.l0, a.l1, a.l2, a.l3])).unwrap();
    let y = Fr::from_bigint(BigInt::new([b.l0, b.l1, b.l2, b.l3])).unwrap();
    let z = (x + y).into_bigint().0;
    FieldElem { l0: z[0], l1: z[1], l2: z[2], l3: z[3] }
}

/// Field subtraction; calls `-` on `ark_bn254::Fr`. Claimed: the result is
/// the difference reduced modulo the field order (a non-negative residue).
#[verifier::external_body]
pub(crate) fn field_sub(a: FieldElem, b: FieldElem) -> (r: FieldElem)
    requires
        a.is_canonical(),
        b.is_canonical(),
    ensures
        r.value() == (a.value() - b.value()) % modulus(),
{
    let x = Fr::from_bigint(BigInt::new([a.l0, a.l1, a.l2, a.l3])).unwrap();
    let y = Fr::from_bigint(BigInt::new([b.l0, b.l1, b.l2, b.l3])).unwrap();
    let z = (x - y).into_bigint().0;
    FieldElem { l0: z[0], l1: z[1], l2: z[2], l3: z[3] }
}

/// Field multiplication; calls `*` on `ark_bn254::Fr`. Claimed: the result
/// is the product reduced modulo the field order.
#[verifier::external_body]
pub(crate) fn field_mul(a: FieldElem, b: FieldElem) -> (r: FieldElem)
    requires
        a.is_canonical(),
        b.is_canonical(),
    ensures
        r.value() == (a.value() * b.value()) % modulus(),
{
    let x = Fr::from_bigint(BigInt::new([a.l0, a.l1, a.l2, a.l3])).unwrap();
    let y = Fr::from_bigint(BigInt::new([b.l0, b.l1, b.l2, b.l3])).unwrap();
    let z = (x * y).into_bigint().0;
    FieldElem { l0: z[0], l1: z[1], l2: z[2], l3: z[3] }
}

/// Compressed serialization; calls `CanonicalSerialize::serialize_compressed`
/// on `ark_bn254::Fr`. Claimed: it writes the canonical integer as 32
/// little-endian bytes (the field's 254 bits round up to 32 bytes and no
/// flag bits are set).
#[verifier::external_body]
pub(crate) fn field_to_bytes(a: FieldElem) -> (r: Vec<u8>)
    requires
        a.is_canonical(),
    ensures
        r@ == a.le_bytes(),
{
    let x = Fr::from_bigint(BigInt::new([a.l0, a.l1, a.l2, a.l3])).unwrap();
    let mut buf = Vec::new();
    x.serialize_compressed(&mut buf).unwrap();
    buf
}

} // verus!
