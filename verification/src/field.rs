//! The scalar field of the pairing curve, seen only through its canonical
//! 32-byte little-endian encodings: the element type, the modulus, and
//! reduction of a digest into the field.

use crate::bytes::{
    bytes_eq, le_bytes, le_geq, le_int, le_sub, lemma_le_int_bound, lemma_le_int_split,
    lemma_pow256_add, lemma_pow256_pos, pow256,
};
use vstd::prelude::*;

verus! {

/// A field element held as its canonical 32-byte little-endian encoding.
#[derive(Clone, Copy, Debug, PartialEq, Eq)]
pub struct DomainElement {
    pub bytes: [u8; 32],
}

impl View for DomainElement {
    type V = Seq<u8>;

    open spec fn view(&self) -> Seq<u8> {
        self.bytes@
    }
}

impl DomainElement {
    /// Builds an element from its raw 32-byte encoding.
    pub fn from_bytes(bytes: [u8; 32]) -> (r: DomainElement)
        ensures
            r@ == bytes@,
    {
        DomainElement { bytes }
    }

    /// The 32-byte little-endian encoding of a small integer, as the proof
    /// system takes challenge and parent indices.
    pub fn from_u64(x: u64) -> (r: DomainElement)
        ensures
            r@ == le_bytes(x as nat, 32),
            r@.len() == 32,
    {
        let mut v: Vec<u8> = Vec::new();
        crate::bytes::push_le_bytes(&mut v, x, 32);
        let mut bytes = [0u8; 32];
        let mut i: usize = 0;
        while i < 32
            invariant
                i <= 32,
                v@ == le_bytes(x as nat, 32),
                bytes@.len() == 32,
                forall|j: int| 0 <= j < i ==> bytes@[j] == v@[j],
            decreases 32 - i,
        {
            bytes[i] = v[i];
            i = i + 1;
        }
        proof {
            assert(bytes@ =~= le_bytes(x as nat, 32));
        }
        DomainElement { bytes }
    }

    /// Byte-for-byte equality of two elements.
    pub fn equals(&self, other: &DomainElement) -> (r: bool)
        ensures
            r == (self@ == other@),
    {
        bytes_eq(
            vstd::array::array_as_slice(&self.bytes),
            vstd::array::array_as_slice(&other.bytes),
        )
    }
}

/// The little-endian bytes of the scalar field's prime modulus.
pub open spec fn modulus_bytes() -> Seq<u8> {
    seq![
        0x01u8, 0x00u8, 0x00u8, 0x00u8, 0xffu8, 0xffu8, 0xffu8, 0xffu8,
        0xfeu8, 0x5bu8, 0xfeu8, 0xffu8, 0x02u8, 0xa4u8, 0xbdu8, 0x53u8,
        0x05u8, 0xd8u8, 0xa1u8, 0x09u8, 0x08u8, 0xd8u8, 0x39u8, 0x33u8,
        0x48u8, 0x7du8, 0x9du8, 0x29u8, 0x53u8, 0xa7u8, 0xedu8, 0x73u8,
    ]
}

/// The scalar field's prime modulus, a 255-bit integer.
pub open spec fn field_modulus() -> nat {
    le_int(modulus_bytes())
}

/// The modulus written out as executable bytes.
pub fn modulus_le_bytes() -> (r: Vec<u8>)
    ensures
        r@ == modulus_bytes(),
        r@.len() == 32,
{
    let r: Vec<u8> = vec![
        0x01u8, 0x00u8, 0x00u8, 0x00u8, 0xffu8, 0xffu8, 0xffu8, 0xffu8,
        0xfeu8, 0x5bu8, 0xfeu8, 0xffu8, 0x02u8, 0xa4u8, 0xbdu8, 0x53u8,
        0x05u8, 0xd8u8, 0xa1u8, 0x09u8, 0x08u8, 0xd8u8, 0x39u8, 0x33u8,
        0x48u8, 0x7du8, 0x9du8, 0x29u8, 0x53u8, 0xa7u8, 0xedu8, 0x73u8,
    ];
    proof {
        assert(r@ =~= modulus_bytes());
    }
    r
}

/// The modulus sits between 115 and 116 times 256 to the 31st.
pub proof fn lemma_field_modulus_bounds()
    ensures
        pow256(31) * 115 <= field_modulus(),
        field_modulus() < pow256(31) * 116,
{
    let s = modulus_bytes();
    lemma_le_int_split(s, 31);
    assert(s.skip(31) =~= seq![0x73u8]);
    crate::bytes::lemma_le_int_singleton(0x73u8);
    lemma_le_int_bound(s.take(31));
    assert(s.take(31).len() == 31);
    assert(field_modulus() == le_int(s.take(31)) + pow256(31) * 115);
}

/// Any 32-byte string whose last byte stays below 0x40 (so any value below
/// two to the 254th) encodes a value below the modulus.
pub proof fn lemma_small_value_below_modulus(s: Seq<u8>)
    requires
        s.len() == 32,
        s[31] < 0x40,
    ensures
        le_int(s) < field_modulus(),
{
    lemma_le_int_split(s, 31);
    assert(s.skip(31) =~= seq![s[31]]);
    crate::bytes::lemma_le_int_singleton(s[31]);
    lemma_le_int_bound(s.take(31));
    let p = pow256(31) as int;
    lemma_pow256_pos(31);
    assert(p * (s[31] as int) <= p * 0x3f) by {
        vstd::arithmetic::mul::lemma_mul_inequality(s[31] as int, 0x3f, p);
        vstd::arithmetic::mul::lemma_mul_is_commutative(p, s[31] as int);
        vstd::arithmetic::mul::lemma_mul_is_commutative(p, 0x3f);
    }
    assert(le_int(s) < p + p * 0x3f);
    assert(p + p * 0x3f == p * 0x40) by (nonlinear_arith);
    lemma_field_modulus_bounds();
    assert(p * 0x40 <= p * 115) by {
        lemma_pow256_pos(31);
        vstd::arithmetic::mul::lemma_mul_inequality(0x40, 115, p);
    }
}

/// A byte string is the little-endian encoding of its own value: values
/// determine their fixed-width encodings uniquely.
pub proof fn lemma_le_bytes_of_value(s: Seq<u8>)
    ensures
        le_bytes(le_int(s), s.len()) =~= s,
    decreases s.len(),
{
    let n = s.len();
    if n > 0 {
        let t = s.drop_first();
        lemma_le_bytes_of_value(t);
        let x = le_int(s);
        assert(x == (s[0] as nat) + 256 * le_int(t));
        assert forall|i: int| 0 <= i < n implies le_bytes(x, n)[i] == s[i] by {
            if i == 0 {
                assert(pow256(0) == 1);
                assert(x / 1 == x) by {
                    vstd::arithmetic::div_mod::lemma_div_basics(x as int);
                }
                assert(x % 256 == s[0] as nat) by {
                    vstd::arithmetic::div_mod::lemma_mod_multiples_vanish(
                        le_int(t) as int,
                        s[0] as int,
                        256,
                    );
                    vstd::arithmetic::div_mod::lemma_small_mod(s[0] as nat, 256);
                }
            } else {
                assert(x / 256 == le_int(t)) by {
                    vstd::arithmetic::div_mod::lemma_fundamental_div_mod_converse(
                        x as int,
                        256,
                        le_int(t) as int,
                        s[0] as int,
                    );
                }
                lemma_pow256_pos((i - 1) as nat);
                assert(x / pow256(i as nat) == le_int(t) / pow256((i - 1) as nat)) by {
                    vstd::arithmetic::div_mod::lemma_div_denominator(
                        x as int,
                        256,
                        pow256((i - 1) as nat) as int,
                    );
                    assert(256 * pow256((i - 1) as nat) == pow256(i as nat));
                }
                assert(le_bytes(le_int(t), t.len())[i - 1] == t[i - 1]);
                assert(t[i - 1] == s[i]);
            }
        }
    } else {
        assert(le_bytes(le_int(s), 0) =~= s);
    }
}

/// Reduces a 32-byte digest, read little-endian, modulo the field prime,
/// returning the canonical encoding of the remainder.
pub fn reduce_mod_field(d: &[u8]) -> (r: Vec<u8>)
    requires
        d@.len() == 32,
    ensures
        r@.len() == 32,
        le_int(r@) == le_int(d@) % field_modulus(),
        r@ == le_bytes(le_int(d@) % field_modulus(), 32),
{
    let m = modulus_le_bytes();
    let ghost mv = field_modulus();
    let ghost v0 = le_int(d@);
    proof {
        lemma_field_modulus_bounds();
        lemma_pow256_pos(31);
        lemma_le_int_bound(d@);
        assert(pow256(32) == pow256(31) * 256) by {
            lemma_pow256_add(31, 1);
            assert(pow256(31) * pow256(1) == pow256(31) * 256);
        }
        assert(v0 < 3 * mv) by {
            assert(pow256(31) * 256 <= pow256(31) * 345) by {
                vstd::arithmetic::mul::lemma_mul_inequality(256, 345, pow256(31) as int);
            }
            assert(3 * (pow256(31) * 115) == pow256(31) * 345) by (nonlinear_arith);
        }
    }
    let mut v: Vec<u8> = vstd::slice::slice_to_vec(d);
    let ghost mut k: int = 0;
    if le_geq(v.as_slice(), m.as_slice()) {
        v = le_sub(v.as_slice(), m.as_slice());
        proof {
            k = 1;
        }
    }
    if le_geq(v.as_slice(), m.as_slice()) {
        v = le_sub(v.as_slice(), m.as_slice());
        proof {
            k = 2;
        }
    }
    proof {
        assert(le_int(v@) + k * mv == v0);
        assert(le_int(v@) < mv);
        assert(v0 % mv == le_int(v@)) by {
            vstd::arithmetic::div_mod::lemma_mod_multiples_vanish(
                k,
                le_int(v@) as int,
                mv as int,
            );
            vstd::arithmetic::div_mod::lemma_small_mod(le_int(v@), mv);
        }
        lemma_le_bytes_of_value(v@);
    }
    v
}

} // verus!
