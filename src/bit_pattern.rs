use vstd::prelude::*;

verus! {

/// Mask of the sign bit (bit 31).
pub const SIGN_MASK: u32 = 0x8000_0000;

/// Mask of the biased exponent field (bits 30 to 23).
pub const EXPONENT_MASK: u32 = 0x7F80_0000;

/// Mask of the mantissa field (bits 22 to 0).
pub const MANTISSA_MASK: u32 = 0x007F_FFFF;

/// Mask applied by [`FloatBitPattern::neg`] to a pattern whose sign bit is set.
/// It clears the sign bit and, with it, every bit of exponent and mantissa
/// where the mask holds a zero.
pub const NEGATIVE_NEG_MASK: u32 = 0x7AAA_AAAA;

/// The sign bit of an encoding, 0 or 1.
pub open spec fn sign_of(b: u32) -> u32 {
    b >> 31
}

/// The biased exponent field of an encoding, 0 to 0xFF.
pub open spec fn exponent_of(b: u32) -> u32 {
    (b >> 23) & 0xFF
}

/// The mantissa (fraction) field of an encoding, 0 to 0x7F_FFFF.
pub open spec fn mantissa_of(b: u32) -> u32 {
    b & 0x7F_FFFF
}

/// The encoding with the given sign, biased exponent and mantissa fields.
pub open spec fn compose(sign: u32, exponent: u32, mantissa: u32) -> u32 {
    (sign << 31) | (exponent << 23) | mantissa
}

/// The encoding that `incr` steps to. The mantissa grows by one, or, when it is
/// saturated, rolls over to zero while the exponent field grows by one. The
/// exponent field wraps around within its eight bits: a saturated one (0xFF)
/// becomes zero. The sign never changes.
pub open spec fn incr_spec(b: u32) -> u32 {
    if mantissa_of(b) != 0x7F_FFFF {
        compose(sign_of(b), exponent_of(b), (mantissa_of(b) + 1) as u32)
    } else if exponent_of(b) != 0xFF {
        compose(sign_of(b), (exponent_of(b) + 1) as u32, 0)
    } else {
        compose(sign_of(b), 0, 0)
    }
}

/// The encoding that `decr` steps to. The mantissa shrinks by one, or, when it
/// is zero, becomes all ones while the exponent field shrinks by one. The
/// exponent field wraps around within its eight bits: a zero one becomes 0xFF.
/// The sign never changes.
pub open spec fn decr_spec(b: u32) -> u32 {
    if mantissa_of(b) != 0 {
        compose(sign_of(b), exponent_of(b), (mantissa_of(b) - 1) as u32)
    } else if exponent_of(b) != 0 {
        compose(sign_of(b), (exponent_of(b) - 1) as u32, 0x7F_FFFF)
    } else {
        compose(sign_of(b), 0xFF, 0x7F_FFFF)
    }
}

/// The encoding that `neg` yields: the sign bit is set when it was clear; when
/// it was set, the pattern is masked with [`NEGATIVE_NEG_MASK`].
pub open spec fn neg_spec(b: u32) -> u32 {
    if sign_of(b) == 1 {
        b & 0x7AAA_AAAA
    } else {
        b | 0x8000_0000
    }
}

/// A 32-bit pattern read as an IEEE-754 binary32 encoding: bit 31 is the sign,
/// bits 30 to 23 the biased exponent, bits 22 to 0 the mantissa. Every 32-bit
/// value is a valid pattern, NaN, infinite and subnormal encodings included.
#[derive(Clone, Copy, Debug, PartialEq, Eq, Structural)]
pub struct FloatBitPattern {
    pub value: u32,
}

impl FloatBitPattern {
    /// Wraps a raw 32-bit pattern as it is.
    pub fn new(value: u32) -> (r: FloatBitPattern)
        ensures
            r.value == value,
    {
        FloatBitPattern { value }
    }

    /// The raw 32-bit pattern.
    pub fn bits(&self) -> (r: u32)
        ensures
            r == self.value,
    {
        self.value
    }

    /// Steps to the adjacent encoding above in bit-pattern order: the mantissa
    /// grows by one, or rolls over to zero while the exponent grows by one. The
    /// exponent field wraps from 0xFF to zero and the sign is kept; see
    /// [`incr_spec`].
    pub fn incr(&mut self)
        ensures
            final(self).value == incr_spec(old(self).value),
            final(self).value & SIGN_MASK == old(self).value & SIGN_MASK,
            old(self).value & 0x7FFF_FFFF != 0x7FFF_FFFF ==> final(self).value == old(self).value
                + 1,
            old(self).value & 0x7FFF_FFFF == 0x7FFF_FFFF ==> final(self).value == old(self).value
                & SIGN_MASK,
    {
        let v: u32 = self.value;
        let mantissa: u32 = v & MANTISSA_MASK;
        if mantissa == MANTISSA_MASK {
            let e0: u32 = v & EXPONENT_MASK;
            let e1: u32 = e0 >> 23;
            assert(e1 <= 0xFF) by (bit_vector)
                requires
                    e1 == (v & 0x7F80_0000) >> 23,
            ;
            let e2: u32 = e1 + 1;
            let e3: u32 = (e2 & 0xFF) << 23;
            let r0: u32 = v & 0x807F_FFFF;
            let r1: u32 = r0 | e3;
            let r: u32 = r1 & 0xFF80_0000;
            assert(r == incr_spec(v) && r & 0x8000_0000 == v & 0x8000_0000 && (v & 0x7FFF_FFFF
                != 0x7FFF_FFFF ==> r == v + 1) && (v & 0x7FFF_FFFF == 0x7FFF_FFFF ==> r == v
                & 0x8000_0000)) by (bit_vector)
                requires
                    v & 0x7F_FFFF == 0x7F_FFFF,
                    e1 == (v & 0x7F80_0000) >> 23,
                    e2 == e1 + 1,
                    e3 == (e2 & 0xFF) << 23,
                    r == ((v & 0x807F_FFFF) | e3) & 0xFF80_0000,
            ;
            self.value = r;
        } else {
            assert(mantissa < 0x7F_FFFF) by (bit_vector)
                requires
                    mantissa == v & 0x7F_FFFF,
                    mantissa != 0x7F_FFFF,
            ;
            let m: u32 = mantissa + 1;
            let r: u32 = (v & 0xFF80_0000) | m;
            assert(r == incr_spec(v) && r == v + 1 && r & 0x8000_0000 == v & 0x8000_0000 && v
                & 0x7FFF_FFFF != 0x7FFF_FFFF) by (bit_vector)
                requires
                    v & 0x7F_FFFF != 0x7F_FFFF,
                    m == (v & 0x7F_FFFF) + 1,
                    r == (v & 0xFF80_0000) | m,
            ;
            self.value = r;
        }
    }

    /// Steps to the adjacent encoding below in bit-pattern order: the mantissa
    /// shrinks by one, or, when it is zero, becomes all ones while the exponent
    /// shrinks by one. The exponent field wraps from zero to 0xFF and the sign is
    /// kept; see [`decr_spec`].
    pub fn decr(&mut self)
        ensures
            final(self).value == decr_spec(old(self).value),
            final(self).value & SIGN_MASK == old(self).value & SIGN_MASK,
            old(self).value & 0x7FFF_FFFF != 0 ==> final(self).value == old(self).value - 1,
            old(self).value & 0x7FFF_FFFF == 0 ==> final(self).value == old(self).value
                | 0x7FFF_FFFF,
    {
        let v: u32 = self.value;
        let mantissa: u32 = v & MANTISSA_MASK;
        if mantissa == 0 {
            let e0: u32 = v & EXPONENT_MASK;
            let e1: u32 = e0 >> 23;
            let e2: u32 = e1.wrapping_sub(1);
            assert(e2 == if e1 == 0 { 0xFFFF_FFFFu32 } else { (e1 - 1) as u32 });
            let e3: u32 = (e2 & 0xFF) << 23;
            let r0: u32 = v & 0x807F_FFFF;
            let r1: u32 = r0 | e3;
            let r: u32 = r1 | MANTISSA_MASK;
            assert(r == decr_spec(v) && r & 0x8000_0000 == v & 0x8000_0000 && (v & 0x7FFF_FFFF
                != 0 ==> r == v - 1) && (v & 0x7FFF_FFFF == 0 ==> r == v | 0x7FFF_FFFF))
                by (bit_vector)
                requires
                    v & 0x7F_FFFF == 0,
                    e1 == (v & 0x7F80_0000) >> 23,
                    e2 == if e1 == 0 { 0xFFFF_FFFFu32 } else { (e1 - 1) as u32 },
                    e3 == (e2 & 0xFF) << 23,
                    r == ((v & 0x807F_FFFF) | e3) | 0x7F_FFFF,
            ;
            self.value = r;
        } else {
            let m: u32 = mantissa - 1;
            let r: u32 = (v & 0xFF80_0000) | m;
            assert(r == decr_spec(v) && r == v - 1 && r & 0x8000_0000 == v & 0x8000_0000 && v
                & 0x7FFF_FFFF != 0) by (bit_vector)
                requires
                    v & 0x7F_FFFF != 0,
                    m == (v & 0x7F_FFFF) - 1,
                    r == (v & 0xFF80_0000) | m,
            ;
            self.value = r;
        }
    }

    /// Negates by sign-bit manipulation. A pattern with the sign bit clear gets
    /// it set, which is an exact negation. A pattern with the sign bit set is
    /// masked with [`NEGATIVE_NEG_MASK`] (`0x7AAA_AAAA`): this clears the sign
    /// and also every exponent and mantissa bit where the mask is zero, so it is
    /// an exact negation only for patterns without such bits.
    pub fn neg(self) -> (r: FloatBitPattern)
        ensures
            r.value == neg_spec(self.value),
            self.value < 0x8000_0000 ==> r.value == self.value | SIGN_MASK,
            self.value >= 0x8000_0000 ==> r.value == self.value & NEGATIVE_NEG_MASK,
    {
        let v: u32 = self.value;
        let r: u32 = if v & SIGN_MASK == SIGN_MASK {
            v & NEGATIVE_NEG_MASK
        } else {
            v | SIGN_MASK
        };
        assert((sign_of(v) == 1 <==> v & 0x8000_0000 == 0x8000_0000) && (sign_of(v) == 1 <==> v
            >= 0x8000_0000)) by (bit_vector);
        FloatBitPattern { value: r }
    }
}

} // verus!
