//! Pure SSI word decoding.

use vstd::prelude::*;

verus! {

#[derive(Clone, Copy, Debug, PartialEq, Eq, Structural)]
pub enum SsiError {
    InvalidFormat,
    InvalidWord,
}

/// Encoder counts per revolution, for scaling positions to revolutions.
#[derive(Clone, Copy, Debug)]
pub struct SsiScale {
    pub counts_per_rev: u32,
}

#[derive(Clone, Copy, Debug, PartialEq, Eq, Structural)]
pub struct SsiFormat {
    pub bits: u8,
    pub gray: bool,
}

/// Largest word of `bits` bits.
pub open spec fn word_mask(bits: u8) -> u32 {
    if bits >= 32 {
        0xFFFF_FFFFu32
    } else {
        ((1u32 << bits) - 1u32) as u32
    }
}

/// Gray code of a binary word.
pub open spec fn gray_code(binary: u32) -> u32 {
    binary ^ (binary >> 1u32)
}

/// Bit `i` of `w`.
pub open spec fn bit_of(w: u32, i: u32) -> u32 {
    (w >> i) & 1u32
}

proof fn lemma_mask_test(raw: u32, bits: u8)
    requires
        1 <= bits <= 32,
    ensures
        (raw & !word_mask(bits) != 0) == (raw > word_mask(bits)),
{
    if bits < 32 {
        let b = bits as u32;
        assert((raw & !(((1u32 << b) - 1u32) as u32) != 0) == (raw > (((1u32 << b) - 1u32) as u32)))
            by (bit_vector)
            requires
                b < 32,
        ;
    } else {
        assert((raw & !0xFFFF_FFFFu32 != 0) == (raw > 0xFFFF_FFFFu32)) by (bit_vector);
    }
}

/// The Gray code is a bijection: distinct words have distinct codes.
pub proof fn lemma_gray_injective(a: u32, b: u32)
    ensures
        gray_code(a) == gray_code(b) ==> a == b,
{
    assert(a ^ (a >> 1u32) == b ^ (b >> 1u32) ==> a == b) by (bit_vector);
}

impl SsiFormat {
    /// Decode a raw SSI word: reject words wider than the format, and undo
    /// the Gray code when the encoder uses one.
    pub fn decode(&self, raw: u32) -> (r: Result<u32, SsiError>)
        ensures
            !(1 <= self.bits <= 32) ==> r == Err::<u32, SsiError>(SsiError::InvalidFormat),
            1 <= self.bits <= 32 && raw > word_mask(self.bits) ==> r == Err::<u32, SsiError>(
                SsiError::InvalidWord,
            ),
            1 <= self.bits <= 32 && raw <= word_mask(self.bits) && !self.gray ==> r == Ok::<
                u32,
                SsiError,
            >(raw),
            1 <= self.bits <= 32 && raw <= word_mask(self.bits) && self.gray ==> (r matches Ok(
                b,
            ) && gray_code(b) == raw && b <= word_mask(self.bits)),
    {
        if self.bits < 1 || self.bits > 32 {
            return Err(SsiError::InvalidFormat);
        }
        let mask: u32 = if self.bits == 32 {
            0xFFFF_FFFF
        } else {
            let b = self.bits as u32;
            assert(1u32 << b >= 1) by (bit_vector)
                requires
                    b < 32,
            ;
            (1u32 << b) - 1
        };
        proof {
            lemma_mask_test(raw, self.bits);
        }
        if raw & !mask != 0 {
            return Err(SsiError::InvalidWord);
        }
        if !self.gray {
            return Ok(raw);
        }
        let b1 = raw ^ (raw >> 1u32);
        let b2 = b1 ^ (b1 >> 2u32);
        let b3 = b2 ^ (b2 >> 4u32);
        let b4 = b3 ^ (b3 >> 8u32);
        let binary = b4 ^ (b4 >> 16u32);
        assert(binary ^ (binary >> 1u32) == raw && binary & mask == binary && binary <= mask)
            by (bit_vector)
            requires
                b1 == raw ^ (raw >> 1u32),
                b2 == b1 ^ (b1 >> 2u32),
                b3 == b2 ^ (b2 >> 4u32),
                b4 == b3 ^ (b3 >> 8u32),
                binary == b4 ^ (b4 >> 16u32),
                raw & !mask == 0,
                mask == 0xFFFF_FFFFu32 || exists|k: u32| k < 32 && mask == ((1u32 << k) - 1u32),
        ;
        Ok(binary & mask)
    }
}

/// Gray-coded words decode to the binary word they encode.
pub proof fn lemma_gray_round_trip(binary: u32, decoded: u32)
    requires
        gray_code(decoded) == gray_code(binary),
    ensures
        decoded == binary,
{
    lemma_gray_injective(decoded, binary);
}

proof fn lemma_set_bit(w: u32, x: u32, b: u32)
    requires
        b < 32,
        x <= 1,
        w >> b == 0,
    ensures
        forall|i: u32| i < b ==> #[trigger] bit_of(w | (x << b), i) == bit_of(w, i),
        bit_of(w | (x << b), b) == x,
        (w | (x << b)) >> (b + 1) as u32 == 0 || b == 31,
{
    assert forall|i: u32| i < b implies #[trigger] bit_of(w | (x << b), i) == bit_of(w, i) by {
        assert(((w | (x << b)) >> i) & 1u32 == (w >> i) & 1u32) by (bit_vector)
            requires
                i < b,
                b < 32,
                x <= 1,
        ;
    }
    assert(((w | (x << b)) >> b) & 1u32 == x) by (bit_vector)
        requires
            b < 32,
            x <= 1,
            w >> b == 0,
    ;
    assert(b < 31 ==> (w | (x << b)) >> ((b + 1) as u32) == 0) by (bit_vector)
        requires
            b < 32,
            x <= 1,
            w >> b == 0,
    ;
}

/// Split a word whose bits alternate between two encoders into the two
/// words: even bits to the first, odd bits to the second.
pub fn deinterleave_pair(raw: u32, bits: u8) -> (r: Result<[u32; 2], SsiError>)
    ensures
        !(1 <= bits <= 16) ==> r == Err::<[u32; 2], SsiError>(SsiError::InvalidFormat),
        1 <= bits <= 16 && bits < 16 && raw >> (2 * bits) as u32 != 0 ==> r == Err::<
            [u32; 2],
            SsiError,
        >(SsiError::InvalidWord),
        1 <= bits <= 16 && (bits == 16 || raw >> (2 * bits) as u32 == 0) ==> r is Ok,
        r matches Ok(words) ==> {
            &&& forall|i: u32|
                i < bits ==> #[trigger] bit_of(words[0], i) == bit_of(raw, (2 * i) as u32) && bit_of(
                    words[1],
                    i,
                ) == bit_of(raw, (2 * i + 1) as u32)
            &&& forall|i: u32| bits <= i < 32 ==> #[trigger] bit_of(words[0], i) == 0 && bit_of(
                words[1],
                i,
            ) == 0
        },
{
    if bits < 1 || bits > 16 {
        return Err(SsiError::InvalidFormat);
    }
    let used = (bits as u32) * 2;
    if used < 32 && raw >> used != 0 {
        return Err(SsiError::InvalidWord);
    }
    let mut w0: u32 = 0;
    let mut w1: u32 = 0;
    let mut bit: u8 = 0;
    assert(0u32 >> 0u32 == 0) by (bit_vector);
    while bit < bits
        invariant
            1 <= bits <= 16,
            bit <= bits,
            forall|i: u32|
                i < bit ==> #[trigger] bit_of(w0, i) == bit_of(raw, (2 * i) as u32) && bit_of(w1, i)
                    == bit_of(raw, (2 * i + 1) as u32),
            w0 >> (bit as u32) == 0,
            w1 >> (bit as u32) == 0,
        decreases bits - bit,
    {
        let b = bit as u32;
        let shift = b * 2;
        let x0 = (raw >> shift) & 1;
        let x1 = (raw >> (shift + 1)) & 1;
        assert(x0 <= 1 && x1 <= 1) by (bit_vector)
            requires
                x0 == (raw >> shift) & 1u32,
                x1 == (raw >> (shift + 1) as u32) & 1u32,
        ;
        proof {
            lemma_set_bit(w0, x0, b);
            lemma_set_bit(w1, x1, b);
        }
        w0 = w0 | (x0 << b);
        w1 = w1 | (x1 << b);
        bit = bit + 1;
    }
    assert forall|i: u32| bits <= i < 32 implies #[trigger] bit_of(w0, i) == 0 && bit_of(w1, i)
        == 0 by {
        let k = bits as u32;
        assert(w0 >> k == 0 && k <= i < 32 ==> (w0 >> i) & 1u32 == 0) by (bit_vector);
        assert(w1 >> k == 0 && k <= i < 32 ==> (w1 >> i) & 1u32 == 0) by (bit_vector);
    }
    Ok([w0, w1])
}

} // verus!
