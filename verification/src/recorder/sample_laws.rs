//! Laws of the samples: what each is in the target format, and how sequences of them convert.

use super::constants::{targets, CustomSample, Single};
use super::single_precision::{
    law_bit_pattern_stands_for_the_quotient, law_rounding_is_to_the_nearest, round24,
};
use vstd::arithmetic::power2::{lemma2_to64, lemma2_to64_rest, pow2};
use vstd::prelude::*;

verus! {

/// A sample that is single precision already is handed on as it is, whatever its bit pattern.
pub proof fn law_single_precision_is_kept(bits: u32)
    ensures
        (Single { bits }).target() == bits,
{
}

/// Samples are converted one by one: as many come out as go in, and each is what the sample at its
/// own place is in the target format, whatever stands around it.
pub proof fn law_samples_convert_one_by_one<T: CustomSample>(samples: Seq<T>)
    ensures
        targets(samples).len() == samples.len(),
        forall|i: int|
            0 <= i < samples.len() ==> #[trigger] targets(samples)[i] == samples[i].target(),
{
}

/// To convert two buffers and join them is to convert the joined buffer.
pub proof fn law_conversion_joins<T: CustomSample>(first: Seq<T>, second: Seq<T>)
    ensures
        targets(first + second) == targets(first) + targets(second),
{
    assert(targets(first + second) =~= targets(first) + targets(second));
}

/// A part of a buffer converts to that part of the converted buffer.
pub proof fn law_conversion_cuts<T: CustomSample>(samples: Seq<T>, from: int, to: int)
    requires
        0 <= from <= to <= samples.len(),
    ensures
        targets(samples.subrange(from, to)) == targets(samples).subrange(from, to),
{
    assert(targets(samples.subrange(from, to)) =~= targets(samples).subrange(from, to));
}

/// Single-precision buffers are handed on as they are.
pub proof fn law_single_precision_buffers_are_kept(samples: Seq<Single>, bits: Seq<u32>)
    requires
        samples.len() == bits.len(),
        forall|i: int| 0 <= i < bits.len() ==> (#[trigger] samples[i]).bits == bits[i],
    ensures
        targets(samples) == bits,
{
    assert(targets(samples) =~= bits);
}

/// An 8-bit sample becomes the number that it is over 128, exactly. The number of a bit pattern
/// has the leading bit as its sign, and is the significand times 2 to the exponent less 150.
pub proof fn law_8_bit_samples_are_fractions_of_full_scale(sample: i8)
    ensures
        sample == 0 ==> sample.target() == 0,
        sample != 0 ==> {
            let magnitude = sample.target() as int % 0x8000_0000;
            let exponent = magnitude / 0x80_0000;
            let significand = 0x80_0000 + magnitude % 0x80_0000;
            let whole: int = if sample < 0 { -sample } else { sample as int };
            &&& sample < 0 <==> sample.target() >= 0x8000_0000
            &&& exponent >= 1
            &&& significand * pow2(exponent as nat) * 0x80 == whole * pow2(150)
        },
{
    lemma2_to64();
    lemma_rounding_keeps_small_numbers(if sample < 0 { -sample } else { sample as int } as nat);
    law_bit_pattern_stands_for_the_quotient(sample as int, 7);
}

/// A 16-bit sample becomes the number that it is over 32768, exactly.
pub proof fn law_16_bit_samples_are_fractions_of_full_scale(sample: i16)
    ensures
        sample == 0 ==> sample.target() == 0,
        sample != 0 ==> {
            let magnitude = sample.target() as int % 0x8000_0000;
            let exponent = magnitude / 0x80_0000;
            let significand = 0x80_0000 + magnitude % 0x80_0000;
            let whole: int = if sample < 0 { -sample } else { sample as int };
            &&& sample < 0 <==> sample.target() >= 0x8000_0000
            &&& exponent >= 1
            &&& significand * pow2(exponent as nat) * 0x8000 == whole * pow2(150)
        },
{
    lemma2_to64();
    lemma_rounding_keeps_small_numbers(if sample < 0 { -sample } else { sample as int } as nat);
    law_bit_pattern_stands_for_the_quotient(sample as int, 15);
}

/// A 32-bit sample becomes the number that it is over 2 to the 31st, once it is rounded to the
/// nearest number of 24 significant bits.
pub proof fn law_32_bit_samples_are_fractions_of_full_scale(sample: i32)
    ensures
        sample == 0 ==> sample.target() == 0,
        sample != 0 ==> {
            let magnitude = sample.target() as int % 0x8000_0000;
            let exponent = magnitude / 0x80_0000;
            let significand = 0x80_0000 + magnitude % 0x80_0000;
            let whole: int = if sample < 0 { -sample } else { sample as int };
            &&& sample < 0 <==> sample.target() >= 0x8000_0000
            &&& exponent >= 1
            &&& significand * pow2(exponent as nat) * 0x8000_0000 == round24(whole as nat) * pow2(
                150,
            )
        },
{
    lemma2_to64();
    law_bit_pattern_stands_for_the_quotient(sample as int, 31);
}

/// A 64-bit sample becomes the number that it is over 2 to the 63rd, once it is rounded to the
/// nearest number of 24 significant bits.
pub proof fn law_64_bit_samples_are_fractions_of_full_scale(sample: i64)
    ensures
        sample == 0 ==> sample.target() == 0,
        sample != 0 ==> {
            let magnitude = sample.target() as int % 0x8000_0000;
            let exponent = magnitude / 0x80_0000;
            let significand = 0x80_0000 + magnitude % 0x80_0000;
            let whole: int = if sample < 0 { -sample } else { sample as int };
            &&& sample < 0 <==> sample.target() >= 0x8000_0000
            &&& exponent >= 1
            &&& significand * pow2(exponent as nat) * 0x8000_0000_0000_0000 == round24(
                whole as nat,
            ) * pow2(150)
        },
{
    lemma2_to64();
    lemma2_to64_rest();
    law_bit_pattern_stands_for_the_quotient(sample as int, 63);
}

/// An unsigned sample becomes what the signed sample at the same distance from silence becomes.
pub proof fn law_unsigned_samples_are_centred(a: u8, b: u16, c: u32, d: u64)
    ensures
        a.target() == ((a - 0x80) as i8).target(),
        b.target() == ((b - 0x8000) as i16).target(),
        c.target() == ((c - 0x8000_0000) as i32).target(),
        d.target() == ((d - 0x8000_0000_0000_0000) as i64).target(),
{
}

/// A number of at most 24 bits is its own nearest one.
proof fn lemma_rounding_keeps_small_numbers(n: nat)
    requires
        n <= 0x100_0000,
    ensures
        round24(n) == n,
{
    lemma2_to64();
    law_rounding_is_to_the_nearest(n, n, 0);
    assert(n * pow2(0) == n);
}

} // verus!
