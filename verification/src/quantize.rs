//! The luminance quantizer: maps one grayscale sample to one character of the
//! fixed density gradient, with near-white samples mapped to the blank marker.

use vstd::prelude::*;

verus! {

/// The density gradient, densest first, emptiest last.
pub open spec fn gradient_spec() -> Seq<char> {
    seq!['@', '%', '#', 'M', 'W', '&', '8', 'B', '$', '*', 'o', '!', ';', ':', '.', ' ']
}

/// What the quantizer returns for a luminance sample in `[0, 255]`:
/// the blank marker above the near-white cutoff, otherwise the gradient
/// character picked by floor division.
pub open spec fn quantize_spec(s: int) -> char {
    if s > 240 {
        ' '
    } else {
        gradient_spec()[s * 15 / 255]
    }
}

/// Below the near-white cutoff the quantizer is monotone: as the sample
/// brightens, the gradient index it picks never moves back toward the dense
/// end, so density is non-increasing in luminance.
pub proof fn lemma_quantize_monotone(s1: int, s2: int)
    requires
        0 <= s1 <= s2 <= 240,
    ensures
        s1 * 15 / 255 <= s2 * 15 / 255,
        0 <= s1 * 15 / 255 <= 14,
{
    vstd::arithmetic::mul::lemma_mul_inequality(s1, s2, 15);
    vstd::arithmetic::div_mod::lemma_div_is_ordered(s1 * 15, s2 * 15, 255);
    vstd::arithmetic::div_mod::lemma_div_is_ordered(0, s1 * 15, 255);
    vstd::arithmetic::div_mod::lemma_div_is_ordered(s1 * 15, 240int * 15, 255);
}

/// The gradient character at `i`.
pub fn gradient_char(i: usize) -> (c: char)
    requires
        i < 16,
    ensures
        c == gradient_spec()[i as int],
{
    match i {
        0 => '@',
        1 => '%',
        2 => '#',
        3 => 'M',
        4 => 'W',
        5 => '&',
        6 => '8',
        7 => 'B',
        8 => '$',
        9 => '*',
        10 => 'o',
        11 => '!',
        12 => ';',
        13 => ':',
        14 => '.',
        _ => ' ',
    }
}

/// Quantize one luminance sample: samples above the cutoff are blank, the
/// rest index the gradient by `s * (L - 1) / 255` with floor division.
pub fn quantize(s: u8) -> (c: char)
    ensures
        c == quantize_spec(s as int),
        s > 240 ==> c == ' ',
{
    if s > 240 {
        ' '
    } else {
        let idx: usize = (s as usize) * 15 / 255;
        assert(idx <= 14) by {
            assert((s as usize) * 15 <= 240 * 15);
        };
        gradient_char(idx)
    }
}

} // verus!
