//! Memory figures.

use vstd::prelude::*;
use crate::text::{
    decimal, fixed_one, lemma_nearest_f64_exact, lemma_round_half_even_is_nearest, nearest_f64,
    nearest_f64_value, push_decimal, push_fixed_one, round_div_half_even, round_half_even,
};

verus! {

/// What `format_memory` writes for `b` bytes: gibibytes with one decimal
/// from 1 GiB on, else mebibytes with none. The quotient is that of the
/// `f64` nearest to `b`, rounded to the decimals shown, ties to even.
pub open spec fn memory_text(b: nat) -> Seq<char> {
    if b >= 1073741824 {
        fixed_one(round_half_even(nearest_f64(b) * 10, 1073741824)) + " GB"@
    } else {
        decimal(round_half_even(b, 1048576)) + " MB"@
    }
}

/// Formats a memory size: `"15.9 GB"`, `"512 MB"`.
pub fn format_memory(bytes: u64) -> (res: String)
    ensures
        res@ == memory_text(bytes as nat),
{
    let mut s = String::new();
    if bytes >= 1073741824 {
        let f = nearest_f64_value(bytes);
        let q = round_div_half_even(f * 10, 1073741824);
        proof {
            vstd::arithmetic::div_mod::lemma_div_is_ordered((f * 10) as int, 184467440737095516160, 1073741824);
        }
        push_fixed_one(&mut s, q as u64);
        s.append(" GB");
    } else {
        let q = round_div_half_even(bytes as u128, 1048576);
        proof {
            vstd::arithmetic::div_mod::lemma_div_is_ordered(bytes as int, 1073741824, 1048576);
        }
        push_decimal(&mut s, q as u64);
        s.append(" MB");
    }
    s
}

/// A memory size is written in GB from 1 GiB on, as the number of tenths
/// of a GiB nearest to it (taken as the nearest `f64`, which is the size
/// itself below 2^53), and below that in whole MB, nearest to it; the even
/// number where two are equally near.
pub proof fn lemma_memory_text_shows_nearest(b: u64)
    ensures
        b < 1073741824 ==> exists|q: nat| #[trigger] decimal(q) + " MB"@ == memory_text(b as nat)
            && 2 * b <= 2 * q * 1048576 + 1048576 && 2 * q * 1048576 <= 2 * b + 1048576
            && ((2 * b + 1048576 == 2 * q * 1048576 || 2 * q * 1048576 + 1048576 == 2 * b) ==> q % 2 == 0),
        1073741824 <= b ==> exists|q: nat| #[trigger] fixed_one(q) + " GB"@ == memory_text(b as nat)
            && 2 * (nearest_f64(b as nat) * 10) <= 2 * q * 1073741824 + 1073741824
            && 2 * q * 1073741824 <= 2 * (nearest_f64(b as nat) * 10) + 1073741824
            && ((2 * (nearest_f64(b as nat) * 10) + 1073741824 == 2 * q * 1073741824
                || 2 * q * 1073741824 + 1073741824 == 2 * (nearest_f64(b as nat) * 10)) ==> q % 2 == 0),
        b < 9007199254740992 ==> nearest_f64(b as nat) == b,
{
    let bn = b as nat;
    if b < 1073741824 {
        let q = round_half_even(bn, 1048576);
        lemma_round_half_even_is_nearest(bn, 1048576);
        assert(decimal(q) + " MB"@ == memory_text(bn));
    } else {
        let q = round_half_even(nearest_f64(bn) * 10, 1073741824);
        lemma_round_half_even_is_nearest(nearest_f64(bn) * 10, 1073741824);
        assert(fixed_one(q) + " GB"@ == memory_text(bn));
    }
    if b < 9007199254740992 {
        lemma_nearest_f64_exact(bn);
    }
}

} // verus!
