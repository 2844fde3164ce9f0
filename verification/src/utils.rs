//! Date formatting.

use vstd::prelude::*;
use crate::text::{decimal, digits_value, is_digit, lemma_decimal_reads_back, push_char, push_decimal};

verus! {

/// `s` padded on the left with zeros to at least `width` characters.
pub open spec fn zero_padded(s: Seq<char>, width: nat) -> Seq<char> {
    if s.len() < width {
        Seq::new((width - s.len()) as nat, |i: int| '0') + s
    } else {
        s
    }
}

/// A year as `{:04}` writes it: four digits at least, a minus sign counting
/// towards the width of a negative year.
pub open spec fn year_text(y: int) -> Seq<char> {
    if y >= 0 {
        zero_padded(decimal(y as nat), 4)
    } else {
        seq!['-'] + zero_padded(decimal((-y) as nat), 3)
    }
}

/// A date as `YYYY-MM-DD`, month and day on two digits at least.
pub open spec fn date_text(year: int, month: nat, day: nat) -> Seq<char> {
    year_text(year) + seq!['-'] + zero_padded(decimal(month), 2) + seq!['-'] + zero_padded(decimal(day), 2)
}

/// The number of digits of `n`.
fn decimal_len(n: u64) -> (res: u64)
    ensures
        res == decimal(n as nat).len(),
        1 <= res <= n + 1,
    decreases n,
{
    if n < 10 {
        1
    } else {
        let k = decimal_len(n / 10);
        k + 1
    }
}

/// Appends `n` padded with zeros to `width` digits.
fn push_zero_padded(s: &mut String, n: u64, width: u64)
    ensures
        final(s)@ == old(s)@ + zero_padded(decimal(n as nat), width as nat),
{
    let len = decimal_len(n);
    let mut k: u64 = len;
    while k < width
        invariant
            len == decimal(n as nat).len(),
            len <= k,
            k <= width || len > width,
            len >= width ==> k == len,
            s@ == old(s)@ + Seq::new((k - len) as nat, |i: int| '0'),
        decreases width - k,
    {
        push_char(s, '0');
        k = k + 1;
        assert(s@ =~= old(s)@ + Seq::new((k - len) as nat, |i: int| '0'));
    }
    let ghost before = s@;
    push_decimal(s, n);
    proof {
        if len < width {
            assert(k == width);
            assert(s@ =~= old(s)@ + zero_padded(decimal(n as nat), width as nat));
        } else {
            assert(k == len);
            assert(s@ =~= old(s)@ + zero_padded(decimal(n as nat), width as nat));
        }
    }
}

/// Formats a date as `YYYY-MM-DD`.
pub fn format_date(year: i32, month: u32, day: u32) -> (res: String)
    ensures
        res@ == date_text(year as int, month as nat, day as nat),
{
    let mut s = String::new();
    if year >= 0 {
        push_zero_padded(&mut s, year as u64, 4);
    } else {
        push_char(&mut s, '-');
        let magnitude: u64 = (-(year as i64)) as u64;
        push_zero_padded(&mut s, magnitude, 3);
    }
    push_char(&mut s, '-');
    push_zero_padded(&mut s, month as u64, 2);
    push_char(&mut s, '-');
    push_zero_padded(&mut s, day as u64, 2);
    assert(s@ =~= date_text(year as int, month as nat, day as nat));
    s
}

proof fn lemma_leading_zeros_read_nothing(k: nat, s: Seq<char>)
    ensures
        digits_value(Seq::new(k, |i: int| '0') + s) == digits_value(s),
        digits_value(Seq::new(k, |i: int| '0')) == 0,
    decreases s.len() + k,
{
    let z = Seq::new(k, |i: int| '0');
    if k > 0 {
        lemma_leading_zeros_read_nothing((k - 1) as nat, Seq::<char>::empty());
        assert(z.drop_last() =~= Seq::new((k - 1) as nat, |i: int| '0'));
    }
    if s.len() > 0 {
        lemma_leading_zeros_read_nothing(k, s.drop_last());
        assert((z + s).drop_last() =~= z + s.drop_last());
        assert((z + s).last() == s.last());
    } else {
        assert(z + s =~= z);
    }
}

/// A number padded with zeros to a width is a string of digits, as long as
/// the width or the number's own digits, whichever is longer, that reads
/// as the number.
pub proof fn lemma_zero_padded_reads_back(n: nat, width: nat)
    ensures
        ({
            let t = zero_padded(decimal(n), width);
            &&& t.len() == if decimal(n).len() < width { width } else { decimal(n).len() }
            &&& forall|i: int| 0 <= i < t.len() ==> #[trigger] is_digit(t[i])
            &&& digits_value(t) == n
        }),
{
    lemma_decimal_reads_back(n);
    let d = decimal(n);
    if d.len() < width {
        let k = (width - d.len()) as nat;
        lemma_leading_zeros_read_nothing(k, d);
        let t = zero_padded(d, width);
        assert forall|i: int| 0 <= i < t.len() implies #[trigger] is_digit(t[i]) by {
            if i >= k {
                assert(t[i] == d[i - k]);
            }
        }
    }
}

} // verus!
