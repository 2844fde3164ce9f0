//! Which temperature sensor is the CPU's.

use vstd::prelude::*;

verus! {

/// The lower-case form of a string, as `str::to_lowercase` computes it.
pub uninterp spec fn lowercase(s: Seq<char>) -> Seq<char>;

/// std's `str::to_lowercase`. Its result is named `lowercase` of the
/// argument: the Unicode lower-case mapping, which is not stated here.
#[verifier::external_body]
fn to_lowercase(s: &str) -> (res: String)
    ensures
        res@ == lowercase(s@),
{
    s.to_lowercase()
}

/// Whether `pat` occurs in `s` as a run of consecutive characters.
pub open spec fn has_substring(s: Seq<char>, pat: Seq<char>) -> bool {
    exists|i: int| 0 <= i && i + pat.len() <= s.len() && #[trigger] s.subrange(i, i + pat.len()) == pat
}

/// Whether an already lower-cased sensor label names a CPU sensor: it
/// mentions "cpu", "package" or "tctl".
pub open spec fn names_cpu_sensor(lowered: Seq<char>) -> bool {
    has_substring(lowered, "cpu"@) || has_substring(lowered, "package"@) || has_substring(lowered, "tctl"@)
}

/// Whether the sensor label `label` is a CPU's, whatever its case.
pub open spec fn is_cpu_label(label: Seq<char>) -> bool {
    names_cpu_sensor(lowercase(label))
}

/// Whether `pat` occurs in `s`.
pub fn contains_str(s: &str, pat: &str) -> (res: bool)
    ensures
        res == has_substring(s@, pat@),
{
    let n = s.unicode_len();
    let m = pat.unicode_len();
    if m > n {
        proof {
            assert forall|i: int| 0 <= i && i + pat@.len() <= s@.len() implies
                #[trigger] s@.subrange(i, i + pat@.len()) != pat@ by {}
        }
        return false;
    }
    if m == 0 {
        assert(s@.subrange(0, 0 + pat@.len() as int) =~= pat@);
        return true;
    }
    let mut i: usize = 0;
    while i <= n - m
        invariant
            n == s@.len(),
            m == pat@.len(),
            1 <= m <= n,
            i <= n - m + 1,
            forall|k: int| 0 <= k < i ==> #[trigger] s@.subrange(k, k + m) != pat@,
        decreases n - m + 1 - i,
    {
        let mut j: usize = 0;
        let mut same = true;
        while j < m
            invariant
                n == s@.len(),
                m == pat@.len(),
                i + m <= n,
                j <= m,
                same ==> forall|k: int| 0 <= k < j ==> s@[i + k] == pat@[k],
                !same ==> s@.subrange(i as int, i + m) != pat@,
            decreases m - j,
        {
            if s.get_char(i + j) != pat.get_char(j) {
                if same {
                    assert(s@.subrange(i as int, i + m)[j as int] != pat@[j as int]);
                }
                same = false;
            }
            j = j + 1;
        }
        if same {
            assert(s@.subrange(i as int, i + m) =~= pat@);
            return true;
        }
        i = i + 1;
    }
    false
}

/// Whether a lower-cased label names a CPU sensor.
pub fn mentions_cpu(lowered: &str) -> (res: bool)
    ensures
        res == names_cpu_sensor(lowered@),
{
    contains_str(lowered, "cpu") || contains_str(lowered, "package") || contains_str(lowered, "tctl")
}

/// Whether the sensor label `label` is a CPU's.
pub fn is_cpu_sensor_label(label: &str) -> (res: bool)
    ensures
        res == is_cpu_label(label@),
{
    let lowered = to_lowercase(label);
    mentions_cpu(lowered.as_str())
}

/// The first sensor that is a CPU's and reads above zero degrees, given the
/// sensors' labels and whether each reading is above zero.
pub fn first_cpu_sensor(labels: &Vec<String>, above_zero: &Vec<bool>) -> (res: Option<usize>)
    requires
        labels.len() == above_zero.len(),
    ensures
        match res {
            Some(i) => {
                &&& i < labels.len()
                &&& is_cpu_label(labels@[i as int]@)
                &&& above_zero@[i as int]
                &&& forall|j: int| 0 <= j < i ==> !(is_cpu_label(#[trigger] labels@[j]@) && above_zero@[j])
            },
            None => forall|j: int| 0 <= j < labels.len() ==> !(is_cpu_label(#[trigger] labels@[j]@) && above_zero@[j]),
        },
{
    let mut i: usize = 0;
    while i < labels.len()
        invariant
            i <= labels.len(),
            labels.len() == above_zero.len(),
            forall|j: int| 0 <= j < i ==> !(is_cpu_label(#[trigger] labels@[j]@) && above_zero@[j]),
        decreases labels.len() - i,
    {
        if is_cpu_sensor_label(labels[i].as_str()) && above_zero[i] {
            return Some(i);
        }
        i = i + 1;
    }
    None
}

/// `s` is `a`, then `p`, then `b`.
pub open spec fn splits_around(s: Seq<char>, a: Seq<char>, p: Seq<char>, b: Seq<char>) -> bool {
    s == a + p + b
}

/// `p` occurs in `s` exactly when `s` is some text, then `p`, then some text.
pub proof fn lemma_substring_is_infix(s: Seq<char>, p: Seq<char>)
    ensures
        has_substring(s, p) <==> exists|a: Seq<char>, b: Seq<char>| #[trigger] splits_around(s, a, p, b),
{
    if has_substring(s, p) {
        let i = choose|i: int| 0 <= i && i + p.len() <= s.len() && #[trigger] s.subrange(i, i + p.len()) == p;
        let a = s.subrange(0, i);
        let b = s.subrange(i + p.len(), s.len() as int);
        assert(s =~= a + p + b);
        assert(splits_around(s, a, p, b));
    }
    if exists|a: Seq<char>, b: Seq<char>| #[trigger] splits_around(s, a, p, b) {
        let (a, b) = choose|a: Seq<char>, b: Seq<char>| #[trigger] splits_around(s, a, p, b);
        let i = a.len() as int;
        assert(s.subrange(i, i + p.len()) =~= p);
    }
}

/// A lower-cased label names a CPU sensor exactly when "cpu", "package" or
/// "tctl" stands somewhere in it.
pub proof fn lemma_cpu_sensor_words(lowered: Seq<char>)
    ensures
        names_cpu_sensor(lowered) <==> (
            (exists|a: Seq<char>, b: Seq<char>| #[trigger] splits_around(lowered, a, "cpu"@, b))
            || (exists|a: Seq<char>, b: Seq<char>| #[trigger] splits_around(lowered, a, "package"@, b))
            || (exists|a: Seq<char>, b: Seq<char>| #[trigger] splits_around(lowered, a, "tctl"@, b))
        ),
{
    lemma_substring_is_infix(lowered, "cpu"@);
    lemma_substring_is_infix(lowered, "package"@);
    lemma_substring_is_infix(lowered, "tctl"@);
}

/// Any lower-cased label with "cpu", "package" or "tctl" in it, whatever
/// surrounds the word, names a CPU sensor.
pub proof fn lemma_cpu_words_anywhere(a: Seq<char>, b: Seq<char>)
    ensures
        names_cpu_sensor(a + "cpu"@ + b),
        names_cpu_sensor(a + "package"@ + b),
        names_cpu_sensor(a + "tctl"@ + b),
{
    assert(splits_around(a + "cpu"@ + b, a, "cpu"@, b));
    assert(splits_around(a + "package"@ + b, a, "package"@, b));
    assert(splits_around(a + "tctl"@ + b, a, "tctl"@, b));
    lemma_cpu_sensor_words(a + "cpu"@ + b);
    lemma_cpu_sensor_words(a + "package"@ + b);
    lemma_cpu_sensor_words(a + "tctl"@ + b);
}

} // verus!
