//! Network traffic: what each refresh counts, per adapter or over all of
//! them, and the formatting of byte counts.

use vstd::prelude::*;
use crate::text::{
    decimal, fixed_one, fixed_two, lemma_nearest_f64_exact, lemma_round_half_even_is_nearest,
    nearest_f64, nearest_f64_value, push_decimal, push_fixed_one, push_fixed_two,
    round_div_half_even, round_half_even,
};

verus! {

/// What `format_bytes` writes for `b` bytes: the largest binary unit up to
/// TiB that is at most `b`, with two decimals from MiB on, one for KiB and
/// none for bytes. The quotient is that of the `f64` nearest to `b`
/// (which is `b` itself below 2^53), rounded to the decimals shown, ties to
/// even.
pub open spec fn bytes_text(b: nat) -> Seq<char> {
    if b >= 1099511627776 {
        fixed_two(round_half_even(nearest_f64(b) * 100, 1099511627776)) + " TB"@
    } else if b >= 1073741824 {
        fixed_two(round_half_even(b * 100, 1073741824)) + " GB"@
    } else if b >= 1048576 {
        fixed_two(round_half_even(b * 100, 1048576)) + " MB"@
    } else if b >= 1024 {
        fixed_one(round_half_even(b * 10, 1024)) + " KB"@
    } else {
        decimal(b) + " B"@
    }
}

/// Formats a byte count: `"1.50 GB"`, `"12.0 KB"`, `"512 B"`.
pub fn format_bytes(bytes: u64) -> (res: String)
    ensures
        res@ == bytes_text(bytes as nat),
{
    let mut s = String::new();
    if bytes >= 1099511627776 {
        let f = nearest_f64_value(bytes);
        let q = round_div_half_even(f * 100, 1099511627776);
        proof {
            vstd::arithmetic::div_mod::lemma_div_is_ordered((f * 100) as int, 1844674407370955161600, 1099511627776);
        }
        push_fixed_two(&mut s, q as u64);
        s.append(" TB");
    } else if bytes >= 1073741824 {
        let q = round_div_half_even(bytes as u128 * 100, 1073741824);
        proof {
            vstd::arithmetic::div_mod::lemma_div_is_ordered((bytes * 100) as int, 109951162777600, 1073741824);
        }
        push_fixed_two(&mut s, q as u64);
        s.append(" GB");
    } else if bytes >= 1048576 {
        let q = round_div_half_even(bytes as u128 * 100, 1048576);
        proof {
            vstd::arithmetic::div_mod::lemma_div_is_ordered((bytes * 100) as int, 107374182400, 1048576);
        }
        push_fixed_two(&mut s, q as u64);
        s.append(" MB");
    } else if bytes >= 1024 {
        let q = round_div_half_even(bytes as u128 * 10, 1024);
        proof {
            vstd::arithmetic::div_mod::lemma_div_is_ordered((bytes * 10) as int, 10485760, 1024);
        }
        push_fixed_one(&mut s, q as u64);
        s.append(" KB");
    } else {
        push_decimal(&mut s, bytes);
        s.append(" B");
    }
    s
}

/// One adapter's cumulative counters, as the system reports them.
#[derive(Debug)]
pub struct AdapterSample {
    pub name: String,
    pub received: u64,
    pub transmitted: u64,
}

/// What one refresh counted: the bytes moved since the previous refresh,
/// the adapters' cumulative counters, and the adapter they are for
/// (`"All"` unless the selected adapter was among the samples).
#[derive(Debug)]
pub struct TrafficTotals {
    pub delta_received: u64,
    pub delta_transmitted: u64,
    pub total_received: u64,
    pub total_transmitted: u64,
    pub adapter_name: String,
}

/// The counters last seen of one adapter.
struct LastSeen {
    name: String,
    received: u64,
    transmitted: u64,
}

/// The previous counters of every adapter seen, and the adapter to count
/// (`None` for all of them).
pub struct TrafficCounter {
    last_seen: Vec<LastSeen>,
    selected_adapter: Option<String>,
}

/// Whether the adapter `name` is counted under the selection `selected`.
pub open spec fn included(selected: Option<Seq<char>>, name: Seq<char>) -> bool {
    match selected {
        Some(s) => s == name,
        None => true,
    }
}

/// `a - b`, or zero where `b` is larger (a counter that went back).
pub open spec fn saturating_diff(a: u64, b: u64) -> nat {
    if a >= b { (a - b) as nat } else { 0 }
}

/// The bytes received by the counted adapters, by their counters.
pub open spec fn sum_received(selected: Option<Seq<char>>, samples: Seq<AdapterSample>) -> nat
    decreases samples.len(),
{
    if samples.len() == 0 {
        0
    } else {
        let s = samples.last();
        sum_received(selected, samples.drop_last()) + if included(selected, s.name@) { s.received as nat } else { 0 }
    }
}

/// The bytes transmitted by the counted adapters, by their counters.
pub open spec fn sum_transmitted(selected: Option<Seq<char>>, samples: Seq<AdapterSample>) -> nat
    decreases samples.len(),
{
    if samples.len() == 0 {
        0
    } else {
        let s = samples.last();
        sum_transmitted(selected, samples.drop_last()) + if included(selected, s.name@) { s.transmitted as nat } else { 0 }
    }
}

/// A refresh over `samples`, in order, from the previous counters `prev`:
/// the previous counters afterwards, the bytes received and transmitted
/// since, and whether the selected adapter was met. Each counted sample
/// adds what its counters grew by since the previous ones of its adapter
/// (nothing for an adapter seen for the first time, nothing for a counter
/// that went back), and its counters become the previous ones.
pub open spec fn tally(
    prev: Map<Seq<char>, (u64, u64)>,
    selected: Option<Seq<char>>,
    samples: Seq<AdapterSample>,
) -> (Map<Seq<char>, (u64, u64)>, nat, nat, bool)
    decreases samples.len(),
{
    if samples.len() == 0 {
        (prev, 0, 0, false)
    } else {
        let t = tally(prev, selected, samples.drop_last());
        let s = samples.last();
        if !included(selected, s.name@) {
            t
        } else {
            let last = if t.0.contains_key(s.name@) { t.0[s.name@] } else { (s.received, s.transmitted) };
            (
                t.0.insert(s.name@, (s.received, s.transmitted)),
                t.1 + saturating_diff(s.received, last.0),
                t.2 + saturating_diff(s.transmitted, last.1),
                t.3 || selected == Some(s.name@),
            )
        }
    }
}

/// Whether no two samples are of the same adapter.
pub open spec fn distinct_names(samples: Seq<AdapterSample>) -> bool {
    forall|i: int, j: int| 0 <= i < j < samples.len() ==> samples[i].name@ != samples[j].name@
}

spec fn unique_names(entries: Seq<LastSeen>) -> bool {
    forall|i: int, j: int| 0 <= i < j < entries.len() ==> entries[i].name@ != entries[j].name@
}

spec fn has_name(entries: Seq<LastSeen>, k: Seq<char>) -> bool {
    exists|i: int| 0 <= i < entries.len() && entries[i].name@ == k
}

spec fn entries_map(entries: Seq<LastSeen>) -> Map<Seq<char>, (u64, u64)> {
    Map::new(
        |k: Seq<char>| has_name(entries, k),
        |k: Seq<char>| {
            let i = choose|i: int| 0 <= i < entries.len() && entries[i].name@ == k;
            (entries[i].received, entries[i].transmitted)
        },
    )
}

proof fn lemma_entries_map_at(entries: Seq<LastSeen>, i: int)
    requires
        unique_names(entries),
        0 <= i < entries.len(),
    ensures
        entries_map(entries).contains_key(entries[i].name@),
        entries_map(entries)[entries[i].name@] == (entries[i].received, entries[i].transmitted),
{
    let k = entries[i].name@;
    assert(entries_map(entries).dom().contains(k));
    let j = choose|j: int| 0 <= j < entries.len() && entries[j].name@ == k;
    assert(j == i);
}

proof fn lemma_entries_map_store(entries: Seq<LastSeen>, after: Seq<LastSeen>, e: LastSeen)
    requires
        unique_names(entries),
        unique_names(after),
        forall|k: Seq<char>| k != e.name@ ==> (#[trigger] has_name(entries, k) <==> has_name(after, k)),
        forall|i: int| 0 <= i < after.len() && after[i].name@ != e.name@ ==>
            exists|j: int| 0 <= j < entries.len() && entries[j] == #[trigger] after[i],
        exists|i: int| 0 <= i < after.len() && after[i] == e,
    ensures
        entries_map(after) == entries_map(entries).insert(e.name@, (e.received, e.transmitted)),
{
    let m = entries_map(entries).insert(e.name@, (e.received, e.transmitted));
    assert forall|k: Seq<char>| #[trigger] entries_map(after).contains_key(k) <==> m.contains_key(k) by {}
    assert forall|k: Seq<char>| entries_map(after).contains_key(k) implies #[trigger] entries_map(after)[k] == m[k] by {
        let i = choose|i: int| 0 <= i < after.len() && after[i].name@ == k;
        lemma_entries_map_at(after, i);
        if k == e.name@ {
            let w = choose|w: int| 0 <= w < after.len() && after[w] == e;
            lemma_entries_map_at(after, w);
        } else {
            let j = choose|j: int| 0 <= j < entries.len() && entries[j] == after[i];
            lemma_entries_map_at(entries, j);
        }
    }
    assert(entries_map(after) =~= m);
}

/// Writing the record `e` at position `w` (over the record of the same
/// adapter, or appended for a new adapter) keeps one record per adapter
/// and stores `e`'s counters under its name.
proof fn lemma_store_entry(before: Seq<LastSeen>, after: Seq<LastSeen>, e: LastSeen, w: int)
    requires
        unique_names(before),
        0 <= w < after.len(),
        after[w] == e,
        after.len() == if w < before.len() { before.len() } else { before.len() + 1 },
        w < before.len() ==> before[w].name@ == e.name@,
        w == before.len() ==> !has_name(before, e.name@),
        forall|a: int| 0 <= a < after.len() && a != w ==> a < before.len() && after[a] == before[a],
    ensures
        unique_names(after),
        entries_map(after) == entries_map(before).insert(e.name@, (e.received, e.transmitted)),
{
    assert forall|a: int, b: int| 0 <= a < b < after.len() implies after[a].name@ != after[b].name@ by {
        if a != w && b != w {
            assert(before[a].name@ != before[b].name@);
        } else if w < before.len() {
            assert(before[a].name@ != before[b].name@);
        } else if a == w {
            assert(after[b] == before[b]);
        } else {
            assert(after[a] == before[a]);
        }
    }
    assert forall|k: Seq<char>| k != e.name@ implies (#[trigger] has_name(before, k) <==> has_name(after, k)) by {
        if has_name(before, k) {
            let j = choose|j: int| 0 <= j < before.len() && before[j].name@ == k;
            if j == w {
                assert(before[w].name@ == e.name@);
            }
            assert(after[j] == before[j]);
        }
        if has_name(after, k) {
            let j = choose|j: int| 0 <= j < after.len() && after[j].name@ == k;
            assert(before[j] == after[j]);
        }
    }
    assert forall|a: int| 0 <= a < after.len() && after[a].name@ != e.name@ implies
        exists|j: int| 0 <= j < before.len() && before[j] == #[trigger] after[a] by {
        assert(before[a] == after[a]);
    }
    lemma_entries_map_store(before, after, e);
}

impl TrafficCounter {
    /// The previous counters (received, transmitted) of each adapter seen.
    pub closed spec fn prev(&self) -> Map<Seq<char>, (u64, u64)> {
        entries_map(self.last_seen@)
    }

    /// The adapter counted, or `None` for all of them.
    pub closed spec fn selected(&self) -> Option<Seq<char>> {
        match self.selected_adapter {
            Some(s) => Some(s@),
            None => None,
        }
    }

    /// The counter's internal invariant: one record per adapter.
    pub closed spec fn wf(&self) -> bool {
        unique_names(self.last_seen@)
    }

    fn position(&self, name: &String) -> (res: Option<usize>)
        requires
            self.wf(),
        ensures
            match res {
                Some(i) => i < self.last_seen@.len() && self.last_seen@[i as int].name@ == name@,
                None => forall|i: int| 0 <= i < self.last_seen@.len() ==> self.last_seen@[i].name@ != name@,
            },
    {
        let mut i: usize = 0;
        while i < self.last_seen.len()
            invariant
                i <= self.last_seen@.len(),
                forall|j: int| 0 <= j < i ==> self.last_seen@[j].name@ != name@,
            decreases self.last_seen@.len() - i,
        {
            if self.last_seen[i].name == *name {
                return Some(i);
            }
            i = i + 1;
        }
        None
    }

    /// The previous counters of the adapter `name`, if it was seen.
    fn previous(&self, name: &String) -> (res: Option<(u64, u64)>)
        requires
            self.wf(),
        ensures
            res == if self.prev().contains_key(name@) { Some(self.prev()[name@]) } else { None::<(u64, u64)> },
    {
        match self.position(name) {
            Some(i) => {
                proof {
                    lemma_entries_map_at(self.last_seen@, i as int);
                }
                Some((self.last_seen[i].received, self.last_seen[i].transmitted))
            },
            None => {
                assert(!self.prev().contains_key(name@));
                None
            },
        }
    }

    /// Records the counters of the adapter `name`.
    fn record(&mut self, name: &String, received: u64, transmitted: u64)
        requires
            old(self).wf(),
        ensures
            final(self).wf(),
            final(self).prev() == old(self).prev().insert(name@, (received, transmitted)),
            final(self).selected() == old(self).selected(),
    {
        let e = LastSeen { name: name.clone(), received, transmitted };
        let ghost before = self.last_seen@;
        match self.position(name) {
            Some(i) => {
                self.last_seen.set(i, e);
                proof {
                    lemma_store_entry(before, self.last_seen@, e, i as int);
                }
            },
            None => {
                self.last_seen.push(e);
                proof {
                    lemma_store_entry(before, self.last_seen@, e, before.len() as int);
                }
            },
        }
    }
}

proof fn lemma_tally_step(prev: Map<Seq<char>, (u64, u64)>, selected: Option<Seq<char>>, samples: Seq<AdapterSample>, i: int)
    requires
        0 <= i < samples.len(),
    ensures
        samples.take(i + 1).drop_last() == samples.take(i),
        samples.take(i + 1).last() == samples[i],
        tally(prev, selected, samples.take(i + 1)) == ({
            let t = tally(prev, selected, samples.take(i));
            let s = samples[i];
            if !included(selected, s.name@) {
                t
            } else {
                let last = if t.0.contains_key(s.name@) { t.0[s.name@] } else { (s.received, s.transmitted) };
                (
                    t.0.insert(s.name@, (s.received, s.transmitted)),
                    t.1 + saturating_diff(s.received, last.0),
                    t.2 + saturating_diff(s.transmitted, last.1),
                    t.3 || selected == Some(s.name@),
                )
            }
        }),
        sum_received(selected, samples.take(i + 1)) == sum_received(selected, samples.take(i))
            + if included(selected, samples[i].name@) { samples[i].received as nat } else { 0 },
        sum_transmitted(selected, samples.take(i + 1)) == sum_transmitted(selected, samples.take(i))
            + if included(selected, samples[i].name@) { samples[i].transmitted as nat } else { 0 },
{
    assert(samples.take(i + 1).drop_last() =~= samples.take(i));
}

/// What a refresh counts as sent or received never exceeds the counted
/// adapters' cumulative counters.
pub proof fn lemma_delta_within_totals(prev: Map<Seq<char>, (u64, u64)>, selected: Option<Seq<char>>, samples: Seq<AdapterSample>)
    ensures
        tally(prev, selected, samples).1 <= sum_received(selected, samples),
        tally(prev, selected, samples).2 <= sum_transmitted(selected, samples),
    decreases samples.len(),
{
    if samples.len() > 0 {
        lemma_delta_within_totals(prev, selected, samples.drop_last());
    }
}

proof fn lemma_sums_grow(selected: Option<Seq<char>>, samples: Seq<AdapterSample>, k: int)
    requires
        0 <= k <= samples.len(),
    ensures
        sum_received(selected, samples.take(k)) <= sum_received(selected, samples),
        sum_transmitted(selected, samples.take(k)) <= sum_transmitted(selected, samples),
    decreases samples.len(),
{
    if k == samples.len() {
        assert(samples.take(k) =~= samples);
    } else {
        let rest = samples.drop_last();
        lemma_sums_grow(selected, rest, k);
        assert(rest.take(k) =~= samples.take(k));
    }
}

impl TrafficCounter {
    /// A counter that counts every adapter, starting from the counters of
    /// `samples` (later samples of the same adapter taking precedence).
    pub fn new(samples: &Vec<AdapterSample>) -> (res: Self)
        ensures
            res.wf(),
            res.selected() == None::<Seq<char>>,
            res.prev() == tally(Map::empty(), None, samples@).0,
    {
        let mut c = TrafficCounter { last_seen: Vec::new(), selected_adapter: None };
        assert(c.prev() =~= Map::empty());
        let mut i: usize = 0;
        while i < samples.len()
            invariant
                i <= samples.len(),
                c.wf(),
                c.selected() == None::<Seq<char>>,
                c.prev() == tally(Map::empty(), None, samples@.take(i as int)).0,
            decreases samples.len() - i,
        {
            proof {
                lemma_tally_step(Map::empty(), None, samples@, i as int);
            }
            c.record(&samples[i].name, samples[i].received, samples[i].transmitted);
            i = i + 1;
        }
        assert(samples@.take(samples.len() as int) =~= samples@);
        c
    }

    /// Counts only the adapter `name`, or every adapter for `None`.
    pub fn set_adapter(&mut self, name: Option<String>)
        requires
            old(self).wf(),
        ensures
            final(self).wf(),
            final(self).prev() == old(self).prev(),
            final(self).selected() == match name {
                Some(s) => Some(s@),
                None => None::<Seq<char>>,
            },
    {
        self.selected_adapter = name;
    }

    /// Whether the cumulative counters of the adapters counted in
    /// `samples` add up to no more than `u64::MAX`, which `update` needs.
    pub fn totals_fit(&self, samples: &Vec<AdapterSample>) -> (res: bool)
        ensures
            res == (sum_received(self.selected(), samples@) <= u64::MAX
                && sum_transmitted(self.selected(), samples@) <= u64::MAX),
    {
        let mut rx: u128 = 0;
        let mut tx: u128 = 0;
        let mut fits = true;
        let mut i: usize = 0;
        while i < samples.len()
            invariant
                i <= samples.len(),
                fits ==> rx == sum_received(self.selected(), samples@.take(i as int)),
                fits ==> tx == sum_transmitted(self.selected(), samples@.take(i as int)),
                fits ==> rx <= u64::MAX && tx <= u64::MAX,
                !fits ==> !(sum_received(self.selected(), samples@) <= u64::MAX
                    && sum_transmitted(self.selected(), samples@) <= u64::MAX),
            decreases samples.len() - i,
        {
            let s = &samples[i];
            let counted = match &self.selected_adapter {
                Some(sel) => *sel == s.name,
                None => true,
            };
            proof {
                lemma_tally_step(Map::empty(), self.selected(), samples@, i as int);
                lemma_sums_grow(self.selected(), samples@, i + 1);
            }
            if fits && counted {
                rx = rx + s.received as u128;
                tx = tx + s.transmitted as u128;
                if rx > u64::MAX as u128 || tx > u64::MAX as u128 {
                    fits = false;
                }
            }
            i = i + 1;
        }
        if fits {
            assert(samples@.take(samples.len() as int) =~= samples@);
        }
        fits
    }

    /// Counts the traffic since the previous refresh from the adapters'
    /// cumulative counters, and keeps these as the previous ones.
    pub fn update(&mut self, samples: &Vec<AdapterSample>) -> (res: TrafficTotals)
        requires
            old(self).wf(),
            sum_received(old(self).selected(), samples@) <= u64::MAX,
            sum_transmitted(old(self).selected(), samples@) <= u64::MAX,
        ensures
            final(self).wf(),
            final(self).selected() == old(self).selected(),
            ({
                let t = tally(old(self).prev(), old(self).selected(), samples@);
                &&& final(self).prev() == t.0
                &&& res.delta_received == t.1
                &&& res.delta_transmitted == t.2
                &&& res.total_received == sum_received(old(self).selected(), samples@)
                &&& res.total_transmitted == sum_transmitted(old(self).selected(), samples@)
                &&& res.adapter_name@ == if t.3 { old(self).selected().unwrap() } else { "All"@ }
            }),
    {
        let ghost prev0 = self.prev();
        let ghost sel = self.selected();
        let mut delta_rx: u64 = 0;
        let mut delta_tx: u64 = 0;
        let mut total_rx: u64 = 0;
        let mut total_tx: u64 = 0;
        let mut matched = false;
        let mut i: usize = 0;
        while i < samples.len()
            invariant
                i <= samples.len(),
                self.wf(),
                self.selected() == sel,
                sum_received(sel, samples@) <= u64::MAX,
                sum_transmitted(sel, samples@) <= u64::MAX,
                ({
                    let t = tally(prev0, sel, samples@.take(i as int));
                    &&& self.prev() == t.0
                    &&& delta_rx == t.1
                    &&& delta_tx == t.2
                    &&& matched == t.3
                }),
                total_rx == sum_received(sel, samples@.take(i as int)),
                total_tx == sum_transmitted(sel, samples@.take(i as int)),
                matched ==> sel is Some,
            decreases samples.len() - i,
        {
            let s = &samples[i];
            let counted = match &self.selected_adapter {
                Some(name) => *name == s.name,
                None => true,
            };
            proof {
                lemma_tally_step(prev0, sel, samples@, i as int);
                lemma_sums_grow(sel, samples@, i + 1);
                lemma_delta_within_totals(prev0, sel, samples@.take(i + 1));
            }
            if counted {
                let (last_rx, last_tx) = match self.previous(&s.name) {
                    Some(p) => p,
                    None => (s.received, s.transmitted),
                };
                delta_rx = delta_rx + s.received.saturating_sub(last_rx);
                delta_tx = delta_tx + s.transmitted.saturating_sub(last_tx);
                total_rx = total_rx + s.received;
                total_tx = total_tx + s.transmitted;
                self.record(&s.name, s.received, s.transmitted);
                if self.selected_adapter.is_some() {
                    matched = true;
                }
            }
            i = i + 1;
        }
        assert(samples@.take(samples.len() as int) =~= samples@);
        let adapter_name = if matched {
            match &self.selected_adapter {
                Some(name) => name.clone(),
                None => String::from_str("All"),
            }
        } else {
            String::from_str("All")
        };
        TrafficTotals {
            delta_received: delta_rx,
            delta_transmitted: delta_tx,
            total_received: total_rx,
            total_transmitted: total_tx,
            adapter_name,
        }
    }
}

/// After a refresh over samples of distinct adapters, the previous
/// counters of each counted adapter are the ones it reported.
pub proof fn lemma_refresh_records_counters(prev: Map<Seq<char>, (u64, u64)>, selected: Option<Seq<char>>, samples: Seq<AdapterSample>)
    requires
        distinct_names(samples),
    ensures
        forall|i: int| 0 <= i < samples.len() && included(selected, #[trigger] samples[i].name@) ==> {
            &&& tally(prev, selected, samples).0.contains_key(samples[i].name@)
            &&& tally(prev, selected, samples).0[samples[i].name@] == (samples[i].received, samples[i].transmitted)
        },
    decreases samples.len(),
{
    if samples.len() > 0 {
        let rest = samples.drop_last();
        lemma_refresh_records_counters(prev, selected, rest);
        assert forall|i: int| 0 <= i < samples.len() && included(selected, #[trigger] samples[i].name@) implies {
            &&& tally(prev, selected, samples).0.contains_key(samples[i].name@)
            &&& tally(prev, selected, samples).0[samples[i].name@] == (samples[i].received, samples[i].transmitted)
        } by {
            if i < samples.len() - 1 {
                assert(rest[i] == samples[i]);
                assert(samples[i].name@ != samples.last().name@);
            }
        }
    }
}

proof fn lemma_refresh_at_fixpoint(prev: Map<Seq<char>, (u64, u64)>, selected: Option<Seq<char>>, samples: Seq<AdapterSample>)
    requires
        forall|i: int| 0 <= i < samples.len() && included(selected, #[trigger] samples[i].name@) ==> {
            &&& prev.contains_key(samples[i].name@)
            &&& prev[samples[i].name@] == (samples[i].received, samples[i].transmitted)
        },
    ensures
        tally(prev, selected, samples).0 == prev,
        tally(prev, selected, samples).1 == 0,
        tally(prev, selected, samples).2 == 0,
    decreases samples.len(),
{
    if samples.len() > 0 {
        let rest = samples.drop_last();
        assert forall|i: int| 0 <= i < rest.len() && included(selected, #[trigger] rest[i].name@) implies {
            &&& prev.contains_key(rest[i].name@)
            &&& prev[rest[i].name@] == (rest[i].received, rest[i].transmitted)
        } by {
            assert(rest[i] == samples[i]);
        }
        lemma_refresh_at_fixpoint(prev, selected, rest);
        let x = samples.last();
        if included(selected, x.name@) {
            assert(samples[samples.len() - 1] == x);
            assert(prev.insert(x.name@, (x.received, x.transmitted)) =~= prev);
        }
    }
}

/// A refresh that finds every adapter's counters as the previous refresh
/// left them counts no traffic and changes nothing (the adapters being
/// distinct, as the system reports them).
pub proof fn lemma_unchanged_counters_count_nothing(prev: Map<Seq<char>, (u64, u64)>, selected: Option<Seq<char>>, samples: Seq<AdapterSample>)
    requires
        distinct_names(samples),
    ensures
        ({
            let first = tally(prev, selected, samples);
            let second = tally(first.0, selected, samples);
            &&& second.0 == first.0
            &&& second.1 == 0
            &&& second.2 == 0
        }),
{
    lemma_refresh_records_counters(prev, selected, samples);
    lemma_refresh_at_fixpoint(tally(prev, selected, samples).0, selected, samples);
}

/// While one adapter is selected, the previous counters of every other
/// adapter are left as they were.
pub proof fn lemma_unselected_adapters_untouched(prev: Map<Seq<char>, (u64, u64)>, selected: Option<Seq<char>>, samples: Seq<AdapterSample>, name: Seq<char>)
    requires
        !included(selected, name),
    ensures
        tally(prev, selected, samples).0.contains_key(name) == prev.contains_key(name),
        prev.contains_key(name) ==> tally(prev, selected, samples).0[name] == prev[name],
    decreases samples.len(),
{
    if samples.len() > 0 {
        lemma_unselected_adapters_untouched(prev, selected, samples.drop_last(), name);
    }
}

/// What the sample `x` adds to a refresh from the previous counters `prev`
/// alone: (received, transmitted).
pub open spec fn own_growth(prev: Map<Seq<char>, (u64, u64)>, selected: Option<Seq<char>>, x: AdapterSample) -> (nat, nat) {
    if !included(selected, x.name@) {
        (0, 0)
    } else {
        let last = if prev.contains_key(x.name@) { prev[x.name@] } else { (x.received, x.transmitted) };
        (saturating_diff(x.received, last.0), saturating_diff(x.transmitted, last.1))
    }
}

/// The sum of `own_growth` over `samples`.
pub open spec fn sum_own_growth(prev: Map<Seq<char>, (u64, u64)>, selected: Option<Seq<char>>, samples: Seq<AdapterSample>) -> (nat, nat)
    decreases samples.len(),
{
    if samples.len() == 0 {
        (0, 0)
    } else {
        let rest = sum_own_growth(prev, selected, samples.drop_last());
        let g = own_growth(prev, selected, samples.last());
        (rest.0 + g.0, rest.1 + g.1)
    }
}

proof fn lemma_other_adapters_keep_prev(prev: Map<Seq<char>, (u64, u64)>, selected: Option<Seq<char>>, samples: Seq<AdapterSample>, name: Seq<char>)
    requires
        forall|i: int| 0 <= i < samples.len() ==> #[trigger] samples[i].name@ != name,
    ensures
        tally(prev, selected, samples).0.contains_key(name) == prev.contains_key(name),
        prev.contains_key(name) ==> tally(prev, selected, samples).0[name] == prev[name],
    decreases samples.len(),
{
    if samples.len() > 0 {
        let rest = samples.drop_last();
        assert forall|i: int| 0 <= i < rest.len() implies #[trigger] rest[i].name@ != name by {
            assert(rest[i] == samples[i]);
        }
        lemma_other_adapters_keep_prev(prev, selected, rest, name);
        assert(samples[samples.len() - 1] == samples.last());
    }
}

/// Over distinct adapters, a refresh counts for each adapter what it grew
/// by since its own previous counters, whatever the other adapters did:
/// the traffic counted is the sum of these.
pub proof fn lemma_refresh_counts_each_adapter_alone(prev: Map<Seq<char>, (u64, u64)>, selected: Option<Seq<char>>, samples: Seq<AdapterSample>)
    requires
        distinct_names(samples),
    ensures
        tally(prev, selected, samples).1 == sum_own_growth(prev, selected, samples).0,
        tally(prev, selected, samples).2 == sum_own_growth(prev, selected, samples).1,
    decreases samples.len(),
{
    if samples.len() > 0 {
        let rest = samples.drop_last();
        let x = samples.last();
        assert forall|i: int, j: int| 0 <= i < j < rest.len() implies rest[i].name@ != rest[j].name@ by {
            assert(rest[i] == samples[i] && rest[j] == samples[j]);
        }
        lemma_refresh_counts_each_adapter_alone(prev, selected, rest);
        assert forall|i: int| 0 <= i < rest.len() implies #[trigger] rest[i].name@ != x.name@ by {
            assert(rest[i] == samples[i]);
            assert(samples[samples.len() - 1] == x);
        }
        lemma_other_adapters_keep_prev(prev, selected, rest, x.name@);
    }
}

/// Two refreshes in a row, each over distinct adapters: the first records
/// every counted adapter's counters; the second counts, as the sum over its
/// adapters, what each one grew by since those recorded counters; an
/// adapter reported by both refreshes grows by the difference of its two
/// readings (zero where a counter went back), one met for the first time
/// by nothing.
pub proof fn lemma_two_refreshes(
    prev: Map<Seq<char>, (u64, u64)>,
    selected: Option<Seq<char>>,
    first: Seq<AdapterSample>,
    second: Seq<AdapterSample>,
)
    requires
        distinct_names(first),
        distinct_names(second),
    ensures
        ({
            let t1 = tally(prev, selected, first);
            let t2 = tally(t1.0, selected, second);
            &&& forall|i: int| 0 <= i < first.len() && included(selected, #[trigger] first[i].name@) ==>
                t1.0.contains_key(first[i].name@) && t1.0[first[i].name@] == (first[i].received, first[i].transmitted)
            &&& t2.1 == sum_own_growth(t1.0, selected, second).0
            &&& t2.2 == sum_own_growth(t1.0, selected, second).1
            &&& forall|i: int, j: int| 0 <= i < first.len() && 0 <= j < second.len()
                && #[trigger] first[i].name@ == #[trigger] second[j].name@ && included(selected, first[i].name@) ==>
                own_growth(t1.0, selected, second[j]) == (
                    saturating_diff(second[j].received, first[i].received),
                    saturating_diff(second[j].transmitted, first[i].transmitted),
                )
            &&& forall|j: int| 0 <= j < second.len() && included(selected, #[trigger] second[j].name@)
                && !t1.0.contains_key(second[j].name@) ==> own_growth(t1.0, selected, second[j]) == (0nat, 0nat)
        }),
{
    lemma_refresh_records_counters(prev, selected, first);
    lemma_refresh_counts_each_adapter_alone(tally(prev, selected, first).0, selected, second);
}

/// A counter's growth is its increase when it went up, and nothing when it
/// went back.
pub proof fn lemma_growth_is_increase(now: u64, before: u64)
    ensures
        now >= before ==> saturating_diff(now, before) == now - before,
        now < before ==> saturating_diff(now, before) == 0,
{
}

/// A refresh of one adapter that is counted and was seen before counts
/// exactly how much each of its counters went up (nothing for a counter
/// that went back), and records its new counters; one met for the first
/// time counts nothing; one that is not counted changes nothing.
pub proof fn lemma_refresh_of_one_adapter(prev: Map<Seq<char>, (u64, u64)>, selected: Option<Seq<char>>, x: AdapterSample)
    ensures
        ({
            let t = tally(prev, selected, seq![x]);
            &&& included(selected, x.name@) && prev.contains_key(x.name@) ==> {
                &&& t.1 == (if x.received >= prev[x.name@].0 { x.received - prev[x.name@].0 } else { 0 })
                &&& t.2 == (if x.transmitted >= prev[x.name@].1 { x.transmitted - prev[x.name@].1 } else { 0 })
            }
            &&& included(selected, x.name@) && !prev.contains_key(x.name@) ==> t.1 == 0 && t.2 == 0
            &&& included(selected, x.name@) ==> t.0 == prev.insert(x.name@, (x.received, x.transmitted))
            &&& !included(selected, x.name@) ==> t.0 == prev && t.1 == 0 && t.2 == 0
        }),
{
    let xs = seq![x];
    assert(xs.drop_last() =~= Seq::<AdapterSample>::empty());
    assert(xs.last() == x);
    assert(tally(prev, selected, xs.drop_last()) == (prev, 0nat, 0nat, false));
}

/// What one adapter adds to a refresh, in plain arithmetic: nothing if it is
/// not counted or was not seen before, else the increase of each counter
/// since its previous reading (nothing for a counter that went back).
pub proof fn lemma_own_growth_is_increase(prev: Map<Seq<char>, (u64, u64)>, selected: Option<Seq<char>>, x: AdapterSample)
    ensures
        !included(selected, x.name@) || !prev.contains_key(x.name@) ==> own_growth(prev, selected, x) == (0nat, 0nat),
        included(selected, x.name@) && prev.contains_key(x.name@) ==> own_growth(prev, selected, x) == (
            (if x.received >= prev[x.name@].0 { (x.received - prev[x.name@].0) as nat } else { 0nat }),
            (if x.transmitted >= prev[x.name@].1 { (x.transmitted - prev[x.name@].1) as nat } else { 0nat }),
        ),
{
}

/// A byte count is written in the largest of B, KB, MB, GB, TB (powers of
/// 1024) that it reaches: bytes as they are; otherwise the number of tenths
/// (KB) or hundredths (MB and up) of the unit nearest to the count, the
/// even one where two are equally near. From TB on the count is first
/// taken as the nearest `f64`, which is the count itself below 2^53.
pub proof fn lemma_bytes_text_shows_nearest(b: u64)
    ensures
        b < 1024 ==> bytes_text(b as nat) == decimal(b as nat) + " B"@,
        1024 <= b < 1048576 ==> exists|q: nat| #[trigger] fixed_one(q) + " KB"@ == bytes_text(b as nat)
            && 2 * (b * 10) <= 2 * q * 1024 + 1024 && 2 * q * 1024 <= 2 * (b * 10) + 1024
            && ((2 * (b * 10) + 1024 == 2 * q * 1024 || 2 * q * 1024 + 1024 == 2 * (b * 10)) ==> q % 2 == 0),
        1048576 <= b < 1073741824 ==> exists|q: nat| #[trigger] fixed_two(q) + " MB"@ == bytes_text(b as nat)
            && 2 * (b * 100) <= 2 * q * 1048576 + 1048576 && 2 * q * 1048576 <= 2 * (b * 100) + 1048576
            && ((2 * (b * 100) + 1048576 == 2 * q * 1048576 || 2 * q * 1048576 + 1048576 == 2 * (b * 100)) ==> q % 2 == 0),
        1073741824 <= b < 1099511627776 ==> exists|q: nat| #[trigger] fixed_two(q) + " GB"@ == bytes_text(b as nat)
            && 2 * (b * 100) <= 2 * q * 1073741824 + 1073741824 && 2 * q * 1073741824 <= 2 * (b * 100) + 1073741824
            && ((2 * (b * 100) + 1073741824 == 2 * q * 1073741824 || 2 * q * 1073741824 + 1073741824 == 2 * (b * 100)) ==> q % 2 == 0),
        1099511627776 <= b ==> exists|q: nat| #[trigger] fixed_two(q) + " TB"@ == bytes_text(b as nat)
            && 2 * (nearest_f64(b as nat) * 100) <= 2 * q * 1099511627776 + 1099511627776
            && 2 * q * 1099511627776 <= 2 * (nearest_f64(b as nat) * 100) + 1099511627776
            && ((2 * (nearest_f64(b as nat) * 100) + 1099511627776 == 2 * q * 1099511627776
                || 2 * q * 1099511627776 + 1099511627776 == 2 * (nearest_f64(b as nat) * 100)) ==> q % 2 == 0),
        b < 9007199254740992 ==> nearest_f64(b as nat) == b,
{
    let bn = b as nat;
    if 1024 <= b < 1048576 {
        let q = round_half_even(bn * 10, 1024);
        lemma_round_half_even_is_nearest(bn * 10, 1024);
        assert(fixed_one(q) + " KB"@ == bytes_text(bn));
    }
    if 1048576 <= b < 1073741824 {
        let q = round_half_even(bn * 100, 1048576);
        lemma_round_half_even_is_nearest(bn * 100, 1048576);
        assert(fixed_two(q) + " MB"@ == bytes_text(bn));
    }
    if 1073741824 <= b < 1099511627776 {
        let q = round_half_even(bn * 100, 1073741824);
        lemma_round_half_even_is_nearest(bn * 100, 1073741824);
        assert(fixed_two(q) + " GB"@ == bytes_text(bn));
    }
    if 1099511627776 <= b {
        let q = round_half_even(nearest_f64(bn) * 100, 1099511627776);
        lemma_round_half_even_is_nearest(nearest_f64(bn) * 100, 1099511627776);
        assert(fixed_two(q) + " TB"@ == bytes_text(bn));
    }
    if b < 9007199254740992 {
        lemma_nearest_f64_exact(bn);
    }
}

/// With no adapter selected every adapter is counted; with one selected,
/// that adapter alone.
pub proof fn lemma_counted_adapters(selected: Option<Seq<char>>, name: Seq<char>)
    ensures
        selected is None ==> included(selected, name),
        selected is Some ==> (included(selected, name) <==> selected.unwrap() == name),
{
}

/// The totals of a refresh add up over its samples: those of `xs` followed
/// by `ys` are those of `xs` plus those of `ys`; a single sample brings its
/// own counters when it is counted, and nothing otherwise.
pub proof fn lemma_totals_add_up(selected: Option<Seq<char>>, xs: Seq<AdapterSample>, ys: Seq<AdapterSample>, x: AdapterSample)
    ensures
        sum_received(selected, xs + ys) == sum_received(selected, xs) + sum_received(selected, ys),
        sum_transmitted(selected, xs + ys) == sum_transmitted(selected, xs) + sum_transmitted(selected, ys),
        sum_received(selected, seq![x]) == if included(selected, x.name@) { x.received as nat } else { 0 },
        sum_transmitted(selected, seq![x]) == if included(selected, x.name@) { x.transmitted as nat } else { 0 },
    decreases ys.len(),
{
    assert(seq![x].drop_last() =~= Seq::<AdapterSample>::empty());
    assert(seq![x].last() == x);
    assert(sum_received(selected, Seq::<AdapterSample>::empty()) == 0);
    assert(sum_transmitted(selected, Seq::<AdapterSample>::empty()) == 0);
    if ys.len() == 0 {
        assert(xs + ys =~= xs);
    } else {
        lemma_totals_add_up(selected, xs, ys.drop_last(), x);
        assert((xs + ys).drop_last() =~= xs + ys.drop_last());
        assert((xs + ys).last() == ys.last());
    }
}

/// The adapter a refresh reports is the selected one exactly when an
/// adapter is selected and among the samples.
pub proof fn lemma_selected_adapter_met(prev: Map<Seq<char>, (u64, u64)>, selected: Option<Seq<char>>, samples: Seq<AdapterSample>)
    ensures
        tally(prev, selected, samples).3 <==> (selected is Some
            && exists|i: int| 0 <= i < samples.len() && #[trigger] samples[i].name@ == selected.unwrap()),
    decreases samples.len(),
{
    if samples.len() > 0 {
        let rest = samples.drop_last();
        lemma_selected_adapter_met(prev, selected, rest);
        if selected is Some && exists|i: int| 0 <= i < rest.len() && #[trigger] rest[i].name@ == selected.unwrap() {
            let i = choose|i: int| 0 <= i < rest.len() && #[trigger] rest[i].name@ == selected.unwrap();
            assert(samples[i] == rest[i]);
        }
        if selected is Some && exists|i: int| 0 <= i < samples.len() && #[trigger] samples[i].name@ == selected.unwrap() {
            let i = choose|i: int| 0 <= i < samples.len() && #[trigger] samples[i].name@ == selected.unwrap();
            if i < rest.len() {
                assert(rest[i] == samples[i]);
            } else {
                assert(samples[i] == samples.last());
            }
        }
    }
}

} // verus!
