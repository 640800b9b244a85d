//! Autotuning decisions: workload keys, the choice of the fastest candidate
//! and the registry that remembers each choice.

use vstd::prelude::*;
use crate::device::DeviceId;
use crate::error::FusionError;
use crate::tensor::same_shape;

verus! {

/// Mathematical value of an [`AutotuneKey`].
pub struct AutotuneKeyView {
    pub num_operations: usize,
    pub shape: Seq<usize>,
}

/// Fingerprint of one fused workload: how many operations it holds and the
/// shape that stands for it.
#[derive(Debug)]
pub struct AutotuneKey {
    num_operations: usize,
    shape: Vec<usize>,
}

impl View for AutotuneKey {
    type V = AutotuneKeyView;

    closed spec fn view(&self) -> AutotuneKeyView {
        AutotuneKeyView { num_operations: self.num_operations, shape: self.shape@ }
    }
}

impl Clone for AutotuneKey {
    fn clone(&self) -> (copy: Self)
        ensures
            copy@ == self@,
    {
        AutotuneKey { num_operations: self.num_operations, shape: self.shape.clone() }
    }
}

impl AutotuneKey {
    pub fn new(num_operations: usize, shape: &[usize]) -> (key: Self)
        ensures
            key@ == (AutotuneKeyView { num_operations, shape: shape@ }),
    {
        let mut owned: Vec<usize> = Vec::new();
        let mut i: usize = 0;
        while i < shape.len()
            invariant
                i <= shape@.len(),
                owned@ == shape@.subrange(0, i as int),
            decreases shape@.len() - i,
        {
            owned.push(shape[i]);
            assert(owned@ =~= shape@.subrange(0, i + 1));
            i += 1;
        }
        assert(owned@ =~= shape@);
        AutotuneKey { num_operations, shape: owned }
    }

    pub fn num_operations(&self) -> (count: usize)
        ensures
            count == self@.num_operations,
    {
        self.num_operations
    }

    pub fn shape(&self) -> (shape: &Vec<usize>)
        ensures
            shape@ == self@.shape,
    {
        &self.shape
    }

    /// Whether two keys name the same workload.
    pub fn matches(&self, other: &AutotuneKey) -> (equal: bool)
        ensures
            equal == (self@ == other@),
    {
        self.num_operations == other.num_operations && same_shape(&self.shape, &other.shape)
    }
}

/// A measurement beats another when it exists and the other does not or is
/// strictly slower.
pub open spec fn beats(a: Option<u64>, b: Option<u64>) -> bool {
    a is Some && (b is None || a->Some_0 < b->Some_0)
}

/// Candidate `winner` has the smallest measured latency, and every candidate
/// declared before it is strictly slower or failed: ties go to the candidate
/// declared first.
pub open spec fn is_fastest(latencies: Seq<Option<u64>>, winner: int) -> bool {
    &&& 0 <= winner < latencies.len()
    &&& latencies[winner] is Some
    &&& forall|j: int| 0 <= j < winner ==> beats(latencies[winner], #[trigger] latencies[j])
    &&& forall|j: int|
        winner < j < latencies.len() ==> !beats(#[trigger] latencies[j], latencies[winner])
}

/// At most one candidate is the fastest.
pub proof fn lemma_fastest_is_unique(latencies: Seq<Option<u64>>, a: int, b: int)
    requires
        is_fastest(latencies, a),
        is_fastest(latencies, b),
    ensures
        a == b,
{
    if a < b {
        assert(beats(latencies[b], latencies[a]));
        assert(!beats(latencies[b], latencies[a]));
    } else if b < a {
        assert(beats(latencies[a], latencies[b]));
        assert(!beats(latencies[a], latencies[b]));
    }
}

/// Whenever something was measured, some candidate is the fastest.
pub proof fn lemma_some_is_fastest(latencies: Seq<Option<u64>>)
    requires
        !nothing_measured(latencies),
    ensures
        is_fastest(latencies, fastest_index(latencies)),
    decreases latencies.len(),
{
    let n = latencies.len() as int;
    let shorter = latencies.drop_last();
    if nothing_measured(shorter) {
        assert(latencies[n - 1] is Some) by {
            if latencies[n - 1] is None {
                assert forall|j: int| 0 <= j < n implies (#[trigger] latencies[j]) is None by {
                    if j < n - 1 {
                        assert(shorter[j] is None);
                    }
                }
            }
        }
        assert(is_fastest(latencies, n - 1)) by {
            assert forall|j: int| 0 <= j < n - 1 implies beats(
                latencies[n - 1],
                #[trigger] latencies[j],
            ) by {
                assert(shorter[j] is None);
            }
        }
    } else {
        lemma_some_is_fastest(shorter);
        let w = fastest_index(shorter);
        assert(latencies[w] == shorter[w]);
        if beats(latencies[n - 1], latencies[w]) {
            assert(is_fastest(latencies, n - 1)) by {
                assert forall|j: int| 0 <= j < n - 1 implies beats(
                    latencies[n - 1],
                    #[trigger] latencies[j],
                ) by {
                    assert(latencies[j] == shorter[j]);
                    if j < w {
                        assert(beats(shorter[w], shorter[j]));
                    } else if j > w {
                        assert(!beats(shorter[j], shorter[w]));
                    }
                }
            }
        } else {
            assert(is_fastest(latencies, w)) by {
                assert forall|j: int| 0 <= j < w implies beats(
                    latencies[w],
                    #[trigger] latencies[j],
                ) by {
                    assert(latencies[j] == shorter[j]);
                    assert(beats(shorter[w], shorter[j]));
                }
                assert forall|j: int| w < j < n implies !beats(
                    #[trigger] latencies[j],
                    latencies[w],
                ) by {
                    if j < n - 1 {
                        assert(latencies[j] == shorter[j]);
                        assert(!beats(shorter[j], shorter[w]));
                    }
                }
            }
        }
    }
}

/// Picks the candidate with the smallest latency; a candidate whose
/// measurement failed never wins. Returns `None` exactly when every
/// measurement failed.
pub fn select_fastest(latencies: &Vec<Option<u64>>) -> (winner: Option<usize>)
    ensures
        winner is None <==> forall|j: int| 0 <= j < latencies@.len() ==> latencies@[j] is None,
        winner matches Some(index) ==> is_fastest(latencies@, index as int),
{
    let mut best: Option<usize> = None;
    let mut best_time: u64 = 0;
    let mut i: usize = 0;
    while i < latencies.len()
        invariant
            i <= latencies@.len(),
            best is None <==> forall|j: int| 0 <= j < i ==> latencies@[j] is None,
            best matches Some(index) ==> index < i && latencies@[index as int] == Some(best_time)
                && is_fastest(latencies@.subrange(0, i as int), index as int),
        decreases latencies@.len() - i,
    {
        let ghost before = latencies@.subrange(0, i as int);
        let ghost after = latencies@.subrange(0, i + 1);
        match latencies[i] {
            Some(time) => {
                let better = match best {
                    Some(_) => time < best_time,
                    None => true,
                };
                if better {
                    best = Some(i);
                    best_time = time;
                    assert(is_fastest(after, i as int)) by {
                        assert forall|j: int| 0 <= j < i implies beats(
                            after[i as int],
                            #[trigger] after[j],
                        ) by {
                            assert(after[j] == before[j]);
                        }
                    }
                } else {
                    assert(is_fastest(after, best->Some_0 as int)) by {
                        assert forall|j: int| 0 <= j < best->Some_0 implies beats(
                            after[best->Some_0 as int],
                            #[trigger] after[j],
                        ) by {
                            assert(after[j] == before[j]);
                        }
                        assert forall|j: int| best->Some_0 < j < after.len() implies !beats(
                            #[trigger] after[j],
                            after[best->Some_0 as int],
                        ) by {
                            if j < i {
                                assert(after[j] == before[j]);
                            }
                        }
                    }
                }
            },
            None => {
                if best.is_some() {
                    assert(is_fastest(after, best->Some_0 as int)) by {
                        assert forall|j: int| 0 <= j < best->Some_0 implies beats(
                            after[best->Some_0 as int],
                            #[trigger] after[j],
                        ) by {
                            assert(after[j] == before[j]);
                        }
                        assert forall|j: int| best->Some_0 < j < after.len() implies !beats(
                            #[trigger] after[j],
                            after[best->Some_0 as int],
                        ) by {
                            if j < i {
                                assert(after[j] == before[j]);
                            }
                        }
                    }
                }
            },
        }
        i += 1;
    }
    assert(latencies@.subrange(0, i as int) =~= latencies@);
    best
}

/// One remembered decision.
struct CacheEntry {
    device: DeviceId,
    key: AutotuneKey,
    index: usize,
}

/// The decision stored at or after position `from` for the device and key,
/// the earliest one if there are several.
spec fn lookup_from(
    entries: Seq<CacheEntry>,
    from: int,
    device: DeviceId,
    key: AutotuneKeyView,
) -> Option<usize>
    decreases entries.len() - from,
{
    if from < 0 || from >= entries.len() {
        None
    } else if entries[from].device == device && entries[from].key@ == key {
        Some(entries[from].index)
    } else {
        lookup_from(entries, from + 1, device, key)
    }
}

proof fn lemma_lookup_after_push(
    entries: Seq<CacheEntry>,
    entry: CacheEntry,
    from: int,
    device: DeviceId,
    key: AutotuneKeyView,
)
    requires
        0 <= from <= entries.len(),
    ensures
        lookup_from(entries.push(entry), from, device, key) == (match lookup_from(
            entries,
            from,
            device,
            key,
        ) {
            Some(index) => Some(index),
            None => if entry.device == device && entry.key@ == key {
                Some(entry.index)
            } else {
                None
            },
        }),
    decreases entries.len() - from,
{
    let pushed = entries.push(entry);
    if from < entries.len() {
        assert(pushed[from] == entries[from]);
        lemma_lookup_after_push(entries, entry, from + 1, device, key);
    } else {
        assert(pushed[from] == entry);
        assert(lookup_from(pushed, from + 1, device, key) is None);
    }
}

/// What the registry holds after a decision is offered: a decision already
/// present stays as it is; otherwise the offered one is stored.
pub open spec fn recorded(
    decisions: Map<(DeviceId, AutotuneKeyView), usize>,
    device: DeviceId,
    key: AutotuneKeyView,
    index: usize,
) -> Map<(DeviceId, AutotuneKeyView), usize> {
    if decisions.contains_key((device, key)) {
        decisions
    } else {
        decisions.insert((device, key), index)
    }
}

/// A decision, once stored for a device and key, answers every later lookup
/// and is never replaced by a later offer.
pub proof fn lemma_decision_is_final(
    decisions: Map<(DeviceId, AutotuneKeyView), usize>,
    device: DeviceId,
    key: AutotuneKeyView,
    first: usize,
    later: usize,
)
    ensures
        recorded(decisions, device, key, first).contains_key((device, key)),
        recorded(recorded(decisions, device, key, first), device, key, later) == recorded(
            decisions,
            device,
            key,
            first,
        ),
        !decisions.contains_key((device, key)) ==> recorded(decisions, device, key, first)[(
            device,
            key,
        )] == first,
{
}

/// Offering a decision for one device and key leaves every other decision
/// as it was.
pub proof fn lemma_other_decisions_untouched(
    decisions: Map<(DeviceId, AutotuneKeyView), usize>,
    device: DeviceId,
    key: AutotuneKeyView,
    index: usize,
    other_device: DeviceId,
    other_key: AutotuneKeyView,
)
    requires
        (other_device, other_key) != (device, key),
    ensures
        recorded(decisions, device, key, index).contains_key((other_device, other_key))
            == decisions.contains_key((other_device, other_key)),
        decisions.contains_key((other_device, other_key)) ==> recorded(
            decisions,
            device,
            key,
            index,
        )[(other_device, other_key)] == decisions[(other_device, other_key)],
{
}

/// The candidate that `is_fastest` singles out.
pub open spec fn fastest_index(latencies: Seq<Option<u64>>) -> int {
    choose|winner: int| is_fastest(latencies, winner)
}

/// No candidate could be measured.
pub open spec fn nothing_measured(latencies: Seq<Option<u64>>) -> bool {
    forall|j: int| 0 <= j < latencies.len() ==> (#[trigger] latencies[j]) is None
}

/// What a trial comes to once its latencies are known. With nothing
/// measured the trial failed. A decision already held for the device and
/// key that names no candidate is a corrupt registry. Otherwise the verdict
/// is the decision the registry holds once the fastest candidate was
/// offered to it.
pub open spec fn trial_verdict(
    decisions: Map<(DeviceId, AutotuneKeyView), usize>,
    device: DeviceId,
    key: AutotuneKeyView,
    latencies: Seq<Option<u64>>,
) -> Result<usize, FusionError> {
    if nothing_measured(latencies) {
        Err(FusionError::BenchmarkFailed)
    } else if decisions.contains_key((device, key)) && decisions[(device, key)]
        >= latencies.len() {
        Err(FusionError::CorruptCache(decisions[(device, key)]))
    } else {
        Ok(recorded(decisions, device, key, fastest_index(latencies) as usize)[(device, key)])
    }
}

/// The registry after a trial: the fastest candidate was offered when the
/// trial came to a verdict, and nothing changed when it did not.
pub open spec fn trial_recorded(
    decisions: Map<(DeviceId, AutotuneKeyView), usize>,
    device: DeviceId,
    key: AutotuneKeyView,
    latencies: Seq<Option<u64>>,
) -> Map<(DeviceId, AutotuneKeyView), usize> {
    if trial_verdict(decisions, device, key, latencies) is Ok {
        recorded(decisions, device, key, fastest_index(latencies) as usize)
    } else {
        decisions
    }
}

/// Registry of autotuning decisions: for a device and a workload key, the
/// index of the kernel variant that won the benchmark.
pub struct AutotuneCache {
    entries: Vec<CacheEntry>,
}

impl View for AutotuneCache {
    type V = Map<(DeviceId, AutotuneKeyView), usize>;

    closed spec fn view(&self) -> Map<(DeviceId, AutotuneKeyView), usize> {
        Map::new(
            |k: (DeviceId, AutotuneKeyView)| lookup_from(self.entries@, 0, k.0, k.1) is Some,
            |k: (DeviceId, AutotuneKeyView)| lookup_from(self.entries@, 0, k.0, k.1)->Some_0,
        )
    }
}

impl AutotuneCache {
    pub fn new() -> (cache: Self)
        ensures
            cache@ == Map::<(DeviceId, AutotuneKeyView), usize>::empty(),
    {
        let cache = AutotuneCache { entries: Vec::new() };
        assert(cache@ =~= Map::<(DeviceId, AutotuneKeyView), usize>::empty());
        cache
    }

    /// The decision stored for the device and key, if any.
    pub fn lookup(&self, device: &DeviceId, key: &AutotuneKey) -> (decision: Option<usize>)
        ensures
            decision == (if self@.contains_key((*device, key@)) {
                Some(self@[(*device, key@)])
            } else {
                None
            }),
    {
        let mut i: usize = 0;
        while i < self.entries.len()
            invariant
                i <= self.entries@.len(),
                lookup_from(self.entries@, 0, *device, key@) == lookup_from(
                    self.entries@,
                    i as int,
                    *device,
                    key@,
                ),
            decreases self.entries@.len() - i,
        {
            let entry = &self.entries[i];
            if entry.device == *device && entry.key.matches(key) {
                return Some(entry.index);
            }
            i += 1;
        }
        None
    }

    /// Takes the latencies of a trial and concludes it: the trial fails if
    /// and only if nothing was measured; a decision already held that names
    /// no candidate is reported as corruption; otherwise the fastest
    /// candidate is offered to the registry and the decision then in force
    /// is returned, which names a candidate.
    pub fn conclude_trial(
        &mut self,
        device: DeviceId,
        key: AutotuneKey,
        latencies: &Vec<Option<u64>>,
    ) -> (verdict: Result<usize, FusionError>)
        ensures
            verdict == trial_verdict(old(self)@, device, key@, latencies@),
            final(self)@ == trial_recorded(old(self)@, device, key@, latencies@),
            verdict matches Ok(kept) ==> kept < latencies@.len(),
    {
        let fastest = match select_fastest(latencies) {
            Some(fastest) => fastest,
            None => {
                return Err(FusionError::BenchmarkFailed);
            },
        };
        proof {
            lemma_fastest_is_unique(latencies@, fastest as int, fastest_index(latencies@));
        }
        if let Some(held) = self.lookup(&device, &key) {
            if held >= latencies.len() {
                return Err(FusionError::CorruptCache(held));
            }
        }
        Ok(self.record(device, key, fastest))
    }

    /// Offers a decision. It is stored unless the device and key already
    /// have one; the decision in force afterwards is returned.
    pub fn record(&mut self, device: DeviceId, key: AutotuneKey, index: usize) -> (kept: usize)
        ensures
            final(self)@ == recorded(old(self)@, device, key@, index),
            kept == final(self)@[(device, key@)],
    {
        match self.lookup(&device, &key) {
            Some(existing) => existing,
            None => {
                let ghost key_view = key@;
                let entry = CacheEntry { device, key, index };
                self.entries.push(entry);
                proof {
                    assert forall|k: (DeviceId, AutotuneKeyView)|
                        lookup_from(self.entries@, 0, k.0, k.1) == (match lookup_from(
                            old(self).entries@,
                            0,
                            k.0,
                            k.1,
                        ) {
                            Some(found) => Some(found),
                            None => if k == (device, key_view) {
                                Some(index)
                            } else {
                                None
                            },
                        }) by {
                        lemma_lookup_after_push(old(self).entries@, entry, 0, k.0, k.1);
                    }
                    assert(self@ =~= old(self)@.insert((device, key_view), index));
                }
                index
            },
        }
    }
}

} // verus!
