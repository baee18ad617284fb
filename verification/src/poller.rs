//! The metric poller's data: one snapshot per tick, one sampled value per
//! upstream source, sources in their declared order. Sampling itself is a
//! network call made by the host; this module turns one tick's per-source
//! outcomes into the snapshot the threshold fan-out consumes. A source whose
//! sample failed is simply absent from that tick's snapshot, and the tick
//! loop goes on to the next tick.
use crate::subscriber::symbol_views;
use vstd::prelude::*;

verus! {

/// One configured upstream source: its snapshot key and where the host
/// samples it.
pub struct SourceConfig {
    pub name: String,
    pub endpoint: String,
}

/// One sampled value of one source.
pub struct MetricEntry {
    pub source: String,
    pub value: u64,
}

/// One poll tick's result: a fresh mapping from source name to sampled
/// value, superseded wholesale by the next tick.
pub struct MetricSnapshot {
    pub entries: Vec<MetricEntry>,
}

impl MetricSnapshot {
    /// The source names present in this snapshot, in sampling order.
    pub open spec fn keys(self) -> Seq<Seq<char>> {
        self.entries@.map_values(|e: MetricEntry| e.source@)
    }

    /// The snapshot as (source, value) pairs.
    pub open spec fn pairs(self) -> Seq<(Seq<char>, u64)> {
        self.entries@.map_values(|e: MetricEntry| (e.source@, e.value))
    }

    /// No source appears twice in one snapshot.
    pub open spec fn wf(self) -> bool {
        self.keys().no_duplicates()
    }
}

/// The unit rule of the metric: upstream sources report wei, the snapshot
/// holds gwei.
pub fn wei_to_gwei(wei: u128) -> (r: u128)
    ensures
        r == wei / 1_000_000_000,
{
    wei / 1_000_000_000
}

/// The pairs one tick keeps: sources in declared order, failed samples left
/// out.
pub open spec fn sampled_pairs(names: Seq<Seq<char>>, outs: Seq<Option<u64>>) -> Seq<
    (Seq<char>, u64),
>
    recommends
        names.len() == outs.len(),
    decreases names.len(),
{
    if names.len() == 0 {
        Seq::empty()
    } else {
        let p = sampled_pairs(names.drop_last(), outs.drop_last());
        match outs.last() {
            Some(v) => p.push((names.last(), v)),
            None => p,
        }
    }
}

/// Every kept pair's key comes from the sampled names, and no key is kept
/// twice when the names are distinct.
pub proof fn lemma_sampled_pairs_distinct(names: Seq<Seq<char>>, outs: Seq<Option<u64>>)
    requires
        names.len() == outs.len(),
        names.no_duplicates(),
    ensures
        forall|i: int|
            0 <= i < sampled_pairs(names, outs).len() ==> names.contains(
                (#[trigger] sampled_pairs(names, outs)[i]).0,
            ),
        sampled_pairs(names, outs).map_values(|p: (Seq<char>, u64)| p.0).no_duplicates(),
    decreases names.len(),
{
    if names.len() > 0 {
        let dn = names.drop_last();
        let dd = outs.drop_last();
        lemma_sampled_pairs_distinct(dn, dd);
        assert(forall|i: int| 0 <= i < dn.len() ==> names.contains(#[trigger] dn[i])) by {
            assert(forall|i: int| 0 <= i < dn.len() ==> dn[i] == names[i]);
        }
        let p = sampled_pairs(dn, dd);
        let keys = |q: (Seq<char>, u64)| q.0;
        if outs.last() is Some {
            assert(names.contains(names.last()));
            assert(!p.map_values(keys).contains(names.last())) by {
                if p.map_values(keys).contains(names.last()) {
                    let j = choose|j: int| 0 <= j < p.len() && p.map_values(keys)[j]
                        == names.last();
                    assert(dn.contains(p[j].0));
                    let i = choose|i: int| 0 <= i < dn.len() && dn[i] == p[j].0;
                    assert(names[i] == names[names.len() - 1]);
                }
            }
            assert(sampled_pairs(names, outs).map_values(keys) =~= p.map_values(keys).push(
                names.last(),
            ));
        }
    }
}

/// Builds one tick's snapshot from the per-source outcomes, sources in their
/// declared order; a failed sample leaves its source out of the snapshot.
pub fn build_snapshot(sources: &Vec<String>, outcomes: &Vec<Option<u64>>) -> (r: MetricSnapshot)
    requires
        sources@.len() == outcomes@.len(),
        symbol_views(sources@).no_duplicates(),
    ensures
        r.wf(),
        r.pairs() == sampled_pairs(symbol_views(sources@), outcomes@),
{
    let ghost names = symbol_views(sources@);
    let n = sources.len();
    let mut entries: Vec<MetricEntry> = Vec::new();
    let mut i: usize = 0;
    while i < n
        invariant
            n == sources@.len(),
            n == outcomes@.len(),
            names == symbol_views(sources@),
            i <= n,
            entries@.map_values(|e: MetricEntry| (e.source@, e.value)) == sampled_pairs(
                names.subrange(0, i as int),
                outcomes@.subrange(0, i as int),
            ),
        decreases n - i,
    {
        let ghost pn = names.subrange(0, i as int);
        let ghost po = outcomes@.subrange(0, i as int);
        let ghost cn = names.subrange(0, i + 1 as int);
        let ghost co = outcomes@.subrange(0, i + 1 as int);
        assert(cn.drop_last() =~= pn);
        assert(co.drop_last() =~= po);
        assert(cn.last() == sources@[i as int]@);
        assert(co.last() == outcomes@[i as int]);
        if let Some(v) = outcomes[i] {
            entries.push(MetricEntry { source: sources[i].clone(), value: v });
            assert(entries@.map_values(|e: MetricEntry| (e.source@, e.value)) =~= sampled_pairs(
                pn,
                po,
            ).push((sources@[i as int]@, v)));
        }
        i = i + 1;
    }
    assert(names.subrange(0, n as int) =~= names);
    assert(outcomes@.subrange(0, n as int) =~= outcomes@);
    let r = MetricSnapshot { entries };
    proof {
        lemma_sampled_pairs_distinct(names, outcomes@);
        assert(r.keys() =~= r.pairs().map_values(|p: (Seq<char>, u64)| p.0));
    }
    r
}

} // verus!
