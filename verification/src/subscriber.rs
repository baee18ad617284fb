//! The subscriber record: identity, opt-in flag, the deduplicated watchlist
//! and the per-source gas thresholds, together with the named operations that
//! are the only way the engine mutates a record.
use vstd::prelude::*;
use vstd::string::*;

verus! {

/// One per-source threshold: notify when the sampled value for `source`
/// strictly exceeds `gwei`.
#[derive(Clone)]
pub struct ThresholdEntry {
    pub source: String,
    pub gwei: u32,
}

/// One end user's record.
#[derive(Clone)]
pub struct Subscriber {
    /// Stable numeric identity (primary key).
    pub id: i64,
    /// Best-effort label; may be empty.
    pub display_name: String,
    /// Tracked asset symbols, first-seen order, no symbol twice.
    pub watchlist: Vec<String>,
    /// Opt-in flag for all notifications; false at creation.
    pub notifications_enabled: bool,
    /// Per-source gas thresholds; an absent source means "not subscribed".
    pub gas_thresholds: Vec<ThresholdEntry>,
    /// Creation timestamp (seconds).
    pub created_at: i64,
    /// Refreshed by every mutating operation.
    pub updated_at: i64,
}

/// The character sequences of a list of symbols.
pub open spec fn symbol_views(v: Seq<String>) -> Seq<Seq<char>> {
    v.map_values(|s: String| s@)
}

/// First-match lookup of a source name in a threshold list.
pub open spec fn lookup(entries: Seq<ThresholdEntry>, k: Seq<char>) -> Option<u32>
    decreases entries.len(),
{
    if entries.len() == 0 {
        None
    } else if entries[0].source@ == k {
        Some(entries[0].gwei)
    } else {
        lookup(entries.drop_first(), k)
    }
}

/// A symbol list with every earlier-seen repetition removed: insertion order
/// of the first occurrences is kept.
pub open spec fn dedup(s: Seq<Seq<char>>) -> Seq<Seq<char>>
    decreases s.len(),
{
    if s.len() == 0 {
        Seq::empty()
    } else {
        let d = dedup(s.drop_last());
        if d.contains(s.last()) {
            d
        } else {
            d.push(s.last())
        }
    }
}

/// What adding one symbol does to a watchlist: appended if new, ignored if
/// already present.
pub open spec fn add_watch(w: Seq<Seq<char>>, s: Seq<char>) -> Seq<Seq<char>> {
    if w.contains(s) {
        w
    } else {
        w.push(s)
    }
}

/// A watchlist with every occurrence of one symbol removed.
pub open spec fn without(w: Seq<Seq<char>>, s: Seq<char>) -> Seq<Seq<char>> {
    w.filter(|x: Seq<char>| x != s)
}

/// A threshold list restricted to the other sources.
pub open spec fn keep_entries(s: Seq<ThresholdEntry>, k: Seq<char>) -> Seq<ThresholdEntry> {
    s.filter(|e: ThresholdEntry| e.source@ != k)
}

impl Subscriber {
    /// The watchlist as character sequences.
    pub open spec fn watch(self) -> Seq<Seq<char>> {
        symbol_views(self.watchlist@)
    }

    /// The source names that carry a threshold, in list order.
    pub open spec fn threshold_keys(self) -> Seq<Seq<char>> {
        self.gas_thresholds@.map_values(|e: ThresholdEntry| e.source@)
    }

    /// The threshold stored for a source, if any.
    pub open spec fn threshold_of(self, k: Seq<char>) -> Option<u32> {
        lookup(self.gas_thresholds@, k)
    }

    /// Record invariant: no symbol twice in the watchlist, no source twice in
    /// the threshold list.
    pub open spec fn wf(self) -> bool {
        &&& self.watch().no_duplicates()
        &&& self.threshold_keys().no_duplicates()
    }
}

/// Distinctness survives deduplication.
pub proof fn lemma_dedup_no_duplicates(s: Seq<Seq<char>>)
    ensures
        dedup(s).no_duplicates(),
    decreases s.len(),
{
    if s.len() > 0 {
        lemma_dedup_no_duplicates(s.drop_last());
    }
}

/// Law: one add never leaves a duplicate behind.
pub proof fn lemma_add_watch_distinct(w: Seq<Seq<char>>, s: Seq<char>)
    requires
        w.no_duplicates(),
    ensures
        add_watch(w, s).no_duplicates(),
{
}

/// Law: adding the same symbol any further time changes nothing, so the
/// watchlist holds no duplicate however often one symbol is added.
pub proof fn lemma_add_watch_idempotent(w: Seq<Seq<char>>, s: Seq<char>)
    ensures
        add_watch(add_watch(w, s), s) == add_watch(w, s),
{
    if !w.contains(s) {
        assert(w.push(s)[w.len() as int] == s);
    }
}

/// Distinctness survives any filtering.
pub proof fn lemma_filter_no_duplicates<A>(s: Seq<A>, pred: spec_fn(A) -> bool)
    requires
        s.no_duplicates(),
    ensures
        s.filter(pred).no_duplicates(),
    decreases s.len(),
{
    reveal(Seq::filter);
    if s.len() > 0 {
        let d = s.drop_last();
        lemma_filter_no_duplicates(d, pred);
        if pred(s.last()) {
            assert(!d.filter(pred).contains(s.last())) by {
                if d.filter(pred).contains(s.last()) {
                    d.lemma_filter_contains_rev(pred, s.last());
                    let i = choose|i: int| 0 <= i < d.len() && d[i] == s.last();
                    assert(s[i] == s[s.len() - 1]);
                }
            }
        }
    }
}

/// Looking a key up in concatenated lists takes the left list's match first.
pub proof fn lemma_lookup_append(s: Seq<ThresholdEntry>, t: Seq<ThresholdEntry>, k: Seq<char>)
    ensures
        lookup(s + t, k) == if lookup(s, k) is Some {
            lookup(s, k)
        } else {
            lookup(t, k)
        },
    decreases s.len(),
{
    if s.len() == 0 {
        assert(s + t =~= t);
    } else {
        assert((s + t)[0] == s[0]);
        if s[0].source@ != k {
            assert((s + t).drop_first() =~= s.drop_first() + t);
            lemma_lookup_append(s.drop_first(), t, k);
        }
    }
}

/// A list without any entry for a key looks that key up to nothing.
pub proof fn lemma_lookup_none_when_no_key(s: Seq<ThresholdEntry>, k: Seq<char>)
    requires
        forall|i: int| 0 <= i < s.len() ==> s[i].source@ != k,
    ensures
        lookup(s, k) is None,
    decreases s.len(),
{
    if s.len() > 0 {
        lemma_lookup_none_when_no_key(s.drop_first(), k);
    }
}

/// Lookup in a one-entry list.
pub proof fn lemma_lookup_singleton(e: ThresholdEntry, k: Seq<char>)
    ensures
        lookup(seq![e], k) == if e.source@ == k {
            Some(e.gwei)
        } else {
            None::<u32>
        },
{
    assert(seq![e].drop_first() =~= Seq::<ThresholdEntry>::empty());
    assert(lookup(Seq::<ThresholdEntry>::empty(), k) is None);
}

/// Dropping one key's entries leaves every other key's lookup unchanged.
pub proof fn lemma_lookup_keep_other(s: Seq<ThresholdEntry>, k: Seq<char>, k2: Seq<char>)
    requires
        k2 != k,
    ensures
        lookup(keep_entries(s, k), k2) == lookup(s, k2),
    decreases s.len(),
{
    reveal(Seq::filter);
    if s.len() > 0 {
        let d = s.drop_last();
        let x = s.last();
        lemma_lookup_keep_other(d, k, k2);
        assert(s =~= d + seq![x]);
        lemma_lookup_append(d, seq![x], k2);
        lemma_lookup_singleton(x, k2);
        assert(lookup(s, k2) == if lookup(d, k2) is Some {
            lookup(d, k2)
        } else {
            lookup(seq![x], k2)
        });
        if x.source@ != k {
            assert(keep_entries(s, k) =~= keep_entries(d, k) + seq![x]);
            lemma_lookup_append(keep_entries(d, k), seq![x], k2);
        } else {
            assert(keep_entries(s, k) == keep_entries(d, k));
            assert(lookup(seq![x], k2) is None);
        }
    }
}

/// Dropping one key's entries filters exactly that key out of the key list.
pub proof fn lemma_keys_of_keep(s: Seq<ThresholdEntry>, k: Seq<char>)
    ensures
        keep_entries(s, k).map_values(|e: ThresholdEntry| e.source@) == without(
            s.map_values(|e: ThresholdEntry| e.source@),
            k,
        ),
    decreases s.len(),
{
    reveal(Seq::filter);
    let keys = |e: ThresholdEntry| e.source@;
    if s.len() == 0 {
        assert(s.map_values(keys) =~= Seq::<Seq<char>>::empty());
    } else {
        let d = s.drop_last();
        let x = s.last();
        lemma_keys_of_keep(d, k);
        assert(s.map_values(keys).drop_last() =~= d.map_values(keys));
        assert(s.map_values(keys).last() == x.source@);
        if x.source@ != k {
            assert(keep_entries(s, k).map_values(keys) =~= keep_entries(d, k).map_values(
                keys,
            ).push(x.source@));
        }
    }
}

/// No entry of a filtered list carries the dropped key.
pub proof fn lemma_keep_entries_no_key(s: Seq<ThresholdEntry>, k: Seq<char>)
    ensures
        forall|i: int|
            0 <= i < keep_entries(s, k).len() ==> (#[trigger] keep_entries(s, k)[i]).source@ != k,
    decreases s.len(),
{
    reveal(Seq::filter);
    if s.len() > 0 {
        let d = s.drop_last();
        let x = s.last();
        lemma_keep_entries_no_key(d, k);
        if x.source@ != k {
            assert forall|i: int|
                0 <= i < keep_entries(s, k).len() implies (#[trigger] keep_entries(
                s,
                k,
            )[i]).source@ != k by {
                if i < keep_entries(s, k).len() - 1 {
                    assert(keep_entries(s, k)[i] == keep_entries(d, k)[i]);
                }
            }
        }
    }
}

/// Whether an executable symbol list holds a symbol.
fn contains_symbol(v: &Vec<String>, sym: &String) -> (r: bool)
    ensures
        r == symbol_views(v@).contains(sym@),
{
    let n = v.len();
    let mut j: usize = 0;
    while j < n
        invariant
            n == v@.len(),
            j <= n,
            forall|k: int| 0 <= k < j ==> v@[k]@ != sym@,
        decreases n - j,
    {
        if v[j] == *sym {
            assert(symbol_views(v@)[j as int] == sym@);
            return true;
        }
        j = j + 1;
    }
    assert forall|k: int| 0 <= k < v@.len() implies symbol_views(v@)[k] != sym@ by {
        assert(symbol_views(v@)[k] == v@[k]@);
    }
    false
}

impl Subscriber {
    /// A fresh record for a first-seen user: notifications off, no
    /// thresholds, the given symbols deduplicated.
    pub fn new(id: i64, display_name: String, watchlist: Vec<String>, now: i64) -> (r: Subscriber)
        ensures
            r.wf(),
            r.id == id,
            r.display_name == display_name,
            r.watch() == dedup(symbol_views(watchlist@)),
            r.notifications_enabled == false,
            r.gas_thresholds@ =~= Seq::<ThresholdEntry>::empty(),
            r.created_at == now,
            r.updated_at == now,
    {
        let n = watchlist.len();
        let mut list: Vec<String> = Vec::new();
        let mut i: usize = 0;
        while i < n
            invariant
                n == watchlist@.len(),
                i <= n,
                symbol_views(list@) == dedup(symbol_views(watchlist@).subrange(0, i as int)),
            decreases n - i,
        {
            let ghost pre = symbol_views(watchlist@).subrange(0, i as int);
            let ghost cur = symbol_views(watchlist@).subrange(0, i + 1 as int);
            assert(cur.drop_last() =~= pre);
            assert(cur.last() == watchlist@[i as int]@);
            let sym = &watchlist[i];
            if !contains_symbol(&list, sym) {
                list.push(sym.clone());
                assert(symbol_views(list@) =~= dedup(pre).push(watchlist@[i as int]@));
            }
            i = i + 1;
        }
        assert(symbol_views(watchlist@).subrange(0, n as int) =~= symbol_views(watchlist@));
        proof {
            lemma_dedup_no_duplicates(symbol_views(watchlist@));
        }
        Subscriber {
            id,
            display_name,
            watchlist: list,
            notifications_enabled: false,
            gas_thresholds: Vec::new(),
            created_at: now,
            updated_at: now,
        }
    }

    /// Appends a symbol unless it is already watched; the watchlist therefore
    /// never holds a duplicate, however often the same symbol is added.
    pub fn add_symbol(&mut self, symbol: &String, now: i64)
        requires
            old(self).wf(),
        ensures
            final(self).wf(),
            final(self).watch() == add_watch(old(self).watch(), symbol@),
            final(self).id == old(self).id,
            final(self).display_name == old(self).display_name,
            final(self).notifications_enabled == old(self).notifications_enabled,
            final(self).gas_thresholds == old(self).gas_thresholds,
            final(self).created_at == old(self).created_at,
            final(self).updated_at == now,
    {
        if !contains_symbol(&self.watchlist, symbol) {
            self.watchlist.push(symbol.clone());
            assert(self.watch() =~= old(self).watch().push(symbol@));
        }
        self.updated_at = now;
        proof {
            lemma_add_watch_distinct(old(self).watch(), symbol@);
        }
    }

    /// Drops a symbol from the watchlist; unknown symbols change nothing but
    /// the update stamp.
    pub fn remove_symbol(&mut self, symbol: &String, now: i64)
        requires
            old(self).wf(),
        ensures
            final(self).wf(),
            final(self).watch() == without(old(self).watch(), symbol@),
            final(self).id == old(self).id,
            final(self).display_name == old(self).display_name,
            final(self).notifications_enabled == old(self).notifications_enabled,
            final(self).gas_thresholds == old(self).gas_thresholds,
            final(self).created_at == old(self).created_at,
            final(self).updated_at == now,
    {
        let ghost v = old(self).watch();
        let ghost pred = |x: Seq<char>| x != symbol@;
        let n = self.watchlist.len();
        let mut kept: Vec<String> = Vec::new();
        let mut i: usize = 0;
        while i < n
            invariant
                n == self.watchlist@.len(),
                self.watchlist == old(self).watchlist,
                i <= n,
                v == old(self).watch(),
                pred == (|x: Seq<char>| x != symbol@),
                symbol_views(kept@) == v.subrange(0, i as int).filter(pred),
            decreases n - i,
        {
            reveal(Seq::filter);
            let ghost pre = v.subrange(0, i as int);
            let ghost cur = v.subrange(0, i + 1 as int);
            assert(cur.drop_last() =~= pre);
            assert(cur.last() == self.watchlist@[i as int]@);
            let sym = &self.watchlist[i];
            if !(*sym == *symbol) {
                kept.push(sym.clone());
                assert(symbol_views(kept@) =~= pre.filter(pred).push(self.watchlist@[i as int]@));
            }
            i = i + 1;
        }
        assert(v.subrange(0, n as int) =~= v);
        proof {
            lemma_filter_no_duplicates(v, pred);
        }
        self.watchlist = kept;
        self.updated_at = now;
    }

    /// Flips the opt-in flag and reports the new state in the words the bot
    /// answers with.
    pub fn toggle_notifications(&mut self, now: i64) -> (r: String)
        requires
            old(self).wf(),
        ensures
            final(self).wf(),
            final(self).notifications_enabled == !old(self).notifications_enabled,
            final(self).id == old(self).id,
            final(self).display_name == old(self).display_name,
            final(self).watchlist == old(self).watchlist,
            final(self).gas_thresholds == old(self).gas_thresholds,
            final(self).created_at == old(self).created_at,
            final(self).updated_at == now,
            r@ == if final(self).notifications_enabled {
                "successfully turned on"@
            } else {
                "successfully turned off"@
            },
    {
        self.notifications_enabled = !self.notifications_enabled;
        self.updated_at = now;
        if self.notifications_enabled {
            String::from_str("successfully turned on")
        } else {
            String::from_str("successfully turned off")
        }
    }

    /// The threshold this record stores for a source, if any.
    pub fn find_threshold(&self, source: &String) -> (r: Option<u32>)
        ensures
            r == self.threshold_of(source@),
    {
        let ghost s0 = self.gas_thresholds@;
        let n = self.gas_thresholds.len();
        assert(s0.subrange(0, n as int) =~= s0);
        let mut i: usize = 0;
        while i < n
            invariant
                n == s0.len(),
                s0 == self.gas_thresholds@,
                i <= n,
                lookup(s0, source@) == lookup(s0.subrange(i as int, n as int), source@),
            decreases n - i,
        {
            let ghost cur = s0.subrange(i as int, n as int);
            assert(cur[0] == s0[i as int]);
            assert(cur.drop_first() =~= s0.subrange(i + 1 as int, n as int));
            let e = &self.gas_thresholds[i];
            if e.source == *source {
                return Some(e.gwei);
            }
            i = i + 1;
        }
        assert(s0.subrange(n as int, n as int) =~= Seq::<ThresholdEntry>::empty());
        None
    }

    /// Stores a threshold for one source, replacing any earlier entry for it;
    /// every other source keeps its threshold.
    pub fn set_threshold(&mut self, source: &String, gwei: u32, now: i64)
        requires
            old(self).wf(),
        ensures
            final(self).wf(),
            final(self).threshold_of(source@) == Some(gwei),
            forall|k: Seq<char>|
                k != source@ ==> final(self).threshold_of(k) == old(self).threshold_of(k),
            final(self).threshold_keys() == without(old(self).threshold_keys(), source@).push(
                source@,
            ),
            final(self).id == old(self).id,
            final(self).display_name == old(self).display_name,
            final(self).watchlist == old(self).watchlist,
            final(self).notifications_enabled == old(self).notifications_enabled,
            final(self).created_at == old(self).created_at,
            final(self).updated_at == now,
    {
        let ghost s0 = old(self).gas_thresholds@;
        let n = self.gas_thresholds.len();
        let mut kept: Vec<ThresholdEntry> = Vec::new();
        let mut i: usize = 0;
        while i < n
            invariant
                n == self.gas_thresholds@.len(),
                self.gas_thresholds == old(self).gas_thresholds,
                s0 == old(self).gas_thresholds@,
                i <= n,
                kept@ == keep_entries(s0.subrange(0, i as int), source@),
            decreases n - i,
        {
            reveal(Seq::filter);
            let ghost pre = s0.subrange(0, i as int);
            let ghost cur = s0.subrange(0, i + 1 as int);
            assert(cur.drop_last() =~= pre);
            assert(cur.last() == s0[i as int]);
            let e = &self.gas_thresholds[i];
            if !(e.source == *source) {
                kept.push(ThresholdEntry { source: e.source.clone(), gwei: e.gwei });
                assert(kept@ =~= keep_entries(pre, source@).push(s0[i as int]));
            }
            i = i + 1;
        }
        assert(s0.subrange(0, n as int) =~= s0);
        kept.push(ThresholdEntry { source: source.clone(), gwei });
        self.gas_thresholds = kept;
        self.updated_at = now;
        proof {
            let keepd = keep_entries(s0, source@);
            let e = self.gas_thresholds@.last();
            assert(e.source@ == source@ && e.gwei == gwei);
            assert(self.gas_thresholds@ =~= keepd + seq![e]);
            lemma_lookup_singleton(e, source@);
            lemma_keep_entries_no_key(s0, source@);
            lemma_lookup_none_when_no_key(keepd, source@);
            lemma_lookup_append(keepd, seq![e], source@);
            assert(lookup(seq![e], source@) == Some(gwei));
            assert forall|k: Seq<char>| k != source@ implies self.threshold_of(k) == old(
                self,
            ).threshold_of(k) by {
                lemma_lookup_append(keepd, seq![e], k);
                lemma_lookup_singleton(e, k);
                lemma_lookup_keep_other(s0, source@, k);
            }
            let keys = |x: ThresholdEntry| x.source@;
            lemma_keys_of_keep(s0, source@);
            assert(self.threshold_keys() =~= keepd.map_values(keys).push(source@));
            lemma_filter_no_duplicates(
                old(self).threshold_keys(),
                |x: Seq<char>| x != source@,
            );
            assert(!keepd.map_values(keys).contains(source@)) by {
                if keepd.map_values(keys).contains(source@) {
                    let j = choose|j: int|
                        0 <= j < keepd.len() && keepd.map_values(keys)[j] == source@;
                    assert(keepd[j].source@ == source@);
                }
            }
        }
    }
}

} // verus!
