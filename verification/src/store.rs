//! Get-or-create resolution over the external subscriber store: the engine
//! never treats "no record" as an error; a first lookup yields a fresh
//! default record, and a racing concurrent create still leaves the caller
//! with a usable in-memory record.
use crate::subscriber::{Subscriber, ThresholdEntry, symbol_views};
use vstd::prelude::*;

verus! {

/// What the external record store answered to a lookup by id.
pub enum StoreLookup {
    /// The store holds this record.
    Found(Subscriber),
    /// The store holds no record for the id yet.
    Missing,
    /// The lookup itself failed (store unreachable, record unreadable).
    LookupFailed,
}

/// What get-or-create decided: the record the caller works with, and whether
/// a fresh default record should be persisted.
pub struct GetOutcome {
    pub record: Subscriber,
    /// True exactly when the id was missing: the caller persists the default
    /// record; a duplicate-key failure of that insert is logged and ignored,
    /// the in-memory record stays usable.
    pub persist_new: bool,
}

/// A default record as created for a first-seen id: empty watchlist,
/// notifications off, no thresholds.
pub open spec fn is_default_record(s: Subscriber, id: i64, now: i64) -> bool {
    &&& s.id == id
    &&& s.display_name@ == Seq::<char>::empty()
    &&& s.watch() == Seq::<Seq<char>>::empty()
    &&& s.notifications_enabled == false
    &&& s.gas_thresholds@ == Seq::<ThresholdEntry>::empty()
    &&& s.created_at == now
    &&& s.updated_at == now
}

/// The full contract of get-or-create resolution, as a relation between the
/// store's answer and the decision.
pub open spec fn resolve_rel(id: i64, lookup: StoreLookup, now: i64, r: GetOutcome) -> bool {
    &&& r.record.wf()
    &&& r.record.id == id
    &&& match lookup {
        StoreLookup::Found(u) => r.record == u && !r.persist_new,
        StoreLookup::Missing => is_default_record(r.record, id, now) && r.persist_new,
        StoreLookup::LookupFailed => is_default_record(r.record, id, now) && !r.persist_new,
    }
}

/// Resolves one lookup answer into the record the caller receives. Whatever
/// the store answered, the caller gets a well-formed record with the id it
/// asked for; only a genuinely missing id asks for a persist.
pub fn resolve_get(id: i64, lookup: StoreLookup, now: i64) -> (r: GetOutcome)
    requires
        lookup matches StoreLookup::Found(u) ==> u.id == id && u.wf(),
    ensures
        resolve_rel(id, lookup, now, r),
{
    match lookup {
        StoreLookup::Found(u) => GetOutcome { record: u, persist_new: false },
        StoreLookup::Missing => {
            let record = Subscriber::new(id, String::new(), Vec::new(), now);
            assert(symbol_views(Seq::<String>::empty()) =~= Seq::<Seq<char>>::empty());
            GetOutcome { record, persist_new: true }
        },
        StoreLookup::LookupFailed => {
            let record = Subscriber::new(id, String::new(), Vec::new(), now);
            assert(symbol_views(Seq::<String>::empty()) =~= Seq::<Seq<char>>::empty());
            GetOutcome { record, persist_new: false }
        },
    }
}

/// Law: two consecutive get-or-create calls for one id both hand the caller
/// a record with that id, whatever the store answered each time — in
/// particular when the first call's create raced and the second lookup found
/// the other writer's record, and neither call errors.
pub proof fn lemma_get_twice_same_id(
    id: i64,
    l1: StoreLookup,
    l2: StoreLookup,
    now1: i64,
    now2: i64,
    r1: GetOutcome,
    r2: GetOutcome,
)
    requires
        resolve_rel(id, l1, now1, r1),
        resolve_rel(id, l2, now2, r2),
    ensures
        r1.record.id == id,
        r2.record.id == id,
        r1.record.id == r2.record.id,
{
}

} // verus!
