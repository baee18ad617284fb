//! The daily broadcast fan-out: which subscribers the daily fire owes a
//! personalised report, and a pass that walks them one at a time — fetch the
//! report, send it, send the fixed opt-out reminder — isolating per-recipient
//! fetch and delivery failures. The sibling operator broadcast sends one text
//! to everyone with no filter and no fetch.
use crate::fanout::Outbound;
use crate::subscriber::{symbol_views, Subscriber};
use crate::text::{reminder_line, reminder_seq};
use vstd::prelude::*;

verus! {

/// Eligibility for the daily broadcast: opted in, non-empty watchlist.
pub open spec fn eligible(s: Subscriber) -> bool {
    s.notifications_enabled && s.watch().len() > 0
}

/// One planned daily report: the recipient and the watchlist the report is
/// fetched for.
pub struct BroadcastJob {
    pub recipient: i64,
    pub watchlist: Vec<String>,
}

/// A job list as (recipient, watchlist) pairs.
pub open spec fn job_views(v: Seq<BroadcastJob>) -> Seq<(i64, Seq<Seq<char>>)> {
    v.map_values(|j: BroadcastJob| (j.recipient, symbol_views(j.watchlist@)))
}

/// The jobs one daily fire owes: exactly the eligible subscribers, in store
/// order, each with their own watchlist.
pub open spec fn jobs_spec(subs: Seq<Subscriber>) -> Seq<(i64, Seq<Seq<char>>)> {
    subs.filter(|s: Subscriber| eligible(s)).map_values(|s: Subscriber| (s.id, s.watch()))
}

/// Law: the daily broadcast plans no fetch and no send for a subscriber with
/// an empty watchlist — every planned job carries a non-empty one.
pub proof fn lemma_broadcast_only_eligible(subs: Seq<Subscriber>)
    ensures
        forall|k: int|
            0 <= k < jobs_spec(subs).len() ==> (#[trigger] jobs_spec(subs)[k]).1.len() > 0,
{
    assert forall|k: int|
        0 <= k < jobs_spec(subs).len() implies (#[trigger] jobs_spec(subs)[k]).1.len() > 0 by {
        subs.lemma_filter_pred(|s: Subscriber| eligible(s), k);
    }
}

/// Law: the daily broadcast plans every eligible subscriber — none is
/// skipped.
pub proof fn lemma_broadcast_covers_eligible(subs: Seq<Subscriber>)
    ensures
        forall|j: int|
            0 <= j < subs.len() && eligible(subs[j]) ==> jobs_spec(subs).contains(
                (subs[j].id, subs[j].watch()),
            ),
{
    let elig = |s: Subscriber| eligible(s);
    let jobf = |s: Subscriber| (s.id, s.watch());
    let f = subs.filter(elig);
    assert forall|j: int|
        0 <= j < subs.len() && eligible(subs[j]) implies jobs_spec(subs).contains(
        (subs[j].id, subs[j].watch()),
    ) by {
        subs.lemma_filter_contains(elig, j);
        let i = choose|i: int| 0 <= i < f.len() && f[i] == subs[j];
        assert(jobs_spec(subs)[i] == jobf(subs[j]));
    }
}

fn copy_symbols(v: &Vec<String>) -> (r: Vec<String>)
    ensures
        r@ == v@,
{
    let n = v.len();
    let mut r: Vec<String> = Vec::new();
    let mut i: usize = 0;
    while i < n
        invariant
            n == v@.len(),
            i <= n,
            r@ == v@.subrange(0, i as int),
        decreases n - i,
    {
        r.push(v[i].clone());
        assert(r@ =~= v@.subrange(0, i + 1 as int));
        i = i + 1;
    }
    assert(v@.subrange(0, n as int) =~= v@);
    r
}

/// Plans one daily fire: one job per eligible subscriber, store order kept.
pub fn broadcast_jobs(subs: &Vec<Subscriber>) -> (r: Vec<BroadcastJob>)
    ensures
        job_views(r@) == jobs_spec(subs@),
        forall|i: int| 0 <= i < r@.len() ==> (#[trigger] r@[i]).watchlist@.len() > 0,
{
    let m = subs.len();
    let mut r: Vec<BroadcastJob> = Vec::new();
    let mut j: usize = 0;
    while j < m
        invariant
            m == subs@.len(),
            j <= m,
            job_views(r@) == jobs_spec(subs@.subrange(0, j as int)),
            forall|i: int| 0 <= i < r@.len() ==> (#[trigger] r@[i]).watchlist@.len() > 0,
        decreases m - j,
    {
        reveal(Seq::filter);
        let ghost pre = subs@.subrange(0, j as int);
        let ghost cur = subs@.subrange(0, j + 1 as int);
        assert(cur.drop_last() =~= pre);
        assert(cur.last() == subs@[j as int]);
        let ghost elig = |s: Subscriber| eligible(s);
        let ghost jobf = |s: Subscriber| (s.id, s.watch());
        let sub = &subs[j];
        if sub.notifications_enabled && sub.watchlist.len() > 0 {
            assert(eligible(subs@[j as int]));
            r.push(BroadcastJob { recipient: sub.id, watchlist: copy_symbols(&sub.watchlist) });
            proof {
                let x = subs@[j as int];
                assert(cur.filter(elig) =~= pre.filter(elig).push(x));
                assert(job_views(r@) =~= jobs_spec(pre).push(jobf(x)));
                assert(jobs_spec(cur) =~= jobs_spec(pre).push(jobf(x)));
            }
        } else {
            assert(job_views(r@) =~= jobs_spec(cur));
        }
        j = j + 1;
    }
    assert(subs@.subrange(0, m as int) =~= subs@);
    r
}

/// Where one recipient's broadcast stands.
pub enum BroadcastStage {
    /// Waiting for the host to fetch this recipient's aggregate report.
    Fetching,
    /// The report arrived; it is owed to the recipient.
    SendingReport(String),
    /// The report send was attempted; the fixed reminder is owed.
    SendingReminder,
}

/// One daily broadcast pass: recipients are processed strictly one at a
/// time, and neither a failed fetch nor a failed send stops the rest.
pub struct BroadcastPass {
    /// The plan, fixed for the life of the pass.
    pub jobs: Vec<BroadcastJob>,
    /// The recipient now being processed.
    pub idx: usize,
    /// Where that recipient's processing stands.
    pub stage: BroadcastStage,
}

impl BroadcastPass {
    /// Pass invariant: the cursor stays inside the plan while any send is
    /// pending.
    pub open spec fn wf(self) -> bool {
        &&& self.idx <= self.jobs@.len()
        &&& (self.idx == self.jobs@.len() ==> self.stage is Fetching)
    }

    /// The transition one fetch outcome causes: a report queues this
    /// recipient's sends, a failed fetch skips straight to the next
    /// recipient.
    pub open spec fn after_fetch(self, report: Option<String>) -> BroadcastPass {
        match report {
            Some(t) => BroadcastPass { stage: BroadcastStage::SendingReport(t), ..self },
            None => BroadcastPass { idx: (self.idx + 1) as usize, ..self },
        }
    }

    /// The transition the report send causes: the reminder is owed next,
    /// whether or not the report was delivered.
    pub open spec fn after_report_send(self) -> BroadcastPass {
        BroadcastPass { stage: BroadcastStage::SendingReminder, ..self }
    }

    /// The transition the reminder send causes: on to the next recipient,
    /// whether or not the reminder was delivered.
    pub open spec fn after_reminder_send(self) -> BroadcastPass {
        BroadcastPass { idx: (self.idx + 1) as usize, stage: BroadcastStage::Fetching, ..self }
    }

    /// One recipient's whole round: the fetch outcome, then — if a report
    /// arrived — the two sends.
    pub open spec fn after_round(self, report: Option<String>) -> BroadcastPass {
        match report {
            Some(t) => self.after_fetch(Some(t)).after_report_send().after_reminder_send(),
            None => self.after_fetch(None),
        }
    }

    /// Starts a pass over the eligible subscribers.
    pub fn begin(subs: &Vec<Subscriber>) -> (r: BroadcastPass)
        ensures
            r.wf(),
            job_views(r.jobs@) == jobs_spec(subs@),
            forall|i: int| 0 <= i < r.jobs@.len() ==> (#[trigger] r.jobs@[i]).watchlist@.len() > 0,
            r.idx == 0,
            r.stage is Fetching,
    {
        BroadcastPass { jobs: broadcast_jobs(subs), idx: 0, stage: BroadcastStage::Fetching }
    }

    /// The job whose report the host should fetch now, if the pass is waiting
    /// on a fetch.
    pub fn next_fetch(&self) -> (r: Option<&BroadcastJob>)
        requires
            self.wf(),
        ensures
            match r {
                Some(job) => self.stage is Fetching && self.idx < self.jobs@.len() && *job
                    == self.jobs@[self.idx as int],
                None => !(self.stage is Fetching) || self.idx == self.jobs@.len(),
            },
    {
        match self.stage {
            BroadcastStage::Fetching => {
                if self.idx < self.jobs.len() {
                    Some(&self.jobs[self.idx])
                } else {
                    None
                }
            },
            _ => None,
        }
    }

    /// Hands the pass one fetch outcome. A report moves this recipient on to
    /// its report send; a failed fetch skips the recipient, and iteration
    /// continues with the next one.
    pub fn supply_report(&mut self, report: Option<String>)
        requires
            old(self).wf(),
            old(self).stage is Fetching,
            old(self).idx < old(self).jobs@.len(),
        ensures
            final(self).wf(),
            *final(self) == old(self).after_fetch(report),
            final(self).jobs == old(self).jobs,
            match report {
                Some(t) => final(self).idx == old(self).idx && final(self).stage
                    == BroadcastStage::SendingReport(t),
                None => final(self).idx == old(self).idx + 1 && final(self).stage is Fetching,
            },
    {
        let n = self.jobs.len();
        match report {
            Some(t) => {
                self.stage = BroadcastStage::SendingReport(t);
            },
            None => {
                self.idx = self.idx + 1;
            },
        }
    }

    /// The send now owed, if any: first the fetched report, then the fixed
    /// opt-out reminder.
    pub fn next_send(&self) -> (r: Option<Outbound>)
        requires
            self.wf(),
        ensures
            match self.stage {
                BroadcastStage::Fetching => r is None,
                BroadcastStage::SendingReport(t) => r matches Some(o) && o.recipient
                    == self.jobs@[self.idx as int].recipient && o.text == t,
                BroadcastStage::SendingReminder => r matches Some(o) && o.recipient
                    == self.jobs@[self.idx as int].recipient && o.text@ == reminder_seq(),
            },
    {
        match &self.stage {
            BroadcastStage::Fetching => None,
            BroadcastStage::SendingReport(t) => Some(
                Outbound { recipient: self.jobs[self.idx].recipient, text: t.clone() },
            ),
            BroadcastStage::SendingReminder => Some(
                Outbound { recipient: self.jobs[self.idx].recipient, text: reminder_line() },
            ),
        }
    }

    /// Records the report send's outcome: delivered or not, the reminder is
    /// owed next — one recipient's failure is logged by the host and never
    /// stops the pass.
    pub fn report_sent(&mut self, delivered: bool)
        requires
            old(self).wf(),
            old(self).stage is SendingReport,
        ensures
            final(self).wf(),
            *final(self) == old(self).after_report_send(),
            final(self).jobs == old(self).jobs,
            final(self).idx == old(self).idx,
            final(self).stage is SendingReminder,
    {
        self.stage = BroadcastStage::SendingReminder;
    }

    /// Records the reminder send's outcome: delivered or not, the pass moves
    /// on to the next recipient.
    pub fn reminder_sent(&mut self, delivered: bool)
        requires
            old(self).wf(),
            old(self).stage is SendingReminder,
        ensures
            final(self).wf(),
            *final(self) == old(self).after_reminder_send(),
            final(self).jobs == old(self).jobs,
            final(self).idx == old(self).idx + 1,
            final(self).stage is Fetching,
    {
        let n = self.jobs.len();
        self.idx = self.idx + 1;
        self.stage = BroadcastStage::Fetching;
    }

    /// Whether every eligible recipient has been processed.
    pub fn is_done(&self) -> (r: bool)
        requires
            self.wf(),
        ensures
            r == (self.idx == self.jobs@.len()),
    {
        self.idx == self.jobs.len()
    }
}

/// Law: one recipient's round always ends at the next recipient with the
/// plan unchanged and the pass again waiting on a fetch, whatever the fetch
/// returned — and the delivery outcomes of the two sends do not even enter
/// the transition. A fetch or delivery failure is isolated to its own
/// recipient; the remaining recipients are still processed.
pub proof fn lemma_recipient_round_always_advances(p: BroadcastPass, report: Option<String>)
    requires
        p.wf(),
        p.stage is Fetching,
        p.idx < p.jobs@.len(),
        p.jobs@.len() <= usize::MAX,
    ensures
        p.after_round(report).jobs == p.jobs,
        p.after_round(report).idx == p.idx + 1,
        p.after_round(report).stage is Fetching,
        p.after_round(report).wf(),
{
}

/// Plans the operator's "send this text to everyone" broadcast: every stored
/// subscriber, no filter, no per-recipient fetch, the same text for all.
pub fn plan_operator_broadcast(subs: &Vec<Subscriber>, text: &String) -> (r: Vec<Outbound>)
    ensures
        r@.len() == subs@.len(),
        forall|i: int|
            0 <= i < subs@.len() ==> (#[trigger] r@[i]).recipient == subs@[i].id && r@[i].text@
                == text@,
{
    let m = subs.len();
    let mut r: Vec<Outbound> = Vec::new();
    let mut j: usize = 0;
    while j < m
        invariant
            m == subs@.len(),
            j <= m,
            r@.len() == j,
            forall|i: int|
                0 <= i < j ==> (#[trigger] r@[i]).recipient == subs@[i].id && r@[i].text@
                    == text@,
        decreases m - j,
    {
        r.push(Outbound { recipient: subs[j].id, text: text.clone() });
        j = j + 1;
    }
    r
}

} // verus!
