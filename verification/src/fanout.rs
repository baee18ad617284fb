//! The threshold-gated fan-out: which subscribers one snapshot owes a
//! message, and a delivery pass that attempts every planned send even when
//! earlier deliveries fail.
use crate::poller::MetricSnapshot;
use crate::subscriber::Subscriber;
use crate::text::{gas_line, gas_line_seq};
use vstd::prelude::*;

verus! {

/// One message to send: a recipient and the text it gets.
pub struct Outbound {
    pub recipient: i64,
    pub text: String,
}

/// A send plan as (recipient, text) pairs.
pub open spec fn out_views(v: Seq<Outbound>) -> Seq<(i64, Seq<char>)> {
    v.map_values(|o: Outbound| (o.recipient, o.text@))
}

/// The trigger rule: a stored threshold must be strictly less than the
/// freshly sampled value.
pub fn threshold_crossed(threshold: u32, value: u64) -> (r: bool)
    ensures
        r == ((threshold as u64) < value),
{
    (threshold as u64) < value
}

/// Whether one subscriber is owed a notification for one source's sample:
/// opted in, a threshold stored for that source, and the threshold strictly
/// below the sampled value.
pub open spec fn due(s: Subscriber, source: Seq<char>, value: u64) -> bool {
    &&& s.notifications_enabled
    &&& match s.threshold_of(source) {
        Some(t) => (t as u64) < value,
        None => false,
    }
}

/// Decides the trigger rule for one subscriber and one sample.
pub fn is_due(s: &Subscriber, source: &String, value: u64) -> (r: bool)
    ensures
        r == due(*s, source@, value),
{
    if !s.notifications_enabled {
        return false;
    }
    match s.find_threshold(source) {
        Some(t) => threshold_crossed(t, value),
        None => false,
    }
}

/// The sends one source's sample owes, in store order: one line per due
/// subscriber.
pub open spec fn sends_for_source(source: Seq<char>, value: u64, subs: Seq<Subscriber>) -> Seq<
    (i64, Seq<char>),
> {
    subs.filter(|s: Subscriber| due(s, source, value)).map_values(
        |s: Subscriber| (s.id, gas_line_seq(source, value as nat)),
    )
}

/// Law: no due subscriber is missed — every opted-in subscriber whose stored
/// threshold for the source lies strictly below the sampled value appears in
/// that source's sends, with that source's line. (That nothing else appears
/// is the definition of `sends_for_source` itself: it keeps only due
/// subscribers.)
pub proof fn lemma_due_subscriber_is_sent(source: Seq<char>, value: u64, subs: Seq<Subscriber>)
    ensures
        forall|j: int|
            0 <= j < subs.len() && due(subs[j], source, value) ==> sends_for_source(
                source,
                value,
                subs,
            ).contains((subs[j].id, gas_line_seq(source, value as nat))),
{
    let duep = |s: Subscriber| due(s, source, value);
    let msgp = |s: Subscriber| (s.id, gas_line_seq(source, value as nat));
    let f = subs.filter(duep);
    assert forall|j: int|
        0 <= j < subs.len() && due(subs[j], source, value) implies sends_for_source(
        source,
        value,
        subs,
    ).contains((subs[j].id, gas_line_seq(source, value as nat))) by {
        subs.lemma_filter_contains(duep, j);
        let i = choose|i: int| 0 <= i < f.len() && f[i] == subs[j];
        assert(sends_for_source(source, value, subs)[i] == msgp(subs[j]));
    }
}

/// The whole tick's sends: snapshot order between sources, store order
/// within one source.
pub open spec fn threshold_plan(pairs: Seq<(Seq<char>, u64)>, subs: Seq<Subscriber>) -> Seq<
    (i64, Seq<char>),
>
    decreases pairs.len(),
{
    if pairs.len() == 0 {
        Seq::empty()
    } else {
        threshold_plan(pairs.drop_last(), subs) + sends_for_source(
            pairs.last().0,
            pairs.last().1,
            subs,
        )
    }
}

/// Plans one tick's threshold notifications: exactly the opted-in
/// subscribers whose stored threshold for a sampled source lies strictly
/// below that source's fresh value, each getting the one-line message for
/// that source.
pub fn plan_threshold_sends(snapshot: &MetricSnapshot, subs: &Vec<Subscriber>) -> (r: Vec<
    Outbound,
>)
    ensures
        out_views(r@) == threshold_plan(snapshot.pairs(), subs@),
{
    let ghost pairs = snapshot.pairs();
    let n = snapshot.entries.len();
    let m = subs.len();
    let mut r: Vec<Outbound> = Vec::new();
    let mut i: usize = 0;
    while i < n
        invariant
            n == snapshot.entries@.len(),
            m == subs@.len(),
            pairs == snapshot.pairs(),
            i <= n,
            out_views(r@) == threshold_plan(pairs.subrange(0, i as int), subs@),
        decreases n - i,
    {
        let ghost src = pairs[i as int].0;
        let value = snapshot.entries[i].value;
        assert(pairs[i as int] == (snapshot.entries@[i as int].source@, snapshot.entries@[i as int].value));
        let ghost plan_pre = threshold_plan(pairs.subrange(0, i as int), subs@);
        let mut j: usize = 0;
        while j < m
            invariant
                n == snapshot.entries@.len(),
                m == subs@.len(),
                pairs == snapshot.pairs(),
                i < n,
                j <= m,
                src == pairs[i as int].0,
                value == pairs[i as int].1,
                plan_pre == threshold_plan(pairs.subrange(0, i as int), subs@),
                out_views(r@) == plan_pre + sends_for_source(
                    src,
                    value,
                    subs@.subrange(0, j as int),
                ),
            decreases m - j,
        {
            reveal(Seq::filter);
            assert(pairs[i as int] == (snapshot.entries@[i as int].source@, snapshot.entries@[i as int].value));
            let ghost pre = subs@.subrange(0, j as int);
            let ghost cur = subs@.subrange(0, j + 1 as int);
            assert(cur.drop_last() =~= pre);
            assert(cur.last() == subs@[j as int]);
            let ghost duep = |s: Subscriber| due(s, src, value);
            let ghost msgp = |s: Subscriber| (s.id, gas_line_seq(src, value as nat));
            let sub = &subs[j];
            if is_due(sub, &snapshot.entries[i].source, value) {
                let text = gas_line(&snapshot.entries[i].source, value);
                let ghost prev = r@;
                r.push(Outbound { recipient: sub.id, text });
                proof {
                    let x = subs@[j as int];
                    assert(due(x, src, value));
                    assert(cur.filter(duep) =~= pre.filter(duep).push(x));
                    assert(sends_for_source(src, value, pre) == pre.filter(duep).map_values(
                        msgp,
                    ));
                    assert(sends_for_source(src, value, cur) == cur.filter(duep).map_values(
                        msgp,
                    ));
                    assert(cur.filter(duep).map_values(msgp) =~= pre.filter(duep).map_values(
                        msgp,
                    ).push(msgp(x)));
                    assert(out_views(r@) =~= out_views(prev).push(msgp(x)));
                }
                assert(out_views(r@) =~= plan_pre + sends_for_source(src, value, cur));
            } else {
                assert(out_views(r@) =~= plan_pre + sends_for_source(src, value, cur));
            }
            j = j + 1;
        }
        assert(subs@.subrange(0, m as int) =~= subs@);
        proof {
            let ghost pc = pairs.subrange(0, i + 1 as int);
            assert(pc.drop_last() =~= pairs.subrange(0, i as int));
            assert(pc.last() == pairs[i as int]);
        }
        i = i + 1;
    }
    assert(pairs.subrange(0, n as int) =~= pairs);
    r
}

/// One fan-out pass over a fixed send plan. The host sends the current
/// message and records whether delivery succeeded; the pass moves to the
/// next recipient either way, so one recipient's failure never stops the
/// rest.
pub struct FanOutPass {
    /// The plan, fixed for the life of the pass.
    pub messages: Vec<Outbound>,
    /// How many messages have been attempted.
    pub next: usize,
    /// How many attempts failed; failures are only counted, never retried
    /// within the pass.
    pub failures: usize,
}

impl FanOutPass {
    /// Pass invariant.
    pub open spec fn wf(self) -> bool {
        &&& self.next <= self.messages@.len()
        &&& self.failures <= self.next
    }

    /// The transition one delivery outcome causes: the cursor advances
    /// whatever the outcome was.
    pub open spec fn step_spec(self, delivered: bool) -> FanOutPass {
        FanOutPass {
            messages: self.messages,
            next: (self.next + 1) as usize,
            failures: if delivered {
                self.failures
            } else {
                (self.failures + 1) as usize
            },
        }
    }

    /// The pass after a whole sequence of delivery outcomes.
    pub open spec fn run_spec(self, outcomes: Seq<bool>) -> FanOutPass
        decreases outcomes.len(),
    {
        if outcomes.len() == 0 {
            self
        } else {
            self.step_spec(outcomes[0]).run_spec(outcomes.drop_first())
        }
    }

    /// Starts a pass over a plan.
    pub fn begin(messages: Vec<Outbound>) -> (r: FanOutPass)
        ensures
            r.wf(),
            r.messages == messages,
            r.next == 0,
            r.failures == 0,
    {
        FanOutPass { messages, next: 0, failures: 0 }
    }

    /// The message to attempt now, if any is left.
    pub fn current(&self) -> (r: Option<&Outbound>)
        requires
            self.wf(),
        ensures
            match r {
                Some(m) => self.next < self.messages@.len() && *m == self.messages@[
                    self.next as int
                ],
                None => self.next == self.messages@.len(),
            },
    {
        if self.next < self.messages.len() {
            Some(&self.messages[self.next])
        } else {
            None
        }
    }

    /// Records the outcome of the attempt on the current message. The plan
    /// stays fixed and the cursor advances whether or not delivery
    /// succeeded: a failed recipient is logged by the host and skipped, never
    /// retried within the pass.
    pub fn record(&mut self, delivered: bool)
        requires
            old(self).wf(),
            old(self).next < old(self).messages@.len(),
        ensures
            final(self).wf(),
            *final(self) == old(self).step_spec(delivered),
    {
        let n = self.messages.len();
        self.next = self.next + 1;
        if !delivered {
            self.failures = self.failures + 1;
        }
    }

    /// Whether every planned message has been attempted.
    pub fn is_done(&self) -> (r: bool)
        ensures
            r == (self.next == self.messages@.len()),
    {
        self.next == self.messages.len()
    }
}

/// Law: a fan-out pass attempts every message in its plan, one after the
/// other, whatever each delivery's outcome was. In particular, a failure at
/// recipient `k` of `n` still leaves recipients `k+1..n` attempted.
pub proof fn lemma_fanout_attempts_all(p: FanOutPass, outcomes: Seq<bool>)
    requires
        p.next + outcomes.len() <= p.messages@.len(),
        p.messages@.len() <= usize::MAX,
    ensures
        p.run_spec(outcomes).messages == p.messages,
        p.run_spec(outcomes).next == p.next + outcomes.len(),
    decreases outcomes.len(),
{
    if outcomes.len() > 0 {
        lemma_fanout_attempts_all(p.step_spec(outcomes[0]), outcomes.drop_first());
    }
}

proof fn lemma_runs_agree(p1: FanOutPass, p2: FanOutPass, o1: Seq<bool>, o2: Seq<bool>)
    requires
        p1.messages == p2.messages,
        p1.next == p2.next,
        o1.len() == o2.len(),
    ensures
        p1.run_spec(o1).messages == p2.run_spec(o2).messages,
        p1.run_spec(o1).next == p2.run_spec(o2).next,
    decreases o1.len(),
{
    if o1.len() > 0 {
        lemma_runs_agree(
            p1.step_spec(o1[0]),
            p2.step_spec(o2[0]),
            o1.drop_first(),
            o2.drop_first(),
        );
    }
}

/// Law: which messages a pass attempts does not depend on the outcomes, only
/// on how many outcomes arrived; only the failure count differs between two
/// runs.
pub proof fn lemma_fanout_outcome_independent(p: FanOutPass, o1: Seq<bool>, o2: Seq<bool>)
    requires
        o1.len() == o2.len(),
    ensures
        p.run_spec(o1).messages == p.run_spec(o2).messages,
        p.run_spec(o1).next == p.run_spec(o2).next,
{
    lemma_runs_agree(p, p, o1, o2);
}

} // verus!
