//! The watcher state machine.
//!
//! A `Watcher` owns one supervised lifecycle (present until it is observed to
//! resolve) and a fixed set of subscribers. The host runtime performs the
//! actual polling of the supervised future and of the delivery requests; it
//! reports each observed outcome here as a plain [`PollOutcome`] value, and
//! the watcher decides, under contract, how its state moves and what it
//! reports back.

use vstd::prelude::*;

verus! {

/// The event fanned out to every subscriber when the supervised lifecycle
/// terminates. Success and failure of the supervised unit are deliberately
/// collapsed into the single `Stopped` signal.
#[derive(Debug, Clone, Copy, PartialEq, Eq, Structural)]
pub enum WatchEvent {
    Stopped,
}

/// One observed outcome of polling a non-blocking unit of work: still
/// running, resolved successfully, or resolved with an error.
#[derive(Debug, Clone, Copy, PartialEq, Eq, Structural)]
pub enum PollOutcome {
    NotReady,
    Ready,
    Failed,
}

/// Whether an observation of the supervised lifecycle counts as terminal.
/// Both success and failure do; only `NotReady` keeps the lifecycle alive.
pub open spec fn resolved_opt(o: Option<PollOutcome>) -> bool {
    o == Some(PollOutcome::Ready) || o == Some(PollOutcome::Failed)
}

/// The delivery slots created by one fan-out: one per subscriber, in
/// subscriber order.
pub open spec fn subscriber_ids(n: nat) -> Seq<usize> {
    Seq::new(n, |i: int| i as usize)
}

/// The mathematical state of a watcher.
#[verifier::ext_equal]
pub struct WatcherView {
    /// Whether the supervised lifecycle is still present (not yet observed
    /// to resolve).
    pub lifecycle_present: bool,
    /// How many subscribers were fixed at construction time.
    pub subscribers: nat,
    /// The subscriber index behind each still-outstanding delivery, in the
    /// order the deliveries were issued.
    pub pending: Seq<usize>,
}

impl WatcherView {
    /// The watcher is done exactly when the lifecycle is absent and no
    /// delivery is outstanding; both conditions persist once reached.
    pub open spec fn done(self) -> bool {
        !self.lifecycle_present && self.pending.len() == 0
    }

    /// While the lifecycle is present, no delivery has been issued yet.
    pub open spec fn wf(self) -> bool {
        self.lifecycle_present ==> self.pending.len() == 0
    }
}

/// The state of a freshly constructed watcher over `n` subscribers.
pub open spec fn initial(n: nat) -> WatcherView {
    WatcherView { lifecycle_present: true, subscribers: n, pending: Seq::empty() }
}

/// The supervising phase of one scheduler invocation: if the lifecycle is
/// present and the observed outcome is terminal, the lifecycle becomes
/// absent and one delivery per subscriber is issued, together with the
/// single `Stopped` event; otherwise nothing changes and no event is issued.
pub open spec fn step_supervise(v: WatcherView, lo: Option<PollOutcome>) -> (WatcherView, Option<
    WatchEvent,
>) {
    if v.lifecycle_present && resolved_opt(lo) {
        (
            WatcherView {
                lifecycle_present: false,
                pending: v.pending + subscriber_ids(v.subscribers),
                ..v
            },
            Some(WatchEvent::Stopped),
        )
    } else {
        (v, None)
    }
}

/// The deliveries that stay outstanding after one draining round:
/// `outcomes[i]` is what polling the delivery `pending[i]` reported, and
/// exactly the entries still not ready are kept, in order.
pub open spec fn retained(pending: Seq<usize>, outcomes: Seq<PollOutcome>) -> Seq<usize>
    decreases pending.len(),
{
    if pending.len() == 0 {
        Seq::empty()
    } else if outcomes[0] == PollOutcome::NotReady {
        seq![pending[0]] + retained(pending.drop_first(), outcomes.drop_first())
    } else {
        retained(pending.drop_first(), outcomes.drop_first())
    }
}

/// The draining phase of one scheduler invocation: every outstanding
/// delivery was polled once, the resolved ones (ready or failed alike) are
/// dropped, and the watcher reports ready exactly when the lifecycle is
/// absent and nothing stays pending.
pub open spec fn step_drain(v: WatcherView, outcomes: Seq<PollOutcome>) -> (WatcherView, bool) {
    let kept = retained(v.pending, outcomes);
    (
        WatcherView { pending: kept, ..v },
        !v.lifecycle_present && kept.len() == 0,
    )
}

/// One whole scheduler invocation: the supervising phase, then — only once
/// the lifecycle is absent — the draining phase. The result carries the
/// state after the invocation, the event fanned out (if the terminal
/// transition happened now), and the readiness report.
pub open spec fn step_invocation(
    v: WatcherView,
    lo: Option<PollOutcome>,
    outcomes: Seq<PollOutcome>,
) -> (WatcherView, Option<WatchEvent>, bool) {
    let (v1, fired) = step_supervise(v, lo);
    if !v1.lifecycle_present {
        let (v2, ready) = step_drain(v1, outcomes);
        (v2, fired, ready)
    } else {
        (v1, fired, false)
    }
}

/// Supervises one lifecycle and notifies a fixed set of subscribers of its
/// termination, exactly once, draining every delivery before reporting done.
pub struct Watcher {
    lifecycle_present: bool,
    subscribers: usize,
    pending: Vec<usize>,
}

impl View for Watcher {
    type V = WatcherView;

    closed spec fn view(&self) -> WatcherView {
        WatcherView {
            lifecycle_present: self.lifecycle_present,
            subscribers: self.subscribers as nat,
            pending: self.pending@,
        }
    }
}

impl Watcher {
    /// Builds a watcher whose lifecycle is present and whose fan-out will
    /// reach `subscriber_count` subscribers; no delivery is outstanding yet.
    pub fn new(subscriber_count: usize) -> (w: Watcher)
        ensures
            w@ == initial(subscriber_count as nat),
    {
        let w = Watcher {
            lifecycle_present: true,
            subscribers: subscriber_count,
            pending: Vec::new(),
        };
        proof {
            assert(w@ =~= initial(subscriber_count as nat));
        }
        w
    }

    /// Whether the supervised lifecycle is still present. The runtime polls
    /// the supervised future exactly when this holds.
    pub fn is_supervising(&self) -> (r: bool)
        ensures
            r == self@.lifecycle_present,
    {
        self.lifecycle_present
    }

    /// How many subscribers the fan-out will reach.
    pub fn subscriber_count(&self) -> (n: usize)
        ensures
            n as nat == self@.subscribers,
    {
        self.subscribers
    }

    /// How many deliveries are still outstanding.
    pub fn pending_count(&self) -> (n: usize)
        ensures
            n as nat == self@.pending.len(),
    {
        self.pending.len()
    }

    /// The subscriber index behind each outstanding delivery, in order: the
    /// runtime performs one `send` and tracks one delivery request per entry
    /// listed here.
    pub fn pending_slots(&self) -> (slots: Vec<usize>)
        ensures
            slots@ == self@.pending,
    {
        let mut out: Vec<usize> = Vec::new();
        proof {
            assert(self.pending@.take(0) =~= Seq::<usize>::empty());
        }
        let mut i: usize = 0;
        while i < self.pending.len()
            invariant
                i <= self.pending@.len(),
                out@ == self.pending@.take(i as int),
            decreases self.pending@.len() - i,
        {
            out.push(self.pending[i]);
            proof {
                assert(self.pending@.take(i + 1) =~= self.pending@.take(i as int).push(
                    self.pending@[i as int],
                ));
            }
            i += 1;
        }
        proof {
            assert(self.pending@.take(self.pending@.len() as int) =~= self.pending@);
        }
        out
    }

    /// Whether the watcher has reached its terminal state: lifecycle absent
    /// and every delivery resolved.
    pub fn is_done(&self) -> (r: bool)
        ensures
            r == self@.done(),
    {
        !self.lifecycle_present && self.pending.len() == 0
    }

    /// Turns one observation of the supervised lifecycle into the event to
    /// fan out, if any. The runtime polls the supervised future exactly when
    /// the lifecycle is present and reports the outcome here; a terminal
    /// outcome — success and failure alike — yields the single `Stopped`
    /// event, anything else yields nothing.
    pub fn poll_for_event(&self, lifecycle_outcome: Option<PollOutcome>) -> (event: Option<
        WatchEvent,
    >)
        requires
            lifecycle_outcome is Some <==> self@.lifecycle_present,
        ensures
            event == (if self@.lifecycle_present && resolved_opt(lifecycle_outcome) {
                Some(WatchEvent::Stopped)
            } else {
                None::<WatchEvent>
            }),
    {
        if self.lifecycle_present {
            match lifecycle_outcome {
                Some(PollOutcome::NotReady) => None,
                Some(PollOutcome::Ready) => Some(WatchEvent::Stopped),
                Some(PollOutcome::Failed) => Some(WatchEvent::Stopped),
                None => None,
            }
        } else {
            None
        }
    }

    /// Issues one delivery of `event` per subscriber: appends the delivery
    /// slots for subscribers `0 .. subscriber_count`, in order, to the
    /// outstanding set. The runtime then performs the matching `send` calls
    /// and tracks one delivery request per appended slot.
    pub fn notify(&mut self, event: WatchEvent)
        ensures
            final(self)@.lifecycle_present == old(self)@.lifecycle_present,
            final(self)@.subscribers == old(self)@.subscribers,
            final(self)@.pending == old(self)@.pending + subscriber_ids(old(self)@.subscribers),
    {
        let _ = event;
        let n = self.subscribers;
        proof {
            assert(self.pending@ =~= self.pending@ + subscriber_ids(0));
        }
        let mut i: usize = 0;
        while i < n
            invariant
                i <= n,
                n == self.subscribers,
                self.subscribers == old(self).subscribers,
                self.lifecycle_present == old(self).lifecycle_present,
                self.pending@ == old(self).pending@ + subscriber_ids(i as nat),
            decreases n - i,
        {
            self.pending.push(i);
            proof {
                assert(self.pending@ =~= old(self).pending@ + subscriber_ids((i + 1) as nat));
            }
            i += 1;
        }
    }

    /// The supervising phase of one scheduler invocation: observes the
    /// lifecycle outcome and, on the terminal transition, makes the
    /// lifecycle absent — permanently — and issues the fan-out. Returns the
    /// event the runtime must now send to every subscriber, or `None` when
    /// no transition happened.
    ///
    /// The invocation is completed by [`Watcher::poll_notifications`] once
    /// the runtime has polled every outstanding delivery.
    pub fn poll(&mut self, lifecycle_outcome: Option<PollOutcome>) -> (fired: Option<WatchEvent>)
        requires
            lifecycle_outcome is Some <==> old(self)@.lifecycle_present,
        ensures
            final(self)@ == step_supervise(old(self)@, lifecycle_outcome).0,
            fired == step_supervise(old(self)@, lifecycle_outcome).1,
    {
        match self.poll_for_event(lifecycle_outcome) {
            Some(event) => {
                self.notify(event);
                self.lifecycle_present = false;
                proof {
                    assert(self@ =~= step_supervise(old(self)@, lifecycle_outcome).0);
                }
                Some(WatchEvent::Stopped)
            },
            None => {
                proof {
                    assert(self@ =~= step_supervise(old(self)@, lifecycle_outcome).0);
                }
                None
            },
        }
    }

    /// The draining phase of one scheduler invocation: the runtime polled
    /// every outstanding delivery exactly once and reports `outcomes[i]` for
    /// the delivery at position `i`. Deliveries that resolved — ready or
    /// failed alike — are dropped; the rest stay, in order, for the next
    /// round. Returns the readiness report: ready exactly when the lifecycle
    /// is absent and nothing stays pending.
    pub fn poll_notifications(&mut self, outcomes: &Vec<PollOutcome>) -> (ready: bool)
        requires
            !old(self)@.lifecycle_present,
            outcomes@.len() == old(self)@.pending.len(),
        ensures
            final(self)@ == step_drain(old(self)@, outcomes@).0,
            ready == step_drain(old(self)@, outcomes@).1,
    {
        let n = self.pending.len();
        let mut kept: Vec<usize> = Vec::new();
        proof {
            assert(self.pending@.take(0) =~= Seq::<usize>::empty());
            assert(outcomes@.take(0) =~= Seq::<PollOutcome>::empty());
        }
        let mut i: usize = 0;
        while i < n
            invariant
                i <= n,
                n == self.pending@.len(),
                outcomes@.len() == n,
                self.subscribers == old(self).subscribers,
                self.lifecycle_present == old(self).lifecycle_present,
                self.pending@ == old(self).pending@,
                kept@ == retained(self.pending@.take(i as int), outcomes@.take(i as int)),
            decreases n - i,
        {
            let entry = self.pending[i];
            let outcome = outcomes[i];
            proof {
                lemma_retained_snoc(
                    self.pending@.take(i as int),
                    outcomes@.take(i as int),
                    self.pending@[i as int],
                    outcomes@[i as int],
                );
                assert(self.pending@.take(i + 1) =~= self.pending@.take(i as int).push(
                    self.pending@[i as int],
                ));
                assert(outcomes@.take(i + 1) =~= outcomes@.take(i as int).push(
                    outcomes@[i as int],
                ));
            }
            match outcome {
                PollOutcome::NotReady => {
                    kept.push(entry);
                },
                PollOutcome::Ready => {},
                PollOutcome::Failed => {},
            }
            i += 1;
        }
        proof {
            assert(self.pending@.take(n as int) =~= self.pending@);
            assert(outcomes@.take(n as int) =~= outcomes@);
        }
        self.pending = kept;
        proof {
            assert(self@ =~= step_drain(old(self)@, outcomes@).0);
        }
        !self.lifecycle_present && self.pending.len() == 0
    }
}

/// One scheduler invocation's observed inputs: the outcome of polling the
/// supervised future (the runtime polls it exactly while the lifecycle is
/// present) and one outcome per outstanding delivery.
pub struct InvocationInput {
    pub lifecycle: Option<PollOutcome>,
    pub deliveries: Seq<PollOutcome>,
}

/// The watcher state left behind by a whole sequence of scheduler
/// invocations, first one first.
pub open spec fn run(v: WatcherView, inputs: Seq<InvocationInput>) -> WatcherView
    decreases inputs.len(),
{
    if inputs.len() == 0 {
        v
    } else {
        run(
            step_invocation(v, inputs[0].lifecycle, inputs[0].deliveries).0,
            inputs.drop_first(),
        )
    }
}

/// Law: for any number of subscribers, the invocation that observes the
/// supervised pollable resolved — success and failure alike — fires the
/// fan-out and leaves exactly one delivery slot per subscriber, each
/// subscriber's exactly once; an invocation that observes it unresolved
/// fires nothing and changes nothing. Together with
/// [`lemma_notify_never_refires`], each subscriber is sent `Stopped`
/// exactly once, and never before resolution.
pub proof fn lemma_fanout_exactly_once(v: WatcherView, lo: Option<PollOutcome>)
    requires
        v.wf(),
        v.lifecycle_present,
        v.subscribers <= usize::MAX as nat,
    ensures
        step_supervise(v, lo).1 is Some <==> resolved_opt(lo),
        resolved_opt(lo) ==> step_supervise(v, lo).0.pending == subscriber_ids(v.subscribers),
        resolved_opt(lo) ==> step_supervise(v, lo).0.pending.len() == v.subscribers,
        resolved_opt(lo) ==> forall|i: int, j: int|
            0 <= i < j < v.subscribers ==> step_supervise(v, lo).0.pending[i] != step_supervise(
                v,
                lo,
            ).0.pending[j],
        !resolved_opt(lo) ==> step_supervise(v, lo).0 == v && step_supervise(v, lo).1 is None,
{
    if resolved_opt(lo) {
        assert(step_supervise(v, lo).0.pending =~= subscriber_ids(v.subscribers));
    }
}

/// Law: the watcher never reports ready while the supervised pollable is
/// present and not yet resolved; such an invocation leaves it unchanged.
pub proof fn lemma_never_ready_while_supervising(
    v: WatcherView,
    lo: Option<PollOutcome>,
    deliveries: Seq<PollOutcome>,
)
    requires
        v.lifecycle_present,
        !resolved_opt(lo),
    ensures
        !step_invocation(v, lo, deliveries).2,
        step_invocation(v, lo, deliveries).0 == v,
{
}

/// Law: an invocation reports ready exactly when the watcher it leaves
/// behind is done — lifecycle absent and no delivery pending — whatever the
/// individual deliveries reported (success and failed deliveries count the
/// same).
pub proof fn lemma_ready_iff_done(
    v: WatcherView,
    lo: Option<PollOutcome>,
    deliveries: Seq<PollOutcome>,
)
    ensures
        step_invocation(v, lo, deliveries).2 <==> step_invocation(v, lo, deliveries).0.done(),
{
}

/// Law: done is terminal — every later invocation leaves a done watcher
/// exactly where it is, still reporting ready. A scheduler that polls until
/// the first ready report and then discards the watcher therefore observes
/// the ready report exactly once.
pub proof fn lemma_done_is_terminal(v: WatcherView, inputs: Seq<InvocationInput>)
    requires
        v.done(),
    ensures
        run(v, inputs) == v,
    decreases inputs.len(),
{
    if inputs.len() > 0 {
        let post = step_invocation(v, inputs[0].lifecycle, inputs[0].deliveries).0;
        assert(post =~= v);
        lemma_done_is_terminal(v, inputs.drop_first());
    }
}

/// Law: once the present→absent transition has happened, no later
/// invocation fires the fan-out again — repeated polls never re-send to any
/// subscriber — and the lifecycle stays absent forever.
pub proof fn lemma_notify_never_refires(v: WatcherView, inputs: Seq<InvocationInput>)
    requires
        !v.lifecycle_present,
    ensures
        !run(v, inputs).lifecycle_present,
        forall|k: int|
            0 <= k < inputs.len() ==> step_invocation(
                run(v, inputs.take(k)),
                inputs[k].lifecycle,
                inputs[k].deliveries,
            ).1 is None,
    decreases inputs.len(),
{
    if inputs.len() > 0 {
        let v1 = step_invocation(v, inputs[0].lifecycle, inputs[0].deliveries).0;
        let rest = inputs.drop_first();
        assert(!v1.lifecycle_present);
        lemma_notify_never_refires(v1, rest);
        assert forall|k: int| 0 <= k < inputs.len() implies step_invocation(
            run(v, inputs.take(k)),
            inputs[k].lifecycle,
            inputs[k].deliveries,
        ).1 is None by {
            if k == 0 {
                assert(inputs.take(0) =~= Seq::<InvocationInput>::empty());
                assert(run(v, inputs.take(0)) == v);
            } else {
                assert(inputs.take(k).drop_first() =~= rest.take(k - 1));
                assert(inputs.take(k)[0] == inputs[0]);
                assert(run(v, inputs.take(k)) == run(v1, rest.take(k - 1)));
                assert(step_invocation(
                    run(v1, rest.take(k - 1)),
                    rest[k - 1].lifecycle,
                    rest[k - 1].deliveries,
                ).1 is None);
                assert(rest[k - 1] == inputs[k]);
            }
        }
    }
}

/// `retained` over sequences grown at the back: polling one more delivery
/// keeps it exactly when its outcome is `NotReady`.
proof fn lemma_retained_snoc(pending: Seq<usize>, outcomes: Seq<PollOutcome>, x: usize, oc: PollOutcome)
    requires
        pending.len() == outcomes.len(),
    ensures
        retained(pending.push(x), outcomes.push(oc)) == (if oc == PollOutcome::NotReady {
            retained(pending, outcomes).push(x)
        } else {
            retained(pending, outcomes)
        }),
    decreases pending.len(),
{
    let grown = pending.push(x);
    let grown_outcomes = outcomes.push(oc);
    if pending.len() == 0 {
        reveal_with_fuel(retained, 2);
        assert(grown.len() == 1);
        assert(grown_outcomes[0] == oc);
        assert(grown.drop_first() =~= Seq::<usize>::empty());
        assert(grown_outcomes.drop_first() =~= Seq::<PollOutcome>::empty());
        if oc == PollOutcome::NotReady {
            assert(retained(grown, grown_outcomes) =~= retained(pending, outcomes).push(x));
        } else {
            assert(retained(grown, grown_outcomes) =~= retained(pending, outcomes));
        }
    } else {
        reveal_with_fuel(retained, 2);
        lemma_retained_snoc(pending.drop_first(), outcomes.drop_first(), x, oc);
        assert(grown.drop_first() =~= pending.drop_first().push(x));
        assert(grown_outcomes.drop_first() =~= outcomes.drop_first().push(oc));
        assert(grown[0] == pending[0]);
        assert(grown_outcomes[0] == outcomes[0]);
        if oc == PollOutcome::NotReady {
            assert(retained(grown, grown_outcomes) =~= retained(pending, outcomes).push(x));
        } else {
            assert(retained(grown, grown_outcomes) =~= retained(pending, outcomes));
        }
    }
}

} // verus!
