use vstd::prelude::*;
use crate::acme::OrderStatus;
use crate::backoff::{
    order_poll_budget,
    order_poll_delay,
    order_poll_total,
    lemma_order_poll_budget,
    OrderPoll,
    Propagation,
    PROPAGATION_DEADLINE_MS,
    PROPAGATION_GRACE_MS,
    ORDER_POLL_INITIAL_MS,
};
use crate::error::RenewError;

verus! {

/// Where one certificate order stands. The challenges of the order are worked
/// through one at a time; `current` is the one in hand.
#[derive(Debug)]
pub enum Phase {
    /// The challenge record of `current` has been asked for.
    Publishing,
    /// The record is published under `handle` and is being looked up.
    Propagating { handle: String, wait: Propagation },
    /// The record was seen; waiting for the other name servers.
    Grace { handle: String },
    /// The CA has been told that the challenge is ready.
    MarkingReady { handle: String },
    /// The order's status is being polled.
    Verifying { handle: String, poll: OrderPoll },
    /// The record's removal has been asked for; `verdict` is what the
    /// challenge came to.
    CleaningUp { verdict: Result<(), RenewError> },
    /// The order is being finalized.
    Finalizing,
    /// The outcome has been handed out.
    Done,
}

/// The order state machine: the driver performs each `Action` it returns and
/// feeds back the matching `Event`.
#[derive(Debug)]
pub struct Issuance {
    pub challenges: usize,
    pub current: usize,
    pub phase: Phase,
}

/// What came of the last action.
#[derive(Debug)]
pub enum Event {
    /// The challenge record was created under `handle`.
    Published { handle: String },
    /// A lookup of the challenge record; `found` when it had an answer.
    Looked { found: bool },
    /// A sleep ran out.
    Slept,
    /// The CA accepted the ready signal, or the record was removed.
    Acknowledged,
    /// The order's status, with the CA's detail.
    Status { status: OrderStatus, detail: String },
    /// The certificate chain of the finalized order.
    Issued { chain: String },
    /// The action failed.
    Failed { detail: String },
}

/// What the driver is to do next.
#[derive(Debug)]
pub enum Action {
    /// Create the TXT record of challenge number `challenge`.
    AddRecord { challenge: usize },
    /// Wait `after_ms`, then look the record of `challenge` up, uncached.
    LookUp { challenge: usize, after_ms: u64 },
    /// Wait `millis`.
    Sleep { millis: u64 },
    /// Tell the CA that challenge number `challenge` is ready.
    SetReady { challenge: usize },
    /// Wait `after_ms`, then fetch the order's status.
    CheckOrder { after_ms: u64 },
    /// Remove the challenge record `handle`.
    RemoveRecord { handle: String },
    /// Finalize the order with a fresh key and fetch the chain.
    Finalize,
    /// The order is over, with this result.
    Finish { result: Result<String, RenewError> },
    /// Nothing is left to do.
    Idle,
}

impl Issuance {
    pub open spec fn wf(self) -> bool {
        match self.phase {
            Phase::Finalizing | Phase::Done => true,
            Phase::Propagating { wait, .. } => self.current < self.challenges && wait.wf(),
            Phase::Verifying { poll, .. } => self.current < self.challenges && poll.wf(),
            _ => self.current < self.challenges,
        }
    }

    /// A challenge record is published and not yet asked to be removed.
    pub open spec fn record_live(self) -> bool {
        match self.phase {
            Phase::Propagating { .. } | Phase::Grace { .. } | Phase::MarkingReady { .. }
            | Phase::Verifying { .. } => true,
            _ => false,
        }
    }

    /// The handle of the live record.
    pub open spec fn live_handle(self) -> String
        recommends
            self.record_live(),
    {
        match self.phase {
            Phase::Propagating { handle, .. } => handle,
            Phase::Grace { handle } => handle,
            Phase::MarkingReady { handle } => handle,
            Phase::Verifying { handle, .. } => handle,
            _ => arbitrary(),
        }
    }

    pub open spec fn with_phase(self, phase: Phase) -> Issuance {
        Issuance { challenges: self.challenges, current: self.current, phase }
    }

    /// A machine for an order with `challenges` challenges, and its first action.
    pub open spec fn initial(challenges: usize) -> (Issuance, Action) {
        if challenges == 0 {
            (Issuance { challenges, current: 0, phase: Phase::Finalizing }, Action::Finalize)
        } else {
            (
                Issuance { challenges, current: 0, phase: Phase::Publishing },
                Action::AddRecord { challenge: 0 },
            )
        }
    }

    /// Leave the challenge phase: ask for the record's removal.
    pub open spec fn clean_up(self, handle: String, verdict: Result<(), RenewError>) -> (
        Issuance,
        Action,
    ) {
        (self.with_phase(Phase::CleaningUp { verdict }), Action::RemoveRecord { handle })
    }

    pub open spec fn finish(self, result: Result<String, RenewError>) -> (Issuance, Action) {
        (self.with_phase(Phase::Done), Action::Finish { result })
    }

    /// One more inconclusive order check.
    pub open spec fn poll_again(self, handle: String, poll: OrderPoll) -> (Issuance, Action) {
        match poll.after_inconclusive() {
            Some(p) => (
                self.with_phase(Phase::Verifying { handle, poll: p }),
                Action::CheckOrder { after_ms: p.delay_ms },
            ),
            None => self.clean_up(handle, Err(RenewError::ChallengeTimeout)),
        }
    }

    /// One more lookup that found nothing.
    pub open spec fn look_again(self, handle: String, wait: Propagation) -> (Issuance, Action) {
        match wait.after_miss() {
            Some(w) => (
                self.with_phase(Phase::Propagating { handle, wait: w }),
                Action::LookUp { challenge: self.current, after_ms: wait.delay_ms },
            ),
            None => self.clean_up(handle, Err(RenewError::DnsPropagationTimeout)),
        }
    }

    /// The challenge's record is gone: go on with the next challenge, or finalize.
    pub open spec fn after_cleanup(self) -> (Issuance, Action) {
        if self.current + 1 < self.challenges {
            (
                Issuance {
                    challenges: self.challenges,
                    current: (self.current + 1) as usize,
                    phase: Phase::Publishing,
                },
                Action::AddRecord { challenge: (self.current + 1) as usize },
            )
        } else {
            (self.with_phase(Phase::Finalizing), Action::Finalize)
        }
    }

    /// The transition on event `e`.
    pub open spec fn next(self, e: Event) -> (Issuance, Action) {
        match self.phase {
            Phase::Publishing => match e {
                Event::Published { handle } => (
                    self.with_phase(Phase::Propagating { handle, wait: Propagation::initial() }),
                    Action::LookUp { challenge: self.current, after_ms: 0 },
                ),
                Event::Failed { detail } => self.finish(Err(RenewError::DnsProviderError(detail))),
                _ => self.finish(Err(RenewError::OutOfOrder)),
            },
            Phase::Propagating { handle, wait } => match e {
                Event::Looked { found } => if found {
                    (
                        self.with_phase(Phase::Grace { handle }),
                        Action::Sleep { millis: PROPAGATION_GRACE_MS },
                    )
                } else {
                    self.look_again(handle, wait)
                },
                Event::Failed { .. } => self.look_again(handle, wait),
                _ => self.clean_up(handle, Err(RenewError::OutOfOrder)),
            },
            Phase::Grace { handle } => match e {
                Event::Slept => (
                    self.with_phase(Phase::MarkingReady { handle }),
                    Action::SetReady { challenge: self.current },
                ),
                _ => self.clean_up(handle, Err(RenewError::OutOfOrder)),
            },
            Phase::MarkingReady { handle } => match e {
                Event::Acknowledged => (
                    self.with_phase(Phase::Verifying { handle, poll: OrderPoll::initial() }),
                    Action::CheckOrder { after_ms: ORDER_POLL_INITIAL_MS },
                ),
                Event::Failed { detail } => self.clean_up(
                    handle,
                    Err(RenewError::ProtocolError(detail)),
                ),
                _ => self.clean_up(handle, Err(RenewError::OutOfOrder)),
            },
            Phase::Verifying { handle, poll } => match e {
                Event::Status { status, detail } => if status.accepted() {
                    self.clean_up(handle, Ok(()))
                } else if status == OrderStatus::Invalid {
                    self.clean_up(handle, Err(RenewError::ChallengeRejected(detail)))
                } else {
                    self.poll_again(handle, poll)
                },
                Event::Failed { .. } => self.poll_again(handle, poll),
                _ => self.clean_up(handle, Err(RenewError::OutOfOrder)),
            },
            Phase::CleaningUp { verdict } => match verdict {
                Err(err) => self.finish(Err(err)),
                Ok(()) => match e {
                    Event::Acknowledged => self.after_cleanup(),
                    Event::Failed { detail } => self.finish(
                        Err(RenewError::CleanupFailed(detail)),
                    ),
                    _ => self.finish(Err(RenewError::OutOfOrder)),
                },
            },
            Phase::Finalizing => match e {
                Event::Issued { chain } => self.finish(Ok(chain)),
                Event::Failed { detail } => self.finish(Err(RenewError::ProtocolError(detail))),
                _ => self.finish(Err(RenewError::OutOfOrder)),
            },
            Phase::Done => (self, Action::Idle),
        }
    }

    /// Starts an order with `challenges` challenges to answer.
    pub fn start(challenges: usize) -> (r: (Issuance, Action))
        ensures
            r == Issuance::initial(challenges),
            r.0.wf(),
    {
        if challenges == 0 {
            (Issuance { challenges, current: 0, phase: Phase::Finalizing }, Action::Finalize)
        } else {
            (
                Issuance { challenges, current: 0, phase: Phase::Publishing },
                Action::AddRecord { challenge: 0 },
            )
        }
    }

    pub fn is_done(&self) -> (r: bool)
        ensures
            r == (self.phase is Done),
    {
        match self.phase {
            Phase::Done => true,
            _ => false,
        }
    }

    fn exec_clean_up(self, handle: String, verdict: Result<(), RenewError>) -> (r: (
        Issuance,
        Action,
    ))
        requires
            self.current < self.challenges,
        ensures
            r == self.clean_up(handle, verdict),
            r.0.wf(),
    {
        (
            Issuance {
                challenges: self.challenges,
                current: self.current,
                phase: Phase::CleaningUp { verdict },
            },
            Action::RemoveRecord { handle },
        )
    }

    fn exec_finish(self, result: Result<String, RenewError>) -> (r: (Issuance, Action))
        ensures
            r == self.finish(result),
            r.0.wf(),
    {
        (
            Issuance { challenges: self.challenges, current: self.current, phase: Phase::Done },
            Action::Finish { result },
        )
    }

    fn exec_poll_again(self, handle: String, poll: OrderPoll) -> (r: (Issuance, Action))
        requires
            self.current < self.challenges,
            poll.wf(),
        ensures
            r == self.poll_again(handle, poll),
            r.0.wf(),
    {
        match poll.next_after_inconclusive() {
            Some(p) => (
                Issuance {
                    challenges: self.challenges,
                    current: self.current,
                    phase: Phase::Verifying { handle, poll: p },
                },
                Action::CheckOrder { after_ms: p.delay_ms },
            ),
            None => self.exec_clean_up(handle, Err(RenewError::ChallengeTimeout)),
        }
    }

    fn exec_look_again(self, handle: String, wait: Propagation) -> (r: (Issuance, Action))
        requires
            self.current < self.challenges,
            wait.wf(),
        ensures
            r == self.look_again(handle, wait),
            r.0.wf(),
    {
        match wait.next_after_miss() {
            Some(w) => {
                let current = self.current;
                (
                    Issuance {
                        challenges: self.challenges,
                        current,
                        phase: Phase::Propagating { handle, wait: w },
                    },
                    Action::LookUp { challenge: current, after_ms: wait.delay_ms },
                )
            },
            None => self.exec_clean_up(handle, Err(RenewError::DnsPropagationTimeout)),
        }
    }

    /// Takes event `e` and returns the next machine and the next action.
    pub fn step(self, e: Event) -> (r: (Issuance, Action))
        requires
            self.wf(),
        ensures
            r == self.next(e),
            r.0.wf(),
    {
        let challenges = self.challenges;
        let current = self.current;
        match self.phase {
            Phase::Publishing => match e {
                Event::Published { handle } => (
                    Issuance {
                        challenges,
                        current,
                        phase: Phase::Propagating { handle, wait: Propagation::new() },
                    },
                    Action::LookUp { challenge: current, after_ms: 0 },
                ),
                Event::Failed { detail } => self.exec_finish(
                    Err(RenewError::DnsProviderError(detail)),
                ),
                _ => self.exec_finish(Err(RenewError::OutOfOrder)),
            },
            Phase::Propagating { handle, wait } => {
                let me = Issuance { challenges, current, phase: Phase::Publishing };
                match e {
                    Event::Looked { found } => if found {
                        (
                            Issuance { challenges, current, phase: Phase::Grace { handle } },
                            Action::Sleep { millis: PROPAGATION_GRACE_MS },
                        )
                    } else {
                        me.exec_look_again(handle, wait)
                    },
                    Event::Failed { .. } => me.exec_look_again(handle, wait),
                    _ => me.exec_clean_up(handle, Err(RenewError::OutOfOrder)),
                }
            },
            Phase::Grace { handle } => {
                let me = Issuance { challenges, current, phase: Phase::Publishing };
                match e {
                    Event::Slept => (
                        Issuance { challenges, current, phase: Phase::MarkingReady { handle } },
                        Action::SetReady { challenge: current },
                    ),
                    _ => me.exec_clean_up(handle, Err(RenewError::OutOfOrder)),
                }
            },
            Phase::MarkingReady { handle } => {
                let me = Issuance { challenges, current, phase: Phase::Publishing };
                match e {
                    Event::Acknowledged => (
                        Issuance {
                            challenges,
                            current,
                            phase: Phase::Verifying { handle, poll: OrderPoll::new() },
                        },
                        Action::CheckOrder { after_ms: ORDER_POLL_INITIAL_MS },
                    ),
                    Event::Failed { detail } => me.exec_clean_up(
                        handle,
                        Err(RenewError::ProtocolError(detail)),
                    ),
                    _ => me.exec_clean_up(handle, Err(RenewError::OutOfOrder)),
                }
            },
            Phase::Verifying { handle, poll } => {
                let me = Issuance { challenges, current, phase: Phase::Publishing };
                match e {
                    Event::Status { status, detail } => if status.is_accepted() {
                        me.exec_clean_up(handle, Ok(()))
                    } else if status == OrderStatus::Invalid {
                        me.exec_clean_up(handle, Err(RenewError::ChallengeRejected(detail)))
                    } else {
                        me.exec_poll_again(handle, poll)
                    },
                    Event::Failed { .. } => me.exec_poll_again(handle, poll),
                    _ => me.exec_clean_up(handle, Err(RenewError::OutOfOrder)),
                }
            },
            Phase::CleaningUp { verdict } => {
                let me = Issuance { challenges, current, phase: Phase::Publishing };
                match verdict {
                    Err(err) => me.exec_finish(Err(err)),
                    Ok(()) => match e {
                        Event::Acknowledged => if current + 1 < challenges {
                            (
                                Issuance {
                                    challenges,
                                    current: current + 1,
                                    phase: Phase::Publishing,
                                },
                                Action::AddRecord { challenge: current + 1 },
                            )
                        } else {
                            (
                                Issuance { challenges, current, phase: Phase::Finalizing },
                                Action::Finalize,
                            )
                        },
                        Event::Failed { detail } => me.exec_finish(
                            Err(RenewError::CleanupFailed(detail)),
                        ),
                        _ => me.exec_finish(Err(RenewError::OutOfOrder)),
                    },
                }
            },
            Phase::Finalizing => match e {
                Event::Issued { chain } => self.exec_finish(Ok(chain)),
                Event::Failed { detail } => self.exec_finish(
                    Err(RenewError::ProtocolError(detail)),
                ),
                _ => self.exec_finish(Err(RenewError::OutOfOrder)),
            },
            Phase::Done => (Issuance { challenges, current, phase: Phase::Done }, Action::Idle),
        }
    }
}

/// The machine and the actions after feeding it `evs` in turn.
pub open spec fn run(s: Issuance, evs: Seq<Event>) -> (Issuance, Seq<Action>)
    decreases evs.len(),
{
    if evs.len() == 0 {
        (s, Seq::empty())
    } else {
        let (t, a) = s.next(evs[0]);
        let (u, acts) = run(t, evs.drop_first());
        (u, seq![a] + acts)
    }
}

/// How many challenge records get published while `evs` are fed to `s`.
pub open spec fn publications(s: Issuance, evs: Seq<Event>) -> nat
    decreases evs.len(),
{
    if evs.len() == 0 {
        0
    } else {
        let t = s.next(evs[0]).0;
        let here: nat = if !s.record_live() && t.record_live() {
            1
        } else {
            0
        };
        here + publications(t, evs.drop_first())
    }
}

/// How many record removals `acts` asks for.
pub open spec fn removals(acts: Seq<Action>) -> nat
    decreases acts.len(),
{
    if acts.len() == 0 {
        0
    } else {
        let here: nat = if acts[0] is RemoveRecord {
            1
        } else {
            0
        };
        here + removals(acts.drop_first())
    }
}

/// The total of the waits before order checks that `acts` asks for.
pub open spec fn order_waits(acts: Seq<Action>) -> nat
    decreases acts.len(),
{
    if acts.len() == 0 {
        0
    } else {
        let here: nat = match acts[0] {
            Action::CheckOrder { after_ms } => after_ms as nat,
            _ => 0,
        };
        here + order_waits(acts.drop_first())
    }
}

/// A single step asks for a removal exactly when it takes the live record away,
/// and the removal names that record's handle. A record only comes to life by
/// its publication.
pub proof fn lemma_step_record(s: Issuance, e: Event)
    ensures
        ({
            let (t, a) = s.next(e);
            &&& (a is RemoveRecord) <==> (s.record_live() && !t.record_live())
            &&& a matches Action::RemoveRecord { handle } ==> handle == s.live_handle()
            &&& (!s.record_live() && t.record_live()) ==> (s.phase is Publishing
                && (e matches Event::Published { handle } && t.live_handle() == handle))
            &&& (s.record_live() && t.record_live()) ==> t.live_handle() == s.live_handle()
        }),
{
}

/// Every published challenge record is removed exactly once: over any run of
/// events from a machine with no live record, the removals asked for, plus one
/// if a record is still live at the end, equal the records published. In
/// particular, a run that ends with the order done, however it ended, has
/// removed each published record once.
pub proof fn lemma_cleanup_exactly_once(s: Issuance, evs: Seq<Event>)
    requires
        !s.record_live(),
    ensures
        ({
            let (u, acts) = run(s, evs);
            removals(acts) + (if u.record_live() {
                1nat
            } else {
                0nat
            }) == publications(s, evs)
        }),
        run(s, evs).0.phase is Done ==> removals(run(s, evs).1) == publications(s, evs),
{
    lemma_cleanup_balance(s, evs);
}

proof fn lemma_cleanup_balance(s: Issuance, evs: Seq<Event>)
    ensures
        ({
            let (u, acts) = run(s, evs);
            removals(acts) + (if u.record_live() {
                1nat
            } else {
                0nat
            }) == publications(s, evs) + (if s.record_live() {
                1nat
            } else {
                0nat
            })
        }),
    decreases evs.len(),
{
    if evs.len() > 0 {
        let (t, a) = s.next(evs[0]);
        lemma_step_record(s, evs[0]);
        lemma_cleanup_balance(t, evs.drop_first());
        let (u, acts) = run(t, evs.drop_first());
        assert((seq![a] + acts).drop_first() == acts);
        assert((seq![a] + acts)[0] == a);
    }
}

/// A machine that has settled a challenge on an error never finalizes again.
pub open spec fn doomed(s: Issuance) -> bool {
    s.phase is Done || (s.phase matches Phase::CleaningUp { verdict } && verdict is Err)
}

proof fn lemma_doomed_never_finalizes(s: Issuance, evs: Seq<Event>)
    requires
        doomed(s),
    ensures
        run(s, evs).0.phase is Done || evs.len() == 0,
        forall|i: int| 0 <= i < run(s, evs).1.len() ==> !(run(s, evs).1[i] is Finalize),
    decreases evs.len(),
{
    if evs.len() > 0 {
        let (t, a) = s.next(evs[0]);
        lemma_doomed_never_finalizes(t, evs.drop_first());
        let (u, acts) = run(t, evs.drop_first());
        assert forall|i: int| 0 <= i < (seq![a] + acts).len() implies !((seq![a]
            + acts)[i] is Finalize) by {
            if i > 0 {
                assert((seq![a] + acts)[i] == acts[i - 1]);
            }
        }
    }
}

/// An order whose status comes back Invalid fails with `ChallengeRejected`,
/// carrying the CA's detail, once its record is removed; whatever happens
/// after, it never asks to finalize.
pub proof fn lemma_invalid_never_finalizes(s: Issuance, detail: String, evs: Seq<Event>)
    requires
        s.wf(),
        s.phase is Verifying,
    ensures
        ({
            let (t, a) = s.next(Event::Status { status: OrderStatus::Invalid, detail });
            &&& t.phase == (Phase::CleaningUp {
                verdict: Err(RenewError::ChallengeRejected(detail)),
            })
            &&& a == (Action::RemoveRecord { handle: s.live_handle() })
            &&& forall|i: int|
                0 <= i < run(t, evs).1.len() ==> !(run(t, evs).1[i] is Finalize)
            &&& evs.len() > 0 ==> run(t, evs).1[0] == (Action::Finish {
                result: Err(RenewError::ChallengeRejected(detail)),
            })
        }),
{
    let (t, a) = s.next(Event::Status { status: OrderStatus::Invalid, detail });
    lemma_doomed_never_finalizes(t, evs);
}

/// `m` order checks that all come back Pending.
pub open spec fn pending_statuses(m: nat, detail: String) -> Seq<Event> {
    Seq::new(m, |i: int| Event::Status { status: OrderStatus::Pending, detail })
}

/// An order that stays Pending through every check fails with
/// `ChallengeTimeout` after the tenth check and removes its record; the waits
/// before those checks follow the capped doubling sequence and add up to the
/// polling budget, 183.75 seconds.
pub proof fn lemma_pending_times_out(s: Issuance, detail: String)
    requires
        s.wf(),
        (s.phase matches Phase::Verifying { poll, .. } && poll == OrderPoll::initial()),
    ensures
        ({
            let (u, acts) = run(s, pending_statuses(10, detail));
            &&& u.phase == (Phase::CleaningUp { verdict: Err(RenewError::ChallengeTimeout) })
            &&& acts.len() == 10
            &&& acts[9] == (Action::RemoveRecord { handle: s.live_handle() })
            &&& forall|i: int|
                0 <= i < 9 ==> acts[i] == (Action::CheckOrder {
                    after_ms: order_poll_delay((i + 1) as nat) as u64,
                })
            &&& ORDER_POLL_INITIAL_MS + order_waits(acts) == order_poll_budget()
            &&& order_poll_budget() == 183_750
        }),
{
    lemma_order_poll_budget();
    lemma_pending_from(s, detail, 0);
    assert(order_poll_total(1) == order_poll_total(0) + order_poll_delay(0));
    let (u, acts) = run(s, pending_statuses(10, detail));
    assert forall|i: int| 0 <= i < 9 implies acts[i] == (Action::CheckOrder {
        after_ms: order_poll_delay((i + 1) as nat) as u64,
    }) by {
        assert((0 + i + 1) as nat == (i + 1) as nat);
    }
}

proof fn lemma_pending_from(s: Issuance, detail: String, k: nat)
    requires
        s.wf(),
        k < 10,
        (s.phase matches Phase::Verifying { poll, .. } && poll.attempts == k),
    ensures
        ({
            let (u, acts) = run(s, pending_statuses((10 - k) as nat, detail));
            &&& u.phase == (Phase::CleaningUp { verdict: Err(RenewError::ChallengeTimeout) })
            &&& acts.len() == 10 - k
            &&& acts[9 - k] == (Action::RemoveRecord { handle: s.live_handle() })
            &&& forall|i: int|
                0 <= i < 9 - k ==> acts[i] == (Action::CheckOrder {
                    after_ms: order_poll_delay((k + i + 1) as nat) as u64,
                })
            &&& order_poll_total(k + 1) + order_waits(acts) == order_poll_budget()
        }),
    decreases 10 - k,
{
    let evs = pending_statuses((10 - k) as nat, detail);
    let e = evs[0];
    let (t, a) = s.next(e);
    assert(evs.drop_first() == pending_statuses((10 - k - 1) as nat, detail));
    if k + 1 < 10 {
        lemma_pending_from(t, detail, k + 1);
        let (u, acts) = run(t, evs.drop_first());
        let all = seq![a] + acts;
        assert(all.drop_first() == acts);
        assert(all[0] == a);
        assert(a == Action::CheckOrder { after_ms: order_poll_delay((k + 1) as nat) as u64 });
        assert(order_poll_total(k + 2) == order_poll_total(k + 1) + order_poll_delay(k + 1));
        assert(order_waits(all) == order_poll_delay(k + 1) + order_waits(acts));
        assert forall|i: int| 0 <= i < 9 - k implies all[i] == (Action::CheckOrder {
            after_ms: order_poll_delay((k + i + 1) as nat) as u64,
        }) by {
            if i > 0 {
                assert(all[i] == acts[i - 1]);
            }
        }
        assert(all[9 - k] == acts[9 - k - 1]);
    } else {
        assert(evs.drop_first().len() == 0);
        let all = seq![a];
        assert(all.drop_first() == Seq::<Action>::empty());
        assert(all[0] == a);
        assert(a is RemoveRecord);
        assert(order_waits(Seq::<Action>::empty()) == 0);
        assert(order_waits(all) == 0);
        assert(run(s, evs).1 == seq![a] + Seq::<Action>::empty());
        assert(seq![a] + Seq::<Action>::empty() == all);
    }
}

/// The total of the waits before record lookups that `acts` asks for.
pub open spec fn lookup_waits(acts: Seq<Action>) -> nat
    decreases acts.len(),
{
    if acts.len() == 0 {
        0
    } else {
        let here: nat = match acts[0] {
            Action::LookUp { after_ms, .. } => after_ms as nat,
            _ => 0,
        };
        here + lookup_waits(acts.drop_first())
    }
}

/// The challenge in hand is the order's last.
pub open spec fn on_last_challenge(s: Issuance) -> bool {
    s.current + 1 >= s.challenges
}

/// The last challenge's verdict is in: only cleanup and finalization are left.
pub open spec fn settled(s: Issuance) -> bool {
    s.phase is CleaningUp || s.phase is Finalizing || s.phase is Done
}

/// The last challenge's record has been seen: no lookup is left.
pub open spec fn record_seen(s: Issuance) -> bool {
    settled(s) || s.phase is Grace || s.phase is MarkingReady || s.phase is Verifying
}

proof fn lemma_run_unfold(s: Issuance, evs: Seq<Event>)
    requires
        evs.len() > 0,
    ensures
        ({
            let (t, a) = s.next(evs[0]);
            let all = run(s, evs).1;
            &&& all == seq![a] + run(t, evs.drop_first()).1
            &&& all[0] == a
            &&& all.drop_first() == run(t, evs.drop_first()).1
            &&& run(s, evs).0 == run(t, evs.drop_first()).0
        }),
{
    let (t, a) = s.next(evs[0]);
    let rest = run(t, evs.drop_first()).1;
    assert((seq![a] + rest).drop_first() == rest);
}

proof fn lemma_settled_waits_nothing(s: Issuance, evs: Seq<Event>)
    requires
        on_last_challenge(s),
        settled(s),
    ensures
        order_waits(run(s, evs).1) == 0,
        lookup_waits(run(s, evs).1) == 0,
    decreases evs.len(),
{
    if evs.len() > 0 {
        let (t, a) = s.next(evs[0]);
        lemma_run_unfold(s, evs);
        lemma_settled_waits_nothing(t, evs.drop_first());
    }
}

proof fn lemma_seen_looks_up_nothing(s: Issuance, evs: Seq<Event>)
    requires
        s.wf(),
        on_last_challenge(s),
        record_seen(s),
    ensures
        lookup_waits(run(s, evs).1) == 0,
    decreases evs.len(),
{
    if evs.len() > 0 {
        let (t, a) = s.next(evs[0]);
        lemma_run_unfold(s, evs);
        lemma_seen_looks_up_nothing(t, evs.drop_first());
    }
}

proof fn lemma_order_poll_total_grows(m: nat, n: nat)
    requires
        m <= n,
    ensures
        order_poll_total(m) <= order_poll_total(n),
    decreases n - m,
{
    if m < n {
        lemma_order_poll_total_grows(m, (n - 1) as nat);
    }
}

/// Polling the order is never unbounded: whatever the CA answers, and however
/// often the transport fails, the waits before the last challenge's order
/// checks, counted from the first, add up to at most the polling budget of
/// 183.75 seconds.
pub proof fn lemma_order_wait_bounded(s: Issuance, evs: Seq<Event>)
    requires
        s.wf(),
        on_last_challenge(s),
        s.phase is Verifying,
    ensures
        s.phase matches Phase::Verifying { poll, .. } && order_waits(run(s, evs).1)
            + order_poll_total(poll.attempts as nat + 1) <= order_poll_budget(),
        order_poll_budget() == 183_750,
    decreases evs.len(),
{
    lemma_order_poll_budget();
    let poll = s.phase->Verifying_poll;
    lemma_order_poll_total_grows(poll.attempts as nat + 1, 10);
    if evs.len() > 0 {
        let (t, a) = s.next(evs[0]);
        lemma_run_unfold(s, evs);
        if t.phase is Verifying {
            lemma_order_wait_bounded(t, evs.drop_first());
            let p = t.phase->Verifying_poll;
            assert(p.attempts == poll.attempts + 1);
            assert(order_poll_total(p.attempts as nat + 1) == order_poll_total(
                poll.attempts as nat + 1,
            ) + order_poll_delay(p.attempts as nat));
        } else {
            lemma_settled_waits_nothing(t, evs.drop_first());
        }
    }
}

/// Waiting for the challenge record is never unbounded: whatever the lookups
/// return, the waits before the last challenge's lookups, added to the time
/// already waited, stay within the 600 second deadline.
pub proof fn lemma_lookup_wait_bounded(s: Issuance, evs: Seq<Event>)
    requires
        s.wf(),
        on_last_challenge(s),
        s.phase is Propagating,
    ensures
        s.phase matches Phase::Propagating { wait, .. } && lookup_waits(run(s, evs).1)
            + wait.elapsed_ms <= PROPAGATION_DEADLINE_MS,
    decreases evs.len(),
{
    if evs.len() > 0 {
        let (t, a) = s.next(evs[0]);
        lemma_run_unfold(s, evs);
        if t.phase is Propagating {
            lemma_lookup_wait_bounded(t, evs.drop_first());
        } else if t.phase is Grace {
            lemma_seen_looks_up_nothing(t, evs.drop_first());
        } else {
            lemma_settled_waits_nothing(t, evs.drop_first());
        }
    }
}

} // verus!
