//! Stabilization poller.
//!
//! A page counts as settled once the byte length of its snapshot is unchanged
//! and nonempty across a run of consecutive polls.  The poller is a pure
//! state machine: each round the caller captures one snapshot (or reports a
//! miss when the fixed selector found nothing) and feeds it to [`StabilityState::step`];
//! the caller performs the fetch and the sleep between rounds.  Length, not
//! content, is compared: two different renders of equal length are
//! indistinguishable from stable — a deliberate, cheap approximation.
use vstd::prelude::*;

verus! {

/// Consecutive equal-length polls needed to declare the page settled.
pub const REQUIRED_STABLE_POLLS: u32 = 5;

/// Poll rounds allowed before giving up and returning best-effort content.
pub const MAX_ATTEMPTS: u32 = 20;

/// Seconds the caller sleeps between rounds.
pub const POLL_INTERVAL_SECS: u64 = 3;

/// Byte length of a string's UTF-8 encoding, as the executable `str::len`
/// reports it.
pub open spec fn byte_len(s: Seq<char>) -> int {
    vstd::utf8::encode_utf8(s).len() as usize as int
}

/// Mathematical model of one poll round's outcome.
pub ghost enum EventModel {
    /// The fixed selector found no element this round; counters are left
    /// untouched but the round still consumes an attempt.
    Miss,
    /// A captured snapshot: its characters and its byte length.
    Snapshot { content: Seq<char>, len: int },
}

/// Mathematical model of the poller's state.
pub ghost struct StateModel {
    /// Content of the last recorded snapshot.
    pub previous: Seq<char>,
    /// Byte length of the last recorded snapshot.
    pub previous_len: int,
    /// Consecutive rounds whose snapshot length equalled `previous_len`.
    pub stable_count: int,
    /// Rounds consumed so far.
    pub attempts_used: int,
}

/// Model of the poller's outcome.
pub ghost struct ResultModel {
    pub fragment: Seq<char>,
    pub stabilized: bool,
    pub attempts_used: int,
}

/// The state before the first round.
pub open spec fn init_model() -> StateModel {
    StateModel { previous: Seq::empty(), previous_len: 0, stable_count: 0, attempts_used: 0 }
}

/// One round: a miss only consumes the attempt; an equal-and-nonempty length
/// advances the stable count; anything else resets the count and records the
/// snapshot as the new previous one.
pub open spec fn step_model(st: StateModel, ev: EventModel) -> StateModel {
    match ev {
        EventModel::Miss => StateModel { attempts_used: st.attempts_used + 1, ..st },
        EventModel::Snapshot { content, len } => {
            if len == st.previous_len && len > 0 {
                StateModel {
                    stable_count: st.stable_count + 1,
                    attempts_used: st.attempts_used + 1,
                    ..st
                }
            } else {
                StateModel {
                    previous: content,
                    previous_len: len,
                    stable_count: 0,
                    attempts_used: st.attempts_used + 1,
                }
            }
        },
    }
}

/// Whether the round that produced `st2` from event `ev` ends the poll with
/// a stabilized result.
pub open spec fn round_stabilizes(st2: StateModel, ev: EventModel) -> bool {
    ev is Snapshot && st2.stable_count >= REQUIRED_STABLE_POLLS as int
}

/// The poll outcome from state `st` on the remaining events: rounds run until
/// the stable threshold is met (success, with that round's snapshot), or the
/// attempt budget or the event supply is exhausted (degraded, with the last
/// recorded snapshot — empty if none was ever recorded).
pub open spec fn poll_from(evs: Seq<EventModel>, st: StateModel) -> ResultModel
    decreases evs.len(),
{
    if st.attempts_used >= MAX_ATTEMPTS as int || evs.len() == 0 {
        ResultModel { fragment: st.previous, stabilized: false, attempts_used: st.attempts_used }
    } else {
        let st2 = step_model(st, evs[0]);
        if round_stabilizes(st2, evs[0]) {
            ResultModel {
                fragment: evs[0]->Snapshot_content,
                stabilized: true,
                attempts_used: st2.attempts_used,
            }
        } else {
            poll_from(evs.skip(1), st2)
        }
    }
}

/// The poll outcome over a whole event sequence, from the initial state.
pub open spec fn poll_model(evs: Seq<EventModel>) -> ResultModel {
    poll_from(evs, init_model())
}

/// Every round consumes exactly one attempt, snapshot or miss: a round whose
/// selector found nothing still counts against the budget.
pub proof fn lemma_round_consumes_attempt(st: StateModel, ev: EventModel)
    ensures
        step_model(st, ev).attempts_used == st.attempts_used + 1,
{
}

/// From a state whose recorded length equals the run's nonempty length, a
/// run of snapshots of that length reaches the stable threshold within the
/// remaining budget.
proof fn lemma_run_reaches_threshold(evs: Seq<EventModel>, st: StateModel)
    requires
        st.previous_len > 0,
        0 <= st.stable_count < REQUIRED_STABLE_POLLS as int,
        st.attempts_used + (REQUIRED_STABLE_POLLS as int - st.stable_count)
            <= MAX_ATTEMPTS as int,
        evs.len() >= REQUIRED_STABLE_POLLS as int - st.stable_count,
        forall|j: int|
            0 <= j < REQUIRED_STABLE_POLLS as int - st.stable_count ==> evs[j] is Snapshot
                && evs[j]->Snapshot_len == st.previous_len,
    ensures
        poll_from(evs, st).stabilized,
        poll_from(evs, st).attempts_used <= st.attempts_used + (REQUIRED_STABLE_POLLS as int
            - st.stable_count),
    decreases REQUIRED_STABLE_POLLS as int - st.stable_count,
{
    let st2 = step_model(st, evs[0]);
    assert(st2.stable_count == st.stable_count + 1);
    if st2.stable_count < REQUIRED_STABLE_POLLS as int {
        assert(forall|j: int|
            0 <= j < REQUIRED_STABLE_POLLS as int - st2.stable_count ==> evs.skip(1)[j]
                == evs[j + 1]);
        lemma_run_reaches_threshold(evs.skip(1), st2);
    }
}

/// Any six consecutive rounds with the same nonempty snapshot length, lying
/// within the attempt budget, force a stabilized outcome after at most the
/// round that closes the run, whatever came before them.  One round records
/// the length; the five after it meet the required stable threshold.
pub proof fn lemma_stable_run_stabilizes(evs: Seq<EventModel>, st: StateModel, k: int, l: int)
    requires
        0 <= st.stable_count,
        0 <= k,
        k + 6 <= evs.len(),
        st.attempts_used + k + 6 <= MAX_ATTEMPTS as int,
        l > 0,
        forall|j: int| k <= j < k + 6 ==> evs[j] is Snapshot && evs[j]->Snapshot_len == l,
    ensures
        poll_from(evs, st).stabilized,
        poll_from(evs, st).attempts_used <= st.attempts_used + k + 6,
    decreases k,
{
    let st2 = step_model(st, evs[0]);
    if k == 0 {
        if round_stabilizes(st2, evs[0]) {
        } else {
            assert(st2.previous_len == l);
            assert(st2.stable_count < REQUIRED_STABLE_POLLS as int);
            assert(forall|j: int|
                0 <= j < REQUIRED_STABLE_POLLS as int - st2.stable_count ==> evs.skip(1)[j]
                    == evs[j + 1]);
            lemma_run_reaches_threshold(evs.skip(1), st2);
        }
    } else {
        if round_stabilizes(st2, evs[0]) {
        } else {
            assert(forall|j: int| k - 1 <= j < k + 5 ==> evs.skip(1)[j] == evs[j + 1]);
            lemma_stable_run_stabilizes(evs.skip(1), st2, k - 1, l);
        }
    }
}

/// A source that produces one unchanged nonempty snapshot from the first
/// round on stabilizes with exactly one recording round and five stable
/// rounds, and returns that snapshot.
pub proof fn lemma_constant_source_stabilizes(evs: Seq<EventModel>, c: Seq<char>, l: int)
    requires
        l > 0,
        evs.len() >= 6,
        forall|j: int|
            0 <= j < 6 ==> evs[j] == (EventModel::Snapshot { content: c, len: l }),
    ensures
        poll_model(evs) == (ResultModel { fragment: c, stabilized: true, attempts_used: 6 }),
{
    let s0 = init_model();
    let s1 = step_model(s0, evs[0]);
    let s2 = step_model(s1, evs[1]);
    let s3 = step_model(s2, evs[2]);
    let s4 = step_model(s3, evs[3]);
    let s5 = step_model(s4, evs[4]);
    let s6 = step_model(s5, evs[5]);
    assert(s1 == (StateModel { previous: c, previous_len: l, stable_count: 0, attempts_used: 1 }));
    assert(s6.stable_count == 5 && s6.attempts_used == 6);
    let e1 = evs.skip(1);
    let e2 = evs.skip(2);
    let e3 = evs.skip(3);
    let e4 = evs.skip(4);
    let e5 = evs.skip(5);
    assert(e1[0] == evs[1] && e2[0] == evs[2] && e3[0] == evs[3] && e4[0] == evs[4] && e5[0]
        == evs[5]);
    assert(e1.skip(1) =~= e2 && e2.skip(1) =~= e3 && e3.skip(1) =~= e4 && e4.skip(1) =~= e5);
    assert(poll_from(e5, s5) == (ResultModel { fragment: c, stabilized: true, attempts_used: 6 }));
    assert(poll_from(evs, s0) == poll_from(e1, s1));
    assert(poll_from(e1, s1) == poll_from(e2, s2));
    assert(poll_from(e2, s2) == poll_from(e3, s3));
    assert(poll_from(e3, s3) == poll_from(e4, s4));
    assert(poll_from(e4, s4) == poll_from(e5, s5));
}

/// When every round resets — each snapshot's length differs from the one
/// recorded before it, or is empty — the poller consumes the whole remaining
/// budget and ends unstabilized with the last snapshot.
proof fn lemma_reset_every_round(evs: Seq<EventModel>, st: StateModel, n: int)
    requires
        1 <= n,
        n == MAX_ATTEMPTS as int - st.attempts_used,
        n <= evs.len(),
        forall|j: int| 0 <= j < n ==> evs[j] is Snapshot,
        evs[0]->Snapshot_len != st.previous_len || evs[0]->Snapshot_len <= 0,
        forall|j: int| #![trigger evs[j]]
            0 <= j < n - 1 ==> evs[j + 1]->Snapshot_len != evs[j]->Snapshot_len || evs[j
                + 1]->Snapshot_len <= 0,
    ensures
        poll_from(evs, st) == (ResultModel {
            fragment: evs[n - 1]->Snapshot_content,
            stabilized: false,
            attempts_used: MAX_ATTEMPTS as int,
        }),
    decreases n,
{
    let st2 = step_model(st, evs[0]);
    assert(st2.stable_count == 0);
    assert(st2.previous_len == evs[0]->Snapshot_len);
    if n == 1 {
        assert(poll_from(evs.skip(1), st2) == (ResultModel {
            fragment: st2.previous,
            stabilized: false,
            attempts_used: MAX_ATTEMPTS as int,
        }));
    } else {
        assert(forall|j: int| 0 <= j < n - 1 ==> evs.skip(1)[j] == evs[j + 1]);
        lemma_reset_every_round(evs.skip(1), st2, n - 1);
    }
}

/// A source whose snapshot length changes every round never stabilizes: the
/// poller runs the full attempt budget and returns the last snapshot.
pub proof fn lemma_changing_lengths_exhaust(evs: Seq<EventModel>)
    requires
        evs.len() >= MAX_ATTEMPTS as int,
        forall|j: int| 0 <= j < MAX_ATTEMPTS as int ==> evs[j] is Snapshot,
        forall|j: int| #![trigger evs[j]]
            0 <= j < MAX_ATTEMPTS as int - 1 ==> evs[j + 1]->Snapshot_len
                != evs[j]->Snapshot_len,
    ensures
        poll_model(evs) == (ResultModel {
            fragment: evs[MAX_ATTEMPTS as int - 1]->Snapshot_content,
            stabilized: false,
            attempts_used: MAX_ATTEMPTS as int,
        }),
{
    lemma_reset_every_round(evs, init_model(), MAX_ATTEMPTS as int);
}

/// An empty snapshot never advances the stable counter, whatever was
/// recorded before.
pub proof fn lemma_empty_snapshot_resets(st: StateModel, c: Seq<char>, l: int)
    requires
        l <= 0,
    ensures
        step_model(st, EventModel::Snapshot { content: c, len: l }).stable_count == 0,
{
}

/// A source that returns empty content every round exhausts the whole
/// budget without stabilizing, and the best-effort fragment is empty.
pub proof fn lemma_empty_source_exhausts(evs: Seq<EventModel>)
    requires
        evs.len() >= MAX_ATTEMPTS as int,
        forall|j: int|
            0 <= j < MAX_ATTEMPTS as int ==> evs[j] == (EventModel::Snapshot {
                content: Seq::<char>::empty(),
                len: 0,
            }),
    ensures
        poll_model(evs) == (ResultModel {
            fragment: Seq::<char>::empty(),
            stabilized: false,
            attempts_used: MAX_ATTEMPTS as int,
        }),
{
    lemma_reset_every_round(evs, init_model(), MAX_ATTEMPTS as int);
}

/// One poll round's outcome: either the fixed selector missed, or a snapshot
/// was captured.
pub enum PollEvent {
    Miss,
    Snapshot(String),
}

impl View for PollEvent {
    type V = EventModel;

    open spec fn view(&self) -> EventModel {
        match self {
            PollEvent::Miss => EventModel::Miss,
            PollEvent::Snapshot(s) => EventModel::Snapshot {
                content: s@,
                len: byte_len(s@),
            },
        }
    }
}

/// The models of a round sequence.
pub open spec fn events_model(evs: Seq<PollEvent>) -> Seq<EventModel> {
    evs.map_values(|e: PollEvent| e@)
}

/// Stability bookkeeping of one in-flight extraction: the last recorded
/// snapshot with its byte length, the consecutive-stable counter, and the
/// rounds consumed.
pub struct StabilityState {
    pub previous: String,
    pub previous_len: usize,
    pub stable_count: u32,
    pub attempts_used: u32,
}

impl View for StabilityState {
    type V = StateModel;

    open spec fn view(&self) -> StateModel {
        StateModel {
            previous: self.previous@,
            previous_len: self.previous_len as int,
            stable_count: self.stable_count as int,
            attempts_used: self.attempts_used as int,
        }
    }
}

impl StabilityState {
    /// The recorded length is the recorded content's byte length, and the
    /// stable counter never runs ahead of the rounds consumed.
    pub open spec fn wf(&self) -> bool {
        &&& self.previous_len == byte_len(self.previous@)
        &&& self.stable_count <= self.attempts_used
    }

    /// Fresh state for one extraction.
    pub fn new() -> (r: StabilityState)
        ensures
            r@ == init_model(),
            r.wf(),
    {
        let r = StabilityState {
            previous: String::new(),
            previous_len: 0,
            stable_count: 0,
            attempts_used: 0,
        };
        proof {
            assert(vstd::utf8::encode_utf8(r.previous@) =~= Seq::<u8>::empty());
            assert(byte_len(r.previous@) == 0);
        }
        r
    }

    /// Feeds one round's outcome to the state machine.  Returns the round's
    /// snapshot when it met the stable threshold; `None` keeps polling.
    pub fn step(&mut self, ev: PollEvent) -> (done: Option<String>)
        requires
            old(self)@.attempts_used < MAX_ATTEMPTS as int,
            old(self).wf(),
        ensures
            final(self)@ == step_model(old(self)@, ev@),
            final(self).wf(),
            done matches Some(s) ==> round_stabilizes(final(self)@, ev@) && s@
                == ev@->Snapshot_content,
            done is None ==> !round_stabilizes(final(self)@, ev@),
    {
        self.attempts_used = self.attempts_used + 1;
        match ev {
            PollEvent::Miss => None,
            PollEvent::Snapshot(s) => {
                let len = s.as_str().len();
                if len == self.previous_len && len > 0 {
                    self.stable_count = self.stable_count + 1;
                    if self.stable_count >= REQUIRED_STABLE_POLLS {
                        Some(s)
                    } else {
                        None
                    }
                } else {
                    self.previous = s;
                    self.previous_len = len;
                    self.stable_count = 0;
                    None
                }
            },
        }
    }
}

/// The poller's outcome: the winning fragment, whether the stable threshold
/// was met (as opposed to best-effort content after budget exhaustion), and
/// the rounds consumed.
pub struct ExtractionResult {
    pub html_fragment: String,
    pub stabilized: bool,
    pub attempts_used: u32,
}

impl View for ExtractionResult {
    type V = ResultModel;

    open spec fn view(&self) -> ResultModel {
        ResultModel {
            fragment: self.html_fragment@,
            stabilized: self.stabilized,
            attempts_used: self.attempts_used as int,
        }
    }
}

/// Runs the poll over an already-captured sequence of rounds, oldest first:
/// the whole stabilization rule without a live session.
pub fn run_poll(events: Vec<PollEvent>) -> (r: ExtractionResult)
    ensures
        r@ == poll_model(events_model(events@)),
{
    let mut state = StabilityState::new();
    let mut rest = events;
    loop
        invariant
            state.wf(),
            0 <= state@.attempts_used <= MAX_ATTEMPTS as int,
            poll_from(events_model(rest@), state@) == poll_model(events_model(events@)),
        decreases rest@.len(),
    {
        if state.attempts_used >= MAX_ATTEMPTS || rest.len() == 0 {
            proof {
                assert(events_model(rest@).len() == 0 ==> poll_from(
                    events_model(rest@),
                    state@,
                ) == ResultModel {
                    fragment: state@.previous,
                    stabilized: false,
                    attempts_used: state@.attempts_used,
                });
            }
            return ExtractionResult {
                html_fragment: state.previous,
                stabilized: false,
                attempts_used: state.attempts_used,
            };
        }
        let ghost pre = events_model(rest@);
        let ghost st_before = state@;
        let ev = rest.remove(0);
        proof {
            assert(pre[0] == ev@);
            assert(pre.skip(1) =~= events_model(rest@));
        }
        let done = state.step(ev);
        proof {
            assert(poll_from(pre, st_before) == if round_stabilizes(state@, ev@) {
                ResultModel {
                    fragment: ev@->Snapshot_content,
                    stabilized: true,
                    attempts_used: state@.attempts_used,
                }
            } else {
                poll_from(pre.skip(1), state@)
            });
        }
        match done {
            Some(s) => {
                let attempts = state.attempts_used;
                return ExtractionResult {
                    html_fragment: s,
                    stabilized: true,
                    attempts_used: attempts,
                };
            },
            None => {},
        }
    }
}

} // verus!
