//! Constant-rate pacing: how long a flow rests between two bursts.

use vstd::prelude::*;
use crate::flow::FlowParameters;

verus! {

/// Nanoseconds in one second.
pub const NANOS_PER_SECOND: u64 = 1_000_000_000;

/// Datagrams sent back to back between two rests.
pub const BURST_SIZE: u64 = 10;

/// Why a flow cannot be paced.
#[derive(Clone, Copy, Debug, PartialEq, Eq)]
pub enum PacingError {
    /// The flow's `tx_rate` is zero: the time one packet takes is undefined.
    ZeroRate,
}

/// The integer nearest to `n / d`, a half rounded up.
pub open spec fn round_div(n: nat, d: nat) -> nat
    recommends
        d > 0,
{
    (2 * n + d) / (2 * d)
}

/// The time that one unit of `packet_len` takes at `tx_rate` units per
/// second, in nanoseconds and rounded to the nearest of them.
pub open spec fn spec_burst_duration_ns(packet_len: nat, tx_rate: nat) -> nat
    recommends
        tx_rate > 0,
{
    round_div(packet_len * (NANOS_PER_SECOND as nat), tx_rate)
}

/// `n` where it fits in 64 bits, the largest 64-bit value where it does not.
pub open spec fn clamp_u64(n: nat) -> u64 {
    if n <= u64::MAX {
        n as u64
    } else {
        u64::MAX
    }
}

/// `round_div(n, d)` is within half a unit of the exact quotient, and the
/// upper of the two integers where the quotient lies halfway between them:
/// `q - 1/2 <= n / d < q + 1/2`.
pub proof fn lemma_round_div_nearest(n: nat, d: nat)
    requires
        d > 0,
    ensures
        2 * round_div(n, d) * d <= 2 * n + d,
        2 * n + d < 2 * round_div(n, d) * d + 2 * d,
{
    let q = round_div(n, d);
    assert((2 * n + d) == (2 * d) * q + (2 * n + d) % (2 * d)) by {
        vstd::arithmetic::div_mod::lemma_fundamental_div_mod((2 * n + d) as int, (2 * d) as int);
    }
    assert(0 <= (2 * n + d) % (2 * d) < 2 * d) by {
        vstd::arithmetic::div_mod::lemma_mod_bound((2 * n + d) as int, (2 * d) as int);
    }
    assert((2 * d) * q == 2 * q * d) by (nonlinear_arith);
}

/// The rest between two bursts of a flow with the given packet length and
/// rate: `spec_burst_duration_ns`, clamped to 64 bits. A zero rate is
/// refused.
pub fn burst_duration_ns(packet_len: usize, tx_rate: u64) -> (duration: Result<u64, PacingError>)
    ensures
        duration == if tx_rate == 0 {
            Err::<u64, PacingError>(PacingError::ZeroRate)
        } else {
            Ok::<u64, PacingError>(
                clamp_u64(spec_burst_duration_ns(packet_len as nat, tx_rate as nat)),
            )
        },
{
    if tx_rate == 0 {
        return Err(PacingError::ZeroRate);
    }
    let size: u128 = packet_len as u128;
    let rate: u128 = tx_rate as u128;
    assert(2 * size * NANOS_PER_SECOND + rate <= u128::MAX) by {
        assert(size <= u64::MAX);
        assert(2 * size * 1_000_000_000 == 2_000_000_000 * size);
    }
    let doubled: u128 = 2 * size * (NANOS_PER_SECOND as u128) + rate;
    let rounded: u128 = doubled / (2 * rate);
    if rounded > u64::MAX as u128 {
        Ok(u64::MAX)
    } else {
        Ok(rounded as u64)
    }
}

/// A datagram could not be handed to the network.
#[derive(Clone, Copy, Debug, PartialEq, Eq)]
pub struct SendError;

/// What the pacing engine asks for next.
#[derive(Clone, Copy, Debug, PartialEq, Eq)]
pub enum PacingAction {
    /// Send one datagram of the flow, now.
    Transmit,
    /// Rest for this many nanoseconds.
    Sleep(u64),
}

/// What happened to the action the pacing engine asked for.
#[derive(Clone, Copy, Debug, PartialEq, Eq)]
pub enum PacingEvent {
    /// The datagram was handed to the network, which took this many bytes or
    /// refused it.
    Transmitted(Result<usize, SendError>),
    /// The rest is over.
    Slept,
}

/// The state of a pacing engine.
pub struct PacingState {
    /// The rest between two bursts, in nanoseconds.
    pub burst_tx_duration_ns: u64,
    /// Datagrams of the current burst that are out already.
    pub sent_in_burst: nat,
}

impl PacingState {
    /// The state of an engine that has not sent anything yet.
    pub open spec fn fresh(burst_tx_duration_ns: u64) -> PacingState {
        PacingState { burst_tx_duration_ns, sent_in_burst: 0 }
    }

    /// A burst never exceeds `BURST_SIZE` datagrams.
    pub open spec fn wf(self) -> bool {
        self.sent_in_burst <= BURST_SIZE
    }

    /// Datagrams while the burst is short of `BURST_SIZE`, then the rest.
    pub open spec fn next_action(self) -> PacingAction {
        if self.sent_in_burst < BURST_SIZE {
            PacingAction::Transmit
        } else {
            PacingAction::Sleep(self.burst_tx_duration_ns)
        }
    }

    /// Whether `event` reports on the action that the engine asked for.
    pub open spec fn answered_by(self, event: PacingEvent) -> bool {
        match event {
            PacingEvent::Transmitted(_) => self.next_action() is Transmit,
            PacingEvent::Slept => self.next_action() is Sleep,
        }
    }

    /// The state after `event`. A datagram counts towards the burst whether
    /// or not the network took it; a rest ends the burst; an event that the
    /// engine did not ask for changes nothing.
    pub open spec fn handle(self, event: PacingEvent) -> PacingState {
        if !self.answered_by(event) {
            self
        } else {
            match event {
                PacingEvent::Transmitted(_) => PacingState {
                    sent_in_burst: self.sent_in_burst + 1,
                    ..self
                },
                PacingEvent::Slept => PacingState { sent_in_burst: 0, ..self },
            }
        }
    }
}

impl PacingState {
    /// The state after a sequence of events, the first one first.
    pub open spec fn run(self, events: Seq<PacingEvent>) -> PacingState
        decreases events.len(),
    {
        if events.len() == 0 {
            self
        } else {
            self.run(events.drop_last()).handle(events.last())
        }
    }

    /// Every event reports on the action that was pending when it came: the
    /// driver did what it was asked, whatever came of it.
    pub open spec fn orderly(self, events: Seq<PacingEvent>) -> bool {
        forall|i: int|
            0 <= i < events.len() ==> (#[trigger] self.run(events.take(i))).answered_by(events[i])
    }
}

/// The number of datagrams among `events`, failed ones included.
pub open spec fn datagrams(events: Seq<PacingEvent>) -> nat
    decreases events.len(),
{
    if events.len() == 0 {
        0
    } else {
        datagrams(events.drop_last()) + if events.last() is Transmitted {
            1nat
        } else {
            0nat
        }
    }
}

/// The number of rests among `events`.
pub open spec fn rests(events: Seq<PacingEvent>) -> nat
    decreases events.len(),
{
    if events.len() == 0 {
        0
    } else {
        rests(events.drop_last()) + if events.last() is Slept {
            1nat
        } else {
            0nat
        }
    }
}

/// A failed send is swallowed: the engine goes on exactly as after a
/// successful one.
pub proof fn lemma_send_outcome_ignored(
    state: PacingState,
    one: Result<usize, SendError>,
    other: Result<usize, SendError>,
)
    ensures
        state.handle(PacingEvent::Transmitted(one)) == state.handle(
            PacingEvent::Transmitted(other),
        ),
{
}

/// An engine keeps its rest for life, and its burst within `BURST_SIZE`.
pub proof fn lemma_handle_preserves(state: PacingState, event: PacingEvent)
    requires
        state.wf(),
    ensures
        state.handle(event).wf(),
        state.handle(event).burst_tx_duration_ns == state.burst_tx_duration_ns,
{
}

/// The schedule of a flow: `BURST_SIZE` datagrams, one rest, and again,
/// without end. After any number of events of an orderly run from a fresh
/// engine, the engine stands at that number modulo `BURST_SIZE + 1` within
/// the cycle, and it still rests for the duration it started with.
pub proof fn lemma_schedule(duration: u64, events: Seq<PacingEvent>)
    requires
        PacingState::fresh(duration).orderly(events),
    ensures
        PacingState::fresh(duration).run(events) == (PacingState {
            burst_tx_duration_ns: duration,
            sent_in_burst: events.len() % (BURST_SIZE as nat + 1),
        }),
        PacingState::fresh(duration).run(events).next_action() == if events.len() % (
        BURST_SIZE as nat + 1) < BURST_SIZE {
            PacingAction::Transmit
        } else {
            PacingAction::Sleep(duration)
        },
    decreases events.len(),
{
    let fresh = PacingState::fresh(duration);
    assert(BURST_SIZE as nat + 1 == 11);
    if events.len() > 0 {
        let before = events.drop_last();
        assert(events.take(events.len() - 1) =~= before);
        lemma_orderly_take(fresh, events, events.len() - 1);
        lemma_schedule(duration, before);
        assert(fresh.run(events.take(events.len() - 1)).answered_by(events[events.len() - 1]));
        let prev = fresh.run(before);
        assert(fresh.run(events) == prev.handle(events.last()));
        assert(prev.sent_in_burst < 10 ==> events.len() % 11 == prev.sent_in_burst + 1);
        assert(prev.sent_in_burst == 10 ==> events.len() % 11 == 0);
    } else {
        assert(fresh.run(events) == fresh);
    }
}

/// Every beginning of an orderly run is an orderly run.
proof fn lemma_orderly_take(state: PacingState, events: Seq<PacingEvent>, upto: int)
    requires
        0 <= upto <= events.len(),
        state.orderly(events),
    ensures
        state.orderly(events.take(upto)),
{
    let begin = events.take(upto);
    assert forall|i: int| 0 <= i < begin.len() implies (#[trigger] state.run(
        begin.take(i),
    )).answered_by(begin[i]) by {
        assert(begin.take(i) =~= events.take(i));
        assert(state.run(events.take(i)).answered_by(events[i]));
    }
}

/// The rate a flow is really sent at. Whole cycles of an orderly run from a
/// fresh engine hold exactly `BURST_SIZE` datagrams to every rest, and every
/// rest was asked for with the one duration the engine started with. That
/// duration is the time of a single packet, so the flow goes out at
/// `BURST_SIZE` times the rate it was configured with.
pub proof fn lemma_burst_multiplier(duration: u64, events: Seq<PacingEvent>, cycles: nat)
    requires
        PacingState::fresh(duration).orderly(events),
        events.len() == cycles * (BURST_SIZE as nat + 1),
    ensures
        datagrams(events) == BURST_SIZE * cycles,
        rests(events) == cycles,
        forall|i: int|
            0 <= i < events.len() && events[i] is Slept ==> (#[trigger] PacingState::fresh(
                duration,
            ).run(events.take(i))).next_action() == PacingAction::Sleep(duration),
        PacingState::fresh(duration).run(events).next_action() == PacingAction::Transmit,
{
    let fresh = PacingState::fresh(duration);
    lemma_counts(duration, events);
    lemma_schedule(duration, events);
    let period = BURST_SIZE as nat + 1;
    assert(events.len() % period == 0 && events.len() / period == cycles) by {
        vstd::arithmetic::div_mod::lemma_fundamental_div_mod_converse(
            events.len() as int,
            period as int,
            cycles as int,
            0,
        );
    }
    assert forall|i: int| 0 <= i < events.len() && events[i] is Slept implies (
    #[trigger] fresh.run(events.take(i))).next_action() == PacingAction::Sleep(duration) by {
        lemma_orderly_take(fresh, events, i);
        lemma_schedule(duration, events.take(i));
        assert(fresh.run(events.take(i)).answered_by(events[i]));
    }
}

/// How many datagrams and how many rests an orderly run from a fresh engine
/// holds, whatever its length: each whole cycle holds `BURST_SIZE` datagrams
/// and one rest, and an unfinished cycle holds datagrams only.
pub proof fn lemma_counts(duration: u64, events: Seq<PacingEvent>)
    requires
        PacingState::fresh(duration).orderly(events),
    ensures
        datagrams(events) == BURST_SIZE * (events.len() / (BURST_SIZE as nat + 1)) + events.len()
            % (BURST_SIZE as nat + 1),
        rests(events) == events.len() / (BURST_SIZE as nat + 1),
    decreases events.len(),
{
    let fresh = PacingState::fresh(duration);
    if events.len() > 0 {
        let before = events.drop_last();
        assert(events.take(events.len() - 1) =~= before);
        lemma_orderly_take(fresh, events, events.len() - 1);
        lemma_counts(duration, before);
        lemma_schedule(duration, before);
        assert(fresh.run(events.take(events.len() - 1)).answered_by(events[events.len() - 1]));
    }
}

/// The pacing loop of one flow, as a machine that is told what happened and
/// says what to do next. It has no final state: a flow is paced until its
/// driver stops asking.
#[derive(Debug)]
pub struct PacingEngine {
    burst_tx_duration_ns: u64,
    sent_in_burst: u64,
}

impl View for PacingEngine {
    type V = PacingState;

    closed spec fn view(&self) -> PacingState {
        PacingState {
            burst_tx_duration_ns: self.burst_tx_duration_ns,
            sent_in_burst: self.sent_in_burst as nat,
        }
    }
}

impl PacingEngine {
    #[verifier::type_invariant]
    spec fn inv(&self) -> bool {
        self@.wf()
    }

    /// The engine of a flow with the given packet length and rate, before
    /// its first datagram. A zero rate is refused: no engine exists for it.
    pub fn new(packet_len: usize, tx_rate: u64) -> (engine: Result<PacingEngine, PacingError>)
        ensures
            match engine {
                Ok(e) => tx_rate != 0 && e@ == PacingState::fresh(
                    clamp_u64(spec_burst_duration_ns(packet_len as nat, tx_rate as nat)),
                ),
                Err(e) => tx_rate == 0 && e == PacingError::ZeroRate,
            },
    {
        match burst_duration_ns(packet_len, tx_rate) {
            Ok(burst_tx_duration_ns) => Ok(PacingEngine { burst_tx_duration_ns, sent_in_burst: 0 }),
            Err(e) => Err(e),
        }
    }

    /// The engine of `flow`: its packet length is the size term of the
    /// pacing formula, its rate the rate. A zero rate is refused.
    pub fn for_flow(flow: &FlowParameters) -> (engine: Result<PacingEngine, PacingError>)
        ensures
            match engine {
                Ok(e) => flow.tx_rate != 0 && e@ == PacingState::fresh(
                    clamp_u64(spec_burst_duration_ns(flow.packet_len as nat, flow.tx_rate as nat)),
                ),
                Err(e) => flow.tx_rate == 0 && e == PacingError::ZeroRate,
            },
    {
        PacingEngine::new(flow.packet_len, flow.tx_rate)
    }

    /// The rest between two bursts, in nanoseconds.
    pub fn burst_tx_duration_ns(&self) -> (duration: u64)
        ensures
            duration == self@.burst_tx_duration_ns,
    {
        self.burst_tx_duration_ns
    }

    /// What the driver is to do now.
    pub fn next_action(&self) -> (action: PacingAction)
        ensures
            self@.wf(),
            action == self@.next_action(),
    {
        proof {
            use_type_invariant(self);
        }
        if self.sent_in_burst < BURST_SIZE {
            PacingAction::Transmit
        } else {
            PacingAction::Sleep(self.burst_tx_duration_ns)
        }
    }

    /// Takes note of what the driver did. Whether a datagram went out or
    /// failed makes no difference to what follows.
    pub fn handle(&mut self, event: PacingEvent)
        ensures
            final(self)@ == old(self)@.handle(event),
            final(self)@.wf(),
    {
        proof {
            use_type_invariant(&*self);
        }
        match event {
            PacingEvent::Transmitted(_) => {
                if self.sent_in_burst < BURST_SIZE {
                    self.sent_in_burst = self.sent_in_burst + 1;
                }
            },
            PacingEvent::Slept => {
                if self.sent_in_burst >= BURST_SIZE {
                    self.sent_in_burst = 0;
                }
            },
        }
    }
}

} // verus!
