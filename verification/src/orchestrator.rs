//! Startup of a run: every flow gets its socket, or no flow starts.

use vstd::prelude::*;
use crate::address::SocketAddress;
use crate::flow::FlowParameters;
use crate::tx_block::BindError;
use crate::tx_block::FlowTxBlock;
use crate::tx_block::FlowTxBlockView;

verus! {

/// Why a run ended before any flow started.
#[derive(Debug, PartialEq, Eq)]
pub enum StartupError {
    /// The input document could not be read to its end. The text says why.
    InputRead(String),
    /// The input document is not a list of flows. The text says why.
    Schema(String),
    /// The socket of one flow could not be bound.
    Bind(BindError),
}

impl Clone for StartupError {
    fn clone(&self) -> (copy: StartupError)
        ensures
            copy == *self,
    {
        match self {
            StartupError::InputRead(detail) => StartupError::InputRead(detail.clone()),
            StartupError::Schema(detail) => StartupError::Schema(detail.clone()),
            StartupError::Bind(error) => StartupError::Bind(*error),
        }
    }
}

/// What the orchestrator asks for next.
#[derive(Debug, PartialEq, Eq)]
pub enum StartupAction {
    /// Bind a datagram socket to this local endpoint and report the outcome.
    Bind(SocketAddress),
    /// Every flow has its socket: take the contexts and start them all.
    Launch,
    /// Give up, with this error. No flow starts.
    Abort(StartupError),
}

/// The state of a startup.
pub struct StartupState<S> {
    /// The flows of the run, in input order.
    pub flows: Seq<FlowParameters>,
    /// The sockets bound so far: `sockets[i]` belongs to `flows[i]`.
    pub sockets: Seq<S>,
    /// The error that ended the startup, if one did.
    pub failure: Option<StartupError>,
}

impl<S> StartupState<S> {
    /// No flow has more than one socket.
    pub open spec fn wf(self) -> bool {
        self.sockets.len() <= self.flows.len()
    }

    /// The state of a startup that has its flows and no socket yet.
    pub open spec fn loaded(flows: Seq<FlowParameters>) -> Self {
        StartupState { flows, sockets: Seq::empty(), failure: None }
    }

    /// The state of a startup whose input document could not be read or
    /// decoded: it has failed, and it has no flow.
    pub open spec fn failed(error: StartupError) -> Self {
        StartupState { flows: Seq::empty(), sockets: Seq::empty(), failure: Some(error) }
    }

    /// The state a startup begins in, given what loading the input document
    /// gave.
    pub open spec fn started(loaded: Result<Vec<FlowParameters>, StartupError>) -> Self {
        match loaded {
            Ok(flows) => Self::loaded(flows@),
            Err(error) => Self::failed(error),
        }
    }

    /// A failure ends everything; short of one, the flows are bound one by
    /// one in input order; with all of them bound, the run starts.
    pub open spec fn next_action(self) -> StartupAction {
        match self.failure {
            Some(error) => StartupAction::Abort(error),
            None => if self.sockets.len() < self.flows.len() {
                StartupAction::Bind(self.flows[self.sockets.len() as int].spec_source_socket_addr())
            } else {
                StartupAction::Launch
            },
        }
    }

    /// The state after the outcome of a bind: the socket joins the others, or
    /// the startup has failed on the endpoint that was asked for. An outcome
    /// that nothing asked for changes nothing.
    pub open spec fn bound(self, outcome: Option<S>) -> Self {
        match self.next_action() {
            StartupAction::Bind(endpoint) => match outcome {
                Some(socket) => StartupState { sockets: self.sockets.push(socket), ..self },
                None => StartupState {
                    failure: Some(StartupError::Bind(BindError { endpoint })),
                    ..self
                },
            },
            _ => self,
        }
    }

    /// The contexts built so far, one for each socket, in input order.
    pub open spec fn contexts(self) -> Seq<FlowTxBlockView<S>> {
        Seq::new(
            self.sockets.len(),
            |i: int| FlowTxBlockView::built_from(self.flows[i], self.sockets[i]),
        )
    }

    /// What a launch hands over: the contexts of all flows where all are
    /// built, nothing otherwise.
    pub open spec fn launched(self) -> Option<Seq<FlowTxBlockView<S>>> {
        if self.next_action() is Launch {
            Some(self.contexts())
        } else {
            None
        }
    }
}

impl<S> StartupState<S> {
    /// The state after a sequence of bind outcomes, the first one first.
    pub open spec fn run(self, outcomes: Seq<Option<S>>) -> Self
        decreases outcomes.len(),
    {
        if outcomes.len() == 0 {
            self
        } else {
            self.run(outcomes.drop_last()).bound(outcomes.last())
        }
    }
}

/// The outcomes of a startup in which every bind succeeds, with these
/// sockets.
pub open spec fn all_bound<S>(sockets: Seq<S>) -> Seq<Option<S>> {
    Seq::new(sockets.len(), |i: int| Some(sockets[i]))
}

/// A startup keeps its flows, keeps every socket it has, and keeps at most
/// one socket per flow, whatever is reported to it.
pub proof fn lemma_bound_preserves<S>(state: StartupState<S>, outcome: Option<S>)
    requires
        state.wf(),
    ensures
        state.bound(outcome).wf(),
        state.bound(outcome).flows == state.flows,
        state.sockets.is_prefix_of(state.bound(outcome).sockets),
{
}

/// Running two sequences of outcomes one after the other is running their
/// concatenation.
pub proof fn lemma_run_concat<S>(
    state: StartupState<S>,
    first: Seq<Option<S>>,
    second: Seq<Option<S>>,
)
    ensures
        state.run(first + second) == state.run(first).run(second),
    decreases second.len(),
{
    if second.len() == 0 {
        assert(first + second =~= first);
    } else {
        lemma_run_concat(state, first, second.drop_last());
        assert((first + second).drop_last() =~= first + second.drop_last());
    }
}

/// A startup that no longer asks for a bind stays as it is: a failure is
/// final, and so is readiness.
pub proof fn lemma_settled_stays<S>(state: StartupState<S>, outcomes: Seq<Option<S>>)
    requires
        !(state.next_action() is Bind),
    ensures
        state.run(outcomes) == state,
    decreases outcomes.len(),
{
    if outcomes.len() > 0 {
        lemma_settled_stays(state, outcomes.drop_last());
    }
}

/// While binds succeed, the sockets pile up in the order of the flows.
pub proof fn lemma_run_of_successes<S>(flows: Seq<FlowParameters>, outcomes: Seq<Option<S>>)
    requires
        outcomes.len() <= flows.len(),
        forall|i: int| 0 <= i < outcomes.len() ==> outcomes[i] is Some,
    ensures
        StartupState::loaded(flows).run(outcomes) == (StartupState {
            flows,
            sockets: Seq::new(outcomes.len(), |i: int| outcomes[i]->0),
            failure: None,
        }),
    decreases outcomes.len(),
{
    let end = StartupState::loaded(flows).run(outcomes);
    let sockets = Seq::new(outcomes.len(), |i: int| outcomes[i]->0);
    if outcomes.len() == 0 {
        assert(end.sockets =~= sockets);
    } else {
        let before = outcomes.drop_last();
        lemma_run_of_successes(flows, before);
        assert(end.sockets =~= sockets);
    }
}

/// With every source address bindable, every flow starts: after one
/// successful bind for each flow, asked for in input order, a launch hands
/// over exactly one context per flow, in input order, each holding its
/// flow, the socket bound for it, the flow's destination and a buffer of
/// `packet_len` zero bytes.
pub proof fn lemma_all_bound_launches<S>(flows: Seq<FlowParameters>, sockets: Seq<S>)
    requires
        sockets.len() == flows.len(),
    ensures
        forall|i: int|
            0 <= i < flows.len() ==> (#[trigger] StartupState::loaded(flows).run(
                all_bound(sockets).take(i),
            )).next_action() == StartupAction::Bind(flows[i].spec_source_socket_addr()),
        StartupState::loaded(flows).run(all_bound(sockets)).launched() == Some(
            Seq::new(flows.len(), |i: int| FlowTxBlockView::built_from(flows[i], sockets[i])),
        ),
{
    let outcomes = all_bound(sockets);
    assert forall|i: int| 0 <= i < flows.len() implies (#[trigger] StartupState::loaded(flows).run(
        outcomes.take(i),
    )).next_action() == StartupAction::Bind(flows[i].spec_source_socket_addr()) by {
        lemma_run_of_successes(flows, outcomes.take(i));
    }
    lemma_run_of_successes(flows, outcomes);
    let end = StartupState::loaded(flows).run(outcomes);
    assert(end.sockets =~= sockets);
    assert(end.contexts() =~= Seq::new(
        flows.len(),
        |i: int| FlowTxBlockView::built_from(flows[i], sockets[i]),
    ));
}

/// Every flow of a list gets its buffer back as configured: with every bind
/// successful, a launch hands over as many contexts as there are flows, and
/// the buffer of each is exactly `packet_len` bytes long and holds zeros
/// only.
pub proof fn lemma_launched_buffers_zeroed<S>(flows: Seq<FlowParameters>, sockets: Seq<S>)
    requires
        sockets.len() == flows.len(),
    ensures
        StartupState::loaded(flows).run(all_bound(sockets)).launched() matches Some(contexts) && {
            &&& contexts.len() == flows.len()
            &&& forall|i: int|
                0 <= i < flows.len() ==> (#[trigger] contexts[i]).data_buffer.len()
                    == flows[i].packet_len
            &&& forall|i: int, j: int|
                0 <= i < flows.len() && 0 <= j < flows[i].packet_len
                    ==> #[trigger] contexts[i].data_buffer[j] == 0u8
        },
{
    lemma_all_bound_launches(flows, sockets);
}

/// All or nothing. Where the bind of one flow fails, the run is over: the
/// startup aborts on the endpoint of that flow, whatever is reported after,
/// and a launch hands over nothing, not even the flows that were bound
/// before.
pub proof fn lemma_failed_bind_aborts<S>(
    flows: Seq<FlowParameters>,
    outcomes: Seq<Option<S>>,
    failed: int,
)
    requires
        0 <= failed < outcomes.len(),
        failed < flows.len(),
        outcomes[failed] is None,
        forall|i: int| 0 <= i < failed ==> outcomes[i] is Some,
    ensures
        StartupState::loaded(flows).run(outcomes).next_action() == StartupAction::Abort(
            StartupError::Bind(BindError { endpoint: flows[failed].spec_source_socket_addr() }),
        ),
        StartupState::loaded(flows).run(outcomes).launched() is None,
{
    let start = StartupState::loaded(flows);
    let before = outcomes.take(failed);
    let from = outcomes.skip(failed);
    let after = outcomes.skip(failed + 1);
    assert(outcomes =~= before + from);
    assert(from =~= seq![outcomes[failed]] + after);
    lemma_run_of_successes(flows, before);
    lemma_run_concat(start, before, from);
    lemma_run_concat(start.run(before), seq![outcomes[failed]], after);
    let at = start.run(before);
    assert(at.run(seq![outcomes[failed]]) == at.bound(outcomes[failed])) by {
        let one = seq![outcomes[failed]];
        assert(one.drop_last().len() == 0);
        assert(at.run(one.drop_last()) == at);
    }
    lemma_settled_stays(at.bound(outcomes[failed]), after);
}

/// The first failed bind among the first `upto` outcomes.
proof fn first_failure<S>(outcomes: Seq<Option<S>>, upto: int) -> (failed: int)
    requires
        0 <= upto <= outcomes.len(),
        exists|i: int| 0 <= i < upto && outcomes[i] is None,
    ensures
        0 <= failed < upto,
        outcomes[failed] is None,
        forall|i: int| 0 <= i < failed ==> outcomes[i] is Some,
    decreases upto,
{
    if exists|i: int| 0 <= i < upto - 1 && outcomes[i] is None {
        first_failure(outcomes, upto - 1)
    } else {
        upto - 1
    }
}

/// A launch hands over the contexts exactly when every flow was bound: when
/// there is an outcome for each flow and the first one for each is a
/// success. One failure among them, or one flow still waiting, and nothing
/// starts.
pub proof fn lemma_launch_iff_all_bound<S>(flows: Seq<FlowParameters>, outcomes: Seq<Option<S>>)
    ensures
        StartupState::loaded(flows).run(outcomes).launched() is Some <==> {
            &&& outcomes.len() >= flows.len()
            &&& forall|i: int| 0 <= i < flows.len() ==> outcomes[i] is Some
        },
{
    let start = StartupState::loaded(flows);
    let answered = if outcomes.len() < flows.len() {
        outcomes.len() as int
    } else {
        flows.len() as int
    };
    if exists|i: int| 0 <= i < answered && outcomes[i] is None {
        let failed = first_failure(outcomes, answered);
        lemma_failed_bind_aborts(flows, outcomes, failed);
    } else {
        let asked = outcomes.take(answered);
        let unasked = outcomes.skip(answered);
        assert(outcomes =~= asked + unasked);
        lemma_run_of_successes(flows, asked);
        lemma_run_concat(start, asked, unasked);
        if answered == flows.len() {
            lemma_settled_stays(start.run(asked), unasked);
        } else {
            assert(unasked.len() == 0);
        }
    }
}

/// A run whose input document could not be read or decoded is over before
/// it began: the startup aborts with that error whatever is reported to it,
/// it never asks for a bind, and a launch hands over nothing.
pub proof fn lemma_load_failure_aborts<S>(error: StartupError, outcomes: Seq<Option<S>>)
    ensures
        StartupState::<S>::failed(error).run(outcomes) == StartupState::<S>::failed(error),
        StartupState::<S>::failed(error).next_action() == StartupAction::Abort(error),
        StartupState::<S>::failed(error).launched() is None,
{
    lemma_settled_stays(StartupState::<S>::failed(error), outcomes);
}

/// The views of a list of contexts.
pub open spec fn views<S>(blocks: Seq<FlowTxBlock<S>>) -> Seq<FlowTxBlockView<S>> {
    Seq::new(blocks.len(), |i: int| blocks[i]@)
}

/// The startup of a run, as a machine that is told how each bind went and
/// says what to do next.
#[derive(Debug)]
pub struct Orchestrator<S> {
    /// Flows that have no socket yet, the next one last.
    pending: Vec<FlowParameters>,
    /// The contexts built so far, in input order.
    built: Vec<FlowTxBlock<S>>,
    failure: Option<StartupError>,
}

impl<S> View for Orchestrator<S> {
    type V = StartupState<S>;

    closed spec fn view(&self) -> StartupState<S> {
        StartupState {
            flows: Seq::new(
                self.built@.len() + self.pending@.len(),
                |i: int|
                    if i < self.built@.len() {
                        self.built@[i]@.flow_parameters
                    } else {
                        self.pending@[self.built@.len() + self.pending@.len() - 1 - i]
                    },
            ),
            sockets: Seq::new(self.built@.len(), |i: int| self.built@[i]@.socket),
            failure: self.failure,
        }
    }
}

impl<S> Orchestrator<S> {
    /// Begins a startup with what loading the input document gave: the
    /// flows, or the reason why there are none.
    pub fn start(loaded: Result<Vec<FlowParameters>, StartupError>) -> (orchestrator: Orchestrator<
        S,
    >)
        ensures
            orchestrator@ == StartupState::<S>::started(loaded),
    {
        match loaded {
            Ok(flows) => {
                let ghost given = flows@;
                let mut flows = flows;
                let mut pending: Vec<FlowParameters> = Vec::new();
                while flows.len() > 0
                    invariant
                        flows@.len() + pending@.len() == given.len(),
                        forall|i: int| 0 <= i < flows@.len() ==> flows@[i] == given[i],
                        forall|i: int|
                            0 <= i < pending@.len() ==> pending@[i] == given[given.len() - 1 - i],
                    decreases flows@.len(),
                {
                    match flows.pop() {
                        Some(flow) => pending.push(flow),
                        None => {},
                    }
                }
                let orchestrator = Orchestrator { pending, built: Vec::new(), failure: None };
                assert(orchestrator@.flows =~= given);
                assert(orchestrator@.sockets =~= Seq::<S>::empty());
                orchestrator
            },
            Err(error) => {
                let orchestrator = Orchestrator {
                    pending: Vec::new(),
                    built: Vec::new(),
                    failure: Some(error),
                };
                assert(orchestrator@.flows =~= Seq::<FlowParameters>::empty());
                assert(orchestrator@.sockets =~= Seq::<S>::empty());
                orchestrator
            },
        }
    }

    /// What the driver is to do now.
    pub fn next_action(&self) -> (action: StartupAction)
        ensures
            self@.wf(),
            action == self@.next_action(),
    {
        match &self.failure {
            Some(error) => StartupAction::Abort(error.clone()),
            None => {
                let waiting = self.pending.len();
                if waiting > 0 {
                    StartupAction::Bind(self.pending[waiting - 1].source_socket_addr())
                } else {
                    StartupAction::Launch
                }
            },
        }
    }

    /// Takes note of how the bind went that `next_action` asked for: `Some`
    /// with the bound socket, `None` where it failed.
    pub fn bound(&mut self, outcome: Option<S>)
        ensures
            final(self)@ == old(self)@.bound(outcome),
            final(self)@.wf(),
    {
        if self.failure.is_some() {
            return ;
        }
        let waiting = self.pending.len();
        if waiting == 0 {
            return ;
        }
        match outcome {
            Some(socket) => {
                let ghost before = self@;
                match self.pending.pop() {
                    Some(flow) => {
                        match FlowTxBlock::new(flow, Some(socket)) {
                            Ok(block) => {
                                self.built.push(block);
                            },
                            Err(_) => {},
                        }
                    },
                    None => {},
                }
                assert(self@.flows =~= before.flows);
                assert(self@.sockets =~= before.sockets.push(socket));
            },
            None => {
                let ghost before = self@;
                let endpoint = self.pending[waiting - 1].source_socket_addr();
                self.failure = Some(StartupError::Bind(BindError { endpoint }));
                assert(self@.flows =~= before.flows);
                assert(self@.sockets =~= before.sockets);
            },
        }
    }

    /// Ends the startup. Where every flow has its socket, the contexts of
    /// all flows come out, in input order, each built from its flow and the
    /// socket bound for it. Otherwise nothing comes out: the sockets bound so
    /// far are closed and no flow starts.
    pub fn launch(self) -> (blocks: Option<Vec<FlowTxBlock<S>>>)
        ensures
            match blocks {
                Some(blocks) => {
                    &&& self@.launched() == Some(views(blocks@))
                    &&& blocks@.len() == self@.flows.len()
                    &&& forall|i: int|
                        0 <= i < blocks@.len() ==> (#[trigger] blocks@[i])@
                            == FlowTxBlockView::built_from(self@.flows[i], self@.sockets[i])
                },
                None => self@.launched() is None,
            },
    {
        if self.failure.is_none() && self.pending.len() == 0 {
            assert forall|i: int| 0 <= i < self.built@.len() implies (#[trigger] self.built@[i])@
                == self@.contexts()[i] by {
                self.built@[i].lemma_view_wf();
            }
            assert(views(self.built@) =~= self@.contexts());
            Some(self.built)
        } else {
            None
        }
    }
}

} // verus!
