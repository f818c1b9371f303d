//! The order in which a fuzzed sequence runs its handlers: first every init
//! handler, then, for each of its flows, one flow picked at random among the
//! registered ones followed by every invariant.
use crate::fuzz::random::random_u64;
use vstd::prelude::*;

verus! {

/// One step of a fuzzed sequence: the handler to run, by its index among the
/// registered handlers of its kind.
#[derive(PartialEq, Eq, Structural, Clone, Copy, Debug)]
pub enum SequenceStep {
    Init(usize),
    Flow(usize),
    Invariant(usize),
}

/// What a fuzz test builder has registered: how many init handlers, flows,
/// invariants and states, whether it knows how to create a validator, and
/// whether it has started. Nothing can be registered once it has started.
pub struct BuilderState {
    n_init: usize,
    n_flows: usize,
    n_invariants: usize,
    n_states: usize,
    has_validator: bool,
    started: bool,
}

/// A builder's registrations, in the order of the fields of `BuilderState`.
pub struct BuilderView {
    pub n_init: nat,
    pub n_flows: nat,
    pub n_invariants: nat,
    pub n_states: nat,
    pub has_validator: bool,
    pub started: bool,
}

impl View for BuilderState {
    type V = BuilderView;

    closed spec fn view(&self) -> BuilderView {
        BuilderView {
            n_init: self.n_init as nat,
            n_flows: self.n_flows as nat,
            n_invariants: self.n_invariants as nat,
            n_states: self.n_states as nat,
            has_validator: self.has_validator,
            started: self.started,
        }
    }
}

impl BuilderState {
    /// A builder with nothing registered, not started.
    pub fn new() -> (b: Self)
        ensures
            b@ == (BuilderView {
                n_init: 0,
                n_flows: 0,
                n_invariants: 0,
                n_states: 0,
                has_validator: false,
                started: false,
            }),
    {
        BuilderState {
            n_init: 0,
            n_flows: 0,
            n_invariants: 0,
            n_states: 0,
            has_validator: false,
            started: false,
        }
    }

    /// Whether the builder has started.
    pub fn is_started(&self) -> (b: bool)
        ensures
            b == self@.started,
    {
        self.started
    }

    /// Registers an init handler; only before the start.
    pub fn add_init_handler(&mut self)
        requires
            !old(self)@.started,
            old(self)@.n_init < usize::MAX,
        ensures
            final(self)@ == (BuilderView { n_init: old(self)@.n_init + 1, ..old(self)@ }),
    {
        self.n_init = self.n_init + 1;
    }

    /// Registers a flow; only before the start.
    pub fn add_flow(&mut self)
        requires
            !old(self)@.started,
            old(self)@.n_flows < usize::MAX,
        ensures
            final(self)@ == (BuilderView { n_flows: old(self)@.n_flows + 1, ..old(self)@ }),
    {
        self.n_flows = self.n_flows + 1;
    }

    /// Registers an invariant; only before the start.
    pub fn add_invariant(&mut self)
        requires
            !old(self)@.started,
            old(self)@.n_invariants < usize::MAX,
        ensures
            final(self)@ == (BuilderView { n_invariants: old(self)@.n_invariants + 1, ..old(self)@ }),
    {
        self.n_invariants = self.n_invariants + 1;
    }

    /// Registers a state; only before the start.
    pub fn with_state(&mut self)
        requires
            !old(self)@.started,
            old(self)@.n_states < usize::MAX,
        ensures
            final(self)@ == (BuilderView { n_states: old(self)@.n_states + 1, ..old(self)@ }),
    {
        self.n_states = self.n_states + 1;
    }

    /// Registers how validators are created; allowed at any time.
    pub fn initialize_validator(&mut self)
        ensures
            final(self)@ == (BuilderView { has_validator: true, ..old(self)@ }),
    {
        self.has_validator = true;
    }

    /// Starts the builder, which from then on takes no registration, and
    /// tells whether it can create validators (starting without is refused).
    pub fn start(&mut self) -> (can_start: bool)
        ensures
            final(self)@ == (BuilderView { started: true, ..old(self)@ }),
            can_start == old(self)@.has_validator,
    {
        self.started = true;
        self.has_validator
    }

    /// Plans a sequence of `n_flows` flows of a started builder: `None` when
    /// flows are asked for but none is registered; otherwise every init
    /// handler, then each flow, picked among the registered ones, followed by
    /// every invariant.
    pub fn plan(&self, n_flows: usize) -> (steps: Option<Vec<SequenceStep>>)
        requires
            self@.started,
        ensures
            steps is None <==> (n_flows > 0 && self@.n_flows == 0),
            steps matches Some(s) ==> exists|flows: Seq<usize>|
                {
                    &&& flows.len() == n_flows
                    &&& forall|k: int| 0 <= k < n_flows ==> #[trigger] flows[k] < self@.n_flows
                    &&& s@ == sequence_schedule(self@.n_init, self@.n_invariants, flows)
                },
    {
        if n_flows > 0 && self.n_flows == 0 {
            return None;
        }
        let flows = choose_flows(n_flows, self.n_flows);
        let steps = plan_sequence(self.n_init, self.n_invariants, &flows);
        Some(steps)
    }
}

/// Every init handler, in the order of registration.
pub open spec fn init_steps(n_init: nat) -> Seq<SequenceStep> {
    Seq::new(n_init, |i: int| SequenceStep::Init(i as usize))
}

/// Every invariant, in the order of registration.
pub open spec fn invariant_steps(n_invariants: nat) -> Seq<SequenceStep> {
    Seq::new(n_invariants, |j: int| SequenceStep::Invariant(j as usize))
}

/// For each chosen flow, the flow followed by every invariant.
pub open spec fn flow_steps(n_invariants: nat, flows: Seq<usize>) -> Seq<SequenceStep>
    decreases flows.len(),
{
    if flows.len() == 0 {
        Seq::empty()
    } else {
        flow_steps(n_invariants, flows.drop_last()) + seq![SequenceStep::Flow(flows.last())]
            + invariant_steps(n_invariants)
    }
}

/// The steps of a sequence that runs the chosen flows.
pub open spec fn sequence_schedule(n_init: nat, n_invariants: nat, flows: Seq<usize>) -> Seq<
    SequenceStep,
> {
    init_steps(n_init) + flow_steps(n_invariants, flows)
}

/// Where the `k`-th flow of a sequence runs.
pub open spec fn flow_position(n_init: nat, n_invariants: nat, k: int) -> int {
    n_init + k * (n_invariants + 1)
}

/// Where the `j`-th invariant after the `k`-th flow of a sequence runs.
pub open spec fn invariant_position(n_init: nat, n_invariants: nat, k: int, j: int) -> int {
    flow_position(n_init, n_invariants, k) + 1 + j
}

/// Picks the flows that a sequence of `n_flows` flows runs, each at random
/// among the `n_flow_handlers` registered flows. A sequence needs at least
/// one registered flow to pick from.
pub fn choose_flows(n_flows: usize, n_flow_handlers: usize) -> (flows: Vec<usize>)
    requires
        n_flows == 0 || n_flow_handlers > 0,
    ensures
        flows@.len() == n_flows,
        forall|k: int| 0 <= k < n_flows ==> #[trigger] flows@[k] < n_flow_handlers,
{
    let mut flows: Vec<usize> = Vec::new();
    let mut k: usize = 0;
    while k < n_flows
        invariant
            k <= n_flows,
            n_flow_handlers > 0 || n_flows == 0,
            flows@.len() == k,
            forall|i: int| 0 <= i < k ==> #[trigger] flows@[i] < n_flow_handlers,
        decreases n_flows - k,
    {
        let pick = random_u64(0, (n_flow_handlers - 1) as u64);
        flows.push(pick as usize);
        k = k + 1;
    }
    flows
}

/// Lays out the steps of a sequence that runs the given flows: every init
/// handler, then each flow followed by every invariant.
pub fn plan_sequence(n_init: usize, n_invariants: usize, flows: &Vec<usize>) -> (steps: Vec<
    SequenceStep,
>)
    ensures
        steps@ == sequence_schedule(n_init as nat, n_invariants as nat, flows@),
{
    let mut steps: Vec<SequenceStep> = Vec::new();
    let mut i: usize = 0;
    while i < n_init
        invariant
            i <= n_init,
            steps@ =~= init_steps(i as nat),
        decreases n_init - i,
    {
        steps.push(SequenceStep::Init(i));
        i = i + 1;
    }
    let mut k: usize = 0;
    while k < flows.len()
        invariant
            k <= flows@.len(),
            steps@ == init_steps(n_init as nat) + flow_steps(n_invariants as nat, flows@.take(k as int)),
        decreases flows.len() - k,
    {
        let ghost before = steps@;
        steps.push(SequenceStep::Flow(flows[k]));
        let mut j: usize = 0;
        while j < n_invariants
            invariant
                j <= n_invariants,
                steps@ =~= before + seq![SequenceStep::Flow(flows@[k as int])] + invariant_steps(j as nat),
            decreases n_invariants - j,
        {
            steps.push(SequenceStep::Invariant(j));
            j = j + 1;
        }
        assert(flows@.take(k + 1).drop_last() =~= flows@.take(k as int));
        assert(steps@ =~= init_steps(n_init as nat) + flow_steps(n_invariants as nat, flows@.take(k + 1)));
        k = k + 1;
    }
    assert(flows@.take(flows@.len() as int) =~= flows@);
    steps
}

proof fn lemma_flow_steps(n_invariants: nat, flows: Seq<usize>)
    ensures
        flow_steps(n_invariants, flows).len() == flows.len() * (n_invariants + 1),
        forall|k: int, j: int|
            0 <= k < flows.len() && 0 <= j < n_invariants ==> flow_steps(
                n_invariants,
                flows,
            )[#[trigger] invariant_position(0, n_invariants, k, j)] == SequenceStep::Invariant(
                j as usize,
            ),
        forall|k: int|
            0 <= k < flows.len() ==> flow_steps(n_invariants, flows)[k * (n_invariants + 1)]
                == SequenceStep::Flow(#[trigger] flows[k]),
    decreases flows.len(),
{
    if flows.len() > 0 {
        let rest = flows.drop_last();
        lemma_flow_steps(n_invariants, rest);
        let m = rest.len();
        let w = n_invariants + 1;
        assert(m * w + w == flows.len() * w) by (nonlinear_arith)
            requires
                flows.len() == m + 1,
        ;
        let all = flow_steps(n_invariants, flows);
        let prev = flow_steps(n_invariants, rest);
        assert forall|k: int| 0 <= k < flows.len() implies all[k * w] == SequenceStep::Flow(
            #[trigger] flows[k],
        ) by {
            if k < m {
                assert(rest[k] == flows[k]);
                assert(k * w + w <= m * w) by (nonlinear_arith)
                    requires
                        k < m,
                ;
                assert(0 <= k * w) by (nonlinear_arith)
                    requires
                        0 <= k,
                ;
            } else {
                assert(k * w == m * w);
            }
        }
        assert forall|k: int, j: int|
            0 <= k < flows.len() && 0 <= j < n_invariants implies all[#[trigger] invariant_position(
                0,
                n_invariants,
                k,
                j,
            )] == SequenceStep::Invariant(j as usize) by {
            if k < m {
                assert(rest[k] == flows[k]);
                assert(k * w + w <= m * w) by (nonlinear_arith)
                    requires
                        k < m,
                ;
                assert(0 <= k * w) by (nonlinear_arith)
                    requires
                        0 <= k,
                ;
                assert(invariant_steps(n_invariants)[j] == SequenceStep::Invariant(j as usize));
                assert(prev[invariant_position(0, n_invariants, k, j)] == SequenceStep::Invariant(
                    j as usize,
                ));
            } else {
                assert(k * w == m * w);
                assert(invariant_steps(n_invariants)[j] == SequenceStep::Invariant(j as usize));
            }
        }
    }
}

/// The shape of a fuzzed sequence: it runs every init handler first, in
/// order; then each chosen flow at its place, right after the previous flow's
/// invariants; and every invariant, in order, right after each flow. Nothing
/// else runs.
pub proof fn lemma_sequence_schedule(n_init: nat, n_invariants: nat, flows: Seq<usize>)
    ensures
        sequence_schedule(n_init, n_invariants, flows).len() == n_init + flows.len() * (
        n_invariants + 1),
        forall|i: int|
            0 <= i < n_init ==> #[trigger] sequence_schedule(n_init, n_invariants, flows)[i]
                == SequenceStep::Init(i as usize),
        forall|k: int|
            0 <= k < flows.len() ==> sequence_schedule(n_init, n_invariants, flows)[flow_position(
                n_init,
                n_invariants,
                k,
            )] == SequenceStep::Flow(#[trigger] flows[k]),
        forall|k: int, j: int|
            0 <= k < flows.len() && 0 <= j < n_invariants ==> sequence_schedule(
                n_init,
                n_invariants,
                flows,
            )[#[trigger] invariant_position(n_init, n_invariants, k, j)] == SequenceStep::Invariant(
                j as usize,
            ),
{
    lemma_flow_steps(n_invariants, flows);
    let w = n_invariants + 1;
    assert forall|k: int| 0 <= k < flows.len() implies sequence_schedule(
        n_init,
        n_invariants,
        flows,
    )[flow_position(n_init, n_invariants, k)] == SequenceStep::Flow(#[trigger] flows[k]) by {
        assert(0 <= k * w) by (nonlinear_arith)
            requires
                0 <= k,
        ;
        assert(k * w < flows.len() * w) by (nonlinear_arith)
            requires
                k < flows.len(),
                w > 0,
        ;
    }
    assert forall|k: int, j: int|
        0 <= k < flows.len() && 0 <= j < n_invariants implies sequence_schedule(
            n_init,
            n_invariants,
            flows,
        )[#[trigger] invariant_position(n_init, n_invariants, k, j)] == SequenceStep::Invariant(
            j as usize,
        ) by {
        assert(0 <= k * w) by (nonlinear_arith)
            requires
                0 <= k,
        ;
        assert(k * w + w <= flows.len() * w) by (nonlinear_arith)
            requires
                k < flows.len(),
        ;
        assert(invariant_steps(n_invariants)[j] == SequenceStep::Invariant(j as usize));
        assert(flow_steps(n_invariants, flows)[invariant_position(0, n_invariants, k, j)]
            == SequenceStep::Invariant(j as usize));
    }
}

} // verus!
