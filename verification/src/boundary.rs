//! Suspense boundary tracking: for every boundary, whether its content is
//! still a placeholder or the real subtree, and how many placeholder nodes
//! stand for it while it is pending.

use std::collections::HashMap;
use vstd::prelude::*;
use vstd::set_lib::lemma_len_subset;

verus! {

broadcast use vstd::std_specs::hash::group_hash_axioms;

/// The phase of a suspense boundary. `Resolved` is terminal.
#[derive(Clone, Copy, Debug, PartialEq, Eq, Hash, Structural)]
pub enum Phase {
    Pending,
    Resolved,
}

/// What is known of one suspense boundary.
#[derive(Clone, Copy, Debug, PartialEq, Eq)]
pub struct BoundaryState {
    pub id: u64,
    pub phase: Phase,
    /// How many live nodes stand for the boundary while it is pending.
    pub placeholder_node_count: usize,
    /// The logical sequence number of the resolution, once resolved.
    pub resolved_at: Option<u64>,
}

/// Why an operation on a boundary was refused.
#[derive(Clone, Copy, Debug, PartialEq, Eq, Structural)]
pub enum BoundaryError {
    /// The boundary is already resolved.
    InvalidTransition,
    /// No boundary is registered under the identifier.
    NotFound,
}

/// The state that a boundary has right after registration.
pub open spec fn fresh_state(id: u64) -> BoundaryState {
    BoundaryState { id, phase: Phase::Pending, placeholder_node_count: 0, resolved_at: None }
}

/// The state that a boundary has after being resolved as the `seq`-th one.
pub open spec fn resolved_state(id: u64, placeholder_node_count: usize, seq: nat) -> BoundaryState {
    BoundaryState {
        id,
        phase: Phase::Resolved,
        placeholder_node_count,
        resolved_at: Some(seq as u64),
    }
}

/// What a side believes of the boundary `id`: its registered state, and the
/// state of a fresh registration where it was never registered.
pub open spec fn expectation(states: Map<u64, BoundaryState>, id: u64) -> BoundaryState {
    if states.contains_key(id) {
        states[id]
    } else {
        fresh_state(id)
    }
}

/// The states after the boundary `id` was registered: a boundary that was
/// known stays as it was, one that was not is filed as pending.
pub open spec fn registered(states: Map<u64, BoundaryState>, id: u64) -> Map<u64, BoundaryState> {
    states.insert(id, expectation(states, id))
}

/// The states after an attempt to resolve the boundary `id` as the
/// `seq`-th one: only a boundary that is known and pending changes.
pub open spec fn resolved(
    states: Map<u64, BoundaryState>,
    id: u64,
    placeholder_node_count: usize,
    seq: nat,
) -> Map<u64, BoundaryState> {
    if states.contains_key(id) && states[id].phase == Phase::Pending {
        states.insert(id, resolved_state(id, placeholder_node_count, seq))
    } else {
        states
    }
}

/// The state that seeding files for the boundary `id`: the one that is
/// known already, or else one made from what the server emitted.
pub open spec fn seeded_state(
    states: Map<u64, BoundaryState>,
    resolutions: nat,
    id: u64,
    phase: Phase,
    placeholder_node_count: usize,
) -> BoundaryState {
    if states.contains_key(id) {
        states[id]
    } else if phase == Phase::Resolved {
        resolved_state(id, placeholder_node_count, resolutions)
    } else {
        BoundaryState { id, phase: Phase::Pending, placeholder_node_count, resolved_at: None }
    }
}

/// The states after the boundary `id` was seeded from what the server
/// emitted for it.
pub open spec fn seeded(
    states: Map<u64, BoundaryState>,
    resolutions: nat,
    id: u64,
    phase: Phase,
    placeholder_node_count: usize,
) -> Map<u64, BoundaryState> {
    states.insert(id, seeded_state(states, resolutions, id, phase, placeholder_node_count))
}

/// How many resolutions there are after a boundary was seeded, where there
/// were `resolutions` before: one more where seeding filed a resolved
/// boundary.
pub open spec fn seeded_resolutions(
    states: Map<u64, BoundaryState>,
    resolutions: nat,
    id: u64,
    phase: Phase,
) -> nat {
    if !states.contains_key(id) && phase == Phase::Resolved {
        resolutions + 1
    } else {
        resolutions
    }
}

/// Resolved is terminal: no registration, resolution or seeding, of
/// whichever boundary, changes the state of a boundary that is resolved.
pub proof fn resolved_is_terminal(
    states: Map<u64, BoundaryState>,
    boundary: u64,
    id: u64,
    phase: Phase,
    placeholder_node_count: usize,
    seq: nat,
)
    requires
        states.contains_key(boundary),
        states[boundary].phase == Phase::Resolved,
    ensures
        registered(states, id)[boundary] == states[boundary],
        resolved(states, id, placeholder_node_count, seq)[boundary] == states[boundary],
        seeded(states, seq, id, phase, placeholder_node_count)[boundary] == states[boundary],
{
}

/// A boundary goes from pending to resolved at most once: after one
/// resolution a second attempt changes nothing.
pub proof fn resolves_at_most_once(
    states: Map<u64, BoundaryState>,
    id: u64,
    first_count: usize,
    second_count: usize,
    seq: nat,
)
    ensures
        resolved(resolved(states, id, first_count, seq), id, second_count, seq + 1) == resolved(
            states,
            id,
            first_count,
            seq,
        ),
{
}

/// The states of the boundaries and the number of resolutions so far.
#[derive(Debug)]
struct Ledger {
    states: HashMap<u64, BoundaryState>,
    clock: u64,
}

/// The boundaries of one page, by identifier. It is owned by the page's
/// session and handed to rendering and to hydration alike.
#[derive(Debug)]
pub struct BoundaryTracker {
    ledger: Ledger,
}

impl View for BoundaryTracker {
    type V = Map<u64, BoundaryState>;

    closed spec fn view(&self) -> Map<u64, BoundaryState> {
        self.ledger.states@
    }
}

/// Every state is filed under its own identifier, the resolved states are
/// exactly those with a sequence number, every sequence number is below
/// `resolutions`, and no two boundaries have the same one.
spec fn in_order(states: Map<u64, BoundaryState>, resolutions: nat) -> bool {
    &&& forall|id: u64| #[trigger]
        states.contains_key(id) ==> {
            &&& states[id].id == id
            &&& (states[id].phase == Phase::Resolved <==> states[id].resolved_at.is_some())
            &&& (states[id].resolved_at matches Some(seq) ==> seq < resolutions)
        }
    &&& forall|first: u64, second: u64|
        #![trigger states.contains_key(first), states.contains_key(second)]
        states.contains_key(first) && states.contains_key(second) && first != second
            && states[first].resolved_at.is_some() ==> states[first].resolved_at
            != states[second].resolved_at
}

/// The identifiers that `states` holds as resolved.
spec fn resolved_ids(states: Map<u64, BoundaryState>) -> Set<u64> {
    states.dom().filter(|id: u64| states[id].phase == Phase::Resolved)
}

impl Ledger {
    /// The ledger is in order: its states are, and it has counted every
    /// resolution.
    spec fn wf(&self) -> bool {
        &&& self.states@.dom().finite()
        &&& self.clock as nat == resolved_ids(self.states@).len()
        &&& in_order(self.states@, self.clock as nat)
    }

    /// A ledger of no boundary.
    fn new() -> (ledger: Ledger)
        ensures
            ledger.wf(),
            ledger.states@ == Map::<u64, BoundaryState>::empty(),
            ledger.clock == 0,
    {
        let ledger = Ledger { states: HashMap::new(), clock: 0 };
        proof {
            assert(resolved_ids(ledger.states@) =~= Set::<u64>::empty());
        }
        ledger
    }

    /// Files `state` for the boundary `id`, which was not known, or was
    /// known as pending and is now resolved.
    fn file(&mut self, id: u64, state: BoundaryState)
        requires
            old(self).wf(),
            state.id == id,
            old(self).states@.contains_key(id) ==> old(self).states@[id].phase == Phase::Pending
                && state.phase == Phase::Resolved,
            match state.phase {
                Phase::Pending => state.resolved_at.is_none(),
                Phase::Resolved => state.resolved_at == Some(old(self).clock),
            },
        ensures
            final(self).wf(),
            final(self).states@ == old(self).states@.insert(id, state),
            final(self).clock == old(self).clock + if state.phase == Phase::Resolved {
                1int
            } else {
                0int
            },
    {
        let ghost before = self.states@;
        self.states.insert(id, state);
        match state.phase {
            Phase::Pending => {
                proof {
                    assert(resolved_ids(self.states@) =~= resolved_ids(before));
                }
            },
            Phase::Resolved => {
                let known = self.states.len();
                proof {
                    let grown = resolved_ids(before).insert(id);
                    assert(resolved_ids(self.states@) =~= grown);
                    assert(grown.subset_of(self.states@.dom()));
                    lemma_len_subset(grown, self.states@.dom());
                }
                self.clock = self.clock + 1;
            },
        }
    }
}

impl BoundaryTracker {
    /// The tracker's ledger is in order, always.
    #[verifier::type_invariant]
    spec fn ledger_in_order(&self) -> bool {
        self.ledger.wf()
    }

    /// How many boundaries have been resolved so far; the next resolution
    /// gets this number.
    pub closed spec fn resolutions(&self) -> nat {
        self.ledger.clock as nat
    }

    /// A tracker that knows no boundary.
    pub fn new() -> (tracker: Self)
        ensures
            tracker@ == Map::<u64, BoundaryState>::empty(),
            tracker.resolutions() == 0,
    {
        BoundaryTracker { ledger: Ledger::new() }
    }

    /// Files `state` for the boundary `id`, which was not known, or was
    /// known as pending and is now resolved.
    fn file(&mut self, id: u64, state: BoundaryState)
        requires
            state.id == id,
            old(self)@.contains_key(id) ==> old(self)@[id].phase == Phase::Pending && state.phase
                == Phase::Resolved,
            match state.phase {
                Phase::Pending => state.resolved_at.is_none(),
                Phase::Resolved => state.resolved_at == Some(old(self).resolutions() as u64),
            },
        ensures
            final(self)@ == old(self)@.insert(id, state),
            final(self).resolutions() == old(self).resolutions() + if state.phase
                == Phase::Resolved {
                1nat
            } else {
                0nat
            },
    {
        proof {
            use_type_invariant(&*self);
        }
        let mut ledger = Ledger::new();
        std::mem::swap(&mut ledger, &mut self.ledger);
        ledger.file(id, state);
        self.ledger = ledger;
    }

    /// Registers the boundary `id`. The first registration creates it as
    /// pending; every later one finds it as it is and changes nothing.
    pub fn register_boundary(&mut self, id: u64) -> (state: BoundaryState)
        ensures
            state == expectation(old(self)@, id),
            final(self)@ == registered(old(self)@, id),
            final(self).resolutions() == old(self).resolutions(),
    {
        match self.ledger.states.get(&id) {
            Some(found) => {
                let state = *found;
                proof {
                    assert(self@ =~= self@.insert(id, state));
                }
                state
            },
            None => {
                let state = BoundaryState {
                    id,
                    phase: Phase::Pending,
                    placeholder_node_count: 0,
                    resolved_at: None,
                };
                self.file(id, state);
                state
            },
        }
    }

    /// Marks the boundary `id` as resolved and records how many placeholder
    /// nodes stood for it while it was pending. A boundary resolves once:
    /// a second resolution is an invalid transition, and so the state of a
    /// resolved boundary never changes.
    pub fn mark_resolved(&mut self, id: u64, placeholder_node_count: usize) -> (result: Result<
        (),
        BoundaryError,
    >)
        ensures
            final(self)@ == resolved(
                old(self)@,
                id,
                placeholder_node_count,
                old(self).resolutions(),
            ),
            match result {
                Ok(()) => {
                    &&& old(self)@.contains_key(id)
                    &&& old(self)@[id].phase == Phase::Pending
                    &&& final(self).resolutions() == old(self).resolutions() + 1
                },
                Err(BoundaryError::InvalidTransition) => {
                    &&& old(self)@.contains_key(id)
                    &&& old(self)@[id].phase == Phase::Resolved
                    &&& final(self).resolutions() == old(self).resolutions()
                },
                Err(BoundaryError::NotFound) => {
                    &&& !old(self)@.contains_key(id)
                    &&& final(self).resolutions() == old(self).resolutions()
                },
            },
    {
        let phase = match self.ledger.states.get(&id) {
            Some(found) => found.phase,
            None => {
                return Err(BoundaryError::NotFound);
            },
        };
        match phase {
            Phase::Resolved => Err(BoundaryError::InvalidTransition),
            Phase::Pending => {
                let state = BoundaryState {
                    id,
                    phase: Phase::Resolved,
                    placeholder_node_count,
                    resolved_at: Some(self.ledger.clock),
                };
                self.file(id, state);
                Ok(())
            },
        }
    }

    /// Seeds the boundary `id` from what the server emitted for it: its
    /// phase and the number of placeholder nodes. As with registration, the
    /// first caller wins: a boundary that is known already stays as it is.
    pub fn seed(&mut self, id: u64, phase: Phase, placeholder_node_count: usize) -> (state:
        BoundaryState)
        ensures
            state == seeded_state(
                old(self)@,
                old(self).resolutions(),
                id,
                phase,
                placeholder_node_count,
            ),
            final(self)@ == seeded(
                old(self)@,
                old(self).resolutions(),
                id,
                phase,
                placeholder_node_count,
            ),
            final(self).resolutions() == seeded_resolutions(
                old(self)@,
                old(self).resolutions(),
                id,
                phase,
            ),
    {
        match self.ledger.states.get(&id) {
            Some(found) => {
                let state = *found;
                proof {
                    assert(self@ =~= self@.insert(id, state));
                }
                state
            },
            None => {
                let state = match phase {
                    Phase::Pending => BoundaryState {
                        id,
                        phase: Phase::Pending,
                        placeholder_node_count,
                        resolved_at: None,
                    },
                    Phase::Resolved => BoundaryState {
                        id,
                        phase: Phase::Resolved,
                        placeholder_node_count,
                        resolved_at: Some(self.ledger.clock),
                    },
                };
                self.file(id, state);
                state
            },
        }
    }

    /// Looks the boundary `id` up. A state is filed under its own
    /// identifier, and it has a sequence number exactly if it is resolved.
    pub fn lookup(&self, id: u64) -> (result: Result<BoundaryState, BoundaryError>)
        ensures
            match result {
                Ok(state) => {
                    &&& self@.contains_key(id)
                    &&& state == self@[id]
                    &&& state.id == id
                    &&& (state.phase == Phase::Resolved <==> state.resolved_at.is_some())
                    &&& (state.resolved_at matches Some(seq) ==> seq < self.resolutions())
                },
                Err(error) => !self@.contains_key(id) && error == BoundaryError::NotFound,
            },
    {
        proof {
            use_type_invariant(self);
        }
        match self.ledger.states.get(&id) {
            Some(found) => Ok(*found),
            None => Err(BoundaryError::NotFound),
        }
    }

    /// What this side believes of the boundary `id`: its state where it is
    /// registered, and that of a fresh registration where it is not.
    pub fn expected(&self, id: u64) -> (state: BoundaryState)
        ensures
            state == expectation(self@, id),
            state.id == id,
            state.phase == Phase::Resolved <==> state.resolved_at.is_some(),
    {
        proof {
            use_type_invariant(self);
        }
        match self.ledger.states.get(&id) {
            Some(found) => *found,
            None => BoundaryState {
                id,
                phase: Phase::Pending,
                placeholder_node_count: 0,
                resolved_at: None,
            },
        }
    }
}

} // verus!
