//! What holds of the protocol as a whole, stated over the allocator's state.
//! A run is any sequence of protocol steps, in whatever order the clients of
//! one allocator come to take them.

use crate::allocator::{AllocationRoute, AllocatorState, DeallocationRoute};
use crate::path::{backing_file_name_spec, law_names_tell_indices_apart};
use crate::registry::{no_entries, AllocationRecord};
use vstd::prelude::*;

verus! {

/// One step of the protocol.
pub enum Step {
    /// A request for `size` bytes arrives.
    Allocate { size: usize },
    /// The pending allocation's mapping at `address` is reported.
    FinishAllocate { address: usize },
    /// The memory at `address` is given back.
    Deallocate { address: usize },
    /// A teardown is reported as done.
    FinishDeallocate,
}

impl Step {
    /// Whether the step is a request for memory.
    pub open spec fn is_request(self) -> bool {
        self is Allocate
    }
}

/// One request for memory that is served and given back before the next:
/// where the mapping came to lie, and how many bytes were asked for.
pub struct Round {
    pub address: usize,
    pub size: usize,
}

impl AllocatorState {
    /// The state after `step`.
    pub open spec fn after_step(self, step: Step) -> AllocatorState {
        match step {
            Step::Allocate { size } => self.after_begin_allocate(size),
            Step::FinishAllocate { address } => self.after_finish_allocate(address),
            Step::Deallocate { address } => self.after_begin_deallocate(address),
            Step::FinishDeallocate => self.after_finish_deallocate(),
        }
    }

    /// The state after the steps of a run, one after the other.
    pub open spec fn after_steps(self, steps: Seq<Step>) -> AllocatorState
        decreases steps.len(),
    {
        if steps.len() == 0 {
            self
        } else {
            self.after_steps(steps.drop_last()).after_step(steps.last())
        }
    }

    /// The state after one allocation that was mapped at `round.address`,
    /// followed at once by its deallocation.
    pub open spec fn after_round(self, round: Round) -> AllocatorState {
        self.after_begin_allocate(round.size).after_finish_allocate(
            round.address,
        ).after_begin_deallocate(round.address).after_finish_deallocate()
    }

    /// The state after a run of such rounds.
    pub open spec fn after_rounds(self, rounds: Seq<Round>) -> AllocatorState
        decreases rounds.len(),
    {
        if rounds.len() == 0 {
            self
        } else {
            self.after_rounds(rounds.drop_last()).after_round(rounds.last())
        }
    }

    /// Whether the backing file with sequence number `index` was named
    /// before and is in use no more.
    pub open spec fn has_retired(self, index: u64) -> bool {
        index < self.next_index && !self.uses_file(index)
    }
}

/// Every step leaves a well-formed state well formed, and never moves the
/// counter of backing files back.
pub proof fn law_step_keeps_wf(state: AllocatorState, step: Step)
    requires
        state.wf(),
    ensures
        state.after_step(step).wf(),
        state.after_step(step).next_index >= state.next_index,
{
}

/// The state after the first `count` steps of a run comes from the state
/// after one step less by the step in between.
proof fn lemma_unfold_run(state: AllocatorState, steps: Seq<Step>, count: int)
    requires
        0 < count <= steps.len(),
    ensures
        state.after_steps(steps.take(count)) == state.after_steps(steps.take(count - 1)).after_step(
            steps[count - 1],
        ),
{
    assert(steps.take(count).drop_last() =~= steps.take(count - 1));
}

/// Every run from a well-formed state passes through well-formed states
/// only, and the counter of backing files only grows along it.
pub proof fn law_run_keeps_wf(state: AllocatorState, steps: Seq<Step>, earlier: int, later: int)
    requires
        state.wf(),
        0 <= earlier <= later <= steps.len(),
    ensures
        state.after_steps(steps.take(earlier)).wf(),
        state.after_steps(steps.take(later)).wf(),
        state.after_steps(steps.take(earlier)).next_index <= state.after_steps(
            steps.take(later),
        ).next_index,
    decreases later,
{
    if later == 0 {
        assert(steps.take(0).len() == 0);
    } else if earlier == later {
        law_run_keeps_wf(state, steps, earlier - 1, later - 1);
        lemma_unfold_run(state, steps, later);
        law_step_keeps_wf(state.after_steps(steps.take(later - 1)), steps[later - 1]);
    } else {
        law_run_keeps_wf(state, steps, earlier, later - 1);
        lemma_unfold_run(state, steps, later);
        law_step_keeps_wf(state.after_steps(steps.take(later - 1)), steps[later - 1]);
    }
}

/// A backing file that has retired stays retired: no step brings its
/// sequence number back into use.
pub proof fn law_retired_file_stays_retired(state: AllocatorState, step: Step, index: u64)
    requires
        state.wf(),
        state.has_retired(index),
    ensures
        state.after_step(step).has_retired(index),
{
    let next = state.after_step(step);
    assert forall|address: usize| #[trigger] next.registry.contains_key(address) implies next.registry[address].index != index by {
        match step {
            Step::FinishAllocate { address: mapped } => {
                if address != mapped {
                    assert(state.registry.contains_key(address));
                }
            },
            _ => {
                assert(state.registry.contains_key(address));
            },
        }
    }
}

proof fn lemma_retired_along_run(
    state: AllocatorState,
    steps: Seq<Step>,
    earlier: int,
    later: int,
    index: u64,
)
    requires
        state.wf(),
        0 <= earlier <= later <= steps.len(),
        state.after_steps(steps.take(earlier)).has_retired(index),
    ensures
        state.after_steps(steps.take(later)).has_retired(index),
    decreases later - earlier,
{
    if earlier < later {
        lemma_retired_along_run(state, steps, earlier, later - 1, index);
        law_run_keeps_wf(state, steps, later - 1, later);
        lemma_unfold_run(state, steps, later);
        law_retired_file_stays_retired(
            state.after_steps(steps.take(later - 1)),
            steps[later - 1],
            index,
        );
    }
}

/// With nothing under way and a sequence number left, an allocation of a
/// positive size followed at once by the deallocation of the address it got
/// takes the file-backed route both times, tears down the very record that
/// was made, and leaves the guard clear again. With no sequence number left
/// the request goes to the fallback, and so does giving back the address,
/// which the fallback handed out and which no live allocation has.
pub proof fn law_allocate_then_deallocate(state: AllocatorState, address: usize, size: usize)
    requires
        state.wf(),
        !state.busy(),
        size > 0,
    ensures
        ({
            let record = AllocationRecord { index: state.next_index, size };
            let begun = state.after_begin_allocate(size);
            let mapped = begun.after_finish_allocate(address);
            if state.exhausted() {
                &&& state.route_of_allocation(size) == AllocationRoute::Fallback
                &&& begun == state
                &&& !state.registry.contains_key(address) ==> state.route_of_deallocation(address)
                    == DeallocationRoute::Fallback
            } else {
                &&& state.route_of_allocation(size) == AllocationRoute::FileBacked {
                    index: state.next_index,
                    length: size as u64,
                }
                &&& begun.allocating
                &&& begun.pending == Some(record)
                &&& !mapped.busy()
                &&& mapped.route_of_deallocation(address) == DeallocationRoute::FileBacked {
                    record,
                }
                &&& mapped.after_begin_deallocate(address).deallocating
                &&& !state.after_round(Round { address, size }).busy()
            }
        }),
{
}

/// An allocation that is served from a file registers the address it got
/// with the record of the file that was named for it, and changes no other
/// entry; that file backs no other allocation. Where the address was not
/// registered before, there is exactly one entry more. After the matching
/// deallocation the address is registered no more, and the registry holds
/// what it held without that address.
pub proof fn law_registered_while_live(state: AllocatorState, address: usize, size: usize)
    requires
        state.wf(),
        state.serves_from_file(),
    ensures
        ({
            let record = AllocationRecord { index: state.next_index, size };
            let begun = state.after_begin_allocate(size);
            let mapped = begun.after_finish_allocate(address);
            let released = state.after_round(Round { address, size });
            &&& !state.uses_file(record.index)
            &&& begun.registry == state.registry
            &&& mapped.registry == state.registry.insert(address, record)
            &&& forall|other: usize|
                other != address && #[trigger] mapped.registry.contains_key(other)
                    ==> mapped.registry[other].index != record.index
            &&& !state.registry.contains_key(address) ==> mapped.registry.len()
                == state.registry.len() + 1
            &&& released.registry == state.registry.remove(address)
            &&& !released.registry.contains_key(address)
            &&& !state.registry.contains_key(address) ==> released.registry == state.registry
        }),
{
    let record = AllocationRecord { index: state.next_index, size };
    let mapped = state.after_begin_allocate(size).after_finish_allocate(address);
    assert(mapped.registry.remove(address) =~= state.registry.remove(address));
    if !state.registry.contains_key(address) {
        assert(state.registry.remove(address) =~= state.registry);
    }
    assert forall|other: usize|
        other != address && #[trigger] mapped.registry.contains_key(other)
            implies mapped.registry[other].index != record.index by {
        assert(state.registry.contains_key(other));
    }
}

/// Giving back an address that is not registered goes to the fallback and
/// changes nothing: not the registry, not the guard, not the file names.
pub proof fn law_unknown_address_falls_back(state: AllocatorState, address: usize)
    requires
        !state.registry.contains_key(address),
    ensures
        state.route_of_deallocation(address) == DeallocationRoute::Fallback,
        state.after_begin_deallocate(address) == state,
{
}

/// While an allocation or a deallocation is under way, a request for memory
/// goes to the fallback and changes nothing: no backing file is named and
/// no address is registered.
pub proof fn law_busy_guard_falls_back(state: AllocatorState, size: usize)
    requires
        state.busy(),
    ensures
        state.route_of_allocation(size) == AllocationRoute::Fallback,
        state.after_begin_allocate(size) == state,
{
}

/// Two allocations that are live at once are backed by two files.
pub proof fn law_live_allocations_have_their_own_files(
    state: AllocatorState,
    one: usize,
    other: usize,
)
    requires
        state.wf(),
        state.registry.contains_key(one),
        state.registry.contains_key(other),
        one != other,
    ensures
        state.registry[one].index != state.registry[other].index,
        backing_file_name_spec(state.registry[one].index) != backing_file_name_spec(
            state.registry[other].index,
        ),
{
    law_names_tell_indices_apart(state.registry[one].index, state.registry[other].index);
}

/// The file that a deallocation hands out for teardown backed the address
/// that was given back and backs no allocation that is still live.
pub proof fn law_teardown_takes_no_live_file(state: AllocatorState, address: usize, other: usize)
    requires
        state.wf(),
        state.registry.contains_key(address),
        state.after_begin_deallocate(address).registry.contains_key(other),
    ensures
        state.route_of_deallocation(address) == (DeallocationRoute::FileBacked {
            record: state.registry[address],
        }),
        state.after_begin_deallocate(address).registry[other].index
            != state.registry[address].index,
        state.after_begin_deallocate(address).has_retired(state.registry[address].index),
{
    let next = state.after_begin_deallocate(address);
    let index = state.registry[address].index;
    assert forall|any: usize| #[trigger] next.registry.contains_key(any) implies next.registry[any].index != index by {
        assert(state.registry.contains_key(any) && any != address);
    }
}

/// In any run from a well-formed state, whatever happens in between, two
/// requests that are served from files get two files: the later one's
/// sequence number is the greater, and the names differ.
pub proof fn law_run_names_each_file_once(
    state: AllocatorState,
    steps: Seq<Step>,
    earlier: int,
    later: int,
)
    requires
        state.wf(),
        0 <= earlier < later < steps.len(),
        state.after_steps(steps.take(earlier)).serves_from_file(),
        state.after_steps(steps.take(later)).serves_from_file(),
        steps[earlier].is_request(),
        steps[later].is_request(),
    ensures
        state.after_steps(steps.take(earlier)).next_index < state.after_steps(
            steps.take(later),
        ).next_index,
        backing_file_name_spec(state.after_steps(steps.take(earlier)).next_index)
            != backing_file_name_spec(state.after_steps(steps.take(later)).next_index),
{
    let first = state.after_steps(steps.take(earlier));
    let second = state.after_steps(steps.take(later));
    lemma_unfold_run(state, steps, earlier + 1);
    law_run_keeps_wf(state, steps, earlier + 1, later);
    law_names_tell_indices_apart(first.next_index, second.next_index);
}

/// In any run from a well-formed state, no backing file is torn down twice:
/// two deallocations that take the file-backed route hand out two files.
pub proof fn law_run_tears_each_file_down_once(
    state: AllocatorState,
    steps: Seq<Step>,
    earlier: int,
    later: int,
    address: usize,
    later_address: usize,
)
    requires
        state.wf(),
        0 <= earlier < later < steps.len(),
        steps[earlier] == (Step::Deallocate { address }),
        state.after_steps(steps.take(earlier)).registry.contains_key(address),
        state.after_steps(steps.take(later)).registry.contains_key(later_address),
    ensures
        state.after_steps(steps.take(earlier)).registry[address].index != state.after_steps(
            steps.take(later),
        ).registry[later_address].index,
        backing_file_name_spec(state.after_steps(steps.take(earlier)).registry[address].index)
            != backing_file_name_spec(
            state.after_steps(steps.take(later)).registry[later_address].index,
        ),
{
    let first = state.after_steps(steps.take(earlier));
    let second = state.after_steps(steps.take(later));
    let index = first.registry[address].index;
    law_run_keeps_wf(state, steps, earlier, later);
    lemma_unfold_run(state, steps, earlier + 1);
    let next = first.after_begin_deallocate(address);
    assert forall|any: usize| #[trigger] next.registry.contains_key(any) implies next.registry[any].index != index by {
        assert(first.registry.contains_key(any) && any != address);
    }
    assert(next.has_retired(index));
    lemma_retired_along_run(state, steps, earlier + 1, later, index);
    assert(second.registry.contains_key(later_address));
    law_names_tell_indices_apart(index, second.registry[later_address].index);
}

/// Whether step `at` of a run reports a mapping at `address`.
pub open spec fn maps_at(steps: Seq<Step>, at: int, address: usize) -> bool {
    0 <= at < steps.len() && steps[at] == (Step::FinishAllocate { address })
}

/// Whether a step of a run after step `at` gives `address` back.
pub open spec fn gives_back_after(steps: Seq<Step>, at: int, address: usize) -> bool {
    exists|later: int|
        at < later < steps.len() && #[trigger] steps[later] == (Step::Deallocate { address })
}

/// Whether a run reports a mapping at `address` and does not give the
/// address back afterwards.
pub open spec fn left_mapped(steps: Seq<Step>, address: usize) -> bool {
    exists|at: int| #[trigger] maps_at(steps, at, address) && !gives_back_after(steps, at, address)
}

/// An address is registered only while its allocation is live: if a run
/// ends with an address registered that was not registered at the start,
/// then the run has reported a mapping there and has not given the address
/// back since.
pub proof fn law_registered_only_while_live(
    state: AllocatorState,
    steps: Seq<Step>,
    address: usize,
)
    requires
        !state.registry.contains_key(address),
        state.after_steps(steps).registry.contains_key(address),
    ensures
        left_mapped(steps, address),
    decreases steps.len(),
{
    if steps.len() > 0 {
        let before = steps.drop_last();
        let last = steps.last();
        let at_end = steps.len() - 1;
        if last == (Step::FinishAllocate { address }) {
            assert(maps_at(steps, at_end, address));
            assert(!gives_back_after(steps, at_end, address));
        } else {
            assert(last != (Step::Deallocate { address }));
            assert(state.after_steps(before).registry.contains_key(address));
            law_registered_only_while_live(state, before, address);
            let at = choose|at: int| #[trigger]
                maps_at(before, at, address) && !gives_back_after(before, at, address);
            assert(maps_at(steps, at, address));
            if gives_back_after(steps, at, address) {
                let later = choose|later: int|
                    at < later < steps.len() && #[trigger] steps[later] == (Step::Deallocate {
                        address,
                    });
                assert(later < before.len());
                assert(before[later] == steps[later]);
                assert(gives_back_after(before, at, address));
            }
        }
    }
}

/// A run that starts with no live allocation and gives back every address
/// at which it has reported a mapping ends with no live allocation, however
/// its allocations overlap.
pub proof fn law_run_given_back_leaves_nothing(state: AllocatorState, steps: Seq<Step>)
    requires
        state.registry == no_entries(),
        forall|address: usize| !left_mapped(steps, address),
    ensures
        state.after_steps(steps).registry == no_entries(),
        state.after_steps(steps).registry.len() == 0,
{
    let end = state.after_steps(steps);
    assert forall|address: usize| !end.registry.contains_key(address) by {
        if end.registry.contains_key(address) {
            law_registered_only_while_live(state, steps, address);
        }
    }
    assert(end.registry =~= no_entries());
}

/// A run of rounds that starts with nothing under way, at addresses that
/// were not registered, ends with nothing under way and the registry as it
/// was. While sequence numbers are left, it has named one backing file per
/// round.
pub proof fn law_rounds_leave_registry(state: AllocatorState, rounds: Seq<Round>)
    requires
        state.wf(),
        !state.busy(),
        forall|i: int| 0 <= i < rounds.len() ==> !state.registry.contains_key(rounds[i].address),
    ensures
        state.after_rounds(rounds).wf(),
        !state.after_rounds(rounds).busy(),
        state.after_rounds(rounds).registry == state.registry,
        state.next_index + rounds.len() <= u64::MAX ==> state.after_rounds(rounds).next_index
            == state.next_index + rounds.len(),
    decreases rounds.len(),
{
    if rounds.len() > 0 {
        let before = state.after_rounds(rounds.drop_last());
        let round = rounds.last();
        law_rounds_leave_registry(state, rounds.drop_last());
        if before.serves_from_file() {
            law_registered_while_live(before, round.address, round.size);
        } else {
            assert(before.after_begin_allocate(round.size) == before);
            assert(before.after_finish_allocate(round.address) == before);
            assert(before.after_begin_deallocate(round.address) == before);
            assert(before.after_finish_deallocate() == before);
        }
        let begun = before.after_begin_allocate(round.size);
        let mapped = begun.after_finish_allocate(round.address);
        let removed = mapped.after_begin_deallocate(round.address);
        law_step_keeps_wf(before, Step::Allocate { size: round.size });
        law_step_keeps_wf(begun, Step::FinishAllocate { address: round.address });
        law_step_keeps_wf(mapped, Step::Deallocate { address: round.address });
        law_step_keeps_wf(removed, Step::FinishDeallocate);
    }
}

} // verus!
