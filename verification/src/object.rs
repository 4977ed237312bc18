//! A reference model of a live object in the host: it holds at most one
//! value of the enum and carries markers, and the host fires the generated
//! hooks as the value comes, changes and goes.
//!
//! Markers follow the enum, never the other way round. A marker that other
//! code attaches directly is checked by its own hook and taken off again
//! unless it matches the value; a marker that other code detaches directly is
//! simply gone, and the value stays.
//!
//! The laws at the end of this file say what the generated hooks achieve on
//! such an object.

use crate::hooks::{
    Command, CommandView, ObjectState, Step, StepView, apply_command, apply_commands,
    clear_steps, enter_plan, exit_plan, hook_commands, remove_arms, step_commands,
};
use crate::synthesis::{Expansion, ExpansionView};
use vstd::prelude::*;

verus! {

/// The object after the host has given it a value of the variant at
/// position `variant`: the value is stored, the enter hook runs on the object
/// as it then is, and the queue is carried out.
pub open spec fn after_insert(expansion: ExpansionView, state: ObjectState, variant: int)
    -> ObjectState {
    let entered = state.with_value(Some(variant));
    apply_commands(expansion.guards(), entered, hook_commands(expansion.enter_hook, entered))
}

/// The object after the host has taken its enum value away: the exit hook
/// runs while the object still holds the value, the value leaves, and the
/// queue is carried out.
pub open spec fn after_remove(expansion: ExpansionView, state: ObjectState) -> ObjectState {
    apply_commands(
        expansion.guards(),
        state.with_value(None),
        hook_commands(expansion.exit_hook, state),
    )
}

/// The object after some other code has attached the marker at position
/// `marker` to it directly.
pub open spec fn after_insert_marker(expansion: ExpansionView, state: ObjectState, marker: int)
    -> ObjectState {
    apply_command(expansion.guards(), state, CommandView::Insert(marker))
}

/// The object after some other code has detached the marker at position
/// `marker` from it directly. No hook fires: the enum value stays.
pub open spec fn after_remove_marker(state: ObjectState, marker: int) -> ObjectState {
    state.with_markers(state.markers.remove(marker))
}

/// The state of an object of a namespace with `slots` marker types that
/// holds the value `value` and carries exactly the markers `markers`.
pub open spec fn object_state(slots: nat, value: Option<int>, markers: Set<int>) -> ObjectState {
    ObjectState { slots, value, markers }
}

/// A live object of the host, as far as one enum and its markers go.
#[derive(Debug, Clone, PartialEq, Eq)]
pub struct LiveObject {
    value: Option<usize>,
    markers: Vec<bool>,
}

impl View for LiveObject {
    type V = ObjectState;

    closed spec fn view(&self) -> ObjectState {
        ObjectState {
            slots: self.markers.len() as nat,
            value: match self.value {
                Some(variant) => Some(variant as int),
                None => None,
            },
            markers: Set::new(|m: int| 0 <= m < self.markers.len() && self.markers[m]),
        }
    }
}

impl LiveObject {
    /// An object that holds no value and carries no marker, for an enum whose
    /// namespace has `slots` marker types.
    pub fn new(slots: usize) -> (object: LiveObject)
        ensures
            object@ == object_state(slots as nat, None, Set::empty()),
    {
        let mut markers: Vec<bool> = Vec::new();
        let mut i: usize = 0;
        while i < slots
            invariant
                i <= slots,
                markers.len() == i,
                forall|k: int| 0 <= k < i ==> !markers[k],
            decreases slots - i,
        {
            markers.push(false);
            i += 1;
        }
        let object = LiveObject { value: None, markers };
        assert(object@.markers =~= Set::empty());
        object
    }

    /// Every marker that the object carries is one of its namespace.
    pub proof fn lemma_well_formed(&self)
        ensures
            self@.well_formed(),
    {
    }

    /// The number of marker types in the namespace.
    pub fn slots(&self) -> (slots: usize)
        ensures
            slots == self@.slots,
    {
        self.markers.len()
    }

    /// The position of the variant of the value that the object holds, if it
    /// holds one.
    pub fn value(&self) -> (value: Option<usize>)
        ensures
            match value {
                Some(variant) => self@.value == Some(variant as int),
                None => self@.value is None,
            },
    {
        self.value
    }

    /// Whether the object carries the marker at position `marker`.
    pub fn has_marker(&self, marker: usize) -> (present: bool)
        ensures
            present == self@.markers.contains(marker as int),
    {
        marker < self.markers.len() && self.markers[marker]
    }

    /// Runs a hook on the object and returns the commands that it queues.
    pub fn run_hook(&self, steps: &Vec<Step>) -> (queue: Vec<Command>)
        ensures
            queue.deep_view() == hook_commands(steps.deep_view(), self@),
    {
        let mut queue: Vec<Command> = Vec::new();
        let mut i: usize = 0;
        while i < steps.len()
            invariant
                i <= steps.len(),
                queue.deep_view() == hook_commands(steps.deep_view().take(i as int), self@),
            decreases steps.len() - i,
        {
            proof {
                let next = steps.deep_view().take(i + 1);
                assert(next.drop_last() =~= steps.deep_view().take(i as int));
                assert(next.last() == steps[i as int]@);
            }
            let ghost before = queue.deep_view();
            match &steps[i] {
                Step::ClearIfPresent(marker) => {
                    if self.has_marker(*marker) {
                        queue.push(Command::Remove(*marker));
                        assert(queue.deep_view() =~= before + seq![
                            CommandView::Remove(*marker as int),
                        ]);
                    } else {
                        assert(queue.deep_view() =~= before + Seq::<CommandView>::empty());
                    }
                },
                Step::MatchValue(arms) => {
                    match self.value {
                        Some(variant) if variant < arms.len() => {
                            queue.push(arms[variant]);
                            assert(queue.deep_view() =~= before + seq![
                                arms.deep_view()[variant as int],
                            ]);
                        },
                        _ => {
                            assert(queue.deep_view() =~= before + Seq::<CommandView>::empty());
                        },
                    }
                },
            }
            i += 1;
        }
        assert(steps.deep_view().take(i as int) =~= steps.deep_view());
        queue
    }

    /// Carries out one queued command.
    pub fn apply(&mut self, expansion: &Expansion, command: Command)
        ensures
            final(self)@ == apply_command(expansion@.guards(), old(self)@, command@),
    {
        match command {
            Command::Remove(marker) => {
                if marker < self.markers.len() {
                    self.markers.set(marker, false);
                }
                assert(self@.markers =~= old(self)@.markers.remove(marker as int));
            },
            Command::Insert(marker) => {
                if marker < expansion.markers.len() && marker < self.markers.len() {
                    let guard = expansion.markers[marker].guard;
                    let matches = match self.value {
                        Some(variant) => variant == guard,
                        None => false,
                    };
                    self.markers.set(marker, matches);
                    if matches {
                        assert(self@.markers =~= old(self)@.markers.insert(marker as int));
                    } else {
                        assert(self@.markers =~= old(self)@.markers.remove(marker as int));
                    }
                }
            },
        }
    }

    /// Carries out a queue of commands, first to last.
    pub fn apply_all(&mut self, expansion: &Expansion, commands: &Vec<Command>)
        ensures
            final(self)@ == apply_commands(
                expansion@.guards(),
                old(self)@,
                commands.deep_view(),
            ),
    {
        let mut i: usize = 0;
        while i < commands.len()
            invariant
                i <= commands.len(),
                self@ == apply_commands(
                    expansion@.guards(),
                    old(self)@,
                    commands.deep_view().take(i as int),
                ),
            decreases commands.len() - i,
        {
            proof {
                let next = commands.deep_view().take(i + 1);
                assert(next.drop_last() =~= commands.deep_view().take(i as int));
                assert(next.last() == commands[i as int]@);
            }
            self.apply(expansion, commands[i]);
            i += 1;
        }
        assert(commands.deep_view().take(i as int) =~= commands.deep_view());
    }

    /// Gives the object a value of the variant at position `variant`, in
    /// place of the value it may hold, as the host does: the enter hook fires
    /// and its queue is carried out.
    ///
    /// With the hooks that are generated for an enum of as many variants as
    /// the object has slots, the object afterwards carries the marker of
    /// `variant` and no other.
    pub fn insert(&mut self, expansion: &Expansion, variant: usize)
        ensures
            final(self)@ == after_insert(expansion@, old(self)@, variant as int),
            expansion@.well_formed() && expansion@.markers.len() == old(self)@.slots && variant
                < old(self)@.slots ==> final(self)@ == object_state(
                old(self)@.slots,
                Some(variant as int),
                set![variant as int],
            ),
    {
        self.value = Some(variant);
        let queue = self.run_hook(&expansion.enter_hook);
        self.apply_all(expansion, &queue);
        proof {
            old(self).lemma_well_formed();
            if expansion@.well_formed() && expansion@.markers.len() == old(self)@.slots && variant
                < old(self)@.slots {
                lemma_insert_sets_exactly_one_marker(expansion@, old(self)@, variant as int);
            }
        }
    }

    /// Takes the enum value from the object, as the host does: the exit hook
    /// fires while the value is still there, and its queue is carried out
    /// once the value has gone.
    ///
    /// With the hooks that are generated for an enum of as many variants as
    /// the object has slots, an object that carried no stray marker before
    /// carries none at all afterwards.
    pub fn remove(&mut self, expansion: &Expansion)
        ensures
            final(self)@ == after_remove(expansion@, old(self)@),
            expansion@.well_formed() && expansion@.markers.len() == old(self)@.slots && old(
                self,
            )@.no_stray_marker() ==> final(self)@ == object_state(
                old(self)@.slots,
                None,
                Set::empty(),
            ),
    {
        let queue = self.run_hook(&expansion.exit_hook);
        self.value = None;
        self.apply_all(expansion, &queue);
        proof {
            old(self).lemma_well_formed();
            if expansion@.well_formed() && expansion@.markers.len() == old(self)@.slots && old(
                self,
            )@.no_stray_marker() {
                lemma_remove_clears_markers(expansion@, old(self)@);
            }
        }
    }

    /// Attaches the marker at position `marker` directly, as code outside the
    /// enum's hooks may do. The marker's own enter hook fires, and the marker
    /// stays only where the object holds a value of the variant it guards.
    pub fn insert_marker(&mut self, expansion: &Expansion, marker: usize)
        ensures
            final(self)@ == after_insert_marker(expansion@, old(self)@, marker as int),
    {
        self.apply(expansion, Command::Insert(marker));
    }

    /// Detaches the marker at position `marker` directly, as code outside the
    /// enum's hooks may do. No hook fires, and the enum value stays.
    pub fn remove_marker(&mut self, marker: usize)
        ensures
            final(self)@ == after_remove_marker(old(self)@, marker as int),
    {
        if marker < self.markers.len() {
            self.markers.set(marker, false);
        }
        assert(self@.markers =~= old(self)@.markers.remove(marker as int));
    }
}

/// Carrying out a queue and then one more command is carrying out the
/// queue with that command at its end.
proof fn lemma_apply_push(
    guards: Seq<int>,
    state: ObjectState,
    commands: Seq<CommandView>,
    last: CommandView,
)
    ensures
        apply_commands(guards, state, commands.push(last)) == apply_command(
            guards,
            apply_commands(guards, state, commands),
            last,
        ),
{
    assert(commands.push(last).drop_last() =~= commands);
}

/// The markers that are left of `markers` once every marker below `count`
/// that the hook saw in `seen` has been taken off.
spec fn cleared(markers: Set<int>, seen: Set<int>, count: nat) -> Set<int> {
    Set::new(|m: int| markers.contains(m) && !(0 <= m < count && seen.contains(m)))
}

/// The clearing steps of a hook that saw the object in `seen` take off
/// exactly the markers below `count` that were there to see.
proof fn lemma_clear_steps(guards: Seq<int>, seen: ObjectState, state: ObjectState, count: nat)
    ensures
        apply_commands(guards, state, hook_commands(clear_steps(count), seen))
            == state.with_markers(cleared(state.markers, seen.markers, count)),
    decreases count,
{
    let after = apply_commands(guards, state, hook_commands(clear_steps(count), seen));
    if count == 0 {
        assert(cleared(state.markers, seen.markers, count) =~= state.markers);
    } else {
        let fewer = (count - 1) as nat;
        let queue = hook_commands(clear_steps(fewer), seen);
        assert(clear_steps(count).drop_last() =~= clear_steps(fewer));
        assert(clear_steps(count).last() == StepView::ClearIfPresent(fewer as int));
        lemma_clear_steps(guards, seen, state, fewer);
        if seen.markers.contains(fewer as int) {
            assert(hook_commands(clear_steps(count), seen) =~= queue.push(
                CommandView::Remove(fewer as int),
            ));
            lemma_apply_push(guards, state, queue, CommandView::Remove(fewer as int));
            assert(after.markers =~= cleared(state.markers, seen.markers, count));
        } else {
            assert(hook_commands(clear_steps(count), seen) =~= queue);
            assert(cleared(state.markers, seen.markers, count) =~= cleared(
                state.markers,
                seen.markers,
                fewer,
            ));
        }
    }
}

/// Round trip and overwrite: an object that is given a value of variant
/// `variant` carries, right afterwards, the marker of `variant` and no other
/// marker of the enum, whatever value it held and whatever markers it carried
/// before.
pub proof fn lemma_insert_sets_exactly_one_marker(
    expansion: ExpansionView,
    state: ObjectState,
    variant: int,
)
    requires
        expansion.well_formed(),
        state.well_formed(),
        expansion.markers.len() == state.slots,
        0 <= variant < state.slots,
    ensures
        after_insert(expansion, state, variant) == object_state(
            state.slots,
            Some(variant),
            set![variant],
        ),
        after_insert(expansion, state, variant).well_formed(),
        after_insert(expansion, state, variant).in_step(),
{
    let count = state.slots;
    let guards = expansion.guards();
    let entered = state.with_value(Some(variant));
    let clearing = hook_commands(clear_steps(count), entered);
    let attach = CommandView::Insert(variant);
    assert(enter_plan(count).drop_last() =~= clear_steps(count));
    assert(hook_commands(enter_plan(count), entered) =~= clearing.push(attach));
    lemma_apply_push(guards, entered, clearing, attach);
    lemma_clear_steps(guards, entered, entered, count);
    assert(cleared(entered.markers, entered.markers, count) =~= Set::empty());
    assert(Set::<int>::empty().insert(variant) =~= set![variant]);
}

/// Overwrite: an object that carries the marker of variant `first` and is
/// then given a value of variant `second` carries the marker of `second`
/// afterwards and, where the two differ, no longer that of `first`.
pub proof fn lemma_overwrite_replaces_marker(
    expansion: ExpansionView,
    state: ObjectState,
    first: int,
    second: int,
)
    requires
        expansion.well_formed(),
        state.well_formed(),
        expansion.markers.len() == state.slots,
        state.markers.contains(first),
        0 <= second < state.slots,
    ensures
        after_insert(expansion, state, second).markers == set![second],
        after_insert(expansion, state, second).markers.contains(second),
        first != second ==> !after_insert(expansion, state, second).markers.contains(first),
{
    lemma_insert_sets_exactly_one_marker(expansion, state, second);
}

/// Removal: taking the enum value from an object that carries no stray
/// marker takes the matching marker with it; the object is left with no
/// value and no marker of the enum.
pub proof fn lemma_remove_clears_markers(expansion: ExpansionView, state: ObjectState)
    requires
        expansion.well_formed(),
        state.well_formed(),
        expansion.markers.len() == state.slots,
        state.no_stray_marker(),
    ensures
        after_remove(expansion, state) == object_state(state.slots, None, Set::empty()),
        after_remove(expansion, state).well_formed(),
        after_remove(expansion, state).in_step(),
{
    let count = state.slots;
    let guards = expansion.guards();
    let left = state.with_value(None);
    let only = StepView::MatchValue(remove_arms(count));
    assert(exit_plan(count).drop_last() =~= Seq::<StepView>::empty());
    assert(hook_commands(exit_plan(count).drop_last(), state) =~= Seq::<CommandView>::empty());
    assert(hook_commands(exit_plan(count), state) =~= step_commands(only, state));
    match state.value {
        Some(variant) if 0 <= variant < count => {
            let detach = CommandView::Remove(variant);
            assert(step_commands(only, state) =~= Seq::<CommandView>::empty().push(detach));
            lemma_apply_push(guards, left, Seq::empty(), detach);
            assert(state.markers.remove(variant) =~= Set::empty());
        },
        _ => {
            assert(step_commands(only, state) =~= Seq::<CommandView>::empty());
            assert(state.markers =~= Set::empty());
        },
    }
}

/// The guard of a marker: attached directly, the marker at position
/// `marker` stays exactly where the object holds a value of its variant. No
/// other marker is touched, so an object without a stray marker gets none,
/// and an object whose markers were in step with its value is left as it was.
pub proof fn lemma_direct_marker_is_guarded(
    expansion: ExpansionView,
    state: ObjectState,
    marker: int,
)
    requires
        expansion.well_formed(),
        state.well_formed(),
        expansion.markers.len() == state.slots,
        0 <= marker < state.slots,
    ensures
        after_insert_marker(expansion, state, marker).markers.contains(marker) <==> state.value
            == Some(marker),
        forall|other: int|
            other != marker ==> (after_insert_marker(expansion, state, marker).markers.contains(
                other,
            ) <==> state.markers.contains(other)),
        after_insert_marker(expansion, state, marker).well_formed(),
        state.no_stray_marker() ==> after_insert_marker(expansion, state, marker).no_stray_marker(),
        state.in_step() ==> after_insert_marker(expansion, state, marker) == state,
{
    if state.in_step() {
        let after = after_insert_marker(expansion, state, marker);
        assert(after.markers =~= state.markers);
    }
}

/// Detaching a marker directly never leaves a stray marker behind, though
/// the object may then hold a value without carrying its marker: nothing
/// takes the value away, and nothing puts the marker back before the value
/// is next given.
pub proof fn lemma_direct_removal_leaves_no_stray_marker(state: ObjectState, marker: int)
    requires
        state.well_formed(),
        state.no_stray_marker(),
    ensures
        after_remove_marker(state, marker).well_formed(),
        after_remove_marker(state, marker).no_stray_marker(),
        after_remove_marker(state, marker).value == state.value,
        !after_remove_marker(state, marker).markers.contains(marker),
{
}

} // verus!
