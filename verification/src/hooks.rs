//! The shape of the lifecycle hooks that are generated for an enum and its
//! marker types, and what running them means.
//!
//! A hook looks at the object it fires on and queues commands. The host
//! applies the queue only after the hook has returned, so every step of one
//! hook sees the same object.

use vstd::prelude::*;

verus! {

/// A change to the markers of an object that a hook queues. The number is
/// the position of the marker type in its namespace.
#[derive(Debug, Clone, Copy, PartialEq, Eq, Structural)]
pub enum Command {
    /// Attach the marker.
    Insert(usize),
    /// Detach the marker.
    Remove(usize),
}

/// The mathematical content of a [`Command`].
pub enum CommandView {
    Insert(int),
    Remove(int),
}

impl View for Command {
    type V = CommandView;

    open spec fn view(&self) -> CommandView {
        match self {
            Command::Insert(marker) => CommandView::Insert(*marker as int),
            Command::Remove(marker) => CommandView::Remove(*marker as int),
        }
    }
}

impl DeepView for Command {
    type V = CommandView;

    open spec fn deep_view(&self) -> CommandView {
        self@
    }
}

/// One statement in the body of a hook of the enum.
#[derive(Debug, Clone, PartialEq, Eq)]
pub enum Step {
    /// Where the object carries the marker, queue its removal.
    ClearIfPresent(usize),
    /// Where the object holds a value of the enum, queue the command in the
    /// arm of that value's variant. The arms stand in the order of the
    /// variants.
    MatchValue(Vec<Command>),
}

/// The mathematical content of a [`Step`].
pub enum StepView {
    ClearIfPresent(int),
    MatchValue(Seq<CommandView>),
}

impl View for Step {
    type V = StepView;

    open spec fn view(&self) -> StepView {
        match self {
            Step::ClearIfPresent(marker) => StepView::ClearIfPresent(*marker as int),
            Step::MatchValue(arms) => StepView::MatchValue(arms.deep_view()),
        }
    }
}

impl DeepView for Step {
    type V = StepView;

    open spec fn deep_view(&self) -> StepView {
        self@
    }
}

/// What a hook can see of a live object: the variant of the enum value it
/// holds, if it holds one, and which of the `slots` marker types of the
/// enum's namespace it carries.
pub struct ObjectState {
    pub slots: nat,
    pub value: Option<int>,
    pub markers: Set<int>,
}

impl ObjectState {
    /// Every marker that the object carries is one of the namespace.
    pub open spec fn well_formed(self) -> bool {
        forall|m: int| self.markers.contains(m) ==> 0 <= m < self.slots
    }

    /// The object carries a marker if and only if it holds the enum and the
    /// value's variant is the one that the marker stands for.
    pub open spec fn in_step(self) -> bool {
        forall|m: int| self.markers.contains(m) <==> self.value == Some(m)
    }

    /// The object carries no marker but, at most, the one that stands for the
    /// variant of the value it holds.
    pub open spec fn no_stray_marker(self) -> bool {
        forall|m: int| self.markers.contains(m) ==> self.value == Some(m)
    }

    /// The same object holding `value`.
    pub open spec fn with_value(self, value: Option<int>) -> ObjectState {
        ObjectState { value, ..self }
    }

    /// The same object carrying the markers `markers`.
    pub open spec fn with_markers(self, markers: Set<int>) -> ObjectState {
        ObjectState { markers, ..self }
    }
}

/// The commands that one step queues when it runs on an object in `state`.
pub open spec fn step_commands(step: StepView, state: ObjectState) -> Seq<CommandView> {
    match step {
        StepView::ClearIfPresent(marker) => if state.markers.contains(marker) {
            seq![CommandView::Remove(marker)]
        } else {
            Seq::empty()
        },
        StepView::MatchValue(arms) => match state.value {
            Some(variant) if 0 <= variant < arms.len() => seq![arms[variant]],
            _ => Seq::empty(),
        },
    }
}

/// The commands that a hook queues when it runs on an object in `state`:
/// those of its steps, in order, each step looking at the same state.
pub open spec fn hook_commands(steps: Seq<StepView>, state: ObjectState) -> Seq<CommandView>
    decreases steps.len(),
{
    if steps.len() == 0 {
        Seq::empty()
    } else {
        hook_commands(steps.drop_last(), state) + step_commands(steps.last(), state)
    }
}

/// The object after the host has carried out one command.
///
/// `guards[m]` is the variant that the enter hook of marker `m` insists on.
/// A removal fires no hook. An insertion attaches the marker and fires the
/// marker's enter hook, which takes the marker off again unless the object
/// holds a value of the guarded variant. A command for a marker that the
/// namespace does not have changes nothing.
pub open spec fn apply_command(guards: Seq<int>, state: ObjectState, command: CommandView)
    -> ObjectState {
    match command {
        CommandView::Remove(marker) => state.with_markers(state.markers.remove(marker)),
        CommandView::Insert(marker) => if 0 <= marker < guards.len() && marker < state.slots {
            if state.value == Some(guards[marker]) {
                state.with_markers(state.markers.insert(marker))
            } else {
                state.with_markers(state.markers.remove(marker))
            }
        } else {
            state
        },
    }
}

/// The object after the host has carried out a queue of commands, first to
/// last.
pub open spec fn apply_commands(
    guards: Seq<int>,
    state: ObjectState,
    commands: Seq<CommandView>,
)
    -> ObjectState
    decreases commands.len(),
{
    if commands.len() == 0 {
        state
    } else {
        apply_command(guards, apply_commands(guards, state, commands.drop_last()), commands.last())
    }
}

/// The steps that take every marker of a namespace of `count` marker types
/// off an object.
pub open spec fn clear_steps(count: nat) -> Seq<StepView> {
    Seq::new(count, |i: int| StepView::ClearIfPresent(i))
}

/// The arms that attach, for each of `count` variants, the marker that
/// stands for it.
pub open spec fn insert_arms(count: nat) -> Seq<CommandView> {
    Seq::new(count, |i: int| CommandView::Insert(i))
}

/// The arms that detach, for each of `count` variants, the marker that
/// stands for it.
pub open spec fn remove_arms(count: nat) -> Seq<CommandView> {
    Seq::new(count, |i: int| CommandView::Remove(i))
}

/// The enter hook of an enum with `count` variants: clear every marker of the
/// namespace that is present, then attach the one that matches the value.
pub open spec fn enter_plan(count: nat) -> Seq<StepView> {
    clear_steps(count).push(StepView::MatchValue(insert_arms(count)))
}

/// The exit hook of an enum with `count` variants: detach the marker that
/// matches the value the object still holds.
pub open spec fn exit_plan(count: nat) -> Seq<StepView> {
    seq![StepView::MatchValue(remove_arms(count))]
}

/// Builds the enter hook of an enum with `count` variants.
pub fn build_enter_hook(count: usize) -> (steps: Vec<Step>)
    ensures
        steps.deep_view() == enter_plan(count as nat),
{
    let mut steps: Vec<Step> = Vec::new();
    let mut arms: Vec<Command> = Vec::new();
    let mut i: usize = 0;
    while i < count
        invariant
            i <= count,
            steps.len() == i,
            arms.len() == i,
            forall|k: int| 0 <= k < i ==> (#[trigger] steps[k])@ == StepView::ClearIfPresent(k),
            forall|k: int| 0 <= k < i ==> #[trigger] arms[k] == Command::Insert(k as usize),
        decreases count - i,
    {
        steps.push(Step::ClearIfPresent(i));
        arms.push(Command::Insert(i));
        i += 1;
    }
    assert(arms.deep_view() =~= insert_arms(count as nat));
    steps.push(Step::MatchValue(arms));
    assert(steps.deep_view() =~= enter_plan(count as nat));
    steps
}

/// Builds the exit hook of an enum with `count` variants.
pub fn build_exit_hook(count: usize) -> (steps: Vec<Step>)
    ensures
        steps.deep_view() == exit_plan(count as nat),
{
    let mut arms: Vec<Command> = Vec::new();
    let mut i: usize = 0;
    while i < count
        invariant
            i <= count,
            arms.len() == i,
            forall|k: int| 0 <= k < i ==> #[trigger] arms[k] == Command::Remove(k as usize),
        decreases count - i,
    {
        arms.push(Command::Remove(i));
        i += 1;
    }
    assert(arms.deep_view() =~= remove_arms(count as nat));
    let mut steps: Vec<Step> = Vec::new();
    steps.push(Step::MatchValue(arms));
    assert(steps.deep_view() =~= exit_plan(count as nat));
    steps
}

} // verus!
