//! The run of a script: what to do, step by step, to play its groups in
//! order and on time.

use crate::glide::Glide;
use crate::model::{
    action_views, group_views, Action, ActionView, Button, InstructionGroup,
    InstructionGroupView, Key, MoveMode,
};
use crate::log::{log_line, log_text};
use vstd::prelude::*;

verus! {

/// What a run does with each action.
#[derive(Debug, Clone, Copy, PartialEq, Eq, Structural)]
pub struct RunMode {
    /// Whether the action is sent to the input devices.
    pub execute: bool,
    /// Whether the action is logged.
    pub log: bool,
}

/// The mode of a run with the given flags: a dry run sends nothing and logs
/// everything; a verbose run logs what it sends.
pub open spec fn mode_of_flags(dry_run: bool, verbose: bool) -> RunMode {
    RunMode { execute: !dry_run, log: dry_run || verbose }
}

impl RunMode {
    /// The mode of a run with the given flags.
    pub fn from_flags(dry_run: bool, verbose: bool) -> (mode: RunMode)
        ensures
            mode == mode_of_flags(dry_run, verbose),
    {
        RunMode { execute: !dry_run, log: dry_run || verbose }
    }
}

/// The shortest duration, in milliseconds, of a pointer move that is made
/// step by step. A shorter one is made at once.
pub const GLIDE_THRESHOLD: u64 = 2;

/// A call of the input devices.
#[derive(Debug, Clone, PartialEq, Eq)]
pub enum SinkCall {
    /// Put the pointer at (`x`, `y`), or move it by that much.
    MovePointer { x: i32, y: i32, mode: MoveMode },
    /// Press the button, or let it go.
    Button { button: Button, pressed: bool },
    /// Press the key, or let it go.
    Key { key: Key, pressed: bool },
    /// Type the text.
    Text { text: String },
}

/// A `SinkCall` as a mathematical value.
pub enum SinkCallView {
    MovePointer { x: i32, y: i32, mode: MoveMode },
    Button { button: Button, pressed: bool },
    Key { key: Key, pressed: bool },
    Text { text: Seq<char> },
}

impl View for SinkCall {
    type V = SinkCallView;

    open spec fn view(&self) -> SinkCallView {
        match *self {
            SinkCall::MovePointer { x, y, mode } => SinkCallView::MovePointer { x, y, mode },
            SinkCall::Button { button, pressed } => SinkCallView::Button { button, pressed },
            SinkCall::Key { key, pressed } => SinkCallView::Key { key, pressed },
            SinkCall::Text { text } => SinkCallView::Text { text: text@ },
        }
    }
}

/// One step of a run.
#[derive(Debug, Clone, PartialEq, Eq)]
pub enum Step {
    /// Wait for the moment `time` milliseconds after the start of the run;
    /// go on at once where it has gone by.
    WaitUntil { time: u64 },
    /// Write the line to the log.
    Log { line: String },
    /// Make the call, and go on when it has returned. `time` is the time of
    /// the group that asks for it.
    Send { time: u64, call: SinkCall },
    /// Start the move as a task of its own, and go on at once. `time` is the
    /// time of the group that asks for it.
    Spawn { time: u64, glide: Glide },
    /// Wait for every task that was started to end. A task that cannot be
    /// waited for is reported, and the others are waited for all the same.
    Join,
}

/// A `Step` as a mathematical value.
pub enum StepView {
    WaitUntil { time: u64 },
    Log { line: Seq<char> },
    Send { time: u64, call: SinkCallView },
    Spawn { time: u64, glide: Glide },
    Join,
}

impl View for Step {
    type V = StepView;

    open spec fn view(&self) -> StepView {
        match *self {
            Step::WaitUntil { time } => StepView::WaitUntil { time },
            Step::Log { line } => StepView::Log { line: line@ },
            Step::Send { time, call } => StepView::Send { time, call: call@ },
            Step::Spawn { time, glide } => StepView::Spawn { time, glide },
            Step::Join => StepView::Join,
        }
    }
}

impl StepView {
    /// Whether the step reaches the input devices.
    pub open spec fn reaches_sink(self) -> bool {
        self is Send || self is Spawn
    }
}

/// The views of a list of steps.
pub open spec fn step_views(steps: Seq<Step>) -> Seq<StepView> {
    Seq::new(steps.len(), |i: int| steps[i]@)
}

/// The call of the input devices that does the action.
pub open spec fn call_of(action: ActionView) -> SinkCallView {
    match action {
        ActionView::PointerMove { x, y, duration, mode } => SinkCallView::MovePointer { x, y, mode },
        ActionView::ButtonDown { button } => SinkCallView::Button { button, pressed: true },
        ActionView::ButtonUp { button } => SinkCallView::Button { button, pressed: false },
        ActionView::KeyDown { key } => SinkCallView::Key { key, pressed: true },
        ActionView::KeyUp { key } => SinkCallView::Key { key, pressed: false },
        ActionView::TypeText { text } => SinkCallView::Text { text },
    }
}

/// The step that does an action of the group at `time`: a call of the input
/// devices, or, for a pointer move of `GLIDE_THRESHOLD` milliseconds or
/// more, a task.
pub open spec fn effect(time: u64, action: ActionView) -> StepView {
    match action {
        ActionView::PointerMove { x, y, duration, mode } if duration >= GLIDE_THRESHOLD => {
            StepView::Spawn { time, glide: Glide { x, y, duration, mode } }
        },
        _ => StepView::Send { time, call: call_of(action) },
    }
}

/// The steps for one action of the group at `time`: its line in the log,
/// where the run logs, and then its effect, where the run executes.
pub open spec fn action_steps(time: u64, action: ActionView, mode: RunMode) -> Seq<StepView> {
    let logged = if mode.log {
        seq![StepView::Log { line: log_text(time, action) }]
    } else {
        seq![]
    };
    if mode.execute {
        logged.push(effect(time, action))
    } else {
        logged
    }
}

/// The steps for the actions of the group at `time`, in their order.
pub open spec fn actions_steps(time: u64, actions: Seq<ActionView>, mode: RunMode) -> Seq<
    StepView,
>
    decreases actions.len(),
{
    if actions.len() == 0 {
        seq![]
    } else {
        actions_steps(time, actions.drop_last(), mode) + action_steps(time, actions.last(), mode)
    }
}

/// The steps for a group: the wait for its time, unless that is 0, and then
/// the steps for its actions.
pub open spec fn group_steps(group: InstructionGroupView, mode: RunMode) -> Seq<StepView> {
    let wait = if group.time > 0 {
        seq![StepView::WaitUntil { time: group.time }]
    } else {
        seq![]
    };
    wait + actions_steps(group.time, group.actions, mode)
}

/// The steps for the groups of a script, in their order.
pub open spec fn run_steps(groups: Seq<InstructionGroupView>, mode: RunMode) -> Seq<StepView>
    decreases groups.len(),
{
    if groups.len() == 0 {
        seq![]
    } else {
        run_steps(groups.drop_last(), mode) + group_steps(groups.last(), mode)
    }
}

/// The steps of the run of a script: those for its groups, and then the
/// wait for the tasks that they started.
pub open spec fn plan(groups: Seq<InstructionGroupView>, mode: RunMode) -> Seq<StepView> {
    run_steps(groups, mode).push(StepView::Join)
}

/// The call or the task that does an action of the group at `time`.
pub fn effect_of(time: u64, action: &Action) -> (step: Step)
    ensures
        step@ == effect(time, action@),
{
    let call = match action {
        Action::PointerMove { x, y, duration, mode } => {
            if *duration >= GLIDE_THRESHOLD {
                return Step::Spawn {
                    time,
                    glide: Glide { x: *x, y: *y, duration: *duration, mode: *mode },
                };
            }
            SinkCall::MovePointer { x: *x, y: *y, mode: *mode }
        },
        Action::ButtonDown { button } => SinkCall::Button { button: *button, pressed: true },
        Action::ButtonUp { button } => SinkCall::Button { button: *button, pressed: false },
        Action::KeyDown { key } => SinkCall::Key { key: *key, pressed: true },
        Action::KeyUp { key } => SinkCall::Key { key: *key, pressed: false },
        Action::TypeText { text } => SinkCall::Text { text: text.clone() },
    };
    Step::Send { time, call }
}

/// Appends the steps for one action of the group at `time` to `steps`.
pub fn execute_action(steps: &mut Vec<Step>, time: u64, action: &Action, mode: RunMode)
    ensures
        step_views(final(steps)@) == step_views(old(steps)@) + action_steps(time, action@, mode),
{
    let ghost before = step_views(steps@);
    if mode.log {
        steps.push(Step::Log { line: log_line(time, action) });
    }
    let ghost logged = step_views(steps@);
    assert(logged =~= before + if mode.log {
        seq![StepView::Log { line: log_text(time, action@) }]
    } else {
        seq![]
    });
    if mode.execute {
        steps.push(effect_of(time, action));
        assert(step_views(steps@) =~= logged.push(effect(time, action@)));
    }
    assert(step_views(steps@) =~= before + action_steps(time, action@, mode));
}

/// Appends the steps for a group to `steps`.
pub fn execute_group(steps: &mut Vec<Step>, group: &InstructionGroup, mode: RunMode)
    ensures
        step_views(final(steps)@) == step_views(old(steps)@) + group_steps(group@, mode),
{
    let ghost before = step_views(steps@);
    let ghost actions = action_views(group.actions@);
    if group.time > 0 {
        steps.push(Step::WaitUntil { time: group.time });
    }
    let ghost waited = step_views(steps@);
    assert(waited =~= before + if group.time > 0 {
        seq![StepView::WaitUntil { time: group.time }]
    } else {
        seq![]
    });
    let mut i: usize = 0;
    assert(actions.take(0) =~= Seq::<ActionView>::empty());
    assert(waited + actions_steps(group.time, actions.take(0), mode) =~= waited);
    while i < group.actions.len()
        invariant
            i <= group.actions.len(),
            actions == action_views(group.actions@),
            step_views(steps@) == waited + actions_steps(group.time, actions.take(i as int), mode),
        decreases group.actions.len() - i,
    {
        let ghost so_far = step_views(steps@);
        execute_action(steps, group.time, &group.actions[i], mode);
        proof {
            assert(actions.take(i + 1).drop_last() =~= actions.take(i as int));
            assert(actions.take(i + 1).last() == group.actions@[i as int]@);
            assert(step_views(steps@) =~= waited + actions_steps(
                group.time,
                actions.take(i + 1),
                mode,
            ));
        }
        i += 1;
    }
    assert(actions.take(i as int) =~= actions);
    assert(step_views(steps@) =~= before + group_steps(group@, mode));
}

/// The steps of the run of a script.
pub fn plan_run(groups: &[InstructionGroup], mode: RunMode) -> (steps: Vec<Step>)
    ensures
        step_views(steps@) == plan(group_views(groups@), mode),
{
    let mut steps: Vec<Step> = Vec::new();
    let ghost all = group_views(groups@);
    let mut i: usize = 0;
    assert(all.take(0) =~= Seq::<InstructionGroupView>::empty());
    assert(step_views(steps@) =~= run_steps(all.take(0), mode));
    while i < groups.len()
        invariant
            i <= groups.len(),
            all == group_views(groups@),
            step_views(steps@) == run_steps(all.take(i as int), mode),
        decreases groups.len() - i,
    {
        execute_group(&mut steps, &groups[i], mode);
        proof {
            assert(all.take(i + 1).drop_last() =~= all.take(i as int));
            assert(all.take(i + 1).last() == groups@[i as int]@);
        }
        i += 1;
    }
    assert(all.take(i as int) =~= all);
    let ghost before = step_views(steps@);
    steps.push(Step::Join);
    assert(step_views(steps@) =~= before.push(StepView::Join));
    steps
}

/// Whether none of `steps` reaches the input devices.
pub open spec fn all_silent(steps: Seq<StepView>) -> bool {
    forall|i: int| 0 <= i < steps.len() ==> !(#[trigger] steps[i]).reaches_sink()
}

/// Steps that are silent stay so when put one after another.
pub proof fn lemma_silent_together(a: Seq<StepView>, b: Seq<StepView>)
    requires
        all_silent(a),
        all_silent(b),
    ensures
        all_silent(a + b),
{
    assert forall|i: int| 0 <= i < (a + b).len() implies !(#[trigger] (a + b)[i]).reaches_sink() by {
        if i < a.len() {
            assert((a + b)[i] == a[i]);
        } else {
            assert((a + b)[i] == b[i - a.len()]);
        }
    }
}

/// A dry run reaches the input devices at no step, verbose or not.
pub proof fn lemma_dry_run_is_silent(groups: Seq<InstructionGroupView>, verbose: bool)
    ensures
        all_silent(plan(groups, mode_of_flags(true, verbose))),
{
    let mode = mode_of_flags(true, verbose);
    lemma_dry_groups_are_silent(groups, verbose);
    lemma_silent_together(run_steps(groups, mode), seq![StepView::Join]);
    assert(run_steps(groups, mode) + seq![StepView::Join] =~= plan(groups, mode));
}

/// The steps for the groups of a script in a dry run do not reach the input
/// devices.
pub proof fn lemma_dry_groups_are_silent(groups: Seq<InstructionGroupView>, verbose: bool)
    ensures
        all_silent(run_steps(groups, mode_of_flags(true, verbose))),
    decreases groups.len(),
{
    let mode = mode_of_flags(true, verbose);
    if groups.len() > 0 {
        lemma_dry_groups_are_silent(groups.drop_last(), verbose);
        let group = groups.last();
        lemma_dry_actions_are_silent(group.time, group.actions, verbose);
        let wait = if group.time > 0 {
            seq![StepView::WaitUntil { time: group.time }]
        } else {
            seq![]
        };
        lemma_silent_together(wait, actions_steps(group.time, group.actions, mode));
        lemma_silent_together(run_steps(groups.drop_last(), mode), group_steps(group, mode));
    }
}

/// The steps for the actions of a group in a dry run do not reach the input
/// devices.
pub proof fn lemma_dry_actions_are_silent(time: u64, actions: Seq<ActionView>, verbose: bool)
    ensures
        all_silent(actions_steps(time, actions, mode_of_flags(true, verbose))),
    decreases actions.len(),
{
    let mode = mode_of_flags(true, verbose);
    if actions.len() > 0 {
        lemma_dry_actions_are_silent(time, actions.drop_last(), verbose);
        lemma_silent_together(
            actions_steps(time, actions.drop_last(), mode),
            action_steps(time, actions.last(), mode),
        );
    }
}

/// A run that does not log writes no line, and one that executes does each
/// action of a group in one step: as many steps as actions.
pub proof fn lemma_quiet_run_does_each_once(time: u64, actions: Seq<ActionView>)
    ensures
        actions_steps(time, actions, mode_of_flags(false, false)).len() == actions.len(),
        forall|i: int|
            0 <= i < actions.len() ==> #[trigger] actions_steps(
                time,
                actions,
                mode_of_flags(false, false),
            )[i] == effect(time, actions[i]),
    decreases actions.len(),
{
    if actions.len() > 0 {
        lemma_quiet_run_does_each_once(time, actions.drop_last());
    }
}

} // verus!
