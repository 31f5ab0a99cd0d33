//! The shred driver: one item's edit → pause → delete sequence.
//!
//! The driver is a state machine. At every point it names the one action the
//! surrounding I/O layer must perform next — issue the edit call, pause for
//! the pacing delay, issue the delete call, or stop — and it advances only
//! when that layer reports how the action ended. Cancelling a shred is simply
//! never stepping the driver again; the lemmas below show that a run cancelled
//! during the pause, or one whose edit failed, never asks for the delete.

use vstd::prelude::*;

use crate::things::{CallView, RemoteCall, Shred};

verus! {

/// The pacing delay between the edit call and the delete call, in seconds:
/// a fixed pause that keeps one shred under the remote service's
/// request-rate ceiling.
pub const PACING_DELAY_SECS: u64 = 2;

/// Where one shred stands.
#[derive(Debug, PartialEq, Eq, Structural, Clone, Copy)]
pub enum Phase {
    /// The edit step has not completed yet.
    Editing,
    /// The edit step completed; the pacing pause has not completed yet.
    Pausing,
    /// The pause completed; the delete step has not completed yet.
    Deleting,
    /// Every step completed.
    Done,
    /// A step failed; the rest of the sequence is abandoned.
    Failed,
}

/// How one step ended, reported by the layer that performed it.
#[derive(Debug, PartialEq, Eq, Structural, Clone, Copy)]
pub enum StepOutcome {
    /// The step ran to completion.
    Completed,
    /// The step raised a failure; the driver's caller propagates it.
    Failed,
}

/// What the driver asks the I/O layer to do next.
#[derive(Debug, Clone, PartialEq)]
pub enum DriverAction {
    /// Perform the edit step: issue the call if there is one, nothing if not.
    Edit(Option<RemoteCall>),
    /// Suspend this shred — and only this shred — for the given delay.
    Pause { secs: u64 },
    /// Perform the delete step: issue the call.
    Delete(RemoteCall),
    /// The sequence is over; there is nothing left to perform.
    Stop,
}

/// The mathematical value of a [`DriverAction`].
pub enum ActionView {
    Edit(Option<CallView>),
    Pause { secs: u64 },
    Delete(CallView),
    Stop,
}

impl View for DriverAction {
    type V = ActionView;

    open spec fn view(&self) -> ActionView {
        match self {
            DriverAction::Edit(c) => ActionView::Edit(crate::things::opt_call_view(*c)),
            DriverAction::Pause { secs } => ActionView::Pause { secs: *secs },
            DriverAction::Delete(c) => ActionView::Delete(c@),
            DriverAction::Stop => ActionView::Stop,
        }
    }
}

/// The action the driver requests while in the given phase, for an item whose
/// edit and delete steps issue the given calls.
pub open spec fn action_at(phase: Phase, edit: Option<CallView>, delete: CallView) -> ActionView {
    match phase {
        Phase::Editing => ActionView::Edit(edit),
        Phase::Pausing => ActionView::Pause { secs: PACING_DELAY_SECS },
        Phase::Deleting => ActionView::Delete(delete),
        Phase::Done => ActionView::Stop,
        Phase::Failed => ActionView::Stop,
    }
}

/// The phase after one step's outcome: a failure abandons the sequence for
/// good, a completion moves to the next step in the fixed order.
pub open spec fn step(phase: Phase, outcome: StepOutcome) -> Phase {
    match outcome {
        StepOutcome::Failed => Phase::Failed,
        StepOutcome::Completed => match phase {
            Phase::Editing => Phase::Pausing,
            Phase::Pausing => Phase::Deleting,
            Phase::Deleting => Phase::Done,
            Phase::Done => Phase::Done,
            Phase::Failed => Phase::Failed,
        },
    }
}

/// The phase a fresh driver reaches after the given outcomes, in order.
pub open spec fn run_phase(evs: Seq<StepOutcome>) -> Phase
    decreases evs.len(),
{
    if evs.len() == 0 {
        Phase::Editing
    } else {
        step(run_phase(evs.drop_last()), evs.last())
    }
}

/// Every action a fresh driver requests along the given outcomes: the action
/// before the first outcome, one after each outcome. The sequence is one
/// longer than the outcomes.
pub open spec fn run_actions(
    evs: Seq<StepOutcome>,
    edit: Option<CallView>,
    delete: CallView,
) -> Seq<ActionView>
    decreases evs.len(),
{
    if evs.len() == 0 {
        seq![action_at(Phase::Editing, edit, delete)]
    } else {
        run_actions(evs.drop_last(), edit, delete).push(action_at(run_phase(evs), edit, delete))
    }
}

/// A run's phase says exactly which outcomes were reported: the run is still
/// editing only before any outcome, pausing only after the edit completed,
/// deleting only after edit and pause completed, done only once all three
/// steps completed and nothing failed, and failed exactly when some step
/// failed.
pub proof fn lemma_phase_of_run(evs: Seq<StepOutcome>)
    ensures
        run_phase(evs) == Phase::Editing <==> evs.len() == 0,
        run_phase(evs) == Phase::Pausing <==> (evs.len() == 1 && evs[0] == StepOutcome::Completed),
        run_phase(evs) == Phase::Deleting <==> (evs.len() == 2 && evs[0] == StepOutcome::Completed
            && evs[1] == StepOutcome::Completed),
        run_phase(evs) == Phase::Done <==> (evs.len() >= 3 && forall|i: int|
            0 <= i < evs.len() ==> evs[i] == StepOutcome::Completed),
        run_phase(evs) == Phase::Failed <==> (exists|i: int|
            0 <= i < evs.len() && evs[i] == StepOutcome::Failed),
    decreases evs.len(),
{
    if evs.len() > 0 {
        let pre = evs.drop_last();
        lemma_phase_of_run(pre);
        assert forall|i: int| 0 <= i < pre.len() implies pre[i] == evs[i] by {}
        if evs.last() == StepOutcome::Failed {
            assert(evs[evs.len() - 1] == StepOutcome::Failed);
        } else {
            if exists|i: int| 0 <= i < pre.len() && pre[i] == StepOutcome::Failed {
                let i = choose|i: int| 0 <= i < pre.len() && pre[i] == StepOutcome::Failed;
                assert(evs[i] == StepOutcome::Failed);
            }
            if exists|i: int| 0 <= i < evs.len() && evs[i] == StepOutcome::Failed {
                let i = choose|i: int| 0 <= i < evs.len() && evs[i] == StepOutcome::Failed;
                assert(pre[i] == StepOutcome::Failed);
            }
        }
    }
}

/// The run's action log is one longer than its outcomes, and its entry at
/// position `i` is the action of the phase reached after the first `i`
/// outcomes.
pub proof fn lemma_run_actions_index(
    evs: Seq<StepOutcome>,
    edit: Option<CallView>,
    delete: CallView,
    i: int,
)
    requires
        0 <= i <= evs.len(),
    ensures
        run_actions(evs, edit, delete).len() == evs.len() + 1,
        run_actions(evs, edit, delete)[i] == action_at(run_phase(evs.take(i)), edit, delete),
    decreases evs.len(),
{
    if evs.len() == 0 {
        assert(evs.take(0) =~= evs);
    } else {
        let pre = evs.drop_last();
        lemma_run_actions_index(pre, edit, delete, if i <= pre.len() { i } else { pre.len() as int });
        if i < evs.len() {
            assert(pre.take(i) =~= evs.take(i));
        } else {
            assert(evs.take(i) =~= evs);
        }
    }
}

/// The delete call stands in a run's action log exactly once the edit step
/// and the pause have both completed, and nowhere else. So a run cancelled
/// before the pause completed never requests the delete, and neither does a
/// run whose edit step failed.
pub proof fn lemma_delete_only_after_completed_pause(
    evs: Seq<StepOutcome>,
    edit: Option<CallView>,
    delete: CallView,
)
    ensures
        forall|i: int| 0 <= i < run_actions(evs, edit, delete).len() ==> (
            (#[trigger] run_actions(evs, edit, delete)[i] matches ActionView::Delete(_)) <==> (
                i == 2 && evs[0] == StepOutcome::Completed && evs[1] == StepOutcome::Completed
            )
        ),
{
    lemma_run_actions_index(evs, edit, delete, 0);
    assert forall|i: int| 0 <= i < run_actions(evs, edit, delete).len() implies (
        (#[trigger] run_actions(evs, edit, delete)[i] matches ActionView::Delete(_)) <==> (
            i == 2 && evs[0] == StepOutcome::Completed && evs[1] == StepOutcome::Completed
        )
    ) by {
        lemma_run_actions_index(evs, edit, delete, i);
        lemma_phase_of_run(evs.take(i));
        assert(evs.take(i).len() == i);
        if i == 2 && evs[0] == StepOutcome::Completed && evs[1] == StepOutcome::Completed {
            assert(evs.take(2)[0] == StepOutcome::Completed);
            assert(evs.take(2)[1] == StepOutcome::Completed);
        }
        if run_phase(evs.take(i)) == Phase::Deleting {
            assert(evs.take(i)[0] == evs[0]);
            assert(evs.take(i)[1] == evs[1]);
        }
    }
}

/// On the success path the driver observes the fixed call order — the edit
/// step, the pacing pause, the delete step, then nothing — with no step
/// reordered and none skipped.
pub proof fn lemma_success_call_order(
    evs: Seq<StepOutcome>,
    edit: Option<CallView>,
    delete: CallView,
)
    requires
        forall|i: int| 0 <= i < evs.len() ==> evs[i] == StepOutcome::Completed,
    ensures
        run_actions(evs, edit, delete).len() == evs.len() + 1,
        forall|i: int| 0 <= i <= evs.len() ==> #[trigger] run_actions(evs, edit, delete)[i] == (
            if i == 0 { ActionView::Edit(edit) }
            else if i == 1 { ActionView::Pause { secs: PACING_DELAY_SECS } }
            else if i == 2 { ActionView::Delete(delete) }
            else { ActionView::Stop }
        ),
{
    assert forall|i: int| 0 <= i <= evs.len() implies #[trigger] run_actions(evs, edit, delete)[i]
        == (
        if i == 0 { ActionView::Edit(edit) }
        else if i == 1 { ActionView::Pause { secs: PACING_DELAY_SECS } }
        else if i == 2 { ActionView::Delete(delete) }
        else { ActionView::Stop }
    ) by {
        lemma_run_actions_index(evs, edit, delete, i);
        lemma_phase_of_run(evs.take(i));
        assert(evs.take(i).len() == i);
        assert(forall|j: int| 0 <= j < i ==> evs.take(i)[j] == evs[j]);
    }
    lemma_run_actions_index(evs, edit, delete, 0);
}

/// A failure of the edit step leaves the run failed for good: every action
/// the driver requests from then on is a stop — in particular the delete is
/// never requested — and the failure itself propagates to the caller of the
/// layer that stepped the driver.
pub proof fn lemma_edit_failure_stops_run(
    evs: Seq<StepOutcome>,
    edit: Option<CallView>,
    delete: CallView,
)
    requires
        evs.len() >= 1,
        evs[0] == StepOutcome::Failed,
    ensures
        run_phase(evs) == Phase::Failed,
        forall|i: int| 0 <= i < run_actions(evs, edit, delete).len()
            ==> !(#[trigger] run_actions(evs, edit, delete)[i] matches ActionView::Delete(_)),
        forall|i: int| 1 <= i < run_actions(evs, edit, delete).len()
            ==> #[trigger] run_actions(evs, edit, delete)[i] == ActionView::Stop,
{
    lemma_phase_of_run(evs);
    lemma_delete_only_after_completed_pause(evs, edit, delete);
    lemma_run_actions_index(evs, edit, delete, 0);
    assert forall|i: int| 1 <= i < run_actions(evs, edit, delete).len() implies #[trigger]
        run_actions(evs, edit, delete)[i] == ActionView::Stop by {
        lemma_run_actions_index(evs, edit, delete, i);
        lemma_phase_of_run(evs.take(i));
        assert(evs.take(i)[0] == StepOutcome::Failed);
        assert(evs.take(i).len() == i);
    }
}

/// A run cancelled during the pause — or before it — never requests the
/// delete: its action log holds no delete at any position.
pub proof fn lemma_cancel_during_pause_prevents_delete(
    evs: Seq<StepOutcome>,
    edit: Option<CallView>,
    delete: CallView,
)
    requires
        evs.len() <= 1,
    ensures
        forall|i: int| 0 <= i < run_actions(evs, edit, delete).len()
            ==> !(#[trigger] run_actions(evs, edit, delete)[i] matches ActionView::Delete(_)),
{
    lemma_delete_only_after_completed_pause(evs, edit, delete);
    lemma_run_actions_index(evs, edit, delete, 0);
}

/// How many entries of a schedule pick the first of two drivers.
pub open spec fn count_true(sched: Seq<bool>) -> int
    decreases sched.len(),
{
    if sched.len() == 0 {
        0
    } else {
        count_true(sched.drop_last()) + if sched.last() { 1int } else { 0int }
    }
}

/// Two shreds stepped in alternation, under a schedule that says at each turn
/// which of the two advances by its own next outcome. The result is the pair
/// of phases the two runs have reached.
pub open spec fn pair_phases(
    sched: Seq<bool>,
    first: Seq<StepOutcome>,
    second: Seq<StepOutcome>,
) -> (Phase, Phase)
    decreases sched.len(),
{
    if sched.len() == 0 {
        (Phase::Editing, Phase::Editing)
    } else {
        let rest = pair_phases(sched.drop_last(), first, second);
        let taken = sched.drop_last();
        if sched.last() {
            (step(rest.0, first[count_true(taken)]), rest.1)
        } else {
            (rest.0, step(rest.1, second[taken.len() - count_true(taken)]))
        }
    }
}

/// The count of a schedule's picks for either driver never exceeds its length.
pub proof fn lemma_count_true_bounds(sched: Seq<bool>)
    ensures
        0 <= count_true(sched) <= sched.len(),
    decreases sched.len(),
{
    if sched.len() > 0 {
        lemma_count_true_bounds(sched.drop_last());
    }
}

/// Two concurrently scheduled shreds do not disturb one another: however
/// their steps interleave, each driver's phase is exactly the phase of its
/// own solo run over the outcomes delivered to it so far. Neither run can
/// observe a partial step of the other.
pub proof fn lemma_interleaved_runs_independent(
    sched: Seq<bool>,
    first: Seq<StepOutcome>,
    second: Seq<StepOutcome>,
)
    requires
        count_true(sched) <= first.len(),
        sched.len() - count_true(sched) <= second.len(),
    ensures
        pair_phases(sched, first, second).0 == run_phase(first.take(count_true(sched))),
        pair_phases(sched, first, second).1 == run_phase(
            second.take(sched.len() - count_true(sched)),
        ),
    decreases sched.len(),
{
    if sched.len() > 0 {
        let taken = sched.drop_last();
        lemma_count_true_bounds(taken);
        lemma_interleaved_runs_independent(taken, first, second);
        if sched.last() {
            let c = count_true(taken);
            assert(first.take(c + 1).drop_last() =~= first.take(c));
            assert(second.take(sched.len() - count_true(sched)) =~= second.take(
                taken.len() - count_true(taken),
            ));
        } else {
            let c = taken.len() - count_true(taken);
            assert(second.take(c + 1).drop_last() =~= second.take(c));
            assert(first.take(count_true(sched)) =~= first.take(count_true(taken)));
        }
    } else {
        assert(first.take(0) =~= Seq::<StepOutcome>::empty());
        assert(second.take(0) =~= Seq::<StepOutcome>::empty());
    }
}

/// The driver for one shred. It owns the item and remembers where the
/// sequence stands; the I/O layer alternates between asking for the next
/// action and reporting how that action ended.
pub struct ShredDriver<T> {
    thing: T,
    phase: Phase,
    history: Ghost<Seq<StepOutcome>>,
}

impl<T: Shred> ShredDriver<T> {
    /// The item this driver is shredding.
    pub closed spec fn thing(&self) -> T {
        self.thing
    }

    /// Every outcome reported to this driver so far, in order.
    pub closed spec fn history(&self) -> Seq<StepOutcome> {
        self.history@
    }

    /// The driver's phase is determined by its history.
    pub closed spec fn wf(&self) -> bool {
        self.phase == run_phase(self.history@)
    }

    /// Begin one shred of the given item. No outcome has been reported, so
    /// the first action requested is the edit step.
    pub fn new(thing: T) -> (d: Self)
        ensures
            d.wf(),
            d.history() == Seq::<StepOutcome>::empty(),
            d.thing() == thing,
    {
        ShredDriver { thing, phase: Phase::Editing, history: Ghost(Seq::empty()) }
    }

    /// The phase the driver is in.
    pub fn current_phase(&self) -> (p: Phase)
        requires
            self.wf(),
        ensures
            p == run_phase(self.history()),
    {
        self.phase
    }

    /// The one action the I/O layer must perform next.
    pub fn next_action(&self) -> (a: DriverAction)
        requires
            self.wf(),
        ensures
            a@ == action_at(
                run_phase(self.history()),
                self.thing().edit_call(),
                self.thing().delete_call(),
            ),
    {
        match self.phase {
            Phase::Editing => DriverAction::Edit(self.thing.edit()),
            Phase::Pausing => DriverAction::Pause { secs: PACING_DELAY_SECS },
            Phase::Deleting => DriverAction::Delete(self.thing.delete()),
            Phase::Done => DriverAction::Stop,
            Phase::Failed => DriverAction::Stop,
        }
    }

    /// Report how the requested action ended. A completion advances the
    /// sequence; a failure abandons it, so that the failure can propagate to
    /// the driver's caller with no delete having been requested.
    pub fn on_event(&mut self, outcome: StepOutcome)
        requires
            old(self).wf(),
        ensures
            final(self).wf(),
            final(self).history() == old(self).history().push(outcome),
            final(self).thing() == old(self).thing(),
    {
        let next = match outcome {
            StepOutcome::Failed => Phase::Failed,
            StepOutcome::Completed => match self.phase {
                Phase::Editing => Phase::Pausing,
                Phase::Pausing => Phase::Deleting,
                Phase::Deleting => Phase::Done,
                Phase::Done => Phase::Done,
                Phase::Failed => Phase::Failed,
            },
        };
        self.phase = next;
        proof {
            let evs = self.history@.push(outcome);
            assert(evs.drop_last() =~= self.history@);
            self.history@ = evs;
        }
    }
}

} // verus!
