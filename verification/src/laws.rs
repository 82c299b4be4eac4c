//! What holds of the session's state machine over every run: how toggles
//! fill the history of pauses, how running time grows and stands still, and
//! what asking for the remaining time leaves unchanged.

use vstd::prelude::*;
use crate::model::{
    chronological, lemma_chronological_take, lemma_close_pause, lemma_paused_total_bound,
    lemma_paused_total_push, paused_total, ConfigurationModel, CycleModel, InterruptionModel,
    Session,
};
use crate::time::NANOS_PER_SEC;

verus! {

/// The cycle after it was toggled at each of `ats` in turn.
pub open spec fn toggle_all(cycle: CycleModel, ats: Seq<nat>) -> CycleModel
    decreases ats.len(),
{
    if ats.len() == 0 {
        cycle
    } else {
        toggle_all(cycle, ats.drop_last()).toggle(ats.last())
    }
}

/// No instant in `ats` is earlier than one before it.
pub open spec fn non_decreasing(ats: Seq<nat>) -> bool {
    forall|i: int, j: int| 0 <= i <= j < ats.len() ==> ats[i] <= ats[j]
}

/// The clock does not run backwards from the cycle's latest record through `ats`.
pub open spec fn follows(cycle: CycleModel, ats: Seq<nat>) -> bool {
    &&& non_decreasing(ats)
    &&& ats.len() > 0 ==> cycle.latest() <= ats[0]
}

/// How many of `n` toggles in a row resume the timer, which depends on the
/// state in which the first one finds the cycle: every second toggle closes
/// a pause, beginning with the first if the cycle is paused, with the second
/// if it runs, and with the third if it has not started.
pub open spec fn resumes(cycle: CycleModel, n: nat) -> nat {
    if !cycle.is_started() {
        if n == 0 {
            0
        } else {
            ((n - 1) / 2) as nat
        }
    } else if !cycle.is_paused() {
        n / 2
    } else {
        (n + 1) / 2
    }
}

/// The number of interruptions of the cycle that are open, the archived and
/// the live one taken together.
pub open spec fn open_pauses(cycle: CycleModel) -> nat {
    cycle.interruption_history.filter(|p: InterruptionModel| p.is_open()).len() + (
    match cycle.interruption {
        Some(p) => if p.is_open() {
            1nat
        } else {
            0nat
        },
        None => 0nat,
    })
}

/// A history whose pauses are all closed holds no open one.
proof fn lemma_no_open_in_closed_history(start: nat, history: Seq<InterruptionModel>)
    requires
        chronological(start, history),
    ensures
        history.filter(|p: InterruptionModel| p.is_open()).len() == 0,
    decreases history.len(),
{
    reveal(Seq::filter);
    if history.len() > 0 {
        lemma_chronological_take(start, history, history.len() - 1);
        assert(history.take(history.len() - 1) =~= history.drop_last());
        lemma_no_open_in_closed_history(start, history.drop_last());
        assert(history.last().closed_from(start));
    }
}

/// Without its last instant, a run of instants in order is still in order,
/// and it ends no later than the last instant.
proof fn lemma_non_decreasing_front(ats: Seq<nat>)
    requires
        non_decreasing(ats),
        ats.len() > 0,
    ensures
        non_decreasing(ats.drop_last()),
        ats.len() > 1 ==> ats.drop_last()[0] == ats[0] && ats.drop_last().last() <= ats.last(),
        ats[0] <= ats.last(),
{
    let front = ats.drop_last();
    assert forall|i: int, j: int| 0 <= i <= j < front.len() implies front[i] <= front[j] by {
        assert(front[i] == ats[i] && front[j] == ats[j]);
    }
    if front.len() > 0 {
        assert(front.last() == ats[ats.len() - 2]);
    }
}

/// A well-formed cycle has at most one open pause: none in its history, and
/// one in all exactly when it is paused.
pub proof fn lemma_at_most_one_open_pause(cycle: CycleModel)
    requires
        cycle.wf(),
    ensures
        open_pauses(cycle) <= 1,
        open_pauses(cycle) == 1 <==> cycle.is_paused(),
        forall|i: int|
            0 <= i < cycle.interruption_history.len() ==> !(
            #[trigger] cycle.interruption_history[i]).is_open(),
{
    lemma_no_open_in_closed_history(cycle.origin(), cycle.interruption_history);
    assert forall|i: int| 0 <= i < cycle.interruption_history.len() implies !(
    #[trigger] cycle.interruption_history[i]).is_open() by {
        assert(cycle.interruption_history[i].closed_from(cycle.origin()));
    }
}

/// One toggle at an instant that the clock can show keeps the cycle well
/// formed and becomes its latest record. The history grows by one pause if the
/// toggle resumes the timer, and not at all if it starts or pauses it.
pub proof fn lemma_toggle_step(cycle: CycleModel, at: nat)
    requires
        cycle.wf(),
        cycle.latest() <= at,
    ensures
        cycle.toggle(at).wf(),
        cycle.toggle(at).latest() == at,
        cycle.toggle(at).interruption_history.len() == cycle.interruption_history.len() + (
        if cycle.is_paused() {
            1nat
        } else {
            0nat
        }),
        cycle.toggle(at).is_started(),
        cycle.toggle(at).is_paused() <==> cycle.is_started() && !cycle.is_paused(),
        cycle.toggle(at).stage_iteration == cycle.stage_iteration,
        cycle.toggle(at).finished_at == cycle.finished_at,
{
    if cycle.is_started() && cycle.is_paused() {
        lemma_close_pause(cycle, at);
    }
}

/// Any run of toggles at instants that the clock can show keeps the cycle well
/// formed, with at most one pause open, and the history of pauses grows by
/// exactly the number of toggles that resumed the timer.
pub proof fn lemma_toggles_fill_history(cycle: CycleModel, ats: Seq<nat>)
    requires
        cycle.wf(),
        follows(cycle, ats),
    ensures
        toggle_all(cycle, ats).wf(),
        open_pauses(toggle_all(cycle, ats)) <= 1,
        toggle_all(cycle, ats).interruption_history.len() == cycle.interruption_history.len()
            + resumes(cycle, ats.len()),
        ats.len() > 0 ==> toggle_all(cycle, ats).latest() == ats.last(),
        ats.len() > 0 ==> toggle_all(cycle, ats).is_started(),
        ats.len() > 0 ==> (toggle_all(cycle, ats).is_paused() <==> resumes(
            cycle,
            ats.len() + 1,
        ) > resumes(cycle, ats.len())),
    decreases ats.len(),
{
    if ats.len() > 0 {
        let front = ats.drop_last();
        lemma_non_decreasing_front(ats);
        lemma_toggles_fill_history(cycle, front);
        let before = toggle_all(cycle, front);
        assert(before.latest() <= ats.last());
        lemma_toggle_step(before, ats.last());
    }
    lemma_at_most_one_open_pause(toggle_all(cycle, ats));
}

/// From a cycle that has not started, the first toggle starts the timer and
/// the later ones pause and resume it in turn: after `n` toggles the history
/// holds one pause for each toggle that resumed, and a pause is open exactly
/// when an even number of toggles, two at least, has been made.
pub proof fn lemma_toggles_from_fresh(stage_iteration: nat, ats: Seq<nat>)
    requires
        non_decreasing(ats),
    ensures
        toggle_all(CycleModel::new(stage_iteration), ats).wf(),
        open_pauses(toggle_all(CycleModel::new(stage_iteration), ats)) <= 1,
        toggle_all(CycleModel::new(stage_iteration), ats).interruption_history.len() == (
        if ats.len() == 0 {
            0
        } else {
            (ats.len() - 1) / 2
        }),
        toggle_all(CycleModel::new(stage_iteration), ats).is_paused() <==> ats.len() >= 2
            && ats.len() % 2 == 0,
{
    let fresh = CycleModel::new(stage_iteration);
    lemma_toggles_fill_history(fresh, ats);
}

/// Running time never shrinks as the clock advances, and stands still while
/// the cycle is paused. While a well-formed cycle runs, running time advances
/// exactly as the clock does.
pub proof fn lemma_elapsed_monotone(cycle: CycleModel, now1: nat, now2: nat)
    requires
        now1 <= now2,
    ensures
        cycle.elapsed(now1) <= cycle.elapsed(now2),
        cycle.is_paused() || !cycle.is_started() ==> cycle.elapsed(now1) == cycle.elapsed(now2),
        cycle.wf() && cycle.is_started() && !cycle.is_paused() && cycle.latest() <= now1
            ==> cycle.elapsed(now2) - cycle.elapsed(now1) == now2 - now1,
{
    if cycle.wf() && cycle.is_started() {
        lemma_paused_total_bound(cycle.origin(), cycle.interruption_history);
    }
}

/// While a well-formed cycle is paused, its running time is what it was when
/// the pause began, whatever the clock shows.
pub proof fn lemma_elapsed_frozen_while_paused(cycle: CycleModel, now: nat)
    requires
        cycle.wf(),
        cycle.is_paused(),
    ensures
        cycle.elapsed(now) == cycle.close_pause(cycle.interruption.unwrap().started_at).elapsed(
            cycle.interruption.unwrap().started_at,
        ),
        cycle.elapsed(now) == cycle.interruption.unwrap().started_at - cycle.origin()
            - paused_total(cycle.interruption_history),
{
    let pause = cycle.interruption.unwrap();
    lemma_paused_total_bound(cycle.origin(), cycle.interruption_history);
    lemma_paused_total_push(cycle.interruption_history, pause.close(pause.started_at));
}

/// A toggle does not take running time away: what the cycle showed at an
/// instant before the toggle is no more than what it shows at an instant after
/// it. Pausing freezes the running time at the instant of the toggle, and
/// resuming takes it up again from where the pause had frozen it.
pub proof fn lemma_elapsed_monotone_across_toggle(
    cycle: CycleModel,
    now1: nat,
    at: nat,
    now2: nat,
)
    requires
        cycle.wf(),
        cycle.latest() <= at,
        now1 <= at <= now2,
    ensures
        cycle.elapsed(now1) <= cycle.toggle(at).elapsed(now2),
        cycle.is_started() && !cycle.is_paused() ==> cycle.toggle(at).elapsed(now2)
            == cycle.elapsed(at),
        cycle.is_paused() ==> cycle.toggle(at).elapsed(at) == cycle.elapsed(now1),
        cycle.is_paused() ==> cycle.toggle(at).elapsed(now2) == cycle.elapsed(now1) + (now2
            - at),
{
    lemma_toggle_step(cycle, at);
    if cycle.is_started() {
        lemma_paused_total_bound(cycle.origin(), cycle.interruption_history);
        if cycle.is_paused() {
            let pause = cycle.interruption.unwrap();
            lemma_paused_total_push(cycle.interruption_history, pause.close(at));
        }
    }
}

/// Over any run of toggles at instants that the clock can show, running time
/// asked for before the run is no more than running time asked for after it.
pub proof fn lemma_elapsed_monotone_over_toggles(
    cycle: CycleModel,
    ats: Seq<nat>,
    now1: nat,
    now2: nat,
)
    requires
        cycle.wf(),
        follows(cycle, ats),
        now1 <= now2,
        ats.len() > 0 ==> now1 <= ats[0] && ats.last() <= now2,
    ensures
        cycle.elapsed(now1) <= toggle_all(cycle, ats).elapsed(now2),
    decreases ats.len(),
{
    if ats.len() == 0 {
        lemma_elapsed_monotone(cycle, now1, now2);
    } else {
        let front = ats.drop_last();
        let at = ats.last();
        lemma_non_decreasing_front(ats);
        lemma_elapsed_monotone_over_toggles(cycle, front, now1, at);
        lemma_toggles_fill_history(cycle, front);
        let before = toggle_all(cycle, front);
        assert(before.latest() <= at);
        lemma_elapsed_monotone_across_toggle(before, at, at, now2);
    }
}

/// A pause of length `d` costs exactly `d` of running time, however many
/// pauses the cycle has had before: pausing a running cycle at `at` and
/// resuming it at `at + d` leaves, at any later instant, the time since the
/// start less the earlier pauses and less `d`.
pub proof fn lemma_pause_round_trip(cycle: CycleModel, at: nat, d: nat, now: nat)
    requires
        cycle.wf(),
        cycle.is_started(),
        !cycle.is_paused(),
        cycle.latest() <= at,
        at + d <= now,
    ensures
        cycle.toggle(at).toggle(at + d).elapsed(now) == (now - cycle.started_at.unwrap())
            - paused_total(cycle.interruption_history) - d,
        cycle.toggle(at).toggle(at + d).elapsed(now) == cycle.elapsed(now) - d,
        cycle.toggle(at).toggle(at + d).interruption_history.len()
            == cycle.interruption_history.len() + 1,
{
    lemma_toggle_step(cycle, at);
    let paused = cycle.toggle(at);
    lemma_toggle_step(paused, at + d);
    let pause = paused.interruption.unwrap().close(at + d);
    lemma_paused_total_push(cycle.interruption_history, pause);
    lemma_paused_total_bound(cycle.origin(), cycle.interruption_history);
    lemma_paused_total_bound(cycle.origin(), paused.toggle(at + d).interruption_history);
}

/// Pausing in the very instant of the start and resuming after `d` leaves the
/// time since the start less `d`.
pub proof fn lemma_pause_at_start_round_trip(stage_iteration: nat, start: nat, d: nat, now: nat)
    requires
        start + d <= now,
    ensures
        CycleModel::new(stage_iteration).toggle(start).toggle(start).toggle(start + d).elapsed(
            now,
        ) == (now - start) - d,
{
    let fresh = CycleModel::new(stage_iteration);
    lemma_toggle_step(fresh, start);
    let running = fresh.toggle(start);
    assert(paused_total(running.interruption_history) == 0);
    lemma_pause_round_trip(running, start, d, now);
}

/// Asking for the remaining time changes nothing that a later answer depends
/// on but the finish instant: with no toggle in between, a later answer is no
/// larger than an earlier one, and while the cycle is paused every answer is
/// the same, in the time left, in its text and in whether the cycle is due.
pub proof fn lemma_remaining_time_repeatable(session: Session, now1: nat, now2: nat)
    requires
        now1 <= now2,
    ensures
        session.observe(now1).remaining(now2) <= session.remaining(now1),
        session.observe(now1).remaining(now2) / (NANOS_PER_SEC as nat) <= session.remaining(now1)
            / (NANOS_PER_SEC as nat),
        session.is_due(now1) ==> session.observe(now1).is_due(now2),
        session.current_cycle.is_paused() ==> {
            &&& session.observe(now1).remaining(now2) == session.remaining(now1)
            &&& session.observe(now1).remaining_text(now2) == session.remaining_text(now1)
            &&& session.observe(now1).is_due(now2) == session.is_due(now1)
            &&& session.observe(now1).observe(now2) == session.observe(now1)
        },
{
    let seen = session.observe(now1);
    assert(seen.current_cycle.elapsed(now2) == session.current_cycle.elapsed(now2));
    lemma_elapsed_monotone(session.current_cycle, now1, now2);
}

/// Asking for the remaining time marks a due cycle finished at the first
/// instant at which it is found due; later questions leave that instant, the
/// stage, the pauses and the archive as they are, and keep the session well
/// formed.
pub proof fn lemma_observe_keeps_state(session: Session, now: nat)
    requires
        session.wf(),
    ensures
        session.observe(now).wf(),
        session.observe(now).current_cycle.finished_at == (if session.is_due(now)
            && session.current_cycle.finished_at is None {
            Some(now)
        } else {
            session.current_cycle.finished_at
        }),
        session.observe(now).history == session.history,
        session.observe(now).current_stage() == session.current_stage(),
        forall|t: nat| #[trigger]
            session.observe(now).current_cycle.elapsed(t) == session.current_cycle.elapsed(t),
{
}

/// Finishing a cycle keeps the session well formed, adds the cycle to the end
/// of the archive with a finish instant, and puts a cycle that has not
/// started, of the next iteration, in its place.
pub proof fn lemma_finish_advances(session: Session, at: nat)
    requires
        session.wf(),
    ensures
        session.finish(at).wf(),
        session.finish(at).history.len() == session.history.len() + 1,
        session.finish(at).history.last().finished_at is Some,
        session.finish(at).current_cycle == CycleModel::new(
            session.current_cycle.stage_iteration + 1,
        ),
        forall|now: nat| #[trigger] session.finish(at).current_cycle.elapsed(now) == 0,
{
    let after = session.finish(at);
    assert forall|i: int| 0 <= i < after.history.len() implies {
        &&& (#[trigger] after.history[i]).wf()
        &&& after.history[i].finished_at is Some
        &&& after.history[i].stage_iteration == i
    } by {
        if i < session.history.len() {
            assert(after.history[i] == session.history[i]);
        }
    }
}

/// A toggle at an instant that the clock can show keeps the session well
/// formed and leaves the archive and the stage as they are.
pub proof fn lemma_session_toggle(session: Session, at: nat)
    requires
        session.wf(),
        session.current_cycle.latest() <= at,
    ensures
        session.toggle(at).wf(),
        session.toggle(at).history == session.history,
        session.toggle(at).current_stage() == session.current_stage(),
{
    lemma_toggle_step(session.current_cycle, at);
}

/// The stages repeat: after as many cycles as the sequence has stages, the
/// stage is the same again.
pub proof fn lemma_stages_repeat(configuration: ConfigurationModel, stage_iteration: nat)
    requires
        configuration.wf(),
    ensures
        configuration.stage_at(stage_iteration + configuration.stage_sequence.len())
            == configuration.stage_at(stage_iteration),
        stage_iteration < configuration.stage_sequence.len() ==> configuration.stage_at(
            stage_iteration,
        ) == configuration.stage_sequence[stage_iteration as int],
{
    let n = configuration.stage_sequence.len();
    let i = stage_iteration;
    assert((i + n) % n == i % n) by (nonlinear_arith)
        requires
            n > 0,
    ;
    if i < n {
        assert(i % n == i) by (nonlinear_arith)
            requires
                i < n,
        ;
    }
}

/// What can be done to a session without ending its cycle.
pub enum Action {
    /// Start, pause or resume.
    Toggle,
    /// Ask for the remaining time.
    Ask,
    /// Add a character to the note of the open pause.
    Type(char),
    /// Take the last character from the note of the open pause.
    Erase,
}

/// An action and the reading of the clock at which it is taken.
pub struct Step {
    pub at: nat,
    pub action: Action,
}

/// The session after one step.
pub open spec fn step(session: Session, step: Step) -> Session {
    match step.action {
        Action::Toggle => session.toggle(step.at),
        Action::Ask => session.observe(step.at),
        Action::Type(c) => session.append_annotation(c),
        Action::Erase => session.pop_annotation(),
    }
}

/// The session after each of `steps` in turn.
pub open spec fn run(session: Session, steps: Seq<Step>) -> Session
    decreases steps.len(),
{
    if steps.len() == 0 {
        session
    } else {
        step(run(session, steps.drop_last()), steps.last())
    }
}

/// No step is taken at an earlier reading of the clock than one before it.
pub open spec fn in_order(steps: Seq<Step>) -> bool {
    forall|i: int, j: int| 0 <= i <= j < steps.len() ==> steps[i].at <= steps[j].at
}

/// How many of `steps` are toggles.
pub open spec fn toggles(steps: Seq<Step>) -> nat
    decreases steps.len(),
{
    if steps.len() == 0 {
        0
    } else {
        toggles(steps.drop_last()) + (if steps.last().action is Toggle {
            1nat
        } else {
            0nat
        })
    }
}

/// Whatever is done to a session short of ending its cycle, in whatever
/// order, as long as the clock does not run backwards: the session stays
/// well formed, the archive and the stage stay as they are, at most one pause
/// is open, the history of pauses grows by one for each toggle that resumed
/// the timer, and running time asked for before the steps is no more than
/// running time asked for after them.
pub proof fn lemma_run_within_a_cycle(session: Session, steps: Seq<Step>, now1: nat, now2: nat)
    requires
        session.wf(),
        in_order(steps),
        now1 <= now2,
        steps.len() > 0 ==> session.current_cycle.latest() <= steps[0].at && now1 <= steps[0].at
            && steps.last().at <= now2,
    ensures
        run(session, steps).wf(),
        run(session, steps).history == session.history,
        run(session, steps).configuration == session.configuration,
        run(session, steps).current_stage() == session.current_stage(),
        open_pauses(run(session, steps).current_cycle) <= 1,
        run(session, steps).current_cycle.interruption_history.len()
            == session.current_cycle.interruption_history.len() + resumes(
            session.current_cycle,
            toggles(steps),
        ),
        session.current_cycle.elapsed(now1) <= run(session, steps).current_cycle.elapsed(now2),
        steps.len() > 0 ==> run(session, steps).current_cycle.latest() <= steps.last().at,
        run(session, steps).current_cycle.is_started() <==> session.current_cycle.is_started()
            || toggles(steps) > 0,
        run(session, steps).current_cycle.is_paused() <==> resumes(
            session.current_cycle,
            toggles(steps) + 1,
        ) > resumes(session.current_cycle, toggles(steps)),
    decreases steps.len(),
{
    if steps.len() == 0 {
        lemma_elapsed_monotone(session.current_cycle, now1, now2);
    } else {
        let front = steps.drop_last();
        let last = steps.last();
        assert(in_order(front)) by {
            assert forall|i: int, j: int| 0 <= i <= j < front.len() implies front[i].at
                <= front[j].at by {
                assert(front[i] == steps[i] && front[j] == steps[j]);
            }
        }
        if front.len() > 0 {
            assert(front[0] == steps[0]);
            assert(front.last() == steps[steps.len() - 2]);
        }
        assert(steps[0].at <= last.at);
        lemma_run_within_a_cycle(session, front, now1, last.at);
        let before = run(session, front);
        assert(before.current_cycle.latest() <= last.at);
        match last.action {
            Action::Toggle => {
                lemma_toggle_step(before.current_cycle, last.at);
                lemma_elapsed_monotone_across_toggle(
                    before.current_cycle,
                    last.at,
                    last.at,
                    now2,
                );
            },
            _ => {
                lemma_elapsed_monotone(before.current_cycle, last.at, now2);
            },
        }
    }
    lemma_at_most_one_open_pause(run(session, steps).current_cycle);
}

} // verus!
