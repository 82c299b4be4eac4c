//! The mathematical model of a session: interruptions, cycles, the
//! configuration and the state machine over them, with instants and spans as
//! natural numbers of nanoseconds.

use vstd::prelude::*;
use crate::app::AppView;
use crate::format::{clock_text, zero_text};
use crate::pomodoro_technique::Stage;
use crate::time::{sat_sub, NANOS_PER_SEC};

verus! {

/// One contiguous pause.
pub struct InterruptionModel {
    /// When the pause began.
    pub started_at: nat,
    /// When the pause ended; `None` while it is still open.
    pub finished_at: Option<nat>,
    /// The note attached to the pause, if any character was ever typed.
    pub annotation: Option<Seq<char>>,
}

impl InterruptionModel {
    /// A pause that begins at `at`, open and without a note.
    pub open spec fn new(at: nat) -> Self {
        InterruptionModel { started_at: at, finished_at: None, annotation: None }
    }

    pub open spec fn is_open(self) -> bool {
        self.finished_at is None
    }

    /// A closed pause does not end before it began.
    pub open spec fn wf(self) -> bool {
        self.finished_at matches Some(f) ==> self.started_at <= f
    }

    pub open spec fn close(self, at: nat) -> Self {
        InterruptionModel { finished_at: Some(at), ..self }
    }

    /// The note with `c` added at its end; a missing note becomes the one character.
    pub open spec fn append_char(self, c: char) -> Self {
        InterruptionModel {
            annotation: Some(
                match self.annotation {
                    Some(a) => a.push(c),
                    None => seq![c],
                },
            ),
            ..self
        }
    }

    /// The note without its last character; an empty or missing note stays as it is.
    pub open spec fn remove_last_char(self) -> Self {
        InterruptionModel {
            annotation: match self.annotation {
                Some(a) => Some(
                    if a.len() > 0 {
                        a.drop_last()
                    } else {
                        a
                    },
                ),
                None => None,
            },
            ..self
        }
    }

    /// How long the pause has lasted: up to its end, or up to `now` while open.
    pub open spec fn duration(self, now: nat) -> nat {
        sat_sub(
            match self.finished_at {
                Some(f) => f,
                None => now,
            },
            self.started_at,
        )
    }

    /// The length of a closed pause; an open pause counts as zero.
    pub open spec fn closed_duration(self) -> nat {
        match self.finished_at {
            Some(f) => sat_sub(f, self.started_at),
            None => 0,
        }
    }

    /// The pause is closed, began no earlier than `start` and ended no earlier than it began.
    pub open spec fn closed_from(self, start: nat) -> bool {
        &&& self.finished_at is Some
        &&& start <= self.started_at <= self.finished_at.unwrap()
    }
}

/// The sum of the lengths of the closed pauses in `history`.
pub open spec fn paused_total(history: Seq<InterruptionModel>) -> nat
    decreases history.len(),
{
    if history.len() == 0 {
        0
    } else {
        paused_total(history.drop_last()) + history.last().closed_duration()
    }
}

/// Every pause in `history` is closed and lies at or after `start`, and each
/// ends before the next begins.
pub open spec fn chronological(start: nat, history: Seq<InterruptionModel>) -> bool {
    &&& forall|i: int| 0 <= i < history.len() ==> (#[trigger] history[i]).closed_from(start)
    &&& forall|i: int, j: int|
        0 <= i < j < history.len() ==> (#[trigger] history[i]).finished_at.unwrap() <= (
        #[trigger] history[j]).started_at
}

/// The end of the last pause in `history`, or `start` where there is none.
pub open spec fn end_of(start: nat, history: Seq<InterruptionModel>) -> nat {
    if history.len() == 0 {
        start
    } else {
        match history.last().finished_at {
            Some(f) => f,
            None => history.last().started_at,
        }
    }
}

/// One timed session of a single stage.
pub struct CycleModel {
    /// Position in the endless repetition of the stage sequence.
    pub stage_iteration: nat,
    /// When the timer was first started.
    pub started_at: Option<nat>,
    /// When the cycle was marked complete.
    pub finished_at: Option<nat>,
    /// The closed pauses, oldest first.
    pub interruption_history: Seq<InterruptionModel>,
    /// The pause that is open now, if any.
    pub interruption: Option<InterruptionModel>,
}

impl CycleModel {
    /// A cycle that has not started.
    pub open spec fn new(stage_iteration: nat) -> Self {
        CycleModel {
            stage_iteration,
            started_at: None,
            finished_at: None,
            interruption_history: Seq::empty(),
            interruption: None,
        }
    }

    pub open spec fn is_started(self) -> bool {
        self.started_at is Some
    }

    pub open spec fn is_paused(self) -> bool {
        self.interruption is Some
    }

    /// The instant from which the timer counts; zero for a cycle not yet started.
    pub open spec fn origin(self) -> nat {
        match self.started_at {
            Some(s) => s,
            None => 0,
        }
    }

    /// When the timer last began to run: the end of the last closed pause, or the start.
    pub open spec fn resumed_at(self) -> nat {
        end_of(self.origin(), self.interruption_history)
    }

    /// The latest instant that a start, pause or resume has recorded.
    pub open spec fn latest(self) -> nat {
        match self.interruption {
            Some(p) => p.started_at,
            None => self.resumed_at(),
        }
    }

    /// An unstarted cycle has no pauses; the closed pauses are in order of
    /// time and do not overlap; the open pause began after all of them.
    pub open spec fn wf(self) -> bool {
        &&& self.started_at is None ==> self.interruption_history.len() == 0
            && self.interruption is None
        &&& chronological(self.origin(), self.interruption_history)
        &&& self.interruption matches Some(p) ==> p.finished_at is None && self.resumed_at()
            <= p.started_at
    }

    /// Starting is idempotent: the first start wins.
    pub open spec fn start(self, at: nat) -> Self {
        if self.started_at is None {
            CycleModel { started_at: Some(at), ..self }
        } else {
            self
        }
    }

    pub open spec fn open_pause(self, at: nat) -> Self {
        CycleModel { interruption: Some(InterruptionModel::new(at)), ..self }
    }

    /// The open pause ends at `at` and joins the history.
    pub open spec fn close_pause(self, at: nat) -> Self {
        match self.interruption {
            Some(p) => CycleModel {
                interruption_history: self.interruption_history.push(p.close(at)),
                interruption: None,
                ..self
            },
            None => self,
        }
    }

    /// Finishing is sticky: the first finish instant stays.
    pub open spec fn mark_finished(self, at: nat) -> Self {
        if self.finished_at is None {
            CycleModel { finished_at: Some(at), ..self }
        } else {
            self
        }
    }

    /// Start, pause or resume, whichever the state calls for.
    pub open spec fn toggle(self, at: nat) -> Self {
        if !self.is_started() {
            self.start(at)
        } else if !self.is_paused() {
            self.open_pause(at)
        } else {
            self.close_pause(at)
        }
    }

    /// The note of the open pause gains `c`; nothing changes while running.
    pub open spec fn append_annotation(self, c: char) -> Self {
        match self.interruption {
            Some(p) => CycleModel { interruption: Some(p.append_char(c)), ..self },
            None => self,
        }
    }

    /// The note of the open pause loses its last character; nothing changes while running.
    pub open spec fn pop_annotation(self) -> Self {
        match self.interruption {
            Some(p) => CycleModel { interruption: Some(p.remove_last_char()), ..self },
            None => self,
        }
    }

    /// The note of the open pause.
    pub open spec fn annotation(self) -> Option<Seq<char>> {
        match self.interruption {
            Some(p) => p.annotation,
            None => None,
        }
    }

    /// The instant up to which time counts at `now`: the beginning of the open
    /// pause, or `now` while running.
    pub open spec fn active_until(self, now: nat) -> nat {
        match self.interruption {
            Some(p) => p.started_at,
            None => now,
        }
    }

    /// Time that the cycle has spent running as of `now`: from its start up to
    /// `now`, or up to the beginning of the open pause, less all closed pauses.
    /// Zero before the start; each difference stops at zero.
    pub open spec fn elapsed(self, now: nat) -> nat {
        match self.started_at {
            None => 0,
            Some(s) => sat_sub(
                sat_sub(self.active_until(now), s),
                paused_total(self.interruption_history),
            ),
        }
    }

    /// How long the open pause has lasted at `now`, in whole seconds; zero while running.
    pub open spec fn pause_elapsed_secs(self, now: nat) -> nat {
        match self.interruption {
            Some(p) => sat_sub(now, p.started_at) / (NANOS_PER_SEC as nat),
            None => 0,
        }
    }
}

/// Target durations for the three kinds of stage, and the order of stages.
pub struct ConfigurationModel {
    pub work_duration: nat,
    pub short_break_duration: nat,
    pub long_break_duration: nat,
    pub stage_sequence: Seq<Stage>,
}

impl ConfigurationModel {
    /// The sequence names at least one stage.
    pub open spec fn wf(self) -> bool {
        self.stage_sequence.len() >= 1
    }

    /// Twenty-five minutes of work, five of short break, twenty of long
    /// break; three rounds of work and short break, then work and a long break.
    pub open spec fn standard() -> Self {
        ConfigurationModel {
            work_duration: 1500 * (NANOS_PER_SEC as nat),
            short_break_duration: 300 * (NANOS_PER_SEC as nat),
            long_break_duration: 1200 * (NANOS_PER_SEC as nat),
            stage_sequence: seq![
                Stage::Work,
                Stage::ShortBreak,
                Stage::Work,
                Stage::ShortBreak,
                Stage::Work,
                Stage::ShortBreak,
                Stage::Work,
                Stage::LongBreak,
            ],
        }
    }

    pub open spec fn duration_for(self, stage: Stage) -> nat {
        match stage {
            Stage::Work => self.work_duration,
            Stage::ShortBreak => self.short_break_duration,
            Stage::LongBreak => self.long_break_duration,
        }
    }

    /// The stage of the cycle with the given iteration: the sequence repeats without end.
    pub open spec fn stage_at(self, stage_iteration: nat) -> Stage {
        self.stage_sequence[(stage_iteration % self.stage_sequence.len()) as int]
    }
}

/// The whole state: configuration, the live cycle and the finished ones.
pub struct Session {
    pub configuration: ConfigurationModel,
    /// What the user interface shows.
    pub view: AppView,
    pub current_cycle: CycleModel,
    /// The finished cycles, in the order in which they finished.
    pub history: Seq<CycleModel>,
}

impl Session {
    /// A session at its first cycle, not started.
    pub open spec fn new(configuration: ConfigurationModel) -> Self {
        Session {
            configuration,
            view: AppView::Normal,
            current_cycle: CycleModel::new(0),
            history: Seq::empty(),
        }
    }

    /// The parts are well formed; the archive holds one finished cycle for
    /// each earlier iteration, in order.
    pub open spec fn wf(self) -> bool {
        &&& self.configuration.wf()
        &&& self.current_cycle.wf()
        &&& self.current_cycle.stage_iteration == self.history.len()
        &&& forall|i: int|
            0 <= i < self.history.len() ==> {
                &&& (#[trigger] self.history[i]).wf()
                &&& self.history[i].finished_at is Some
                &&& self.history[i].stage_iteration == i
            }
    }

    pub open spec fn current_stage(self) -> Stage {
        self.configuration.stage_at(self.current_cycle.stage_iteration)
    }

    /// The target duration of the current stage.
    pub open spec fn target(self) -> nat {
        self.configuration.duration_for(self.current_stage())
    }

    /// The running time of the current cycle has reached its target.
    pub open spec fn is_due(self, now: nat) -> bool {
        self.current_cycle.elapsed(now) >= self.target()
    }

    /// Time left until the current cycle is due; zero once it is.
    pub open spec fn remaining(self, now: nat) -> nat {
        sat_sub(self.target(), self.current_cycle.elapsed(now))
    }

    /// The time left as minutes and seconds, whole seconds rounded down.
    pub open spec fn remaining_text(self, now: nat) -> Seq<char> {
        if self.is_due(now) {
            zero_text()
        } else {
            clock_text(self.remaining(now) / (NANOS_PER_SEC as nat))
        }
    }

    /// The state after the remaining time was asked for at `now`: a cycle
    /// found due is marked finished, if it was not already.
    pub open spec fn observe(self, now: nat) -> Self {
        if self.is_due(now) {
            Session { current_cycle: self.current_cycle.mark_finished(now), ..self }
        } else {
            self
        }
    }

    /// Start, pause or resume. Pausing brings up the annotation popup.
    pub open spec fn toggle(self, at: nat) -> Self {
        Session {
            current_cycle: self.current_cycle.toggle(at),
            view: if self.current_cycle.is_started() && !self.current_cycle.is_paused() {
                AppView::AnnotationPopup
            } else {
                self.view
            },
            ..self
        }
    }

    /// The current cycle is archived, finished at `at` unless it already was,
    /// and the next iteration begins, not started.
    pub open spec fn finish(self, at: nat) -> Self {
        Session {
            current_cycle: CycleModel::new(self.current_cycle.stage_iteration + 1),
            history: self.history.push(self.current_cycle.mark_finished(at)),
            ..self
        }
    }

    pub open spec fn append_annotation(self, c: char) -> Self {
        Session { current_cycle: self.current_cycle.append_annotation(c), ..self }
    }

    pub open spec fn pop_annotation(self) -> Self {
        Session { current_cycle: self.current_cycle.pop_annotation(), ..self }
    }

    pub open spec fn change_view(self, view: AppView) -> Self {
        Session { view, ..self }
    }
}

/// In a chronological history that begins at `start`, the pauses fit between
/// `start` and the end of the last one.
pub proof fn lemma_paused_total_bound(start: nat, history: Seq<InterruptionModel>)
    requires
        chronological(start, history),
    ensures
        start + paused_total(history) <= end_of(start, history),
    decreases history.len(),
{
    if history.len() > 0 {
        let front = history.drop_last();
        lemma_chronological_take(start, history, history.len() - 1);
        assert(history.take(history.len() - 1) =~= front);
        lemma_paused_total_bound(start, front);
        assert(history.last().closed_from(start));
        if front.len() > 0 {
            assert(front.last() == history[history.len() - 2]);
            assert(history[history.len() - 2].finished_at.unwrap() <= history.last().started_at);
        }
    }
}

/// Adding a pause to the end of a history adds its length to the total.
pub proof fn lemma_paused_total_push(history: Seq<InterruptionModel>, p: InterruptionModel)
    ensures
        paused_total(history.push(p)) == paused_total(history) + p.closed_duration(),
{
    assert(history.push(p).drop_last() =~= history);
}

/// A beginning of a chronological history is chronological.
pub proof fn lemma_chronological_take(start: nat, history: Seq<InterruptionModel>, n: int)
    requires
        chronological(start, history),
        0 <= n <= history.len(),
    ensures
        chronological(start, history.take(n)),
{
    let front = history.take(n);
    assert forall|i: int| 0 <= i < front.len() implies (#[trigger] front[i]).closed_from(
        start,
    ) by {
        assert(front[i] == history[i]);
    }
    assert forall|i: int, j: int| 0 <= i < j < front.len() implies (
    #[trigger] front[i]).finished_at.unwrap() <= (#[trigger] front[j]).started_at by {
        assert(front[i] == history[i]);
        assert(front[j] == history[j]);
    }
}

/// In a chronological history no pause ends after the last one.
pub proof fn lemma_latest_closed(start: nat, history: Seq<InterruptionModel>, i: int)
    requires
        chronological(start, history),
        0 <= i < history.len(),
    ensures
        history[i].finished_at.unwrap() <= end_of(start, history),
{
    if i < history.len() - 1 {
        assert(history[i].finished_at.unwrap() <= history[history.len() - 1].started_at);
        assert(history[history.len() - 1].closed_from(start));
    }
}

/// Closing the open pause at an instant no earlier than its beginning keeps
/// the cycle well formed and makes that instant its latest record.
pub proof fn lemma_close_pause(cycle: CycleModel, at: nat)
    requires
        cycle.wf(),
        cycle.is_paused(),
        cycle.latest() <= at,
    ensures
        cycle.close_pause(at).wf(),
        cycle.close_pause(at).latest() == at,
{
    let before = cycle.interruption_history;
    let after = cycle.close_pause(at).interruption_history;
    assert(after.last() == cycle.interruption.unwrap().close(at));
    assert forall|i: int| 0 <= i < after.len() implies (#[trigger] after[i]).closed_from(
        cycle.origin(),
    ) by {
        if i < before.len() {
            assert(after[i] == before[i]);
        } else {
            lemma_paused_total_bound(cycle.origin(), before);
        }
    }
    assert forall|i: int, j: int| 0 <= i < j < after.len() implies (
    #[trigger] after[i]).finished_at.unwrap() <= (#[trigger] after[j]).started_at by {
        assert(after[i] == before[i]);
        if j < before.len() {
            assert(after[j] == before[j]);
        } else {
            lemma_latest_closed(cycle.origin(), before, i);
        }
    }
}

} // verus!
