//! The session: configuration, the live cycle and the archive of finished cycles.

use vstd::prelude::*;
use crate::format::{format_clock, format_zero};
use crate::model::{ConfigurationModel, CycleModel, Session};
use crate::pomodoro_technique::{interruption_models, Cycle, Interruption, Stage};
use crate::time::{Duration, Instant};

verus! {

/// Target durations of the stages and the order in which the stages follow
/// each other.
#[derive(Debug)]
pub struct AppConfiguration {
    work_duration: Duration,
    short_break_duration: Duration,
    long_break_duration: Duration,
    stage_sequence: Vec<Stage>,
}

impl View for AppConfiguration {
    type V = ConfigurationModel;

    closed spec fn view(&self) -> ConfigurationModel {
        ConfigurationModel {
            work_duration: self.work_duration@,
            short_break_duration: self.short_break_duration@,
            long_break_duration: self.long_break_duration@,
            stage_sequence: self.stage_sequence@,
        }
    }
}

impl Default for AppConfiguration {
    /// Twenty-five minutes of work, five of short break, twenty of long
    /// break; three rounds of work and short break, then work and a long break.
    fn default() -> (r: AppConfiguration)
        ensures
            r@ == ConfigurationModel::standard(),
            r.wf(),
    {
        let mut stage_sequence: Vec<Stage> = Vec::new();
        stage_sequence.push(Stage::Work);
        stage_sequence.push(Stage::ShortBreak);
        stage_sequence.push(Stage::Work);
        stage_sequence.push(Stage::ShortBreak);
        stage_sequence.push(Stage::Work);
        stage_sequence.push(Stage::ShortBreak);
        stage_sequence.push(Stage::Work);
        stage_sequence.push(Stage::LongBreak);
        let r = AppConfiguration {
            work_duration: Duration::from_secs(1500),
            short_break_duration: Duration::from_secs(300),
            long_break_duration: Duration::from_secs(1200),
            stage_sequence,
        };
        assert(r@.stage_sequence =~= ConfigurationModel::standard().stage_sequence);
        r
    }
}

impl AppConfiguration {
    /// The sequence names at least one stage.
    pub open spec fn wf(&self) -> bool {
        self@.wf()
    }

    /// A configuration with the given target durations and sequence of
    /// stages; `None` where the sequence is empty.
    pub fn new(
        work_duration: Duration,
        short_break_duration: Duration,
        long_break_duration: Duration,
        stage_sequence: Vec<Stage>,
    ) -> (r: Option<AppConfiguration>)
        ensures
            stage_sequence@.len() == 0 <==> r is None,
            r matches Some(config) ==> config.wf() && config@ == (ConfigurationModel {
                work_duration: work_duration@,
                short_break_duration: short_break_duration@,
                long_break_duration: long_break_duration@,
                stage_sequence: stage_sequence@,
            }),
    {
        if stage_sequence.len() == 0 {
            None
        } else {
            Some(
                AppConfiguration {
                    work_duration,
                    short_break_duration,
                    long_break_duration,
                    stage_sequence,
                },
            )
        }
    }

    /// The target duration of a stage of the given kind.
    pub fn duration_for(&self, stage: &Stage) -> (d: Duration)
        ensures
            d@ == self@.duration_for(*stage),
    {
        match stage {
            Stage::Work => self.work_duration,
            Stage::ShortBreak => self.short_break_duration,
            Stage::LongBreak => self.long_break_duration,
        }
    }

    /// The stages in the order in which they follow each other.
    pub fn stage_sequence(&self) -> (stages: &Vec<Stage>)
        ensures
            stages@ == self@.stage_sequence,
    {
        &self.stage_sequence
    }
}

/// What the user interface shows.
#[derive(Clone, Copy, Debug, PartialEq, Eq)]
pub enum AppView {
    Normal,
    AnnotationPopup,
    InterruptionsList,
}

/// The models of the cycles in `cycles`, in the same order.
pub open spec fn cycle_models(cycles: Seq<Cycle>) -> Seq<CycleModel> {
    cycles.map_values(|c: Cycle| c@)
}

/// A session: the live cycle, the finished ones and what is on screen.
#[derive(Debug)]
pub struct App {
    config: AppConfiguration,
    current_view: AppView,
    current_cycle: Cycle,
    history: Vec<Cycle>,
}

impl View for App {
    type V = Session;

    closed spec fn view(&self) -> Session {
        Session {
            configuration: self.config@,
            view: self.current_view,
            current_cycle: self.current_cycle@,
            history: cycle_models(self.history@),
        }
    }
}

impl Default for App {
    /// A session with the standard configuration, at its first cycle.
    fn default() -> (r: App)
        ensures
            r@ == Session::new(ConfigurationModel::standard()),
            r.wf(),
    {
        App::new(AppConfiguration::default())
    }
}

impl App {
    /// The session's model is well formed.
    pub open spec fn wf(&self) -> bool {
        self@.wf()
    }

    /// A session with the given configuration, at its first cycle, not started.
    pub fn new(config: AppConfiguration) -> (r: App)
        requires
            config.wf(),
        ensures
            r@ == Session::new(config@),
            r.wf(),
    {
        let r = App {
            config,
            current_view: AppView::Normal,
            current_cycle: Cycle::new(0),
            history: Vec::new(),
        };
        assert(r@.history =~= Seq::empty());
        r
    }

    pub fn configuration(&self) -> (config: &AppConfiguration)
        ensures
            config@ == self@.configuration,
    {
        &self.config
    }

    /// The live cycle.
    pub fn current_cycle(&self) -> (cycle: &Cycle)
        ensures
            cycle@ == self@.current_cycle,
    {
        &self.current_cycle
    }

    /// The finished cycles, in the order in which they finished.
    pub fn history(&self) -> (cycles: &Vec<Cycle>)
        ensures
            cycle_models(cycles@) == self@.history,
    {
        &self.history
    }

    pub fn change_view(&mut self, view: AppView)
        ensures
            final(self)@ == old(self)@.change_view(view),
            old(self).wf() ==> final(self).wf(),
    {
        self.current_view = view
    }

    pub fn get_view(&self) -> (view: &AppView)
        ensures
            *view == self@.view,
    {
        &self.current_view
    }

    pub fn is_paused(&self) -> (paused: bool)
        ensures
            paused == self@.current_cycle.is_paused(),
    {
        self.current_cycle.is_paused()
    }

    /// How long the open pause has lasted at `now`, in whole seconds; zero
    /// while the timer runs or has not started.
    pub fn get_pause_elapsed_time(&self, now: Instant) -> (secs: u64)
        ensures
            secs == self@.current_cycle.pause_elapsed_secs(now@),
    {
        match self.current_cycle.interruption() {
            Some(interruption) => now.saturating_duration_since(
                interruption.started_at(),
            ).as_secs(),
            None => 0,
        }
    }

    /// Adds `c` to the note of the open pause; does nothing while the timer
    /// runs or has not started.
    pub fn append_to_interruption_annotation(&mut self, c: char)
        requires
            old(self).wf(),
        ensures
            final(self)@ == old(self)@.append_annotation(c),
            final(self).wf(),
    {
        self.current_cycle.append_annotation_char(c);
    }

    /// Removes the last character from the note of the open pause; does
    /// nothing where there is no pause, no note or no character.
    pub fn pop_from_interruption_annotation(&mut self)
        requires
            old(self).wf(),
        ensures
            final(self)@ == old(self)@.pop_annotation(),
            final(self).wf(),
    {
        self.current_cycle.pop_annotation_char();
    }

    /// The note of the open pause.
    pub fn get_interruption_annotation(&self) -> (note: Option<String>)
        ensures
            match note {
                Some(text) => self@.current_cycle.annotation() == Some(text@),
                None => self@.current_cycle.annotation() is None,
            },
    {
        match self.current_cycle.interruption() {
            Some(interruption) => match interruption.annotation() {
                Some(text) => Some(text.clone()),
                None => None,
            },
            None => None,
        }
    }

    /// The closed pauses of the live cycle, oldest first.
    pub fn get_interruption_history(&self) -> (history: &Vec<Interruption>)
        ensures
            interruption_models(history@) == self@.current_cycle.interruption_history,
    {
        self.current_cycle.interruption_history()
    }

    /// The stage of the live cycle.
    pub fn get_current_stage(&self) -> (stage: &Stage)
        requires
            self.wf(),
        ensures
            *stage == self@.current_stage(),
    {
        let idx: usize = self.current_cycle.stage_iteration() % self.config.stage_sequence.len();
        &self.config.stage_sequence[idx]
    }

    /// Whether `at` is no earlier than the latest instant that a start, pause
    /// or resume of the live cycle has recorded, so that the timer can be
    /// toggled at `at`.
    pub fn accepts(&self, at: Instant) -> (ok: bool)
        ensures
            ok == (self@.current_cycle.latest() <= at@),
    {
        self.current_cycle.latest().le(&at)
    }

    /// Toggles the timer at `at`:
    ///
    /// - starts it if it has not started yet,
    /// - pauses it if it is running, and brings up the annotation popup,
    /// - resumes it if it is paused, and files the pause in the history.
    pub fn toggle_timer(&mut self, at: Instant)
        requires
            old(self).wf(),
            old(self)@.current_cycle.latest() <= at@,
        ensures
            final(self)@ == old(self)@.toggle(at@),
            final(self).wf(),
    {
        if !self.current_cycle.is_started() {
            self.current_cycle.start(at);
            return ;
        }
        if !self.current_cycle.is_paused() {
            self.current_cycle.open_pause(at);
            self.current_view = AppView::AnnotationPopup;
        } else {
            self.current_cycle.close_pause(at);
        }
    }

    /// Time that the live cycle has spent running as of `now`.
    pub fn get_elapsed_time(&self, now: Instant) -> (d: Duration)
        requires
            self.wf(),
        ensures
            d@ == self@.current_cycle.elapsed(now@),
    {
        self.current_cycle.elapsed_active_time(now)
    }

    /// Whether the live cycle is due at `now`, and the time left as text,
    /// `"00:00"` once it is due. A cycle found due is marked finished at
    /// `now`, unless it already was.
    pub fn get_remaining_time(&mut self, now: Instant) -> (r: (bool, String))
        requires
            old(self).wf(),
        ensures
            r.0 == old(self)@.is_due(now@),
            r.1@ == old(self)@.remaining_text(now@),
            final(self)@ == old(self)@.observe(now@),
            final(self).wf(),
    {
        let elapsed = self.get_elapsed_time(now);
        let duration = self.config.duration_for(self.get_current_stage());
        if elapsed.ge(&duration) {
            self.current_cycle.mark_finished(now);
            return (true, format_zero());
        }
        let remaining: u64 = duration.saturating_sub(elapsed).as_secs();
        (false, format_clock(remaining))
    }

    /// Ends the live cycle at `at`, due or not: it is marked finished, unless
    /// it already was, and moved to the archive, and the next cycle begins,
    /// not started.
    pub fn finish_current_cycle(&mut self, at: Instant)
        requires
            old(self).wf(),
        ensures
            final(self)@ == old(self)@.finish(at@),
            final(self).wf(),
    {
        self.current_cycle.mark_finished(at);
        let ghost done = self.current_cycle@;
        let stage_iteration: usize = self.current_cycle.stage_iteration();
        let mut cycle = Cycle::new(stage_iteration);
        core::mem::swap(&mut self.current_cycle, &mut cycle);
        self.history.push(cycle);
        // The archive now holds one cycle more than the iteration counts, so the
        // next iteration is a length that the archive has reached.
        assert(stage_iteration + 1 == self.history.len());
        self.current_cycle = Cycle::new(stage_iteration + 1);
        proof {
            assert(self@.history =~= old(self)@.history.push(done));
            assert forall|i: int| 0 <= i < self@.history.len() implies {
                &&& (#[trigger] self@.history[i]).wf()
                &&& self@.history[i].finished_at is Some
                &&& self@.history[i].stage_iteration == i
            } by {
                if i < old(self)@.history.len() {
                    assert(self@.history[i] == old(self)@.history[i]);
                }
            }
        }
    }
}

} // verus!
