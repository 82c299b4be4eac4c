//! Stages, interruptions and cycles.

use vstd::prelude::*;
use crate::model::{
    lemma_chronological_take, lemma_close_pause, lemma_paused_total_bound,
    lemma_paused_total_push, paused_total, CycleModel, InterruptionModel,
};
use crate::time::{instant_view, Duration, Instant};

verus! {

/// Pomodoro stages.
#[derive(Clone, Copy, Debug, PartialEq, Eq)]
pub enum Stage {
    Work,
    ShortBreak,
    LongBreak,
}

/// An interruption to a pomodoro stage.
#[derive(Debug)]
pub struct Interruption {
    started_at: Instant,
    finished_at: Option<Instant>,
    annotation: Option<String>,
}

impl View for Interruption {
    type V = InterruptionModel;

    closed spec fn view(&self) -> InterruptionModel {
        InterruptionModel {
            started_at: self.started_at@,
            finished_at: instant_view(self.finished_at),
            annotation: match self.annotation {
                Some(a) => Some(a@),
                None => None,
            },
        }
    }
}

impl Clone for Interruption {
    fn clone(&self) -> (r: Interruption)
        ensures
            r@ == self@,
    {
        Interruption {
            started_at: self.started_at,
            finished_at: self.finished_at,
            annotation: match &self.annotation {
                Some(a) => Some(a.clone()),
                None => None,
            },
        }
    }
}

impl Interruption {
    /// An open interruption that begins at `started_at`, without a note.
    pub fn new(started_at: Instant) -> (r: Interruption)
        ensures
            r@ == InterruptionModel::new(started_at@),
    {
        Interruption { started_at, finished_at: None, annotation: None }
    }

    pub fn started_at(&self) -> (at: Instant)
        ensures
            at@ == self@.started_at,
    {
        self.started_at
    }

    pub fn finished_at(&self) -> (at: Option<Instant>)
        ensures
            instant_view(at) == self@.finished_at,
    {
        self.finished_at
    }

    pub fn annotation(&self) -> (note: Option<&String>)
        ensures
            match note {
                Some(text) => self@.annotation == Some(text@),
                None => self@.annotation is None,
            },
    {
        self.annotation.as_ref()
    }

    pub fn is_open(&self) -> (open: bool)
        ensures
            open == self@.is_open(),
    {
        self.finished_at.is_none()
    }

    /// Ends the interruption at `at`.
    pub fn close(&mut self, at: Instant)
        requires
            old(self)@.is_open(),
            old(self)@.started_at <= at@,
        ensures
            final(self)@ == old(self)@.close(at@),
            final(self)@.wf(),
    {
        self.finished_at = Some(at);
    }

    /// Adds `c` to the end of the note, creating the note if there is none.
    pub fn append_char(&mut self, c: char)
        requires
            old(self)@.is_open(),
        ensures
            final(self)@ == old(self)@.append_char(c),
    {
        let mut text = match self.annotation.take() {
            Some(a) => a,
            None => String::new(),
        };
        text.push(c);
        self.annotation = Some(text);
        assert(self@.annotation.unwrap() =~= old(self)@.append_char(c).annotation.unwrap());
    }

    /// Removes the last character of the note, if it has one.
    pub fn remove_last_char(&mut self)
        requires
            old(self)@.is_open(),
        ensures
            final(self)@ == old(self)@.remove_last_char(),
    {
        match self.annotation.take() {
            Some(mut text) => {
                text.pop();
                self.annotation = Some(text);
            },
            None => {},
        }
    }

    /// How long the interruption has lasted: up to its end, or up to `now`
    /// while it is open. Zero where that instant lies before its beginning.
    pub fn duration(&self, now: Instant) -> (d: Duration)
        ensures
            d@ == self@.duration(now@),
    {
        let until = match self.finished_at {
            Some(f) => f,
            None => now,
        };
        until.saturating_duration_since(self.started_at)
    }

    /// The length of the interruption once closed; zero while it is open.
    pub fn closed_duration(&self) -> (d: Duration)
        ensures
            d@ == self@.closed_duration(),
    {
        match self.finished_at {
            Some(f) => f.saturating_duration_since(self.started_at),
            None => Duration::from_nanos(0),
        }
    }
}

/// The models of the interruptions in `interruptions`, in the same order.
pub open spec fn interruption_models(interruptions: Seq<Interruption>) -> Seq<InterruptionModel> {
    interruptions.map_values(|i: Interruption| i@)
}

/// A pomodoro cycle.
#[derive(Debug)]
pub struct Cycle {
    stage_iteration: usize,
    started_at: Option<Instant>,
    finished_at: Option<Instant>,
    interruption_history: Vec<Interruption>,
    interruption: Option<Interruption>,
}

impl View for Cycle {
    type V = CycleModel;

    closed spec fn view(&self) -> CycleModel {
        CycleModel {
            stage_iteration: self.stage_iteration as nat,
            started_at: instant_view(self.started_at),
            finished_at: instant_view(self.finished_at),
            interruption_history: interruption_models(self.interruption_history@),
            interruption: match self.interruption {
                Some(p) => Some(p@),
                None => None,
            },
        }
    }
}

impl Clone for Cycle {
    fn clone(&self) -> (r: Cycle)
        ensures
            r@ == self@,
    {
        let mut interruption_history: Vec<Interruption> = Vec::new();
        let mut i: usize = 0;
        while i < self.interruption_history.len()
            invariant
                i <= self.interruption_history.len(),
                interruption_models(interruption_history@) == interruption_models(
                    self.interruption_history@.take(i as int),
                ),
            decreases self.interruption_history.len() - i,
        {
            let copy = self.interruption_history[i].clone();
            proof {
                let source = self.interruption_history@;
                assert(source.take(i as int + 1) =~= source.take(i as int).push(source[i as int]));
                assert(interruption_models(interruption_history@.push(copy))
                    =~= interruption_models(interruption_history@).push(copy@));
                assert(interruption_models(source.take(i as int).push(source[i as int]))
                    =~= interruption_models(source.take(i as int)).push(source[i as int]@));
            }
            interruption_history.push(copy);
            i += 1;
        }
        assert(self.interruption_history@.take(i as int) =~= self.interruption_history@);
        Cycle {
            stage_iteration: self.stage_iteration,
            started_at: self.started_at,
            finished_at: self.finished_at,
            interruption_history,
            interruption: match &self.interruption {
                Some(p) => Some(p.clone()),
                None => None,
            },
        }
    }
}

impl Cycle {
    /// The cycle's model is well formed.
    pub open spec fn wf(&self) -> bool {
        self@.wf()
    }

    /// A cycle that has not started.
    pub fn new(stage_iteration: usize) -> (r: Cycle)
        ensures
            r@ == CycleModel::new(stage_iteration as nat),
            r.wf(),
    {
        let r = Cycle {
            stage_iteration,
            started_at: None,
            finished_at: None,
            interruption_history: Vec::new(),
            interruption: None,
        };
        assert(r@.interruption_history =~= Seq::empty());
        r
    }

    pub fn stage_iteration(&self) -> (n: usize)
        ensures
            n == self@.stage_iteration,
    {
        self.stage_iteration
    }

    pub fn started_at(&self) -> (at: Option<Instant>)
        ensures
            instant_view(at) == self@.started_at,
    {
        self.started_at
    }

    pub fn finished_at(&self) -> (at: Option<Instant>)
        ensures
            instant_view(at) == self@.finished_at,
    {
        self.finished_at
    }

    /// The closed interruptions, oldest first.
    pub fn interruption_history(&self) -> (history: &Vec<Interruption>)
        ensures
            interruption_models(history@) == self@.interruption_history,
    {
        &self.interruption_history
    }

    /// The interruption that is open now.
    pub fn interruption(&self) -> (open: Option<&Interruption>)
        ensures
            match open {
                Some(p) => self@.interruption == Some(p@),
                None => self@.interruption is None,
            },
    {
        self.interruption.as_ref()
    }

    pub fn is_started(&self) -> (started: bool)
        ensures
            started == self@.is_started(),
    {
        self.started_at.is_some()
    }

    pub fn is_paused(&self) -> (paused: bool)
        ensures
            paused == self@.is_paused(),
    {
        self.interruption.is_some()
    }

    /// The latest instant that a start, pause or resume has recorded; the
    /// clock's origin for a cycle that has not started.
    pub fn latest(&self) -> (at: Instant)
        ensures
            at@ == self@.latest(),
    {
        match &self.interruption {
            Some(p) => p.started_at(),
            None => {
                let n: usize = self.interruption_history.len();
                if n > 0 {
                    let last = &self.interruption_history[n - 1];
                    assert(self@.interruption_history.last() == last@);
                    match last.finished_at() {
                        Some(f) => f,
                        None => last.started_at(),
                    }
                } else {
                    match self.started_at {
                        Some(s) => s,
                        None => Instant::from_nanos(0),
                    }
                }
            },
        }
    }

    /// Starts the timer at `at`. A cycle that has started stays as it is.
    pub fn start(&mut self, at: Instant)
        ensures
            final(self)@ == old(self)@.start(at@),
            old(self).wf() ==> final(self).wf(),
    {
        if self.started_at.is_none() {
            self.started_at = Some(at);
        }
    }

    /// Opens a pause at `at`.
    pub fn open_pause(&mut self, at: Instant)
        requires
            old(self).wf(),
            old(self)@.is_started(),
            !old(self)@.is_paused(),
            old(self)@.latest() <= at@,
        ensures
            final(self)@ == old(self)@.open_pause(at@),
            final(self).wf(),
    {
        self.interruption = Some(Interruption::new(at));
    }

    /// Closes the open pause at `at` and appends it to the history.
    pub fn close_pause(&mut self, at: Instant)
        requires
            old(self).wf(),
            old(self)@.is_paused(),
            old(self)@.latest() <= at@,
        ensures
            final(self)@ == old(self)@.close_pause(at@),
            final(self).wf(),
    {
        let mut pause = self.interruption.take().unwrap();
        pause.close(at);
        self.interruption_history.push(pause);
        proof {
            assert(self@.interruption_history =~= old(self)@.interruption_history.push(pause@));
            lemma_close_pause(old(self)@, at@);
        }
    }

    /// Marks the cycle finished at `at`. A finished cycle keeps its instant.
    pub fn mark_finished(&mut self, at: Instant)
        ensures
            final(self)@ == old(self)@.mark_finished(at@),
            old(self).wf() ==> final(self).wf(),
    {
        if self.finished_at.is_none() {
            self.finished_at = Some(at);
        }
    }

    /// Adds `c` to the note of the open pause; does nothing while running.
    pub fn append_annotation_char(&mut self, c: char)
        requires
            old(self).wf(),
        ensures
            final(self)@ == old(self)@.append_annotation(c),
            final(self).wf(),
    {
        match self.interruption.take() {
            Some(mut pause) => {
                pause.append_char(c);
                self.interruption = Some(pause);
            },
            None => {},
        }
    }

    /// Removes the last character from the note of the open pause; does
    /// nothing while running.
    pub fn pop_annotation_char(&mut self)
        requires
            old(self).wf(),
        ensures
            final(self)@ == old(self)@.pop_annotation(),
            final(self).wf(),
    {
        match self.interruption.take() {
            Some(mut pause) => {
                pause.remove_last_char();
                self.interruption = Some(pause);
            },
            None => {},
        }
    }

    /// The time spent in closed pauses.
    pub fn paused_time(&self) -> (total: Duration)
        requires
            self.wf(),
        ensures
            total@ == paused_total(self@.interruption_history),
    {
        let mut total: u64 = 0;
        let mut i: usize = 0;
        while i < self.interruption_history.len()
            invariant
                self.wf(),
                i <= self.interruption_history.len(),
                total == paused_total(self@.interruption_history.take(i as int)),
            decreases self.interruption_history.len() - i,
        {
            let pause = &self.interruption_history[i];
            let d = pause.closed_duration();
            proof {
                let history = self@.interruption_history;
                let upto = history.take(i as int + 1);
                assert(upto =~= history.take(i as int).push(history[i as int]));
                lemma_paused_total_push(history.take(i as int), history[i as int]);
                lemma_chronological_take(self@.origin(), history, i as int + 1);
                lemma_paused_total_bound(self@.origin(), upto);
                assert(upto.last() == pause@);
                match pause.finished_at {
                    Some(f) => f.lemma_fits(),
                    None => {},
                }
            }
            total = total + d.as_nanos();
            i += 1;
        }
        assert(self@.interruption_history.take(i as int) =~= self@.interruption_history);
        Duration::from_nanos(total)
    }

    /// Time that the cycle has spent running as of `now`, pauses left out.
    ///
    /// 1. A cycle that has not started has run for no time.
    /// 2. One that was never paused has run since its start.
    /// 3. One that was paused and runs again has run since its start, less the
    ///    closed pauses.
    /// 4. One that is paused has run from its start to the beginning of the
    ///    open pause, less the closed pauses: the clock stands still.
    pub fn elapsed_active_time(&self, now: Instant) -> (d: Duration)
        requires
            self.wf(),
        ensures
            d@ == self@.elapsed(now@),
    {
        let started_at = match self.started_at {
            Some(s) => s,
            None => {
                return Duration::from_nanos(0);
            },
        };
        if self.interruption_history.len() == 0 && self.interruption.is_none() {
            assert(paused_total(self@.interruption_history) == 0);
            return now.saturating_duration_since(started_at);
        }
        let total_elapsed_on_pauses = self.paused_time();
        let was_last_active_at = match &self.interruption {
            Some(pause) => pause.started_at(),
            None => now,
        };
        was_last_active_at.saturating_duration_since(started_at).saturating_sub(
            total_elapsed_on_pauses,
        )
    }
}

} // verus!
