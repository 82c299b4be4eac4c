//! What the keyboard and the passing of time do to a session.

use vstd::prelude::*;
use crate::app::{App, AppView};
use crate::model::Session;
use crate::time::Instant;

verus! {

/// A key of the keyboard, as far as the session tells keys apart.
#[derive(Clone, Copy, Debug, PartialEq, Eq)]
pub enum Key {
    Char(char),
    Backspace,
    Enter,
    Other,
}

/// What is left to do for whoever runs the session, once a key was handled.
#[derive(Clone, Copy, Debug, PartialEq, Eq)]
pub enum Command {
    /// Nothing.
    Proceed,
    /// Leave the program.
    Quit,
    /// Show the outlines of the widgets if they are hidden, hide them if they are shown.
    ToggleBorders,
    /// Sound the signal that a cycle has ended.
    Alert,
}

impl Session {
    /// The session after `key` was pressed at `at`.
    ///
    /// In the normal view `c` ends the cycle, the space bar toggles the timer
    /// and `i` lists the interruptions. In the annotation popup characters go
    /// to the note, backspace takes the last one away and enter closes the
    /// popup. Any key closes the list of interruptions.
    pub open spec fn press(self, key: Key, at: nat) -> Session {
        match self.view {
            AppView::Normal => match key {
                Key::Char(c) => if c == 'c' {
                    self.finish(at)
                } else if c == ' ' {
                    self.toggle(at)
                } else if c == 'i' {
                    self.change_view(AppView::InterruptionsList)
                } else {
                    self
                },
                _ => self,
            },
            AppView::AnnotationPopup => match key {
                Key::Char(c) => self.append_annotation(c),
                Key::Backspace => self.pop_annotation(),
                Key::Enter => self.change_view(AppView::Normal),
                Key::Other => self,
            },
            AppView::InterruptionsList => self.change_view(AppView::Normal),
        }
    }

    /// What pressing `key` leaves to do: in the normal view `q` quits, `d`
    /// toggles the outlines and `c`, which ends the cycle, calls for the signal.
    pub open spec fn command(self, key: Key) -> Command {
        match (self.view, key) {
            (AppView::Normal, Key::Char(c)) => if c == 'q' {
                Command::Quit
            } else if c == 'd' {
                Command::ToggleBorders
            } else if c == 'c' {
                Command::Alert
            } else {
                Command::Proceed
            },
            _ => Command::Proceed,
        }
    }

    /// The session after the remaining time was asked for at `now` and a
    /// cycle found due was ended at once.
    pub open spec fn tick(self, now: nat) -> Session {
        if self.is_due(now) {
            self.observe(now).finish(now)
        } else {
            self
        }
    }
}

impl App {
    /// Handles a key pressed at `at`, and says what is left to do.
    pub fn handle_key(&mut self, key: Key, at: Instant) -> (command: Command)
        requires
            old(self).wf(),
            old(self)@.current_cycle.latest() <= at@,
        ensures
            final(self)@ == old(self)@.press(key, at@),
            command == old(self)@.command(key),
            final(self).wf(),
    {
        match *self.get_view() {
            AppView::Normal => match key {
                Key::Char(c) => {
                    if c == 'q' {
                        Command::Quit
                    } else if c == 'c' {
                        self.finish_current_cycle(at);
                        Command::Alert
                    } else if c == 'd' {
                        Command::ToggleBorders
                    } else if c == ' ' {
                        self.toggle_timer(at);
                        Command::Proceed
                    } else if c == 'i' {
                        self.change_view(AppView::InterruptionsList);
                        Command::Proceed
                    } else {
                        Command::Proceed
                    }
                },
                _ => Command::Proceed,
            },
            AppView::AnnotationPopup => {
                match key {
                    Key::Char(c) => {
                        self.append_to_interruption_annotation(c);
                    },
                    Key::Backspace => {
                        self.pop_from_interruption_annotation();
                    },
                    Key::Enter => {
                        self.change_view(AppView::Normal);
                    },
                    Key::Other => {},
                }
                Command::Proceed
            },
            AppView::InterruptionsList => {
                self.change_view(AppView::Normal);
                Command::Proceed
            },
        }
    }

    /// Asks for the remaining time at `now` and ends a cycle found due at
    /// once. Returns whether it was due, and the time that was left as text.
    pub fn tick(&mut self, now: Instant) -> (r: (bool, String))
        requires
            old(self).wf(),
        ensures
            r.0 == old(self)@.is_due(now@),
            r.1@ == old(self)@.remaining_text(now@),
            final(self)@ == old(self)@.tick(now@),
            final(self).wf(),
    {
        let (is_due, remaining_time) = self.get_remaining_time(now);
        if is_due {
            self.finish_current_cycle(now);
        }
        (is_due, remaining_time)
    }
}

} // verus!
