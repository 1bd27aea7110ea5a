//! What a capture does, as a function from its state and what it sees to its next state and step.

use vstd::prelude::*;

use crate::capture::{
    CAPTURE_TIMEOUT, Key, Phase, QUIET, RESTORE_TIMEOUT, STEP_TIMEOUT,
};
use crate::failure::Failure;
use crate::scroll::{distance, repeats};
use crate::text::{lines_text, occurs};
use crate::transcript::{ActiveScreen, SnapshotView, TranscriptView};

verus! {

/// A screen, what it shows, and the number of the terminal's last output when it was read.
pub struct ReadingView {
    pub screen: ActiveScreen,
    pub snapshot: SnapshotView,
    pub seq: u64,
}

/// What a terminal tells of itself at one moment.
pub struct ObservationView {
    pub input_seq: u64,
    pub content_seq: u64,
    pub synchronized: bool,
    pub reading: Option<ReadingView>,
    pub confirmed_seq: u64,
}

/// What is to be done after a poll: nothing yet, keys to press, or nothing any more.
pub enum StepView {
    Wait,
    Send { key: Key, count: nat },
    Finished(Result<Seq<char>, Failure>),
}

/// The step of a capture that ends with `failure`.
pub open spec fn failed(failure: Failure) -> StepView {
    StepView::Finished(Err(failure))
}

/// How many rows are asked for at a time where `height` rows are in view: half of them, so that
/// two views have rows in common.
pub open spec fn batch(height: nat) -> nat {
    if height / 2 >= 1 {
        height / 2
    } else {
        1
    }
}

/// A phase on the way back to the first view.
pub open spec fn restoring(phase: Phase) -> bool {
    phase == Phase::RestoreEnd || phase == Phase::RestoreUp
}

/// A phase that began with one jump, which is not yet over before something is drawn.
pub open spec fn after_a_jump(phase: Phase) -> bool {
    ||| phase == Phase::VerifyBottom
    ||| phase == Phase::LoadStart
    ||| phase == Phase::CaptureEnd
    ||| phase == Phase::VerifyTop
    ||| phase == Phase::RestoreEnd
}

/// The state of a capture.
pub struct CaptureView {
    pub initial: TranscriptView,
    pub previous: TranscriptView,
    pub history: Seq<Seq<char>>,
    pub bottom: Option<TranscriptView>,
    pub phase: Phase,
    pub initial_from_bottom: nat,
    pub restore_remaining: nat,
    pub sent_rows: nat,
    pub input_seq: u64,
    pub output_seq: u64,
    pub step_observed_output: bool,
    pub quiet_until: int,
    pub step_deadline: int,
    pub deadline: int,
    pub error: Option<Failure>,
}

impl CaptureView {
    /// The state of a capture that begins at `now` with `initial` in view.
    pub open spec fn started(
        initial: TranscriptView,
        seq: u64,
        input_seq: u64,
        now: int,
    ) -> CaptureView {
        CaptureView {
            initial,
            previous: initial,
            history: Seq::empty(),
            bottom: None,
            phase: Phase::Bottom,
            initial_from_bottom: 0,
            restore_remaining: 0,
            sent_rows: 0,
            input_seq,
            output_seq: seq,
            step_observed_output: false,
            quiet_until: now + QUIET,
            step_deadline: now + STEP_TIMEOUT,
            deadline: now + CAPTURE_TIMEOUT,
            error: None,
        }
    }

    /// The two views that are compared have the same height.
    pub open spec fn wf(self) -> bool {
        self.previous.body.len() == self.initial.body.len()
    }

    /// On the way down, the rows counted so far and those asked for last fit in a machine word.
    pub open spec fn movement_fits(self) -> bool {
        self.phase == Phase::Bottom ==> self.initial_from_bottom + self.sent_rows <= usize::MAX
    }

    pub open spec fn expired(self, now: int) -> bool {
        now >= self.deadline
    }

    /// Looks again after a short while.
    pub open spec fn resting(self, now: int) -> CaptureView {
        CaptureView { quiet_until: now + QUIET, ..self }
    }

    /// Looks again when the last keys have had their time.
    pub open spec fn patient(self) -> CaptureView {
        CaptureView { quiet_until: self.step_deadline, ..self }
    }

    pub open spec fn in_phase(self, phase: Phase) -> CaptureView {
        CaptureView { phase, ..self }
    }

    pub open spec fn at(self, current: TranscriptView) -> CaptureView {
        CaptureView { previous: current, ..self }
    }

    pub open spec fn with_error(self, error: Failure) -> CaptureView {
        CaptureView { error: Some(error), ..self }
    }

    /// Takes note of the number of the terminal's last output.
    pub open spec fn noting(self, seq: u64, now: int) -> CaptureView {
        if seq != self.output_seq {
            CaptureView {
                step_observed_output: true,
                output_seq: seq,
                quiet_until: now + QUIET,
                ..self
            }
        } else {
            self
        }
    }

    /// Looks at the terminal once.
    pub open spec fn poll(self, seen: ObservationView, now: int) -> (CaptureView, StepView) {
        if seen.input_seq != self.input_seq {
            (self, failed(Failure::Interrupted))
        } else if self.expired(now) && restoring(self.phase) {
            (self, failed(Failure::PositionNotRestored))
        } else {
            let c = self.noting(seen.content_seq, now);
            if !self.expired(now) && now < c.quiet_until {
                (c, StepView::Wait)
            } else if seen.synchronized {
                if !self.expired(now) && now < self.step_deadline {
                    (c.resting(now), StepView::Wait)
                } else {
                    (c.resting(now), failed(Failure::NotDrawn))
                }
            } else {
                match seen.reading {
                    None => if self.expired(now) {
                        (c, failed(Failure::TimedOutUnread))
                    } else {
                        (c.resting(now), StepView::Wait)
                    },
                    Some(reading) => c.read(reading, seen.confirmed_seq, now),
                }
            }
        }
    }

    /// Reads a screen that has come to rest.
    pub open spec fn read(
        self,
        reading: ReadingView,
        confirmed_seq: u64,
        now: int,
    ) -> (CaptureView, StepView) {
        if reading.seq != self.output_seq || confirmed_seq != reading.seq {
            if self.expired(now) {
                (self, failed(Failure::KeptChanging))
            } else {
                (
                    CaptureView {
                        output_seq: reading.seq,
                        step_observed_output: true,
                        quiet_until: now + QUIET,
                        ..self
                    },
                    StepView::Wait,
                )
            }
        } else if after_a_jump(self.phase) && !self.step_observed_output && now
            < self.step_deadline && !self.expired(now) {
            (self.resting(now), StepView::Wait)
        } else {
            match reading.snapshot.transcript(reading.screen) {
                None => (self, failed(Failure::LeftView)),
                Some(current) => if current.cols != self.initial.cols || current.body.len()
                    != self.initial.body.len() {
                    (self, failed(Failure::SizeChanged))
                } else {
                    self.advance(current, reading.snapshot.header(), now)
                },
            }
        }
    }

    /// Acts on the view that the last keys led to.
    pub open spec fn advance(
        self,
        current: TranscriptView,
        header: Seq<char>,
        now: int,
    ) -> (CaptureView, StepView) {
        let step = batch(current.body.len());
        if self.expired(now) {
            self.time_out(current, now)
        } else if self.sent_rows == 0 {
            (self.at(current), StepView::Send { key: Key::Down, count: step })
        } else {
            match self.phase {
                Phase::Bottom => self.go_down(current, step, now),
                Phase::VerifyBottom => self.verify_bottom(current),
                Phase::LoadStart => self.load_start(header, now),
                Phase::CaptureEnd => self.begin_capture(current, step, now),
                Phase::Capture => self.go_up(current, step, now),
                Phase::VerifyTop => self.verify_top(current, now),
                Phase::RestoreEnd => self.restore_end(current, step, now),
                Phase::RestoreUp => self.restore_up(current, step, now),
            }
        }
    }

    /// Gives up for want of time. A move down that is not yet counted is counted first.
    pub open spec fn time_out(self, current: TranscriptView, now: int) -> (CaptureView, StepView) {
        let c = self.with_error(Failure::TimedOut);
        if self.phase == Phase::Bottom && current != self.previous {
            match distance(self.previous.body, current.body, self.sent_rows) {
                None => (c, failed(Failure::TimedOutUnmeasured)),
                Some(rows) => c.counting(rows).at(current).restore(now),
            }
        } else {
            c.restore(now)
        }
    }

    pub open spec fn counting(self, rows: nat) -> CaptureView {
        CaptureView { initial_from_bottom: self.initial_from_bottom + rows, ..self }
    }

    pub open spec fn go_down(
        self,
        current: TranscriptView,
        step: nat,
        now: int,
    ) -> (CaptureView, StepView) {
        if current == self.previous {
            if now < self.step_deadline {
                (self.patient(), StepView::Wait)
            } else if repeats(current.body, step) {
                (self, failed(Failure::RepeatedOnTheWayDown))
            } else {
                (self.in_phase(Phase::VerifyBottom), StepView::Send { key: Key::End, count: 1 })
            }
        } else {
            match distance(self.previous.body, current.body, self.sent_rows) {
                None => (self, failed(Failure::ScrollUnmeasured)),
                Some(rows) => (
                    self.counting(rows).at(current),
                    StepView::Send { key: Key::Down, count: step },
                ),
            }
        }
    }

    pub open spec fn verify_bottom(self, current: TranscriptView) -> (CaptureView, StepView) {
        if current != self.previous {
            (self, failed(Failure::BottomNotReached))
        } else {
            (
                CaptureView {
                    history: current.body,
                    bottom: Some(current),
                    phase: Phase::LoadStart,
                    ..self
                },
                StepView::Send { key: Key::Home, count: 1 },
            )
        }
    }

    pub open spec fn load_start(self, header: Seq<char>, now: int) -> (CaptureView, StepView) {
        if occurs(header, "history unavailable"@) {
            self.with_error(Failure::HistoryUnavailable).restore(now)
        } else if occurs(header, "loading older history"@) || occurs(header, "partial history"@) {
            (self.resting(now), StepView::Wait)
        } else {
            (self.in_phase(Phase::CaptureEnd), StepView::Send { key: Key::End, count: 1 })
        }
    }

    pub open spec fn begin_capture(
        self,
        current: TranscriptView,
        step: nat,
        now: int,
    ) -> (CaptureView, StepView) {
        if self.bottom != Some(current) {
            if now < self.step_deadline {
                (self.resting(now), StepView::Wait)
            } else {
                self.with_error(Failure::ChangedWhileLoading).restore(now)
            }
        } else {
            (
                self.at(current).in_phase(Phase::Capture),
                StepView::Send { key: Key::Up, count: step },
            )
        }
    }

    pub open spec fn go_up(
        self,
        current: TranscriptView,
        step: nat,
        now: int,
    ) -> (CaptureView, StepView) {
        if current == self.previous {
            if now < self.step_deadline {
                (self.patient(), StepView::Wait)
            } else if repeats(current.body, step) {
                self.with_error(Failure::RepeatedOnTheWayUp).restore(now)
            } else {
                (self.in_phase(Phase::VerifyTop), StepView::Send { key: Key::Home, count: 1 })
            }
        } else {
            match distance(current.body, self.previous.body, self.sent_rows) {
                None => self.with_error(Failure::ScrollAmbiguous).restore(now),
                Some(rows) => (
                    CaptureView {
                        history: current.body.take(rows as int) + self.history,
                        ..self.at(current)
                    },
                    StepView::Send { key: Key::Up, count: step },
                ),
            }
        }
    }

    pub open spec fn verify_top(self, current: TranscriptView, now: int) -> (
        CaptureView,
        StepView,
    ) {
        if current != self.previous {
            self.with_error(Failure::TopNotReached).restore(now)
        } else {
            self.restore(now)
        }
    }

    pub open spec fn restore_end(
        self,
        current: TranscriptView,
        step: nat,
        now: int,
    ) -> (CaptureView, StepView) {
        if self.bottom != Some(current) {
            if now < self.step_deadline {
                (self.resting(now), StepView::Wait)
            } else {
                (self, failed(Failure::BottomNotRegained))
            }
        } else {
            self.rewinding().at(current).restore_step(step)
        }
    }

    pub open spec fn restore_up(
        self,
        current: TranscriptView,
        step: nat,
        now: int,
    ) -> (CaptureView, StepView) {
        if current == self.previous && now < self.step_deadline {
            (self.patient(), StepView::Wait)
        } else if distance(current.body, self.previous.body, self.sent_rows) != Some(
            self.sent_rows,
        ) {
            (self, failed(Failure::PositionNotRestored))
        } else {
            let left = self.restore_remaining - self.sent_rows;
            CaptureView {
                restore_remaining: if left >= 0 {
                    left as nat
                } else {
                    0
                },
                ..self.at(current)
            }.restore_step(step)
        }
    }

    /// Everything that was counted on the way down is to be undone, a few rows at a time.
    pub open spec fn rewinding(self) -> CaptureView {
        CaptureView {
            restore_remaining: self.initial_from_bottom,
            phase: Phase::RestoreUp,
            ..self
        }
    }

    /// Turns back. Before the bottom has been seen, only what was counted is undone.
    pub open spec fn restore(self, now: int) -> (CaptureView, StepView) {
        let c = CaptureView { deadline: now + RESTORE_TIMEOUT, ..self };
        if self.phase == Phase::Bottom || self.phase == Phase::VerifyBottom {
            c.rewinding().restore_step(batch(self.initial.body.len()))
        } else {
            (c.in_phase(Phase::RestoreEnd), StepView::Send { key: Key::End, count: 1 })
        }
    }

    /// Goes up a few rows more, or ends where nothing is left to undo.
    pub open spec fn restore_step(self, step: nat) -> (CaptureView, StepView) {
        if self.restore_remaining == 0 {
            if self.previous != self.initial {
                (self, failed(Failure::ViewNotRestored))
            } else {
                match self.error {
                    Some(error) => (CaptureView { error: None, ..self }, failed(error)),
                    None => (self, StepView::Finished(Ok(lines_text(self.history)))),
                }
            }
        } else {
            let count = if step < self.restore_remaining {
                step
            } else {
                self.restore_remaining
            };
            (self, StepView::Send { key: Key::Up, count })
        }
    }

    /// Takes note that `count` keys were handed to the terminal at `now`, when its last output had
    /// the number `seq`, and whether it took them.
    pub open spec fn send(self, count: nat, seq: u64, delivered: bool, now: int) -> (
        CaptureView,
        StepView,
    ) {
        let c = CaptureView { output_seq: seq, step_observed_output: false, ..self };
        if delivered {
            (
                CaptureView {
                    sent_rows: count,
                    quiet_until: now + QUIET,
                    step_deadline: now + STEP_TIMEOUT,
                    ..c
                },
                StepView::Wait,
            )
        } else {
            (c, failed(Failure::SendFailed))
        }
    }
}

} // verus!
