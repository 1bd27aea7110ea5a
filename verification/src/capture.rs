//! Captures the whole of a transcript by paging through it, and returns to where it began.
//!
//! The terminal is at the edge: its owner hands in what is to be seen of it, presses the keys that
//! a poll asks for, and reports with [`Capture::send`] that they were pressed. Moments are numbers
//! of nanoseconds on any one clock.

use vstd::prelude::*;

use crate::failure::Failure;
use crate::model::{
    CaptureView, ObservationView, ReadingView, StepView, after_a_jump, batch,
};
use crate::scroll::{periodic, scroll_distance};
use crate::text::{contains, texts, to_lines};
use crate::transcript::{ActiveScreen, ScreenSnapshot, Transcript, copy_rows};

verus! {

/// How long the screen has to stay as it is before it is read.
pub const QUIET: u64 = 10_000_000;

/// How long the terminal has to act on keys.
pub const STEP_TIMEOUT: u64 = 1_000_000_000;

/// How long a capture may take before it turns back.
pub const CAPTURE_TIMEOUT: u64 = 40_000_000_000;

/// How long the way back may take.
pub const RESTORE_TIMEOUT: u64 = 10_000_000_000;

/// A key that moves the view.
#[derive(Clone, Copy, Debug, PartialEq, Eq, Structural)]
pub enum Key {
    Up,
    Down,
    Home,
    End,
}

/// What a capture is about.
#[derive(Clone, Copy, Debug, PartialEq, Eq, Structural)]
pub enum Phase {
    /// Going down, and counting the rows.
    Bottom,
    /// Jumping to the end, which should be in view.
    VerifyBottom,
    /// Jumping to the start, which loads older rows.
    LoadStart,
    /// Jumping back to the end.
    CaptureEnd,
    /// Going up, and keeping the rows.
    Capture,
    /// Jumping to the start, which should be in view.
    VerifyTop,
    /// Jumping to the end, on the way back.
    RestoreEnd,
    /// Going up to where the capture began.
    RestoreUp,
}

/// A screen, what it shows, and the number of the terminal's last output when it was read.
#[derive(Debug)]
pub struct ScreenReading {
    pub screen: ActiveScreen,
    pub snapshot: ScreenSnapshot,
    pub seq: u64,
}

/// What a terminal tells of itself at one moment.
#[derive(Debug)]
pub struct Observation {
    /// The number of the user's last input.
    pub input_seq: u64,
    /// The number of the terminal's last output.
    pub content_seq: u64,
    /// Whether an update of the screen is open.
    pub synchronized: bool,
    /// The screen, where it can be read.
    pub reading: Option<ScreenReading>,
    /// The number of the terminal's last output, after the screen was read.
    pub confirmed_seq: u64,
}

/// What is to be done after a poll.
#[derive(Debug)]
pub enum Step {
    /// Nothing before [`Capture::next_deadline`], unless the terminal changes.
    Wait,
    /// Press `key` `count` times, and report it.
    Send { key: Key, count: usize },
    /// Nothing any more.
    Finished(Result<String, Failure>),
}

impl View for ScreenReading {
    type V = ReadingView;

    open spec fn view(&self) -> ReadingView {
        ReadingView { screen: self.screen, snapshot: self.snapshot@, seq: self.seq }
    }
}

impl View for Observation {
    type V = ObservationView;

    open spec fn view(&self) -> ObservationView {
        ObservationView {
            input_seq: self.input_seq,
            content_seq: self.content_seq,
            synchronized: self.synchronized,
            reading: match self.reading {
                Some(reading) => Some(reading@),
                None => None,
            },
            confirmed_seq: self.confirmed_seq,
        }
    }
}

impl View for Step {
    type V = StepView;

    open spec fn view(&self) -> StepView {
        match self {
            Step::Wait => StepView::Wait,
            Step::Send { key, count } => StepView::Send { key: *key, count: *count as nat },
            Step::Finished(Ok(text)) => StepView::Finished(Ok(text@)),
            Step::Finished(Err(failure)) => StepView::Finished(Err(*failure)),
        }
    }
}

/// The capture of one transcript.
#[derive(Debug)]
pub struct Capture {
    pub initial: Transcript,
    pub previous: Transcript,
    pub history: Vec<String>,
    pub bottom: Option<Transcript>,
    pub phase: Phase,
    /// Rows that the view moved down. Keys are not counted: at an edge they do nothing.
    pub initial_from_bottom: usize,
    pub restore_remaining: usize,
    pub sent_rows: usize,
    pub input_seq: u64,
    pub output_seq: u64,
    pub step_observed_output: bool,
    pub quiet_until: u64,
    pub step_deadline: u64,
    pub deadline: u64,
    pub error: Option<Failure>,
}

impl View for Capture {
    type V = CaptureView;

    open spec fn view(&self) -> CaptureView {
        CaptureView {
            initial: self.initial@,
            previous: self.previous@,
            history: texts(self.history@),
            bottom: match self.bottom {
                Some(bottom) => Some(bottom@),
                None => None,
            },
            phase: self.phase,
            initial_from_bottom: self.initial_from_bottom as nat,
            restore_remaining: self.restore_remaining as nat,
            sent_rows: self.sent_rows as nat,
            input_seq: self.input_seq,
            output_seq: self.output_seq,
            step_observed_output: self.step_observed_output,
            quiet_until: self.quiet_until as int,
            step_deadline: self.step_deadline as int,
            deadline: self.deadline as int,
            error: self.error,
        }
    }
}

/// What a capture is, and what it sees, is known by all of its fields.
pub proof fn law_views_of_captures(capture: Capture, seen: Observation)
    ensures
        capture@ == (CaptureView {
            initial: capture.initial@,
            previous: capture.previous@,
            history: capture@.history,
            bottom: capture@.bottom,
            phase: capture.phase,
            initial_from_bottom: capture.initial_from_bottom as nat,
            restore_remaining: capture.restore_remaining as nat,
            sent_rows: capture.sent_rows as nat,
            input_seq: capture.input_seq,
            output_seq: capture.output_seq,
            step_observed_output: capture.step_observed_output,
            quiet_until: capture.quiet_until as int,
            step_deadline: capture.step_deadline as int,
            deadline: capture.deadline as int,
            error: capture.error,
        }),
        capture@.history.len() == capture.history@.len(),
        forall|i: int|
            0 <= i < capture.history@.len() ==> #[trigger] capture@.history[i]
                == capture.history@[i]@,
        capture.bottom is None <==> capture@.bottom is None,
        capture.bottom matches Some(bottom) ==> capture@.bottom == Some(bottom@),
        seen@.input_seq == seen.input_seq,
        seen@.content_seq == seen.content_seq,
        seen@.synchronized == seen.synchronized,
        seen@.confirmed_seq == seen.confirmed_seq,
        seen.reading is None <==> seen@.reading is None,
        seen.reading matches Some(reading) ==> {
            &&& seen@.reading->0.screen == reading.screen
            &&& seen@.reading->0.seq == reading.seq
            &&& seen@.reading->0.snapshot == reading.snapshot@
        },
{
}

/// What is to be done is known by the keys and how often to press them, or by what a capture ended
/// with.
pub proof fn law_views_of_steps(step: Step)
    ensures
        step is Wait <==> step@ is Wait,
        step is Send <==> step@ is Send,
        step is Finished <==> step@ is Finished,
        step matches Step::Send { key, count } ==> step@->key == key && step@->count == count,
        step matches Step::Finished(Ok(text)) ==> step@ == StepView::Finished(Ok(text@)),
        step matches Step::Finished(Err(failure)) ==> step@ == StepView::Finished(Err(failure)),
{
}

/// `count` copies of `bytes`, one after the other.
pub open spec fn repeated(bytes: Seq<u8>, count: nat) -> Seq<u8>
    decreases count,
{
    if count == 0 {
        Seq::empty()
    } else {
        repeated(bytes, (count - 1) as nat) + bytes
    }
}

/// Copies made at once are those made one time and then another; one copy is the bytes themselves,
/// and no copies are no bytes.
pub proof fn law_copies_add_up(bytes: Seq<u8>, a: nat, b: nat)
    ensures
        repeated(bytes, 0) == Seq::<u8>::empty(),
        repeated(bytes, 1) == bytes,
        repeated(bytes, a + b) == repeated(bytes, a) + repeated(bytes, b),
    decreases b,
{
    reveal_with_fuel(repeated, 2);
    assert(repeated(bytes, 1) =~= bytes);
    if b == 0 {
        assert(repeated(bytes, a + b) =~= repeated(bytes, a) + repeated(bytes, b));
    } else {
        law_copies_add_up(bytes, a, (b - 1) as nat);
        assert(a + b - 1 == a + (b - 1) as nat);
        assert(repeated(bytes, a + b) =~= repeated(bytes, a) + repeated(bytes, b));
    }
}

/// What the terminal is sent for `count` presses of a key that it knows as `encoded`.
pub fn key_bytes(encoded: &Vec<u8>, count: usize) -> (res: Vec<u8>)
    requires
        encoded.len() * count <= usize::MAX,
    ensures
        res@ == repeated(encoded@, count as nat),
{
    let mut res: Vec<u8> = Vec::new();
    for i in 0..count
        invariant
            res@ == repeated(encoded@, i as nat),
    {
        let ghost before = res@;
        for j in 0..encoded.len()
            invariant
                res@ == before + encoded@.take(j as int),
        {
            res.push(encoded[j]);
            assert(encoded@.take(j + 1) =~= encoded@.take(j as int).push(encoded@[j as int]));
            assert(res@ =~= before + encoded@.take(j + 1));
        }
        assert(encoded@.take(encoded@.len() as int) =~= encoded@);
    }
    res
}

fn half_of(height: usize) -> (res: usize)
    ensures
        res == batch(height as nat),
{
    if height / 2 >= 1 {
        height / 2
    } else {
        1
    }
}

impl Capture {
    /// Begins a capture, where a transcript is in view.
    pub fn new(reading: Option<ScreenReading>, input_seq: u64, now: u64) -> (res: Option<Self>)
        requires
            now + CAPTURE_TIMEOUT <= u64::MAX,
        ensures
            res matches Some(capture) ==> {
                &&& reading is Some
                &&& reading->0@.snapshot.transcript(reading->0.screen) is Some
                &&& capture@ == CaptureView::started(
                    reading->0@.snapshot.transcript(reading->0.screen)->0,
                    reading->0.seq,
                    input_seq,
                    now as int,
                )
                &&& capture@.wf()
                &&& capture@.movement_fits()
            },
            res is None ==> reading is None || reading->0@.snapshot.transcript(
                reading->0.screen,
            ) is None,
    {
        let reading: ScreenReading = match reading {
            Some(reading) => reading,
            None => return None,
        };
        let initial: Transcript = match Transcript::from_screen(reading.screen, reading.snapshot) {
            Some(initial) => initial,
            None => return None,
        };
        let history: Vec<String> = Vec::new();
        assert(texts(history@) =~= Seq::empty());
        Some(
            Capture {
                previous: initial.clone(),
                initial,
                history,
                bottom: None,
                phase: Phase::Bottom,
                initial_from_bottom: 0,
                restore_remaining: 0,
                sent_rows: 0,
                input_seq,
                output_seq: reading.seq,
                step_observed_output: false,
                quiet_until: now + QUIET,
                step_deadline: now + STEP_TIMEOUT,
                deadline: now + CAPTURE_TIMEOUT,
                error: None,
            },
        )
    }

    /// When to poll again, if nothing changes before.
    pub fn next_deadline(&self) -> (res: u64)
        ensures
            res == if self.quiet_until <= self.deadline {
                self.quiet_until
            } else {
                self.deadline
            },
    {
        if self.quiet_until <= self.deadline {
            self.quiet_until
        } else {
            self.deadline
        }
    }

    /// Tells whether the rows counted on the way down still fit in a machine word when those asked
    /// for last are added, as [`Capture::poll`] needs it. Time is up long before they do not.
    pub fn movement_fits(&self) -> (res: bool)
        ensures
            res == self@.movement_fits(),
    {
        self.phase != Phase::Bottom || self.sent_rows <= usize::MAX - self.initial_from_bottom
    }

    fn at(&mut self, current: Transcript)
        ensures
            final(self)@ == old(self)@.at(current@),
    {
        self.previous = current;
    }

    fn rest(&mut self, now: u64)
        requires
            now + RESTORE_TIMEOUT <= u64::MAX,
        ensures
            final(self)@ == old(self)@.resting(now as int),
    {
        self.quiet_until = now + QUIET;
    }

    fn is_bottom(&self, current: &Transcript) -> (res: bool)
        ensures
            res == (self@.bottom == Some(current@)),
    {
        match &self.bottom {
            Some(bottom) => bottom == current,
            None => false,
        }
    }

    /// Looks at the terminal once. What the user types takes precedence: no key is pressed in a
    /// view that they may have changed.
    pub fn poll(&mut self, seen: Observation, now: u64) -> (res: Step)
        requires
            old(self)@.wf(),
            old(self)@.movement_fits(),
            now + RESTORE_TIMEOUT <= u64::MAX,
        ensures
            (final(self)@, res@) == old(self)@.poll(seen@, now as int),
            final(self)@.wf(),
    {
        if seen.input_seq != self.input_seq {
            return Step::Finished(Err(Failure::Interrupted));
        }
        let expired: bool = now >= self.deadline;
        if expired && (self.phase == Phase::RestoreEnd || self.phase == Phase::RestoreUp) {
            return Step::Finished(Err(Failure::PositionNotRestored));
        }
        if seen.content_seq != self.output_seq {
            self.step_observed_output = true;
            self.output_seq = seen.content_seq;
            self.quiet_until = now + QUIET;
        }
        if !expired && now < self.quiet_until {
            return Step::Wait;
        }
        if seen.synchronized {
            self.rest(now);
            if !expired && now < self.step_deadline {
                return Step::Wait;
            }
            return Step::Finished(Err(Failure::NotDrawn));
        }
        match seen.reading {
            Some(reading) => self.read(reading, seen.confirmed_seq, now),
            None => {
                if expired {
                    return Step::Finished(Err(Failure::TimedOutUnread));
                }
                self.rest(now);
                Step::Wait
            },
        }
    }

    fn read(&mut self, reading: ScreenReading, confirmed_seq: u64, now: u64) -> (res: Step)
        requires
            old(self)@.wf(),
            old(self)@.movement_fits(),
            now + RESTORE_TIMEOUT <= u64::MAX,
        ensures
            (final(self)@, res@) == old(self)@.read(reading@, confirmed_seq, now as int),
            final(self)@.wf(),
    {
        let expired: bool = now >= self.deadline;
        if reading.seq != self.output_seq || confirmed_seq != reading.seq {
            if expired {
                return Step::Finished(Err(Failure::KeptChanging));
            }
            self.output_seq = reading.seq;
            self.step_observed_output = true;
            self.quiet_until = now + QUIET;
            return Step::Wait;
        }
        if self.after_a_jump() && !self.step_observed_output && now < self.step_deadline
            && !expired {
            self.rest(now);
            return Step::Wait;
        }
        let header: String = if reading.snapshot.rows.len() > 0 {
            reading.snapshot.rows[0].clone()
        } else {
            String::new()
        };
        let current: Transcript = match Transcript::from_screen(reading.screen, reading.snapshot) {
            Some(current) => current,
            None => return Step::Finished(Err(Failure::LeftView)),
        };
        if current.cols != self.initial.cols || current.body.len() != self.initial.body.len() {
            return Step::Finished(Err(Failure::SizeChanged));
        }
        self.advance(current, header, now)
    }

    fn after_a_jump(&self) -> (res: bool)
        ensures
            res == after_a_jump(self.phase),
    {
        matches!(
            self.phase,
            Phase::VerifyBottom | Phase::LoadStart | Phase::CaptureEnd | Phase::VerifyTop
                | Phase::RestoreEnd
        )
    }

    fn advance(&mut self, current: Transcript, header: String, now: u64) -> (res: Step)
        requires
            old(self)@.wf(),
            old(self)@.movement_fits(),
            current@.body.len() == old(self)@.initial.body.len(),
            now + RESTORE_TIMEOUT <= u64::MAX,
        ensures
            (final(self)@, res@) == old(self)@.advance(current@, header@, now as int),
            final(self)@.wf(),
    {
        let step: usize = half_of(current.body.len());
        if now >= self.deadline {
            return self.time_out(current, now);
        }
        if self.sent_rows == 0 {
            self.at(current);
            return Step::Send { key: Key::Down, count: step };
        }
        match self.phase {
            Phase::Bottom => self.go_down(current, step, now),
            Phase::VerifyBottom => self.verify_bottom(current),
            Phase::LoadStart => self.load_start(header, now),
            Phase::CaptureEnd => self.begin_capture(current, step, now),
            Phase::Capture => self.go_up(current, step, now),
            Phase::VerifyTop => self.verify_top(current, now),
            Phase::RestoreEnd => self.restore_end(current, step, now),
            Phase::RestoreUp => self.restore_up(current, step, now),
        }
    }

    fn time_out(&mut self, current: Transcript, now: u64) -> (res: Step)
        requires
            old(self)@.wf(),
            old(self)@.movement_fits(),
            current@.body.len() == old(self)@.initial.body.len(),
            now + RESTORE_TIMEOUT <= u64::MAX,
        ensures
            (final(self)@, res@) == old(self)@.time_out(current@, now as int),
            final(self)@.wf(),
    {
        self.error = Some(Failure::TimedOut);
        // A move down that is still under way is counted before it is undone.
        if self.phase == Phase::Bottom && current != self.previous {
            match scroll_distance(
                self.previous.body.as_slice(),
                current.body.as_slice(),
                self.sent_rows,
            ) {
                Some(rows) => {
                    self.initial_from_bottom = self.initial_from_bottom + rows;
                    self.at(current);
                },
                None => return Step::Finished(Err(Failure::TimedOutUnmeasured)),
            }
        }
        self.restore(now)
    }

    fn go_down(&mut self, current: Transcript, step: usize, now: u64) -> (res: Step)
        requires
            old(self)@.wf(),
            old(self)@.phase == Phase::Bottom,
            old(self)@.movement_fits(),
            current@.body.len() == old(self)@.initial.body.len(),
        ensures
            (final(self)@, res@) == old(self)@.go_down(current@, step as nat, now as int),
            final(self)@.wf(),
    {
        if current == self.previous {
            if now < self.step_deadline {
                self.quiet_until = self.step_deadline;
                return Step::Wait;
            }
            if periodic(current.body.as_slice(), step) {
                return Step::Finished(Err(Failure::RepeatedOnTheWayDown));
            }
            self.phase = Phase::VerifyBottom;
            return Step::Send { key: Key::End, count: 1 };
        }
        match scroll_distance(
            self.previous.body.as_slice(),
            current.body.as_slice(),
            self.sent_rows,
        ) {
            Some(rows) => {
                self.initial_from_bottom = self.initial_from_bottom + rows;
                self.at(current);
                Step::Send { key: Key::Down, count: step }
            },
            None => Step::Finished(Err(Failure::ScrollUnmeasured)),
        }
    }

    fn verify_bottom(&mut self, current: Transcript) -> (res: Step)
        requires
            old(self)@.wf(),
            current@.body.len() == old(self)@.initial.body.len(),
        ensures
            (final(self)@, res@) == old(self)@.verify_bottom(current@),
            final(self)@.wf(),
    {
        if current != self.previous {
            return Step::Finished(Err(Failure::BottomNotReached));
        }
        self.history = copy_rows(current.body.as_slice(), 0, current.body.len());
        assert(texts(self.history@) =~= current@.body);
        self.bottom = Some(current.clone());
        self.at(current);
        // The distance to the end is known by now, so that the start may load older rows.
        self.phase = Phase::LoadStart;
        Step::Send { key: Key::Home, count: 1 }
    }

    fn load_start(&mut self, header: String, now: u64) -> (res: Step)
        requires
            old(self)@.wf(),
            now + RESTORE_TIMEOUT <= u64::MAX,
        ensures
            (final(self)@, res@) == old(self)@.load_start(header@, now as int),
            final(self)@.wf(),
    {
        if contains(header.as_str(), "history unavailable") {
            self.error = Some(Failure::HistoryUnavailable);
            return self.restore(now);
        }
        if contains(header.as_str(), "loading older history") || contains(
            header.as_str(),
            "partial history",
        ) {
            self.rest(now);
            return Step::Wait;
        }
        self.phase = Phase::CaptureEnd;
        Step::Send { key: Key::End, count: 1 }
    }

    fn begin_capture(&mut self, current: Transcript, step: usize, now: u64) -> (res: Step)
        requires
            old(self)@.wf(),
            current@.body.len() == old(self)@.initial.body.len(),
            now + RESTORE_TIMEOUT <= u64::MAX,
        ensures
            (final(self)@, res@) == old(self)@.begin_capture(current@, step as nat, now as int),
            final(self)@.wf(),
    {
        if !self.is_bottom(&current) {
            if now < self.step_deadline {
                self.rest(now);
                return Step::Wait;
            }
            self.error = Some(Failure::ChangedWhileLoading);
            return self.restore(now);
        }
        self.at(current);
        self.phase = Phase::Capture;
        Step::Send { key: Key::Up, count: step }
    }

    fn go_up(&mut self, current: Transcript, step: usize, now: u64) -> (res: Step)
        requires
            old(self)@.wf(),
            current@.body.len() == old(self)@.initial.body.len(),
            now + RESTORE_TIMEOUT <= u64::MAX,
        ensures
            (final(self)@, res@) == old(self)@.go_up(current@, step as nat, now as int),
            final(self)@.wf(),
    {
        if current == self.previous {
            if now < self.step_deadline {
                self.quiet_until = self.step_deadline;
                return Step::Wait;
            }
            if periodic(current.body.as_slice(), step) {
                self.error = Some(Failure::RepeatedOnTheWayUp);
                return self.restore(now);
            }
            self.phase = Phase::VerifyTop;
            return Step::Send { key: Key::Home, count: 1 };
        }
        match scroll_distance(
            current.body.as_slice(),
            self.previous.body.as_slice(),
            self.sent_rows,
        ) {
            Some(rows) => {
                self.prepend(&current, rows);
                self.at(current);
                Step::Send { key: Key::Up, count: step }
            },
            None => {
                self.error = Some(Failure::ScrollAmbiguous);
                self.restore(now)
            },
        }
    }

    /// Puts the first rows in view before those that are kept.
    fn prepend(&mut self, current: &Transcript, rows: usize)
        requires
            rows <= current@.body.len(),
        ensures
            final(self)@ == (CaptureView {
                history: current@.body.take(rows as int) + old(self)@.history,
                ..old(self)@
            }),
    {
        let ghost kept = self.history@;
        let mut history: Vec<String> = copy_rows(current.body.as_slice(), 0, rows);
        let ghost added = history@;
        history.append(&mut self.history);
        assert(texts(history@) =~= texts(added) + texts(kept));
        assert(texts(added) =~= current@.body.take(rows as int));
        self.history = history;
    }

    fn verify_top(&mut self, current: Transcript, now: u64) -> (res: Step)
        requires
            old(self)@.wf(),
            now + RESTORE_TIMEOUT <= u64::MAX,
        ensures
            (final(self)@, res@) == old(self)@.verify_top(current@, now as int),
            final(self)@.wf(),
    {
        if current != self.previous {
            self.error = Some(Failure::TopNotReached);
        }
        self.restore(now)
    }

    fn restore_end(&mut self, current: Transcript, step: usize, now: u64) -> (res: Step)
        requires
            old(self)@.wf(),
            current@.body.len() == old(self)@.initial.body.len(),
            now + RESTORE_TIMEOUT <= u64::MAX,
        ensures
            (final(self)@, res@) == old(self)@.restore_end(current@, step as nat, now as int),
            final(self)@.wf(),
    {
        if !self.is_bottom(&current) {
            if now < self.step_deadline {
                self.rest(now);
                return Step::Wait;
            }
            return Step::Finished(Err(Failure::BottomNotRegained));
        }
        self.restore_remaining = self.initial_from_bottom;
        self.phase = Phase::RestoreUp;
        self.at(current);
        self.restore_step(step)
    }

    fn restore_up(&mut self, current: Transcript, step: usize, now: u64) -> (res: Step)
        requires
            old(self)@.wf(),
            current@.body.len() == old(self)@.initial.body.len(),
        ensures
            (final(self)@, res@) == old(self)@.restore_up(current@, step as nat, now as int),
            final(self)@.wf(),
    {
        if current == self.previous && now < self.step_deadline {
            self.quiet_until = self.step_deadline;
            return Step::Wait;
        }
        match scroll_distance(
            current.body.as_slice(),
            self.previous.body.as_slice(),
            self.sent_rows,
        ) {
            Some(rows) => {
                if rows != self.sent_rows {
                    return Step::Finished(Err(Failure::PositionNotRestored));
                }
            },
            None => return Step::Finished(Err(Failure::PositionNotRestored)),
        }
        self.restore_remaining = if self.sent_rows <= self.restore_remaining {
            self.restore_remaining - self.sent_rows
        } else {
            0
        };
        self.at(current);
        self.restore_step(step)
    }

    fn restore(&mut self, now: u64) -> (res: Step)
        requires
            old(self)@.wf(),
            now + RESTORE_TIMEOUT <= u64::MAX,
        ensures
            (final(self)@, res@) == old(self)@.restore(now as int),
            final(self)@.wf(),
    {
        self.deadline = now + RESTORE_TIMEOUT;
        if self.phase == Phase::Bottom || self.phase == Phase::VerifyBottom {
            self.restore_remaining = self.initial_from_bottom;
            self.phase = Phase::RestoreUp;
            let step: usize = half_of(self.initial.body.len());
            return self.restore_step(step);
        }
        self.phase = Phase::RestoreEnd;
        Step::Send { key: Key::End, count: 1 }
    }

    fn restore_step(&mut self, step: usize) -> (res: Step)
        requires
            old(self)@.wf(),
        ensures
            (final(self)@, res@) == old(self)@.restore_step(step as nat),
            final(self)@.wf(),
    {
        if self.restore_remaining == 0 {
            if self.previous != self.initial {
                return Step::Finished(Err(Failure::ViewNotRestored));
            }
            return match self.error.take() {
                Some(error) => Step::Finished(Err(error)),
                None => Step::Finished(Ok(to_lines(&self.history))),
            };
        }
        let count: usize = if step < self.restore_remaining {
            step
        } else {
            self.restore_remaining
        };
        Step::Send { key: Key::Up, count }
    }

    /// Takes note that `count` keys were handed to the terminal at `now`, when its last output had
    /// the number `content_seq`, and whether it took them.
    pub fn send(&mut self, count: usize, content_seq: u64, delivered: bool, now: u64) -> (res: Step)
        requires
            now + RESTORE_TIMEOUT <= u64::MAX,
        ensures
            (final(self)@, res@) == old(self)@.send(
                count as nat,
                content_seq,
                delivered,
                now as int,
            ),
            old(self)@.wf() ==> final(self)@.wf(),
    {
        self.output_seq = content_seq;
        self.step_observed_output = false;
        if !delivered {
            return Step::Finished(Err(Failure::SendFailed));
        }
        self.sent_rows = count;
        self.rest(now);
        self.step_deadline = now + STEP_TIMEOUT;
        Step::Wait
    }
}

} // verus!
