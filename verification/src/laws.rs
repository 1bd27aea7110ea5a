//! What holds of every poll, whatever the terminal shows.

use vstd::prelude::*;

use crate::capture::{CAPTURE_TIMEOUT, Key, Phase, QUIET, RESTORE_TIMEOUT, STEP_TIMEOUT};
use crate::failure::Failure;
use crate::model::{CaptureView, ObservationView, StepView, batch, failed, restoring};
use crate::pager::{Pager, Tick, outcome, turn};
use crate::scroll::{
    distance, explains, law_distance_is_the_only_move, law_repeated_rows_stay_the_same,
    lemma_distance, moved, only_explains, only_move, repeats,
};
use crate::text::{law_occurs_between, lines_text, occurs};
use crate::transcript::TranscriptView;

verus! {

/// What the user types takes precedence over everything: the capture ends at once, without a key.
pub proof fn law_user_input_ends_the_capture(c: CaptureView, seen: ObservationView, now: int)
    requires
        seen.input_seq != c.input_seq,
    ensures
        c.poll(seen, now) == (c, failed(Failure::Interrupted)),
{
}

/// Keys are pressed only in a transcript of the first size, on a screen that is drawn and at rest,
/// and where the user has typed nothing.
pub proof fn law_keys_only_in_the_transcript(c: CaptureView, seen: ObservationView, now: int)
    requires
        c.poll(seen, now).1 is Send,
    ensures
        seen.input_seq == c.input_seq,
        !seen.synchronized,
        seen.reading matches Some(reading) && {
            &&& reading.seq == seen.content_seq
            &&& seen.confirmed_seq == seen.content_seq
            &&& reading.snapshot.transcript(reading.screen) matches Some(current)
                && current.cols == c.initial.cols && current.body.len() == c.initial.body.len()
        },
{
}

/// A screen at rest that shows something else ends the capture, and so does a transcript of another
/// size.
pub proof fn law_another_view_ends_the_capture(c: CaptureView, seen: ObservationView, now: int)
    requires
        seen.input_seq == c.input_seq,
        !(restoring(c.phase) && c.expired(now)),
        seen.content_seq == c.output_seq,
        now >= c.quiet_until || c.expired(now),
        !seen.synchronized,
        seen.reading matches Some(reading) && reading.seq == c.output_seq && seen.confirmed_seq
            == reading.seq,
        c.step_observed_output || now >= c.step_deadline || c.expired(now),
    ensures
        ({
            let reading = seen.reading->0;
            match reading.snapshot.transcript(reading.screen) {
                None => c.poll(seen, now).1 == failed(Failure::LeftView),
                Some(current) => current.cols != c.initial.cols || current.body.len()
                    != c.initial.body.len() ==> c.poll(seen, now).1 == failed(
                    Failure::SizeChanged,
                ),
            }
        }),
{
}

/// A text is handed out only at the end of the way back, with the first view on the screen again
/// and no failure on record; it is what was kept.
pub proof fn law_text_only_with_the_first_view_back(
    c: CaptureView,
    seen: ObservationView,
    now: int,
)
    requires
        c.poll(seen, now).1 matches StepView::Finished(Ok(_)),
    ensures
        restoring(c.phase),
        c.error is None,
        c.poll(seen, now).1 == StepView::Finished(Ok(lines_text(c.history))),
        seen.reading matches Some(reading) && reading.snapshot.transcript(reading.screen) == Some(
            c.initial,
        ),
{
}

/// A failure on record stays there until the capture ends, and it ends without a text: no part of a
/// transcript is ever handed out for the whole.
pub proof fn law_no_partial_text(c: CaptureView, seen: ObservationView, now: int)
    requires
        c.error is Some,
    ensures
        ({
            let (next, step) = c.poll(seen, now);
            match step {
                StepView::Finished(result) => result is Err,
                _ => next.error is Some,
            }
        }),
{
}

/// When time is up, a poll decides: it ends the capture, or turns back.
pub proof fn law_time_is_up(c: CaptureView, seen: ObservationView, now: int)
    requires
        c.expired(now),
    ensures
        ({
            let (next, step) = c.poll(seen, now);
            match step {
                StepView::Wait => false,
                StepView::Send { key, count } => {
                    &&& !restoring(c.phase)
                    &&& restoring(next.phase)
                    &&& next.error == Some(Failure::TimedOut)
                },
                StepView::Finished(result) => result is Err,
            }
        }),
{
}

/// A capture turns back once, and has a time of its own for the way back.
pub proof fn law_turns_back_once(c: CaptureView, seen: ObservationView, now: int)
    ensures
        ({
            let (next, step) = c.poll(seen, now);
            &&& restoring(c.phase) ==> restoring(next.phase) && next.deadline == c.deadline
            &&& !restoring(c.phase) && !restoring(next.phase) ==> next.deadline == c.deadline
            &&& !restoring(c.phase) && restoring(next.phase) ==> next.deadline == now
                + RESTORE_TIMEOUT
        }),
{
}

/// On the way back there is one jump to the end, where the end has been seen, and then no more
/// steps up than rows were counted on the way down.
pub proof fn law_only_counted_rows_are_undone(c: CaptureView, seen: ObservationView, now: int)
    requires
        c.restore_remaining <= c.initial_from_bottom,
        restoring(c.phase) ==> c.sent_rows > 0,
    ensures
        ({
            let (next, step) = c.poll(seen, now);
            &&& next.restore_remaining <= next.initial_from_bottom
            &&& restoring(next.phase) ==> (step matches StepView::Send { key, count } ==> {
                if next.phase == Phase::RestoreEnd {
                    key == Key::End && count == 1 && c.phase != Phase::Bottom && c.phase
                        != Phase::VerifyBottom
                } else {
                    key == Key::Up && 1 <= count <= next.restore_remaining
                }
            })
        }),
{
}

/// Rows are counted on the way down and at no other time, so that older rows which come later do
/// not change how far above the end the capture began.
pub proof fn law_counted_only_on_the_way_down(c: CaptureView, seen: ObservationView, now: int)
    ensures
        c.phase != Phase::Bottom ==> c.poll(seen, now).0.initial_from_bottom
            == c.initial_from_bottom,
        c.phase == Phase::Bottom ==> c.poll(seen, now).0.initial_from_bottom
            >= c.initial_from_bottom,
{
}

/// The jump back to the end waits until the jump to the start has been drawn, or has had its time,
/// and until no older rows are under way.
pub proof fn law_older_rows_are_waited_for(c: CaptureView, seen: ObservationView, now: int)
    requires
        c.phase == Phase::LoadStart,
        c.sent_rows > 0,
        !c.expired(now),
        c.poll(seen, now).0.phase == Phase::CaptureEnd,
    ensures
        c.noting(seen.content_seq, now).step_observed_output || now >= c.step_deadline,
        seen.reading matches Some(reading) && {
            &&& !occurs(reading.snapshot.header(), "loading older history"@)
            &&& !occurs(reading.snapshot.header(), "partial history"@)
            &&& !occurs(reading.snapshot.header(), "history unavailable"@)
        },
{
}

/// Repeated rows are not taken for an edge: a view that stays the same, and would after a move too,
/// ends the way down and the way up, and no transcript comes of it.
pub proof fn law_repeated_rows_are_no_edge(
    c: CaptureView,
    current: TranscriptView,
    header: Seq<char>,
    now: int,
)
    requires
        c.phase == Phase::Bottom || c.phase == Phase::Capture,
        c.sent_rows > 0,
        !c.expired(now),
        current == c.previous,
        now >= c.step_deadline,
        repeats(current.body, batch(current.body.len())),
    ensures
        ({
            let (next, step) = c.advance(current, header, now);
            if c.phase == Phase::Bottom {
                step == failed(Failure::RepeatedOnTheWayDown)
            } else {
                restoring(next.phase) && next.error == Some(Failure::RepeatedOnTheWayUp)
            }
        }),
{
}

/// Before the next deadline, a poll that finds nothing new does nothing.
pub proof fn law_nothing_new_nothing_done(c: CaptureView, seen: ObservationView, now: int)
    requires
        seen.input_seq == c.input_seq,
        seen.content_seq == c.output_seq,
        now < c.quiet_until,
        now < c.deadline,
    ensures
        c.poll(seen, now) == (c, StepView::Wait),
{
}

/// The rows counted so far are no more than a batch for each quiet time since `began`.
spec fn paced(c: CaptureView, began: int) -> bool {
    let step = batch(c.initial.body.len());
    &&& c.sent_rows <= step
    &&& if c.phase == Phase::Bottom {
        &&& c.deadline == began + CAPTURE_TIMEOUT
        &&& c.sent_rows == 0 ==> c.initial_from_bottom == 0
        &&& c.sent_rows > 0 ==> {
            let sent_at = c.step_deadline - STEP_TIMEOUT;
            &&& began <= sent_at < c.deadline
            &&& sent_at + QUIET <= c.quiet_until
            &&& c.initial_from_bottom * QUIET <= step * (sent_at - began)
        }
    } else {
        c.initial_from_bottom * QUIET <= step * (CAPTURE_TIMEOUT + QUIET)
    }
}

/// When keys were pressed last.
spec fn last_sent(c: CaptureView) -> int {
    c.step_deadline - STEP_TIMEOUT
}

proof fn lemma_rows_moved(older: Seq<Seq<char>>, newer: Seq<Seq<char>>, maximum: nat)
    ensures
        distance(older, newer, maximum) matches Some(rows) ==> rows <= maximum,
{
    if exists|shift: nat| only_explains(older, newer, maximum, shift) {
        let shift = choose|shift: nat| only_explains(older, newer, maximum, shift);
        assert(explains(older, newer, maximum, shift));
    }
}

/// A move of at most `step` rows in a time of at least `quiet` keeps the pace.
proof fn lemma_pace(counted: nat, rows: nat, step: nat, quiet: int, before: int, after: int)
    requires
        rows <= step,
        0 <= quiet,
        before + quiet <= after,
        counted * quiet <= step * before,
    ensures
        (counted + rows) * quiet <= step * after,
{
    assert((counted + rows) * quiet <= step * after) by (nonlinear_arith)
        requires
            rows <= step,
            0 <= quiet,
            before + quiet <= after,
            counted * quiet <= step * before,
    {
        assert((counted + rows) * quiet == counted * quiet + rows * quiet);
        assert(rows * quiet <= step * quiet);
        assert(step * before + step * quiet == step * (before + quiet));
        assert(step * (before + quiet) <= step * after);
    }
}

proof fn lemma_advance_paced(
    c: CaptureView,
    current: TranscriptView,
    header: Seq<char>,
    now: int,
    seq: u64,
    began: int,
)
    requires
        paced(c, began),
        current.body.len() == c.initial.body.len(),
        began <= now,
        c.sent_rows > 0 ==> last_sent(c) <= now,
        c.expired(now) || c.quiet_until <= now,
    ensures
        ({
            let (next, step) = c.advance(current, header, now);
            match step {
                StepView::Wait => paced(next, began),
                StepView::Send { key, count } => paced(next.send(count, seq, true, now).0, began),
                _ => true,
            }
        }),
{
    let step = batch(c.initial.body.len());
    let quiet = QUIET as int;
    lemma_rows_moved(c.previous.body, current.body, c.sent_rows);
    if c.phase == Phase::Bottom && c.sent_rows > 0 {
        let before = last_sent(c) - began;
        let rows = distance(c.previous.body, current.body, c.sent_rows);
        lemma_pace(c.initial_from_bottom, 0, step, quiet, before, CAPTURE_TIMEOUT + QUIET);
        if rows is Some {
            let counted = c.initial_from_bottom;
            lemma_pace(counted, rows->0, step, quiet, before, CAPTURE_TIMEOUT + QUIET);
            if !c.expired(now) {
                lemma_pace(c.initial_from_bottom, rows->0, step, quiet, before, now - began);
            }
        }
    } else if c.phase == Phase::Bottom {
        assert(0 <= step * (now - began)) by (nonlinear_arith)
            requires
                began <= now,
        ;
    }
}

proof fn lemma_turn_paced(c: CaptureView, tick: Tick, began: int)
    requires
        paced(c, began),
        began <= tick.now,
        c.sent_rows > 0 ==> last_sent(c) <= tick.now,
    ensures
        ({
            let (next, _, step) = turn(c, tick);
            !(step is Finished) ==> {
                &&& paced(next, began)
                &&& next.sent_rows > 0 ==> last_sent(next) <= tick.now
                &&& next.initial == c.initial
            }
        }),
{
    let noted = c.noting(tick.seen.content_seq, tick.now);
    if let Some(reading) = tick.seen.reading {
        if let Some(current) = reading.snapshot.transcript(reading.screen) {
            if current.body.len() == c.initial.body.len() && (c.expired(tick.now)
                || noted.quiet_until <= tick.now) {
                let header = reading.snapshot.header();
                lemma_advance_paced(noted, current, header, tick.now, tick.seq, began);
            }
        }
    }
}

/// None of the polls ends the capture.
pub open spec fn running(c: CaptureView, ticks: Seq<Tick>) -> bool
    decreases ticks.len(),
{
    ticks.len() > 0 ==> {
        let (next, _, step) = turn(c, ticks[0]);
        !(step is Finished) && running(next, ticks.drop_first())
    }
}

proof fn lemma_running_paced(c: CaptureView, p: Pager, ticks: Seq<Tick>, began: int)
    requires
        paced(c, began),
        running(c, ticks),
        forall|i: int|
            0 <= i < ticks.len() ==> began <= (#[trigger] ticks[i]).now && (c.sent_rows > 0
                ==> last_sent(c) <= ticks[i].now),
        forall|i: int, j: int|
            0 <= i <= j < ticks.len() ==> (#[trigger] ticks[i]).now <= (#[trigger] ticks[j]).now,
    ensures
        paced(outcome(c, p, ticks).0, began),
        outcome(c, p, ticks).0.initial == c.initial,
    decreases ticks.len(),
{
    if ticks.len() > 0 {
        lemma_turn_paced(c, ticks[0], began);
        if ticks.len() > 1 {
            let (next, pager, _) = turn(c, ticks[0]);
            let rest = ticks.drop_first();
            assert forall|i: int| 0 <= i < rest.len() implies began <= (#[trigger] rest[i]).now && (
            next.sent_rows > 0 ==> last_sent(next) <= rest[i].now) by {
                assert(rest[i] == ticks[i + 1]);
                assert(ticks[0].now <= ticks[i + 1].now);
            }
            assert forall|i: int, j: int| 0 <= i <= j < rest.len() implies (#[trigger] rest[i]).now
                <= (#[trigger] rest[j]).now by {
                assert(rest[i] == ticks[i + 1] && rest[j] == ticks[j + 1]);
            }
            lemma_running_paced(next, pager, rest, began);
        }
    }
}

/// On a screen of no more rows than sixteen bits can count, and by a clock that does not run
/// backwards, the rows counted on the way down always fit in a machine word.
pub proof fn law_counted_rows_fit(
    initial: TranscriptView,
    seq: u64,
    input_seq: u64,
    began: int,
    p: Pager,
    ticks: Seq<Tick>,
)
    requires
        initial.body.len() <= u16::MAX,
        running(CaptureView::started(initial, seq, input_seq, began), ticks),
        forall|i: int| 0 <= i < ticks.len() ==> began <= (#[trigger] ticks[i]).now,
        forall|i: int, j: int|
            0 <= i <= j < ticks.len() ==> (#[trigger] ticks[i]).now <= (#[trigger] ticks[j]).now,
    ensures
        outcome(
            CaptureView::started(initial, seq, input_seq, began),
            p,
            ticks,
        ).0.movement_fits(),
{
    let c = CaptureView::started(initial, seq, input_seq, began);
    lemma_running_paced(c, p, ticks, began);
    let last = outcome(c, p, ticks).0;
    let step = batch(initial.body.len());
    if last.phase == Phase::Bottom && last.sent_rows > 0 {
        lemma_pace(
            last.initial_from_bottom,
            0,
            step,
            QUIET as int,
            last_sent(last) - began,
            CAPTURE_TIMEOUT + QUIET,
        );
    }
    assert(step * (CAPTURE_TIMEOUT + QUIET) <= 0x7fff * (CAPTURE_TIMEOUT + QUIET))
        by (nonlinear_arith)
        requires
            step <= 0x7fff,
    ;
}

/// The durations that a capture is timed by, in nanoseconds.
pub proof fn law_durations()
    ensures
        QUIET == 10 * 1_000_000,
        STEP_TIMEOUT == 1_000 * 1_000_000,
        CAPTURE_TIMEOUT == 40_000 * 1_000_000,
        RESTORE_TIMEOUT == 10_000 * 1_000_000,
{
}

/// Half of the rows in view are asked for at a time, rounded down, and never none: with two rows or
/// more in view, two neighbouring views have at least half of their rows in common.
pub proof fn law_half_a_view_at_a_time(height: nat)
    ensures
        1 <= batch(height),
        height >= 2 ==> 2 * batch(height) <= height <= 2 * batch(height) + 1,
        height < 2 ==> batch(height) == 1,
{
}

/// A capture begins on its way down, with nothing kept or counted, no keys pressed and nothing gone
/// wrong. What is in view is where it is to return to.
pub proof fn law_begins_on_the_way_down(
    initial: TranscriptView,
    seq: u64,
    input_seq: u64,
    now: int,
)
    ensures
        ({
            let c = CaptureView::started(initial, seq, input_seq, now);
            &&& c.initial == initial
            &&& c.previous == initial
            &&& c.history.len() == 0
            &&& c.bottom is None
            &&& c.phase == Phase::Bottom
            &&& c.initial_from_bottom == 0
            &&& c.restore_remaining == 0
            &&& c.sent_rows == 0
            &&& c.input_seq == input_seq
            &&& c.output_seq == seq
            &&& !c.step_observed_output
            &&& c.quiet_until == now + QUIET
            &&& c.step_deadline == now + STEP_TIMEOUT
            &&& c.deadline == now + CAPTURE_TIMEOUT
            &&& c.error is None
        }),
{
}

/// Keys that were pressed have their time, counted from when they were pressed; what was drawn
/// before does not count as an answer to them. Nothing else of the capture changes. Keys that were
/// not taken end it.
pub proof fn law_pressed_keys_have_their_time(
    c: CaptureView,
    count: nat,
    seq: u64,
    delivered: bool,
    now: int,
)
    ensures
        ({
            let (next, step) = c.send(count, seq, delivered, now);
            &&& next.output_seq == seq
            &&& !next.step_observed_output
            &&& delivered ==> {
                &&& step is Wait
                &&& next.sent_rows == count
                &&& next.quiet_until == now + QUIET
                &&& next.step_deadline == now + STEP_TIMEOUT
            }
            &&& !delivered ==> {
                &&& step == StepView::Finished(Err(Failure::SendFailed))
                &&& next.sent_rows == c.sent_rows
                &&& next.quiet_until == c.quiet_until
                &&& next.step_deadline == c.step_deadline
            }
            &&& next == (CaptureView {
                output_seq: next.output_seq,
                step_observed_output: next.step_observed_output,
                sent_rows: next.sent_rows,
                quiet_until: next.quiet_until,
                step_deadline: next.step_deadline,
                ..c
            })
        }),
{
}

/// A capture can be polled where the two views that it compares have the same height, and where, on
/// the way down, the rows counted and those asked for last fit in a machine word. Nothing else is
/// asked of it.
pub proof fn law_what_a_poll_needs(c: CaptureView)
    ensures
        c.wf() <==> c.previous.body.len() == c.initial.body.len(),
        c.movement_fits() <==> (c.phase != Phase::Bottom || c.initial_from_bottom + c.sent_rows
            <= usize::MAX),
{
}

/// The capture on the way back, after time is up, ends without a key, as it stands.
pub proof fn law_the_way_back_has_an_end(c: CaptureView, seen: ObservationView, now: int)
    requires
        seen.input_seq == c.input_seq,
        c.phase == Phase::RestoreEnd || c.phase == Phase::RestoreUp,
        now >= c.deadline,
    ensures
        c.poll(seen, now) == (c, StepView::Finished(Err(Failure::PositionNotRestored))),
{
}

/// The capture with the number of the terminal's last output noted. New output begins a new time of
/// quiet, and counts as an answer to the last keys.
pub open spec fn aware(c: CaptureView, seen: ObservationView, now: int) -> CaptureView {
    CaptureView {
        output_seq: seen.content_seq,
        step_observed_output: c.step_observed_output || seen.content_seq != c.output_seq,
        quiet_until: if seen.content_seq == c.output_seq {
            c.quiet_until
        } else {
            now + QUIET
        },
        ..c
    }
}

/// The user has typed nothing, and the screen is to be looked at: it has been quiet for its time, or
/// time is up on the way to the transcript.
pub open spec fn due(c: CaptureView, seen: ObservationView, now: int) -> bool {
    &&& seen.input_seq == c.input_seq
    &&& if now >= c.deadline {
        c.phase != Phase::RestoreEnd && c.phase != Phase::RestoreUp
    } else {
        seen.content_seq == c.output_seq && now >= c.quiet_until
    }
}

/// The screen is read as it stands: it is drawn, and nothing came while it was read.
pub open spec fn legible(c: CaptureView, seen: ObservationView, now: int) -> bool {
    &&& due(c, seen, now)
    &&& !seen.synchronized
    &&& seen.reading is Some
    &&& seen.reading->0.seq == seen.content_seq
    &&& seen.confirmed_seq == seen.content_seq
}

/// The last keys were a jump, of which nothing has been drawn yet, and which still has its time.
pub open spec fn jumping(c: CaptureView, seen: ObservationView, now: int) -> bool {
    &&& c.phase != Phase::Bottom && c.phase != Phase::Capture && c.phase != Phase::RestoreUp
    &&& !aware(c, seen, now).step_observed_output
    &&& now < c.step_deadline
    &&& now < c.deadline
}

/// The transcript is read off the screen, in its first size.
pub open spec fn in_view(
    c: CaptureView,
    seen: ObservationView,
    now: int,
    current: TranscriptView,
) -> bool {
    &&& legible(c, seen, now)
    &&& !jumping(c, seen, now)
    &&& seen.reading->0.snapshot.transcript(seen.reading->0.screen) == Some(current)
    &&& current.cols == c.initial.cols
    &&& current.body.len() == c.initial.body.len()
    &&& c.previous.body.len() == c.initial.body.len()
}

/// A poll that finds new output, or comes before the screen has been quiet for its time, waits, and
/// only takes note of the output.
pub proof fn law_waits_for_quiet(c: CaptureView, seen: ObservationView, now: int)
    requires
        seen.input_seq == c.input_seq,
        now < c.deadline,
        seen.content_seq != c.output_seq || now < c.quiet_until,
    ensures
        c.poll(seen, now) == (aware(c, seen, now), StepView::Wait),
{
}

/// A screen that is being drawn is looked at again after a short while, for as long as the last keys
/// have their time; a capture that still finds it so then ends.
pub proof fn law_waits_for_the_drawing(c: CaptureView, seen: ObservationView, now: int)
    requires
        due(c, seen, now),
        seen.synchronized,
    ensures
        ({
            let (next, step) = c.poll(seen, now);
            &&& next == (CaptureView { quiet_until: now + QUIET, ..aware(c, seen, now) })
            &&& step == if now < c.deadline && now < c.step_deadline {
                StepView::Wait
            } else {
                StepView::Finished(Err(Failure::NotDrawn))
            }
        }),
{
}

/// A screen that cannot be read is looked at again after a short while, until time is up.
pub proof fn law_waits_for_a_reading(c: CaptureView, seen: ObservationView, now: int)
    requires
        due(c, seen, now),
        !seen.synchronized,
        seen.reading is None,
    ensures
        now < c.deadline ==> c.poll(seen, now) == (
            CaptureView { quiet_until: now + QUIET, ..aware(c, seen, now) },
            StepView::Wait,
        ),
        now >= c.deadline ==> c.poll(seen, now) == (
            aware(c, seen, now),
            StepView::Finished(Err(Failure::TimedOutUnread)),
        ),
{
}

/// A screen that changes while it is read is not trusted: it is looked at again after a time of
/// quiet, until time is up.
pub proof fn law_waits_for_a_steady_screen(c: CaptureView, seen: ObservationView, now: int)
    requires
        due(c, seen, now),
        !seen.synchronized,
        seen.reading is Some,
        seen.reading->0.seq != seen.content_seq || seen.confirmed_seq != seen.reading->0.seq,
    ensures
        now < c.deadline ==> c.poll(seen, now) == (
            CaptureView {
                output_seq: seen.reading->0.seq,
                step_observed_output: true,
                quiet_until: now + QUIET,
                ..c
            },
            StepView::Wait,
        ),
        now >= c.deadline ==> c.poll(seen, now) == (
            aware(c, seen, now),
            StepView::Finished(Err(Failure::KeptChanging)),
        ),
{
}

/// A jump that may not have been drawn yet is waited for, whatever the screen shows.
pub proof fn law_waits_for_the_jump(c: CaptureView, seen: ObservationView, now: int)
    requires
        legible(c, seen, now),
        jumping(c, seen, now),
    ensures
        c.poll(seen, now) == (
            CaptureView { quiet_until: now + QUIET, ..aware(c, seen, now) },
            StepView::Wait,
        ),
{
}

/// A screen without the transcript, or with one of another size, ends the capture as it stands.
pub proof fn law_ends_outside_the_transcript(c: CaptureView, seen: ObservationView, now: int)
    requires
        legible(c, seen, now),
        !jumping(c, seen, now),
    ensures
        match seen.reading->0.snapshot.transcript(seen.reading->0.screen) {
            None => c.poll(seen, now) == (
                aware(c, seen, now),
                StepView::Finished(Err(Failure::LeftView)),
            ),
            Some(current) => current.cols != c.initial.cols || current.body.len()
                != c.initial.body.len() ==> c.poll(seen, now) == (
                aware(c, seen, now),
                StepView::Finished(Err(Failure::SizeChanged)),
            ),
        },
{
}

/// The first poll that finds the transcript sends the view down.
pub proof fn law_first_sends_down(
    c: CaptureView,
    seen: ObservationView,
    now: int,
    current: TranscriptView,
)
    requires
        in_view(c, seen, now, current),
        now < c.deadline,
        c.sent_rows == 0,
    ensures
        c.poll(seen, now) == (
            CaptureView { previous: current, ..aware(c, seen, now) },
            StepView::Send { key: Key::Down, count: batch(current.body.len()) },
        ),
{
}

/// On the way down, a view that stays the same is waited for while the last keys have their time.
/// After that it is the last view, and the step is to send End once, unless moving it by some number
/// of rows, up to as many as are asked for at a time, leaves each of its rows the same: only then
/// does the capture fail. Rows that are the same without that do no harm.
pub proof fn law_same_view_is_the_last_unless_rows_repeat(
    c: CaptureView,
    seen: ObservationView,
    now: int,
    current: TranscriptView,
)
    requires
        in_view(c, seen, now, current),
        now < c.deadline,
        c.sent_rows > 0,
        c.phase == Phase::Bottom,
        current == c.previous,
    ensures
        ({
            let noted = aware(c, seen, now);
            let rows = current.body;
            let repeated = exists|shift: int|
                1 <= shift <= batch(rows.len()) && shift < rows.len() && #[trigger] moved(
                    rows,
                    rows,
                    shift,
                );
            &&& now < c.step_deadline ==> c.poll(seen, now) == (
                CaptureView { quiet_until: c.step_deadline, ..noted },
                StepView::Wait,
            )
            &&& now >= c.step_deadline && !repeated ==> c.poll(seen, now) == (
                CaptureView { phase: Phase::VerifyBottom, ..noted },
                StepView::Send { key: Key::End, count: 1 },
            )
            &&& now >= c.step_deadline && repeated ==> c.poll(seen, now) == (
                noted,
                StepView::Finished(Err(Failure::RepeatedOnTheWayDown)),
            )
        }),
{
    law_repeated_rows_stay_the_same(current.body, batch(current.body.len()));
}

/// On the way down, a view that changed has moved by the only number of rows that explains it row by
/// row, which is counted, and the view is sent further down. Where there is no such number, the
/// capture fails.
pub proof fn law_counts_the_only_move_down(
    c: CaptureView,
    seen: ObservationView,
    now: int,
    current: TranscriptView,
)
    requires
        in_view(c, seen, now, current),
        now < c.deadline,
        c.sent_rows > 0,
        c.phase == Phase::Bottom,
        current != c.previous,
    ensures
        forall|rows: nat| #[trigger]
            only_move(c.previous.body, current.body, c.sent_rows, rows) ==> c.poll(seen, now) == (
                CaptureView {
                    previous: current,
                    initial_from_bottom: c.initial_from_bottom + rows,
                    ..aware(c, seen, now)
                },
                StepView::Send { key: Key::Down, count: batch(current.body.len()) },
            ),
        (forall|rows: nat| !#[trigger] only_move(c.previous.body, current.body, c.sent_rows, rows))
            ==> c.poll(seen, now) == (
            aware(c, seen, now),
            StepView::Finished(Err(Failure::ScrollUnmeasured)),
        ),
{
    lemma_distance(c.previous.body, current.body, c.sent_rows);
}

/// After the jump to the end, the view must still be the last one. Then it is kept, as the first of
/// the rows to hand out and as the view to come back to, and the step is to send Home once.
pub proof fn law_keeps_the_last_view(
    c: CaptureView,
    seen: ObservationView,
    now: int,
    current: TranscriptView,
)
    requires
        in_view(c, seen, now, current),
        now < c.deadline,
        c.sent_rows > 0,
        c.phase == Phase::VerifyBottom,
    ensures
        current == c.previous ==> c.poll(seen, now) == (
            CaptureView {
                history: current.body,
                bottom: Some(current),
                phase: Phase::LoadStart,
                ..aware(c, seen, now)
            },
            StepView::Send { key: Key::Home, count: 1 },
        ),
        current != c.previous ==> c.poll(seen, now) == (
            aware(c, seen, now),
            StepView::Finished(Err(Failure::BottomNotReached)),
        ),
{
}

/// `text` holds `part`.
pub open spec fn holds_text(text: Seq<char>, part: Seq<char>) -> bool {
    exists|before: Seq<char>, after: Seq<char>| text == #[trigger] (before + part + after)
}

/// The step is on the way back, with `error` to be told at its end if there is one: to the end,
/// where the end has been seen, and otherwise up from where the view is.
pub open spec fn turns_back(
    c: CaptureView,
    error: Option<Failure>,
    now: int,
    next: CaptureView,
    step: StepView,
) -> bool {
    if c.phase == Phase::Bottom || c.phase == Phase::VerifyBottom {
        goes_up_or_ends(
            CaptureView {
                restore_remaining: c.initial_from_bottom,
                phase: Phase::RestoreUp,
                deadline: now + RESTORE_TIMEOUT,
                error,
                ..c
            },
            next,
            step,
        )
    } else {
        &&& next == (CaptureView {
            phase: Phase::RestoreEnd,
            deadline: now + RESTORE_TIMEOUT,
            error,
            ..c
        })
        &&& step == (StepView::Send { key: Key::End, count: 1 })
    }
}

/// While rows remain to be undone, some of them are, as many as are asked for at a time or all that
/// remain. Then the capture ends: with what is on record if the first view is back, and otherwise
/// without.
pub open spec fn goes_up_or_ends(c: CaptureView, next: CaptureView, step: StepView) -> bool {
    let most = batch(c.initial.body.len());
    if c.restore_remaining > 0 {
        &&& next == c
        &&& step matches StepView::Send { key, count } && {
            &&& key == Key::Up
            &&& count <= most && count <= c.restore_remaining
            &&& count == most || count == c.restore_remaining
        }
    } else if c.previous == c.initial {
        &&& next == (CaptureView { error: None, ..c })
        &&& c.error is None ==> step == StepView::Finished(Ok(lines_text(c.history)))
        &&& c.error matches Some(error) ==> step == StepView::Finished(Err(error))
    } else {
        &&& next == c
        &&& step == StepView::Finished(Err(Failure::ViewNotRestored))
    }
}

/// After the jump to the start, the title tells of older rows. Where they cannot be had, the capture
/// turns back with that on record. While they come, it waits. Then the step is to send End once.
pub proof fn law_goes_by_the_title(
    c: CaptureView,
    seen: ObservationView,
    now: int,
    current: TranscriptView,
)
    requires
        in_view(c, seen, now, current),
        now < c.deadline,
        c.sent_rows > 0,
        c.phase == Phase::LoadStart,
    ensures
        ({
            let (next, step) = c.poll(seen, now);
            let noted = aware(c, seen, now);
            let title = seen.reading->0.snapshot.rows[0];
            if holds_text(title, "history unavailable"@) {
                turns_back(noted, Some(Failure::HistoryUnavailable), now, next, step)
            } else if holds_text(title, "loading older history"@) || holds_text(
                title,
                "partial history"@,
            ) {
                &&& next == (CaptureView { quiet_until: now + QUIET, ..noted })
                &&& step is Wait
            } else {
                &&& next == (CaptureView { phase: Phase::CaptureEnd, ..noted })
                &&& step == (StepView::Send { key: Key::End, count: 1 })
            }
        }),
{
    let title = seen.reading->0.snapshot.header();
    law_occurs_between(title, "history unavailable"@);
    law_occurs_between(title, "loading older history"@);
    law_occurs_between(title, "partial history"@);
}

/// After the jump back to the end, the view that was kept has to come back. Then the view is sent
/// up. If it has not come back when the jump has had its time, the capture turns back with that on
/// record.
pub proof fn law_goes_up_from_the_kept_view(
    c: CaptureView,
    seen: ObservationView,
    now: int,
    current: TranscriptView,
)
    requires
        in_view(c, seen, now, current),
        now < c.deadline,
        c.sent_rows > 0,
        c.phase == Phase::CaptureEnd,
    ensures
        ({
            let (next, step) = c.poll(seen, now);
            let noted = aware(c, seen, now);
            &&& c.bottom == Some(current) ==> {
                &&& next == (CaptureView { previous: current, phase: Phase::Capture, ..noted })
                &&& step == (StepView::Send { key: Key::Up, count: batch(current.body.len()) })
            }
            &&& c.bottom != Some(current) && now < c.step_deadline ==> {
                &&& next == (CaptureView { quiet_until: now + QUIET, ..noted })
                &&& step is Wait
            }
            &&& c.bottom != Some(current) && now >= c.step_deadline ==> turns_back(
                noted,
                Some(Failure::ChangedWhileLoading),
                now,
                next,
                step,
            )
        }),
{
}

/// On the way up, a view that stays the same is waited for while the last keys have their time.
/// After that it is the first view, and the step is to send Home once, unless moving it by some
/// number of rows, up to as many as are asked for at a time, leaves each of its rows the same: only
/// then does the capture turn back with that on record.
pub proof fn law_same_view_is_the_first_unless_rows_repeat(
    c: CaptureView,
    seen: ObservationView,
    now: int,
    current: TranscriptView,
)
    requires
        in_view(c, seen, now, current),
        now < c.deadline,
        c.sent_rows > 0,
        c.phase == Phase::Capture,
        current == c.previous,
    ensures
        ({
            let (next, step) = c.poll(seen, now);
            let noted = aware(c, seen, now);
            let rows = current.body;
            let repeated = exists|shift: int|
                1 <= shift <= batch(rows.len()) && shift < rows.len() && #[trigger] moved(
                    rows,
                    rows,
                    shift,
                );
            &&& now < c.step_deadline ==> {
                &&& next == (CaptureView { quiet_until: c.step_deadline, ..noted })
                &&& step is Wait
            }
            &&& now >= c.step_deadline && !repeated ==> {
                &&& next == (CaptureView { phase: Phase::VerifyTop, ..noted })
                &&& step == (StepView::Send { key: Key::Home, count: 1 })
            }
            &&& now >= c.step_deadline && repeated ==> turns_back(
                noted,
                Some(Failure::RepeatedOnTheWayUp),
                now,
                next,
                step,
            )
        }),
{
    law_repeated_rows_stay_the_same(current.body, batch(current.body.len()));
}

/// On the way up, a view that changed has moved by the only number of rows that explains it row by
/// row. So many of its rows are new, and are kept before the others; then the view is sent further
/// up. Where there is no such number, the capture turns back with that on record.
pub proof fn law_keeps_the_rows_of_the_only_move_up(
    c: CaptureView,
    seen: ObservationView,
    now: int,
    current: TranscriptView,
)
    requires
        in_view(c, seen, now, current),
        now < c.deadline,
        c.sent_rows > 0,
        c.phase == Phase::Capture,
        current != c.previous,
    ensures
        ({
            let (next, step) = c.poll(seen, now);
            let noted = aware(c, seen, now);
            &&& forall|rows: nat| #[trigger]
                only_move(current.body, c.previous.body, c.sent_rows, rows) ==> {
                    &&& next == (CaptureView { previous: current, history: next.history, ..noted })
                    &&& next.history.len() == rows + c.history.len()
                    &&& forall|i: int| 0 <= i < rows ==> #[trigger] next.history[i]
                        == current.body[i]
                    &&& forall|i: int|
                        rows <= i < next.history.len() ==> #[trigger] next.history[i]
                            == c.history[i - rows]
                    &&& step == (StepView::Send { key: Key::Up, count: batch(current.body.len()) })
                }
            &&& (forall|rows: nat|
                !#[trigger] only_move(current.body, c.previous.body, c.sent_rows, rows))
                ==> turns_back(noted, Some(Failure::ScrollAmbiguous), now, next, step)
        }),
{
    lemma_distance(current.body, c.previous.body, c.sent_rows);
}

/// After the jump to the start, the view must still be the first one. The capture turns back in
/// either case, and if it is not, with that on record.
pub proof fn law_turns_back_at_the_first_view(
    c: CaptureView,
    seen: ObservationView,
    now: int,
    current: TranscriptView,
)
    requires
        in_view(c, seen, now, current),
        now < c.deadline,
        c.sent_rows > 0,
        c.phase == Phase::VerifyTop,
    ensures
        ({
            let (next, step) = c.poll(seen, now);
            let noted = aware(c, seen, now);
            &&& current == c.previous ==> turns_back(noted, c.error, now, next, step)
            &&& current != c.previous ==> turns_back(
                noted,
                Some(Failure::TopNotReached),
                now,
                next,
                step,
            )
        }),
{
}

/// On the way back, the view that was kept has to come back at the end. Then as many rows as were
/// counted on the way down are undone. If it has not come back when the jump has had its time, the
/// capture fails.
pub proof fn law_undoes_the_count_from_the_kept_view(
    c: CaptureView,
    seen: ObservationView,
    now: int,
    current: TranscriptView,
)
    requires
        in_view(c, seen, now, current),
        now < c.deadline,
        c.sent_rows > 0,
        c.phase == Phase::RestoreEnd,
    ensures
        ({
            let (next, step) = c.poll(seen, now);
            let noted = aware(c, seen, now);
            &&& c.bottom == Some(current) ==> goes_up_or_ends(
                CaptureView {
                    previous: current,
                    restore_remaining: c.initial_from_bottom,
                    phase: Phase::RestoreUp,
                    ..noted
                },
                next,
                step,
            )
            &&& c.bottom != Some(current) && now < c.step_deadline ==> {
                &&& next == (CaptureView { quiet_until: now + QUIET, ..noted })
                &&& step is Wait
            }
            &&& c.bottom != Some(current) && now >= c.step_deadline ==> {
                &&& next == noted
                &&& step == StepView::Finished(Err(Failure::BottomNotRegained))
            }
        }),
{
}

/// On the way back up, the view has to move by as many rows as keys were pressed, and by no other
/// number that would explain it; a view that stays the same is waited for while the keys have their
/// time. Rows that were undone remain no longer. Any other move ends the capture.
pub proof fn law_undoes_row_by_row(
    c: CaptureView,
    seen: ObservationView,
    now: int,
    current: TranscriptView,
)
    requires
        in_view(c, seen, now, current),
        now < c.deadline,
        c.sent_rows > 0,
        c.phase == Phase::RestoreUp,
    ensures
        ({
            let (next, step) = c.poll(seen, now);
            let noted = aware(c, seen, now);
            let undone = only_move(current.body, c.previous.body, c.sent_rows, c.sent_rows);
            if current == c.previous && now < c.step_deadline {
                &&& next == (CaptureView { quiet_until: c.step_deadline, ..noted })
                &&& step is Wait
            } else if undone {
                exists|left: nat|
                    {
                        &&& left + c.sent_rows == c.restore_remaining || (left == 0
                            && c.restore_remaining < c.sent_rows)
                        &&& #[trigger] goes_up_or_ends(
                            CaptureView { previous: current, restore_remaining: left, ..noted },
                            next,
                            step,
                        )
                    }
            } else {
                &&& next == noted
                &&& step == StepView::Finished(Err(Failure::PositionNotRestored))
            }
        }),
{
    law_distance_is_the_only_move(current.body, c.previous.body, c.sent_rows, c.sent_rows);
    let noted = aware(c, seen, now);
    let (next, step) = c.poll(seen, now);
    if only_move(current.body, c.previous.body, c.sent_rows, c.sent_rows) && !(current == c.previous
        && now < c.step_deadline) {
        let left: nat = if c.restore_remaining >= c.sent_rows {
            (c.restore_remaining - c.sent_rows) as nat
        } else {
            0
        };
        assert(goes_up_or_ends(
            CaptureView { previous: current, restore_remaining: left, ..noted },
            next,
            step,
        ));
    }
}

/// When time is up with the transcript in view, the capture turns back with that on record, in every
/// phase that is not on the way back already: where the end has been seen, by sending End once, and
/// otherwise by undoing what was counted. Only on the way down may it end instead, and only if the
/// view changed by a move that no single number of rows explains; a move that one does is counted
/// first.
pub proof fn law_turns_back_when_time_is_up(
    c: CaptureView,
    seen: ObservationView,
    now: int,
    current: TranscriptView,
)
    requires
        in_view(c, seen, now, current),
        now >= c.deadline,
    ensures
        ({
            let (next, step) = c.poll(seen, now);
            let noted = aware(c, seen, now);
            let late = Some(Failure::TimedOut);
            if c.phase == Phase::Bottom && current != c.previous {
                &&& forall|rows: nat| #[trigger]
                    only_move(c.previous.body, current.body, c.sent_rows, rows) ==> turns_back(
                        CaptureView {
                            previous: current,
                            initial_from_bottom: c.initial_from_bottom + rows,
                            ..noted
                        },
                        late,
                        now,
                        next,
                        step,
                    )
                &&& (forall|rows: nat|
                    !#[trigger] only_move(c.previous.body, current.body, c.sent_rows, rows)) ==> {
                    &&& next == (CaptureView { error: late, ..noted })
                    &&& step == StepView::Finished(Err(Failure::TimedOutUnmeasured))
                }
            } else {
                turns_back(noted, late, now, next, step)
            }
        }),
{
    lemma_distance(c.previous.body, current.body, c.sent_rows);
}

/// When time is up with the transcript in view and the end already seen, the step is to send End
/// once, and the capture is on its way back with its own time for it and everything else as it was.
pub proof fn law_goes_back_by_the_end(
    c: CaptureView,
    seen: ObservationView,
    now: int,
    current: TranscriptView,
)
    requires
        in_view(c, seen, now, current),
        now >= c.deadline,
        c.phase == Phase::LoadStart || c.phase == Phase::CaptureEnd || c.phase == Phase::Capture
            || c.phase == Phase::VerifyTop,
    ensures
        ({
            let (next, step) = c.poll(seen, now);
            &&& step == (StepView::Send { key: Key::End, count: 1 })
            &&& next.phase == Phase::RestoreEnd
            &&& next.error == Some(Failure::TimedOut)
            &&& next.deadline == now + 10_000_000_000
            &&& next.initial_from_bottom == c.initial_from_bottom
            &&& next.bottom == c.bottom
            &&& next.initial == c.initial
        }),
{
}

} // verus!
