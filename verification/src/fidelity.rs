//! What a capture hands out is the document, and it leaves the pager as it found it.

use vstd::prelude::*;

use crate::capture::Phase;
use crate::failure::Failure;
use crate::model::{CaptureView, ObservationView, StepView, batch, restoring};
use crate::pager::{
    Pager, Tick, hidden_move, law_single_overlap_is_the_distance, lemma_grows_on,
    lemma_same_rows_below, may_become, outcome, session, shows, turn,
};
use crate::scroll::{distance, repeats};
use crate::text::lines_text;
use crate::transcript::TranscriptView;

verus! {

/// A failure that is told only after the way back.
pub open spec fn told_after_the_way_back(failure: Failure) -> bool {
    ||| failure == Failure::TimedOut
    ||| failure == Failure::HistoryUnavailable
    ||| failure == Failure::ChangedWhileLoading
    ||| failure == Failure::RepeatedOnTheWayUp
    ||| failure == Failure::ScrollAmbiguous
    ||| failure == Failure::TopNotReached
}

/// The end of the document is known, and how far above it the capture began.
pub open spec fn knows_the_end(c: CaptureView, p: Pager, start: Pager) -> bool {
    &&& c.initial_from_bottom == start.below()
    &&& c.bottom == Some(TranscriptView { cols: c.initial.cols, body: p.view_at(p.last()) })
}

/// Nothing went wrong so far.
pub open spec fn sound(c: CaptureView, p: Pager) -> bool {
    c.error is None ==> c.history == p.doc
}

/// What a capture that began at `start` knows of the pager `p`, once its keys have been pressed.
pub open spec fn tracks(c: CaptureView, p: Pager, start: Pager) -> bool {
    &&& start.wf()
    &&& start.grows_into(p)
    &&& c.initial.body == start.window()
    &&& c.previous.cols == c.initial.cols
    &&& if c.sent_rows == 0 {
        &&& c.phase == Phase::Bottom
        &&& c.previous == c.initial
        &&& c.initial_from_bottom == 0
        &&& c.error is None
        &&& p.below() == start.below()
    } else {
        match c.phase {
            Phase::Bottom => {
                let from = p.last() - start.below() + c.initial_from_bottom;
                &&& from <= p.last()
                &&& c.sent_rows == batch(p.height)
                &&& c.previous.body == p.view_at(from)
                &&& p.pos == if from + c.sent_rows <= p.last() {
                    from + c.sent_rows
                } else {
                    p.last()
                }
                &&& c.error is None
            },
            Phase::VerifyBottom => {
                &&& c.initial_from_bottom == start.below()
                &&& c.previous.body == p.view_at(p.last())
                &&& p.below() == 0
                &&& c.error is None
            },
            Phase::LoadStart => {
                &&& knows_the_end(c, p, start)
                &&& c.history == p.view_at(p.last())
                &&& c.error is None
            },
            Phase::CaptureEnd => {
                &&& knows_the_end(c, p, start)
                &&& c.history == p.view_at(p.last())
                &&& p.below() == 0
                &&& c.error is None
            },
            Phase::Capture => {
                let from = p.doc.len() - c.history.len();
                &&& knows_the_end(c, p, start)
                &&& 0 <= from <= p.last()
                &&& c.sent_rows == batch(p.height)
                &&& c.history == p.doc.subrange(from, p.doc.len() as int)
                &&& c.previous.body == p.view_at(from)
                &&& p.pos == if c.sent_rows <= from {
                    from - c.sent_rows
                } else {
                    0
                }
                &&& c.error is None
            },
            Phase::VerifyTop => {
                &&& knows_the_end(c, p, start)
                &&& c.history == p.doc
                &&& c.previous.body == p.view_at(0)
                &&& p.pos == 0
                &&& c.error is None
            },
            Phase::RestoreEnd => {
                &&& knows_the_end(c, p, start)
                &&& sound(c, p)
                &&& p.below() == 0
            },
            Phase::RestoreUp => {
                let from = p.last() - start.below() + c.restore_remaining;
                &&& from <= p.last()
                &&& c.sent_rows <= c.restore_remaining
                &&& c.sent_rows <= batch(p.height)
                &&& c.previous.body == p.view_at(from)
                &&& p.pos == from - c.sent_rows
                &&& sound(c, p)
            },
        }
    }
}

pub(crate) proof fn lemma_tracks_older_rows(c: CaptureView, p: Pager, next: Pager, start: Pager)
    requires
        tracks(c, p, start),
        may_become(c, p, next),
    ensures
        tracks(c, next, start),
{
    if next != p {
        lemma_grows_on(start, p, next);
        lemma_same_rows_below(p, next, p.last(), next.last());
        if c.phase == Phase::RestoreUp {
            let from = p.last() - start.below() + c.restore_remaining;
            let next_from = next.last() - start.below() + c.restore_remaining;
            lemma_same_rows_below(p, next, from, next_from);
        }
    }
}

/// What a step leads to is known again.
pub(crate) open spec fn leads_well(c: CaptureView, step: StepView, p: Pager, start: Pager) -> bool {
    match step {
        StepView::Wait => tracks(c, p, start),
        StepView::Send { key, count } => tracks(
            CaptureView { sent_rows: count, ..c },
            p.press(key, count),
            start,
        ),
        StepView::Finished(Ok(text)) => text == lines_text(p.doc) && p.below() == start.below(),
        StepView::Finished(Err(failure)) => told_after_the_way_back(failure) ==> p.below()
            == start.below(),
    }
}

proof fn lemma_restore_step(c: CaptureView, p: Pager, start: Pager)
    requires
        start.wf(),
        start.grows_into(p),
        c.initial.body == start.window(),
        c.previous.cols == c.initial.cols,
        c.phase == Phase::RestoreUp,
        p.pos == p.last() - start.below() + c.restore_remaining,
        c.previous.body == p.window(),
        sound(c, p),
    ensures
        ({
            let (next, step) = c.restore_step(batch(p.height));
            leads_well(next, step, p, start)
        }),
{
}

proof fn lemma_restore(c: CaptureView, p: Pager, start: Pager, now: int)
    requires
        start.wf(),
        start.grows_into(p),
        c.initial.body == start.window(),
        c.previous.cols == c.initial.cols,
        sound(c, p),
        if c.phase == Phase::Bottom || c.phase == Phase::VerifyBottom {
            &&& p.pos == p.last() - start.below() + c.initial_from_bottom
            &&& c.previous.body == p.window()
        } else {
            knows_the_end(c, p, start)
        },
    ensures
        ({
            let (next, step) = c.restore(now);
            leads_well(next, step, p, start)
        }),
{
    if c.phase == Phase::Bottom || c.phase == Phase::VerifyBottom {
        let turned = CaptureView { deadline: now + crate::capture::RESTORE_TIMEOUT, ..c };
        lemma_restore_step(turned.rewinding(), p, start);
    }
}

/// On the way down, a view that changed is measured truly, and one that did not is the last one,
/// unless rows repeat.
proof fn lemma_moved_down(c: CaptureView, current: TranscriptView, p: Pager, start: Pager)
    requires
        tracks(c, p, start),
        c.phase == Phase::Bottom,
        c.sent_rows > 0,
        current.cols == c.initial.cols,
        current.body == p.window(),
    ensures
        ({
            let from = p.last() - start.below() + c.initial_from_bottom;
            &&& distance(c.previous.body, current.body, c.sent_rows) matches Some(rows) ==> (current
                != c.previous ==> rows == p.pos - from)
            &&& current == c.previous && !repeats(current.body, c.sent_rows) ==> from == p.last()
            &&& current != c.previous ==> from < p.pos
        }),
{
    let from = p.last() - start.below() + c.initial_from_bottom;
    if from < p.pos {
        law_single_overlap_is_the_distance(p, from, p.pos as int, c.sent_rows);
    }
}

/// On the way up, a view that changed is measured truly, and one that did not is the first one,
/// unless rows repeat.
proof fn lemma_moved_up(c: CaptureView, current: TranscriptView, p: Pager, start: Pager)
    requires
        tracks(c, p, start),
        c.phase == Phase::Capture,
        c.sent_rows > 0,
        current.cols == c.initial.cols,
        current.body == p.window(),
    ensures
        ({
            let from = p.doc.len() - c.history.len();
            &&& distance(current.body, c.previous.body, c.sent_rows) matches Some(rows) ==> (current
                != c.previous ==> {
                &&& rows == from - p.pos
                &&& current.body.take(rows as int) + c.history == p.doc.subrange(
                    p.pos as int,
                    p.doc.len() as int,
                )
            })
            &&& current == c.previous && !repeats(current.body, c.sent_rows) ==> from == 0
                && c.history == p.doc
            &&& current != c.previous ==> p.pos < from
        }),
{
    let from = p.doc.len() - c.history.len();
    if p.pos < from {
        law_single_overlap_is_the_distance(p, p.pos as int, from, c.sent_rows);
        let rows = from - p.pos;
        assert(current.body.take(rows) + c.history =~= p.doc.subrange(
            p.pos as int,
            p.doc.len() as int,
        ));
    } else {
        assert(from == 0);
        assert(p.doc.subrange(0, p.doc.len() as int) =~= p.doc);
    }
}

proof fn lemma_advance(
    c: CaptureView,
    current: TranscriptView,
    header: Seq<char>,
    now: int,
    p: Pager,
    start: Pager,
)
    requires
        tracks(c, p, start),
        current.cols == c.initial.cols,
        current.body == p.window(),
        c.phase == Phase::Bottom && c.expired(now) && p.window() == c.previous.body
            ==> c.initial_from_bottom + p.below() == start.below(),
        !(c.expired(now) && (c.phase == Phase::RestoreEnd || c.phase == Phase::RestoreUp)),
    ensures
        ({
            let (next, step) = c.advance(current, header, now);
            leads_well(next, step, p, start)
        }),
{
    if p.below() == start.below() {
        lemma_same_rows_below(start, p, start.pos as int, p.pos as int);
    }
    if c.expired(now) {
        let late = c.with_error(Failure::TimedOut);
        if c.phase == Phase::Bottom && current != c.previous {
            lemma_moved_down(c, current, p, start);
            let rows = distance(c.previous.body, current.body, c.sent_rows);
            if rows is Some {
                lemma_restore(late.counting(rows->0).at(current), p, start, now);
            }
        } else {
            lemma_restore(late, p, start, now);
        }
    } else if c.sent_rows > 0 {
        match c.phase {
            Phase::Bottom => {
                lemma_moved_down(c, current, p, start);
            },
            Phase::VerifyBottom => {},
            Phase::LoadStart => {
                lemma_restore(c.with_error(Failure::HistoryUnavailable), p, start, now);
            },
            Phase::CaptureEnd => {
                lemma_restore(c.with_error(Failure::ChangedWhileLoading), p, start, now);
            },
            Phase::Capture => {
                lemma_moved_up(c, current, p, start);
                lemma_restore(c.with_error(Failure::RepeatedOnTheWayUp), p, start, now);
                lemma_restore(c.with_error(Failure::ScrollAmbiguous), p, start, now);
            },
            Phase::VerifyTop => {
                lemma_restore(c.with_error(Failure::TopNotReached), p, start, now);
                lemma_restore(c, p, start, now);
            },
            Phase::RestoreEnd => {
                lemma_restore_step(c.rewinding().at(current), p, start);
            },
            Phase::RestoreUp => {
                let left = CaptureView {
                    restore_remaining: (c.restore_remaining - c.sent_rows) as nat,
                    ..c.at(current)
                };
                lemma_restore_step(left, p, start);
            },
        }
    }
}

/// A move was hidden when time was up: nothing is known any more, but that there is no transcript.
spec fn lost(c: CaptureView) -> bool {
    &&& c.error == Some(Failure::TimedOut)
    &&& c.phase == Phase::RestoreUp
    &&& c.sent_rows > 0
}

spec fn on_track(c: CaptureView, p: Pager, start: Pager, overt: bool) -> bool {
    tracks(c, p, start) || (!overt && lost(c))
}

pub(crate) proof fn lemma_tracks_whenever(c: CaptureView, d: CaptureView, p: Pager, start: Pager)
    requires
        tracks(c, p, start),
        d == (CaptureView {
            output_seq: d.output_seq,
            step_observed_output: d.step_observed_output,
            quiet_until: d.quiet_until,
            step_deadline: d.step_deadline,
            ..c
        }),
    ensures
        tracks(d, p, start),
{
}

pub(crate) proof fn lemma_poll_tracks(
    c: CaptureView,
    seen: ObservationView,
    now: int,
    p: Pager,
    start: Pager,
)
    requires
        tracks(c, p, start),
        shows(c, seen, now, p),
        c.phase == Phase::Bottom && c.expired(now) && p.window() == c.previous.body
            ==> c.initial_from_bottom + p.below() == start.below(),
    ensures
        ({
            let (next, step) = c.poll(seen, now);
            leads_well(next, step, p, start)
        }),
{
    let (next, step) = c.poll(seen, now);
    if step is Wait && next.phase == c.phase && next.sent_rows == c.sent_rows {
        lemma_tracks_whenever(c, next, p, start);
    }
    if seen.input_seq == c.input_seq && !(c.expired(now) && restoring(c.phase)) {
        let noted = c.noting(seen.content_seq, now);
        lemma_tracks_whenever(c, noted, p, start);
        if let Some(reading) = seen.reading {
            if let Some(current) = reading.snapshot.transcript(reading.screen) {
                if current.cols == c.initial.cols && current.body == p.window() {
                    let header = reading.snapshot.header();
                    lemma_advance(noted, current, header, now, p, start);
                }
            }
        }
    }
}

/// What may still come of a capture that is lost.
spec fn leads_nowhere(c: CaptureView, step: StepView) -> bool {
    match step {
        StepView::Wait => lost(c),
        StepView::Send { key, count } => lost(CaptureView { sent_rows: count, ..c }),
        StepView::Finished(Ok(text)) => false,
        StepView::Finished(Err(failure)) => told_after_the_way_back(failure) ==> failure
            == Failure::TimedOut,
    }
}

proof fn lemma_poll_lost(c: CaptureView, seen: ObservationView, now: int)
    requires
        lost(c),
    ensures
        ({
            let (next, step) = c.poll(seen, now);
            leads_nowhere(next, step)
        }),
{
}

proof fn lemma_poll_hidden(c: CaptureView, seen: ObservationView, now: int)
    requires
        c.phase == Phase::Bottom,
        c.expired(now),
        c.previous.cols == c.initial.cols,
        seen.reading matches Some(reading) ==> (reading.snapshot.transcript(
            reading.screen,
        ) matches Some(current) ==> current.body == c.previous.body),
    ensures
        ({
            let (next, step) = c.poll(seen, now);
            leads_nowhere(next, step)
        }),
{
}

proof fn lemma_turn(c: CaptureView, p: Pager, start: Pager, overt: bool, tick: Tick)
    requires
        on_track(c, p, start, overt),
        may_become(c, p, tick.shown),
        shows(c, tick.seen, tick.now, tick.shown),
        overt ==> !hidden_move(c, start, tick),
    ensures
        ({
            let (next, pager, step) = turn(c, tick);
            match step {
                StepView::Finished(Ok(text)) => {
                    &&& text == lines_text(pager.doc)
                    &&& pager.below() == start.below()
                    &&& start.grows_into(pager)
                },
                StepView::Finished(Err(failure)) => told_after_the_way_back(failure) && (overt
                    || failure != Failure::TimedOut) ==> {
                    &&& pager.below() == start.below()
                    &&& start.grows_into(pager)
                },
                _ => on_track(next, pager, start, overt),
            }
        }),
{
    let (polled, step) = c.poll(tick.seen, tick.now);
    if tracks(c, p, start) && !hidden_move(c, start, tick) {
        lemma_tracks_older_rows(c, p, tick.shown, start);
        lemma_poll_tracks(c, tick.seen, tick.now, tick.shown, start);
        if let StepView::Send { key, count } = step {
            lemma_tracks_whenever(
                CaptureView { sent_rows: count, ..polled },
                polled.send(count, tick.seq, true, tick.now).0,
                tick.shown.press(key, count),
                start,
            );
        }
    } else if tracks(c, p, start) {
        lemma_poll_hidden(c, tick.seen, tick.now);
    } else {
        lemma_poll_lost(c, tick.seen, tick.now);
    }
}

proof fn lemma_session(
    c: CaptureView,
    p: Pager,
    start: Pager,
    overt: bool,
    ticks: Seq<Tick>,
)
    requires
        on_track(c, p, start, overt),
        session(c, p, start, overt, ticks),
    ensures
        ({
            let (next, pager, step) = outcome(c, p, ticks);
            match step {
                StepView::Finished(Ok(text)) => {
                    &&& text == lines_text(pager.doc)
                    &&& pager.below() == start.below()
                    &&& start.grows_into(pager)
                },
                StepView::Finished(Err(failure)) => told_after_the_way_back(failure) && (overt
                    || failure != Failure::TimedOut) ==> {
                    &&& pager.below() == start.below()
                    &&& start.grows_into(pager)
                },
                _ => true,
            }
        }),
    decreases ticks.len(),
{
    if ticks.len() > 0 {
        lemma_turn(c, p, start, overt, ticks[0]);
        if ticks.len() > 1 {
            let (next, pager, step) = turn(c, ticks[0]);
            lemma_session(next, pager, start, overt, ticks.drop_first());
        }
    }
}

pub(crate) proof fn lemma_started_tracks(
    initial: TranscriptView,
    seq: u64,
    input_seq: u64,
    now: int,
    p: Pager,
)
    requires
        p.wf(),
        initial.body == p.window(),
    ensures
        tracks(CaptureView::started(initial, seq, input_seq, now), p, p),
{
    assert(p.doc.subrange(0, p.doc.len() as int) =~= p.doc);
}

/// A capture that ends with a text ends with the whole of the document, older rows that were
/// loaded on the way included, each row on a line of its own, and with the view where it was:
/// wherever in the document it began, whatever the document holds, and however often it was polled.
pub proof fn law_export_is_whole_and_restores(
    initial: TranscriptView,
    seq: u64,
    input_seq: u64,
    now: int,
    start: Pager,
    ticks: Seq<Tick>,
)
    requires
        start.wf(),
        initial.body == start.window(),
        session(CaptureView::started(initial, seq, input_seq, now), start, start, false, ticks),
    ensures
        ({
            let (_, pager, step) = outcome(
                CaptureView::started(initial, seq, input_seq, now),
                start,
                ticks,
            );
            step matches StepView::Finished(Ok(text)) ==> {
                &&& text == lines_text(pager.doc)
                &&& start.grows_into(pager)
                &&& pager.below() == start.below()
                &&& pager.window() == start.window()
            }
        }),
{
    lemma_started_tracks(initial, seq, input_seq, now, start);
    let c = CaptureView::started(initial, seq, input_seq, now);
    lemma_session(c, start, start, false, ticks);
    let (_, pager, step) = outcome(c, start, ticks);
    if let StepView::Finished(Ok(text)) = step {
        lemma_same_rows_below(start, pager, start.pos as int, pager.pos as int);
    }
}

/// A capture that ends with a failure which is told after the way back ends with the view where it
/// was, moves that were still under way when time was up included. Time that is up on the way down
/// right after a move that repeated rows hide is left out, and only for the failure that tells it.
pub proof fn law_failure_after_the_way_back_restores(
    initial: TranscriptView,
    seq: u64,
    input_seq: u64,
    now: int,
    start: Pager,
    overt: bool,
    ticks: Seq<Tick>,
)
    requires
        start.wf(),
        initial.body == start.window(),
        session(CaptureView::started(initial, seq, input_seq, now), start, start, overt, ticks),
    ensures
        ({
            let (_, pager, step) = outcome(
                CaptureView::started(initial, seq, input_seq, now),
                start,
                ticks,
            );
            step matches StepView::Finished(Err(failure)) ==> told_after_the_way_back(failure) && (
            overt || failure != Failure::TimedOut) ==> {
                &&& start.grows_into(pager)
                &&& pager.below() == start.below()
                &&& pager.window() == start.window()
            }
        }),
{
    lemma_started_tracks(initial, seq, input_seq, now, start);
    let c = CaptureView::started(initial, seq, input_seq, now);
    lemma_session(c, start, start, overt, ticks);
    let (_, pager, step) = outcome(c, start, ticks);
    if let StepView::Finished(Err(failure)) = step {
        if told_after_the_way_back(failure) && (overt || failure != Failure::TimedOut) {
            lemma_same_rows_below(start, pager, start.pos as int, pager.pos as int);
        }
    }
}

} // verus!
