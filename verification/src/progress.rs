//! A capture gets through: it does not fail for nothing, and it comes to an end.

use vstd::prelude::*;

use crate::capture::Phase;
use crate::failure::Failure;
use crate::fidelity::{
    law_export_is_whole_and_restores, lemma_poll_tracks, lemma_started_tracks,
    lemma_tracks_older_rows, lemma_tracks_whenever, tracks,
};
use crate::model::{CaptureView, ObservationView, StepView, batch, restoring};
use crate::pager::{
    Pager, Tick, law_single_overlap_is_the_distance, lemma_same_rows_below, outcome, session,
    shows, turn,
};
use crate::scroll::{
    distance, explains, law_distance_is_the_only_move, law_repeated_rows_stay_the_same, moved,
    only_explains, only_move, repeats,
};
use crate::text::{lines_text, occurs};
use crate::transcript::TranscriptView;

verus! {

/// No two rows are the same.
pub open spec fn distinct(doc: Seq<Seq<char>>) -> bool {
    forall|i: int, j: int| 0 <= i < j < doc.len() ==> #[trigger] doc[i] != #[trigger] doc[j]
}

/// Moves in the pager's document can be told apart: of any two views that are no further apart than
/// rows are asked for at a time, each is another, and only the true number of rows explains how one
/// became the other; and no such number of rows leaves the first view or the last one as it is. The
/// same row may occur any number of times.
pub open spec fn told_apart(p: Pager) -> bool {
    let most = batch(p.height);
    &&& forall|a: int, b: int|
        0 <= a < b <= p.last() && b - a <= most ==> #[trigger] p.view_at(a) != #[trigger] p.view_at(
            b,
        )
    &&& forall|a: int, b: int, shift: int|
        0 <= a < b <= p.last() && b - a <= most && 1 <= shift <= most && #[trigger] moved(
            p.view_at(a),
            p.view_at(b),
            shift,
        ) ==> shift == b - a
    &&& forall|shift: int|
        1 <= shift <= most ==> !#[trigger] moved(p.view_at(0), p.view_at(0), shift)
    &&& forall|shift: int|
        1 <= shift <= most ==> !#[trigger] moved(p.view_at(p.last()), p.view_at(p.last()), shift)
}

/// Nothing stands in the way of a poll: the user types nothing, time is not up, the screen is drawn
/// in time and shows the transcript, moves in it can be told apart, older rows can be had, and keys
/// are taken.
pub open spec fn unhindered(c: CaptureView, tick: Tick) -> bool {
    &&& tick.seen.input_seq == c.input_seq
    &&& !c.expired(tick.now)
    &&& tick.seen.synchronized ==> tick.now < c.step_deadline
    &&& tick.seen.reading matches Some(reading) ==> {
        &&& reading.snapshot.transcript(reading.screen) is Some
        &&& reading.snapshot.cols == c.initial.cols
        &&& !occurs(reading.snapshot.header(), "history unavailable"@)
    }
    &&& told_apart(tick.shown)
    &&& tick.delivered
}

/// Nothing stands in the way of a poll but that time is up on the way to the transcript, or that
/// older rows cannot be had. When time is up, the screen is drawn and at rest.
pub open spec fn untroubled(c: CaptureView, tick: Tick) -> bool {
    &&& tick.seen.input_seq == c.input_seq
    &&& tick.now >= c.deadline ==> {
        &&& c.phase != Phase::RestoreEnd && c.phase != Phase::RestoreUp
        &&& !tick.seen.synchronized
        &&& tick.seen.reading is Some
        &&& tick.seen.reading->0.seq == tick.seen.content_seq
        &&& tick.seen.confirmed_seq == tick.seen.content_seq
    }
    &&& tick.seen.synchronized ==> tick.now < c.step_deadline
    &&& tick.seen.reading matches Some(reading) ==> {
        &&& reading.snapshot.transcript(reading.screen) is Some
        &&& reading.snapshot.cols == c.initial.cols
    }
    &&& told_apart(tick.shown)
    &&& tick.delivered
}

/// Nothing stands in the way of any poll.
pub open spec fn smooth(c: CaptureView, ticks: Seq<Tick>) -> bool
    decreases ticks.len(),
{
    ticks.len() > 0 ==> {
        &&& unhindered(c, ticks[0])
        &&& smooth(turn(c, ticks[0]).0, ticks.drop_first())
    }
}

/// Nothing stands in the way of any poll but that time is up on the way to the transcript, or that
/// older rows cannot be had.
pub open spec fn steady(c: CaptureView, ticks: Seq<Tick>) -> bool
    decreases ticks.len(),
{
    ticks.len() > 0 ==> {
        &&& untroubled(c, ticks[0])
        &&& steady(turn(c, ticks[0]).0, ticks.drop_first())
    }
}

/// How often keys are pressed.
pub open spec fn presses(c: CaptureView, ticks: Seq<Tick>) -> nat
    decreases ticks.len(),
{
    if ticks.len() == 0 {
        0
    } else {
        let later = presses(turn(c, ticks[0]).0, ticks.drop_first());
        if c.poll(ticks[0].seen, ticks[0].now).1 is Send {
            later + 1
        } else {
            later
        }
    }
}

/// How many polls do more than wait.
pub open spec fn decisions(c: CaptureView, ticks: Seq<Tick>) -> nat
    decreases ticks.len(),
{
    if ticks.len() == 0 {
        0
    } else {
        let later = decisions(turn(c, ticks[0]).0, ticks.drop_first());
        if c.poll(ticks[0].seen, ticks[0].now).1 is Wait {
            later
        } else {
            later + 1
        }
    }
}

proof fn lemma_distinct_views(p: Pager, a: int, b: int, maximum: nat)
    requires
        p.wf(),
        distinct(p.doc),
        0 <= a <= b <= p.last(),
        b - a <= maximum < p.height,
    ensures
        a < b ==> p.view_at(a) != p.view_at(b),
        a < b ==> distance(p.view_at(a), p.view_at(b), maximum) == Some((b - a) as nat),
        !repeats(p.view_at(a), maximum),
{
    let older = p.view_at(a);
    let newer = p.view_at(b);
    assert forall|shift: nat| explains(older, newer, maximum, shift) implies shift == b - a by {
        assert(older.subrange(shift as int, older.len() as int)[0] == p.doc[a + shift]);
        assert(newer.subrange(0, newer.len() - shift)[0] == p.doc[b]);
    }
    assert forall|shift: nat| !explains(older, older, maximum, shift) by {
        if explains(older, older, maximum, shift) {
            assert(older.subrange(shift as int, older.len() as int)[0] == p.doc[a + shift]);
            assert(older.subrange(0, older.len() - shift)[0] == p.doc[a]);
        }
    }
    if a < b {
        assert(older[0] == p.doc[a]);
        assert(newer[0] == p.doc[b]);
        law_single_overlap_is_the_distance(p, a, b, maximum);
        assert(only_explains(older, newer, maximum, (b - a) as nat));
    }
}

/// Moves in a document without two equal rows can be told apart.
pub proof fn law_distinct_rows_are_told_apart(p: Pager)
    requires
        p.wf(),
        distinct(p.doc),
    ensures
        told_apart(p),
{
    let most = batch(p.height);
    assert forall|a: int, b: int| 0 <= a < b <= p.last() && b - a <= most implies #[trigger] p.view_at(
        a,
    ) != #[trigger] p.view_at(b) by {
        lemma_distinct_views(p, a, b, most);
    }
    assert forall|a: int, b: int, shift: int|
        0 <= a < b <= p.last() && b - a <= most && 1 <= shift <= most && #[trigger] moved(
            p.view_at(a),
            p.view_at(b),
            shift,
        ) implies shift == b - a by {
        lemma_distinct_views(p, a, b, most);
        law_distance_is_the_only_move(p.view_at(a), p.view_at(b), most, (b - a) as nat);
    }
    lemma_distinct_views(p, 0, 0, most);
    lemma_distinct_views(p, p.last(), p.last(), most);
    law_repeated_rows_stay_the_same(p.view_at(0), most);
    law_repeated_rows_stay_the_same(p.view_at(p.last()), most);
}

proof fn lemma_told_apart(p: Pager, a: int, b: int, maximum: nat)
    requires
        p.wf(),
        told_apart(p),
        0 <= a < b <= p.last(),
        b - a <= maximum <= batch(p.height),
    ensures
        p.view_at(a) != p.view_at(b),
        distance(p.view_at(a), p.view_at(b), maximum) == Some((b - a) as nat),
{
    let older = p.view_at(a);
    let newer = p.view_at(b);
    let rows = (b - a) as nat;
    assert(moved(older, newer, rows as int));
    assert(only_move(older, newer, maximum, rows));
    law_distance_is_the_only_move(older, newer, maximum, rows);
}

proof fn lemma_edges_told_apart(p: Pager)
    requires
        p.wf(),
        told_apart(p),
    ensures
        !repeats(p.view_at(0), batch(p.height)),
        !repeats(p.view_at(p.last()), batch(p.height)),
{
    law_repeated_rows_stay_the_same(p.view_at(0), batch(p.height));
    law_repeated_rows_stay_the_same(p.view_at(p.last()), batch(p.height));
}

/// The keys that a capture which began at `start` may still ask for, in a document that grows to
/// `total` rows at most.
spec fn keys_left(c: CaptureView, start: Pager, total: nat) -> int {
    let up = start.below();
    match c.phase {
        Phase::Bottom => up - c.initial_from_bottom + (if c.sent_rows == 0 {
            1int
        } else {
            0
        }) + total + up + 7,
        Phase::VerifyBottom => total + up + 6,
        Phase::LoadStart => total + up + 5,
        Phase::CaptureEnd => total + up + 4,
        Phase::Capture => total - c.history.len() + up + 3,
        Phase::VerifyTop => up + 2,
        Phase::RestoreEnd => up + 1,
        Phase::RestoreUp => c.restore_remaining as int,
    }
}

/// A failure that nothing else has to stand in the way for.
spec fn excused(failure: Failure) -> bool {
    failure == Failure::TimedOut || failure == Failure::HistoryUnavailable
}

/// A step in the right direction.
spec fn gets_on(
    c: CaptureView,
    next: CaptureView,
    step: StepView,
    start: Pager,
    total: nat,
) -> bool {
    match step {
        StepView::Wait => next.error == c.error && keys_left(next, start, total) == keys_left(
            c,
            start,
            total,
        ),
        StepView::Send { key, count } => {
            &&& next.error matches Some(failure) ==> excused(failure)
            &&& keys_left(CaptureView { sent_rows: count, ..next }, start, total) < keys_left(
                c,
                start,
                total,
            )
        },
        StepView::Finished(result) => result matches Err(failure) ==> excused(failure),
    }
}

/// A step after which nothing has gone wrong.
spec fn unspoilt(next: CaptureView, step: StepView) -> bool {
    match step {
        StepView::Finished(result) => result is Ok,
        _ => next.error is None,
    }
}

proof fn lemma_late_gets_on(
    c: CaptureView,
    current: TranscriptView,
    now: int,
    p: Pager,
    start: Pager,
    total: nat,
)
    requires
        tracks(c, p, start),
        !restoring(c.phase),
        current.cols == c.initial.cols,
        current.body == p.window(),
        told_apart(p),
        p.doc.len() <= total,
    ensures
        ({
            let (next, step) = c.time_out(current, now);
            gets_on(c, next, step, start, total)
        }),
{
    if c.phase == Phase::Bottom && c.sent_rows > 0 {
        let from = p.last() - start.below() + c.initial_from_bottom;
        if from < p.pos {
            lemma_told_apart(p, from, p.pos as int, c.sent_rows);
        } else if c.initial_from_bottom == 0 {
            lemma_same_rows_below(start, p, start.pos as int, p.pos as int);
        }
    } else if c.phase == Phase::Bottom {
        lemma_same_rows_below(start, p, start.pos as int, p.pos as int);
    } else if c.phase == Phase::VerifyBottom && c.initial_from_bottom == 0 {
        lemma_same_rows_below(start, p, start.pos as int, p.pos as int);
    }
}

proof fn lemma_advance_gets_on(
    c: CaptureView,
    current: TranscriptView,
    header: Seq<char>,
    now: int,
    p: Pager,
    start: Pager,
    total: nat,
)
    requires
        tracks(c, p, start),
        c.error matches Some(failure) ==> excused(failure),
        current.cols == c.initial.cols,
        current.body == p.window(),
        c.expired(now) ==> !restoring(c.phase),
        told_apart(p),
        p.doc.len() <= total,
    ensures
        ({
            let (next, step) = c.advance(current, header, now);
            &&& gets_on(c, next, step, start, total)
            &&& c.error is None && !c.expired(now) && !occurs(header, "history unavailable"@)
                ==> unspoilt(next, step)
        }),
{
    if c.expired(now) {
        lemma_late_gets_on(c, current, now, p, start, total);
    } else if c.sent_rows > 0 {
        lemma_edges_told_apart(p);
        match c.phase {
            Phase::Bottom => {
                let from = p.last() - start.below() + c.initial_from_bottom;
                if from < p.pos {
                    lemma_told_apart(p, from, p.pos as int, c.sent_rows);
                }
            },
            Phase::Capture => {
                let from = p.doc.len() - c.history.len();
                if p.pos < from {
                    lemma_told_apart(p, p.pos as int, from, c.sent_rows);
                }
            },
            Phase::RestoreEnd => {
                if start.below() == 0 {
                    lemma_same_rows_below(start, p, start.pos as int, p.pos as int);
                }
            },
            Phase::RestoreUp => {
                let from = p.last() - start.below() + c.restore_remaining;
                if c.sent_rows == c.restore_remaining {
                    lemma_same_rows_below(start, p, start.pos as int, p.pos as int);
                }
                lemma_told_apart(p, p.pos as int, from, c.sent_rows);
            },
            _ => {},
        }
    }
}

/// A view that stays the same is where it was.
proof fn lemma_nothing_hidden(c: CaptureView, p: Pager, start: Pager)
    requires
        tracks(c, p, start),
        told_apart(p),
        c.phase == Phase::Bottom,
        p.window() == c.previous.body,
    ensures
        c.initial_from_bottom + p.below() == start.below(),
{
    if c.sent_rows > 0 {
        let from = p.last() - start.below() + c.initial_from_bottom;
        if from < p.pos {
            lemma_told_apart(p, from, p.pos as int, c.sent_rows);
        }
    }
}

proof fn lemma_poll_gets_on(c: CaptureView, tick: Tick, start: Pager, total: nat)
    requires
        tracks(c, tick.shown, start),
        c.error matches Some(failure) ==> excused(failure),
        shows(c, tick.seen, tick.now, tick.shown),
        untroubled(c, tick),
        tick.shown.doc.len() <= total,
    ensures
        ({
            let (next, step) = c.poll(tick.seen, tick.now);
            &&& gets_on(c, next, step, start, total)
            &&& c.error is None && unhindered(c, tick) ==> unspoilt(next, step)
        }),
{
    let p = tick.shown;
    let noted = c.noting(tick.seen.content_seq, tick.now);
    lemma_tracks_whenever(c, noted, p, start);
    if let Some(reading) = tick.seen.reading {
        let current = reading.snapshot.transcript(reading.screen)->0;
        if current.body == p.window() {
            let header = reading.snapshot.header();
            lemma_advance_gets_on(noted, current, header, tick.now, p, start, total);
        }
    }
}

proof fn lemma_steady_session(
    c: CaptureView,
    p: Pager,
    start: Pager,
    total: nat,
    smoothly: bool,
    ticks: Seq<Tick>,
)
    requires
        tracks(c, p, start),
        c.error matches Some(failure) ==> excused(failure),
        session(c, p, start, false, ticks),
        if smoothly {
            c.error is None && smooth(c, ticks)
        } else {
            steady(c, ticks)
        },
        forall|i: int| 0 <= i < ticks.len() ==> (#[trigger] ticks[i]).shown.doc.len() <= total,
        p.doc.len() <= total,
    ensures
        ({
            let (_, pager, step) = outcome(c, p, ticks);
            step matches StepView::Finished(result) ==> {
                &&& result matches Err(failure) ==> excused(failure)
                &&& smoothly ==> result is Ok
                &&& start.grows_into(pager)
                &&& pager.below() == start.below()
            }
        }),
        presses(c, ticks) <= keys_left(c, start, total),
    decreases ticks.len(),
{
    assert(keys_left(c, start, total) >= 0);
    if ticks.len() > 0 {
        let tick = ticks[0];
        let (polled, step) = c.poll(tick.seen, tick.now);
        let (next, pager, reply) = turn(c, tick);
        lemma_tracks_older_rows(c, p, tick.shown, start);
        if c.phase == Phase::Bottom && tick.shown.window() == c.previous.body {
            lemma_nothing_hidden(c, tick.shown, start);
        }
        lemma_poll_tracks(c, tick.seen, tick.now, tick.shown, start);
        lemma_poll_gets_on(c, tick, start, total);
        if let StepView::Send { key, count } = step {
            lemma_tracks_whenever(
                CaptureView { sent_rows: count, ..polled },
                next,
                pager,
                start,
            );
        }
        let rest = ticks.drop_first();
        if !(reply is Finished) {
            assert forall|i: int| 0 <= i < rest.len() implies (#[trigger] rest[i]).shown.doc.len()
                <= total by {
                assert(rest[i] == ticks[i + 1]);
            }
            lemma_steady_session(next, pager, start, total, smoothly, rest);
        } else {
            assert(rest.len() == 0);
            assert(presses(next, rest) == 0);
        }
    }
}

proof fn lemma_smooth_session(
    c: CaptureView,
    p: Pager,
    start: Pager,
    total: nat,
    ticks: Seq<Tick>,
)
    requires
        tracks(c, p, start),
        c.error is None,
        session(c, p, start, false, ticks),
        smooth(c, ticks),
        forall|i: int| 0 <= i < ticks.len() ==> (#[trigger] ticks[i]).shown.doc.len() <= total,
        p.doc.len() <= total,
    ensures
        !(outcome(c, p, ticks).2 matches StepView::Finished(Err(_))),
        presses(c, ticks) <= keys_left(c, start, total),
{
    lemma_steady_session(c, p, start, total, true, ticks);
}

/// Every poll that does more than wait presses keys or ends the capture.
proof fn lemma_decisions(c: CaptureView, p: Pager, start: Pager, ticks: Seq<Tick>)
    requires
        session(c, p, start, false, ticks),
    ensures
        decisions(c, ticks) <= presses(c, ticks) + (if outcome(c, p, ticks).2 is Finished {
            1int
        } else {
            0
        }),
    decreases ticks.len(),
{
    if ticks.len() > 0 {
        let (next, pager, step) = turn(c, ticks[0]);
        let rest = ticks.drop_first();
        if ticks.len() > 1 {
            lemma_decisions(next, pager, start, rest);
        } else {
            assert(decisions(next, rest) == 0);
        }
    }
}

/// Where nothing stands in its way, a capture never fails. It presses keys at most so many times:
/// twice the rows below the first view, the rows of the document, and a few more. So, if more polls
/// than that do more than wait, it has ended, with the whole of the document, and with the view
/// where it was.
pub proof fn law_unhindered_capture_gets_through(
    initial: TranscriptView,
    seq: u64,
    input_seq: u64,
    now: int,
    start: Pager,
    total: nat,
    ticks: Seq<Tick>,
)
    requires
        start.wf(),
        initial.body == start.window(),
        session(CaptureView::started(initial, seq, input_seq, now), start, start, false, ticks),
        smooth(CaptureView::started(initial, seq, input_seq, now), ticks),
        start.doc.len() <= total,
        forall|i: int| 0 <= i < ticks.len() ==> (#[trigger] ticks[i]).shown.doc.len() <= total,
    ensures
        ({
            let c = CaptureView::started(initial, seq, input_seq, now);
            let most = 2 * start.below() + total + 8;
            let (_, pager, step) = outcome(c, start, ticks);
            &&& !(step matches StepView::Finished(Err(_)))
            &&& presses(c, ticks) <= most
            &&& decisions(c, ticks) > most ==> {
                &&& step == StepView::Finished(Ok(lines_text(pager.doc)))
                &&& start.grows_into(pager)
                &&& pager.below() == start.below()
                &&& pager.window() == start.window()
            }
        }),
{
    lemma_started_tracks(initial, seq, input_seq, now, start);
    let c = CaptureView::started(initial, seq, input_seq, now);
    lemma_smooth_session(c, start, start, total, ticks);
    lemma_decisions(c, start, start, ticks);
    law_export_is_whole_and_restores(initial, seq, input_seq, now, start, ticks);
}

/// Where nothing stands in its way but that time is up on the way to the transcript, or that older
/// rows cannot be had, a capture fails for no other reason, and comes back before it tells it: it
/// ends with the view where it was, in whichever phase it turned back. It presses keys no more often
/// than one that gets through.
pub proof fn law_late_capture_comes_back(
    initial: TranscriptView,
    seq: u64,
    input_seq: u64,
    now: int,
    start: Pager,
    total: nat,
    ticks: Seq<Tick>,
)
    requires
        start.wf(),
        initial.body == start.window(),
        session(CaptureView::started(initial, seq, input_seq, now), start, start, false, ticks),
        steady(CaptureView::started(initial, seq, input_seq, now), ticks),
        start.doc.len() <= total,
        forall|i: int| 0 <= i < ticks.len() ==> (#[trigger] ticks[i]).shown.doc.len() <= total,
    ensures
        ({
            let c = CaptureView::started(initial, seq, input_seq, now);
            let most = 2 * start.below() + total + 8;
            let (_, pager, step) = outcome(c, start, ticks);
            &&& presses(c, ticks) <= most
            &&& decisions(c, ticks) > most ==> step is Finished
            &&& step matches StepView::Finished(result) ==> {
                &&& result matches Err(failure) ==> failure == Failure::TimedOut || failure
                    == Failure::HistoryUnavailable
                &&& start.grows_into(pager)
                &&& pager.below() == start.below()
                &&& pager.window() == start.window()
            }
        }),
{
    lemma_started_tracks(initial, seq, input_seq, now, start);
    let c = CaptureView::started(initial, seq, input_seq, now);
    lemma_steady_session(c, start, start, total, false, ticks);
    lemma_decisions(c, start, start, ticks);
    let (_, pager, step) = outcome(c, start, ticks);
    if step is Finished {
        lemma_same_rows_below(start, pager, start.pos as int, pager.pos as int);
    }
}

/// A capture does not wait for ever: a poll after the last keys have had their time, with nothing
/// new on a screen that can be read, and no older rows under way, presses keys or ends the capture.
pub proof fn law_waiting_ends(c: CaptureView, seen: ObservationView, now: int)
    requires
        now >= c.step_deadline,
        now >= c.quiet_until,
        seen.content_seq == c.output_seq,
        !seen.synchronized,
        seen.reading matches Some(reading) && reading.seq == c.output_seq && seen.confirmed_seq
            == reading.seq && !occurs(reading.snapshot.header(), "loading older history"@)
            && !occurs(reading.snapshot.header(), "partial history"@),
    ensures
        !(c.poll(seen, now).1 is Wait),
{
}

} // verus!
