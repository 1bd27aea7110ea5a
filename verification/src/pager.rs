//! A pager over a document, and a capture that pages through it.

use vstd::prelude::*;

use crate::capture::{Key, Phase};
use crate::model::{CaptureView, ObservationView, StepView, after_a_jump};
use crate::scroll::{distance, explains, repeats};

verus! {

/// A pager that shows `height` rows of a document, the first of them at index `pos`.
pub struct Pager {
    pub doc: Seq<Seq<char>>,
    pub height: nat,
    pub pos: nat,
}

impl Pager {
    /// The rows in view are rows of the document.
    pub open spec fn wf(self) -> bool {
        &&& 3 <= self.height
        &&& self.pos + self.height <= self.doc.len()
    }

    /// The position with the last row in view.
    pub open spec fn last(self) -> int {
        self.doc.len() - self.height
    }

    /// How many rows are below the view.
    pub open spec fn below(self) -> int {
        self.last() - self.pos
    }

    /// What is in view at some position.
    pub open spec fn view_at(self, pos: int) -> Seq<Seq<char>> {
        self.doc.subrange(pos, pos + self.height)
    }

    /// What is in view.
    pub open spec fn window(self) -> Seq<Seq<char>> {
        self.view_at(self.pos as int)
    }

    /// The pager after `count` presses of `key`. No key leads past an edge.
    pub open spec fn press(self, key: Key, count: nat) -> Pager {
        let pos = match key {
            Key::Up => if count <= self.pos {
                self.pos - count
            } else {
                0
            },
            Key::Down => if self.pos + count <= self.last() {
                (self.pos + count) as int
            } else {
                self.last()
            },
            Key::Home => 0,
            Key::End => self.last(),
        };
        Pager { pos: pos as nat, ..self }
    }

    /// `next` is a pager over the same document with older rows before it.
    pub open spec fn grows_into(self, next: Pager) -> bool {
        &&& next.wf()
        &&& next.height == self.height
        &&& self.doc.len() <= next.doc.len()
        &&& next.doc.subrange(next.doc.len() - self.doc.len(), next.doc.len() as int) == self.doc
    }
}

/// One poll of a capture: what it sees, when, and of which pager. Where it asks for keys, they go
/// to the pager, if they can be `delivered`; `seq` is the number of the last output by then.
pub struct Tick {
    pub seen: ObservationView,
    pub now: int,
    pub shown: Pager,
    pub seq: u64,
    pub delivered: bool,
}

/// The pager that was left as `p` may be seen as `next`: older rows come only where they have been
/// asked for, at the start, or while the capture is on its way back without a transcript.
pub open spec fn may_become(c: CaptureView, p: Pager, next: Pager) -> bool {
    if c.phase == Phase::LoadStart {
        p.grows_into(next)
    } else if c.error is Some {
        p.grows_into(next) && next.below() == p.below()
    } else {
        next == p
    }
}

/// Nothing has been drawn since keys were pressed, and they still have time to be acted on.
pub open spec fn under_way(c: CaptureView, seen: ObservationView, now: int) -> bool {
    &&& c.sent_rows > 0
    &&& !c.step_observed_output
    &&& seen.content_seq == c.output_seq
    &&& now < c.step_deadline
    &&& !c.expired(now)
}

/// A transcript on the screen is what the pager has in view, or, while the last keys are still under
/// way, what it had in view before them.
pub open spec fn shows(c: CaptureView, seen: ObservationView, now: int, p: Pager) -> bool {
    seen.reading matches Some(reading) ==> (reading.snapshot.transcript(
        reading.screen,
    ) matches Some(current) ==> {
        ||| current.body == p.window()
        ||| under_way(c, seen, now) && (after_a_jump(c.phase) || current.body == c.previous.body)
    })
}

/// Time is up on the way down, and the last keys led to another position with the same rows.
pub open spec fn hidden_move(c: CaptureView, start: Pager, tick: Tick) -> bool {
    &&& c.phase == Phase::Bottom
    &&& c.expired(tick.now)
    &&& tick.shown.window() == c.previous.body
    &&& c.initial_from_bottom + tick.shown.below() != start.below()
}

/// What one poll leads to, with the keys that it asks for: the capture, the pager and the step.
pub open spec fn turn(c: CaptureView, tick: Tick) -> (CaptureView, Pager, StepView) {
    let (polled, step) = c.poll(tick.seen, tick.now);
    match step {
        StepView::Send { key, count } => {
            let (sent, reply) = polled.send(count, tick.seq, tick.delivered, tick.now);
            let pager = if tick.delivered {
                tick.shown.press(key, count)
            } else {
                tick.shown
            };
            (sent, pager, reply)
        },
        _ => (polled, tick.shown, step),
    }
}

/// The ticks are polls of a capture, one after the other up to its end at most, and the pager acts
/// on the keys while they have their time. With `overt`, no move is hidden when time is up on the
/// way down.
pub open spec fn session(
    c: CaptureView,
    p: Pager,
    start: Pager,
    overt: bool,
    ticks: Seq<Tick>,
) -> bool
    decreases ticks.len(),
{
    ticks.len() > 0 ==> {
        let tick = ticks[0];
        let (next, pager, step) = turn(c, tick);
        &&& may_become(c, p, tick.shown)
        &&& shows(c, tick.seen, tick.now, tick.shown)
        &&& overt ==> !hidden_move(c, start, tick)
        &&& ticks.len() > 1 ==> !(step is Finished)
        &&& session(next, pager, start, overt, ticks.drop_first())
    }
}

/// What a session leads to.
pub open spec fn outcome(c: CaptureView, p: Pager, ticks: Seq<Tick>) -> (
    CaptureView,
    Pager,
    StepView,
)
    decreases ticks.len(),
{
    if ticks.len() == 0 {
        (c, p, StepView::Wait)
    } else if ticks.len() == 1 {
        turn(c, ticks[0])
    } else {
        let (next, pager, step) = turn(c, ticks[0]);
        outcome(next, pager, ticks.drop_first())
    }
}

/// A single overlap is how far a pager moved: if its views at two positions, fewer rows apart than
/// are in view, have one explanation, it is the true one.
pub proof fn law_single_overlap_is_the_distance(p: Pager, from: int, to: int, maximum: nat)
    requires
        p.wf(),
        0 <= from < to <= p.last(),
        to - from <= maximum,
        to - from < p.height,
    ensures
        explains(p.view_at(from), p.view_at(to), maximum, (to - from) as nat),
        distance(p.view_at(from), p.view_at(to), maximum) matches Some(rows) ==> rows == to - from,
{
    let older = p.view_at(from);
    let newer = p.view_at(to);
    let shift = (to - from) as nat;
    assert(older.subrange(shift as int, older.len() as int) =~= newer.subrange(
        0,
        newer.len() - shift,
    ));
    assert(explains(older, newer, maximum, shift));
}

/// A move of at most `maximum` rows that cannot be seen is one that repeated rows hide.
pub proof fn law_hidden_moves_show_repeated_rows(p: Pager, from: int, to: int, maximum: nat)
    requires
        p.wf(),
        0 <= from < to <= p.last(),
        to - from <= maximum,
        to - from < p.height,
        p.view_at(from) == p.view_at(to),
    ensures
        repeats(p.view_at(from), maximum),
{
    law_single_overlap_is_the_distance(p, from, to, maximum);
}

/// Views with as many rows below them are the same before and after older rows come.
pub(crate) proof fn lemma_same_rows_below(p: Pager, next: Pager, pos: int, next_pos: int)
    requires
        p.wf(),
        p.grows_into(next),
        0 <= pos <= p.last(),
        p.last() - pos == next.last() - next_pos,
    ensures
        next.view_at(next_pos) == p.view_at(pos),
{
    let older = next.doc.len() - p.doc.len();
    assert(next_pos == older + pos);
    assert forall|i: int| 0 <= i < p.height implies #[trigger] next.view_at(next_pos)[i]
        == p.view_at(pos)[i] by {
        assert(next.doc.subrange(older, next.doc.len() as int)[pos + i] == p.doc[pos + i]);
    }
    assert(next.view_at(next_pos) =~= p.view_at(pos));
}

pub(crate) proof fn lemma_grows_on(a: Pager, b: Pager, c: Pager)
    requires
        a.grows_into(b),
        b.grows_into(c),
    ensures
        a.grows_into(c),
{
    let of_c = c.doc.subrange(c.doc.len() - a.doc.len(), c.doc.len() as int);
    let of_b = b.doc.subrange(b.doc.len() - a.doc.len(), b.doc.len() as int);
    let tail = c.doc.subrange(c.doc.len() - b.doc.len(), c.doc.len() as int);
    assert forall|i: int| 0 <= i < a.doc.len() implies #[trigger] of_c[i] == of_b[i] by {
        assert(tail[b.doc.len() - a.doc.len() + i] == of_c[i]);
    }
    assert(of_c =~= of_b);
}

} // verus!
