//! The transcript view of a screen.

use vstd::prelude::*;

use crate::text::{
    is_text, law_squeezed_is_empty_where_all_is_white, squeeze, squeezed, starts_with, texts,
    trim_end, trimmed, white_space,
};

verus! {

/// Which of a terminal's two screens is shown.
#[derive(Clone, Copy, Debug, PartialEq, Eq, Structural)]
pub enum ActiveScreen {
    Primary,
    Alternate,
}

/// What a screen shows: its width, and the text of each row.
#[derive(Debug)]
pub struct ScreenSnapshot {
    pub cols: u16,
    pub rows: Vec<String>,
}

/// A screen's width and the texts of its rows.
pub struct SnapshotView {
    pub cols: u16,
    pub rows: Seq<Seq<char>>,
}

impl View for ScreenSnapshot {
    type V = SnapshotView;

    open spec fn view(&self) -> SnapshotView {
        SnapshotView { cols: self.cols, rows: texts(self.rows@) }
    }
}

/// The index of the last row with text on it, or -1.
pub open spec fn last_text_row(rows: Seq<Seq<char>>) -> int
    decreases rows.len(),
{
    if rows.len() == 0 {
        -1
    } else if squeezed(rows.last()).len() > 0 {
        rows.len() - 1
    } else {
        last_text_row(rows.drop_last())
    }
}

impl SnapshotView {
    /// The text of the first row.
    pub open spec fn header(self) -> Seq<char> {
        if self.rows.len() > 0 {
            self.rows[0]
        } else {
            Seq::empty()
        }
    }

    /// The screen holds a title, at least three rows below it, a rule and two rows of controls, and
    /// nothing below these.
    pub open spec fn is_pager(self) -> bool {
        let last = last_text_row(self.rows);
        &&& last >= 6
        &&& "/ T R A N S C R I P T /"@.is_prefix_of(squeezed(self.rows[0]))
        &&& squeezed(self.rows[last]) == "q close esc to edit prev"@
        &&& squeezed(self.rows[last - 1])
            == "↑/↓ to scroll pgup/pgdn to page home/end to jump"@
        &&& "───"@.is_prefix_of(squeezed(self.rows[last - 2]))
    }

    /// The rows between the title and the rule, without the white space at their ends.
    pub open spec fn body(self) -> Seq<Seq<char>> {
        Seq::new((last_text_row(self.rows) - 3) as nat, |i: int| trimmed(self.rows[i + 1]))
    }

    /// The transcript that a screen shows.
    pub open spec fn transcript(self, screen: ActiveScreen) -> Option<TranscriptView> {
        if screen == ActiveScreen::Alternate && self.is_pager() {
            Some(TranscriptView { cols: self.cols, body: self.body() })
        } else {
            None
        }
    }
}

/// The part of a transcript that is in view.
#[derive(Debug)]
pub struct Transcript {
    pub cols: u16,
    pub body: Vec<String>,
}

/// A transcript's width and the texts of the rows in view.
pub struct TranscriptView {
    pub cols: u16,
    pub body: Seq<Seq<char>>,
}

impl View for Transcript {
    type V = TranscriptView;

    open spec fn view(&self) -> TranscriptView {
        TranscriptView { cols: self.cols, body: texts(self.body@) }
    }
}

impl PartialEq for Transcript {
    fn eq(&self, other: &Self) -> (res: bool) {
        self.cols == other.cols && same_rows(&self.body, &other.body)
    }
}

impl Eq for Transcript {

}

impl vstd::std_specs::cmp::PartialEqSpecImpl for Transcript {
    open spec fn obeys_eq_spec() -> bool {
        true
    }

    open spec fn eq_spec(&self, other: &Self) -> bool {
        self@ == other@
    }
}

impl Clone for Transcript {
    fn clone(&self) -> (res: Self)
        ensures
            res@ == self@,
    {
        let body: Vec<String> = copy_rows(self.body.as_slice(), 0, self.body.len());
        assert(texts(body@) =~= texts(self.body@));
        Transcript { cols: self.cols, body }
    }
}

/// A row holds a character that is no white space.
pub open spec fn has_text(row: Seq<char>) -> bool {
    exists|i: int| 0 <= i < row.len() && !white_space(#[trigger] row[i])
}

proof fn lemma_last_text_row(rows: Seq<Seq<char>>)
    ensures
        ({
            let last = last_text_row(rows);
            &&& -1 <= last < rows.len()
            &&& last >= 0 ==> has_text(rows[last])
            &&& forall|i: int| last < i < rows.len() ==> !has_text(#[trigger] rows[i])
        }),
    decreases rows.len(),
{
    if rows.len() > 0 {
        law_squeezed_is_empty_where_all_is_white(rows.last());
        let before = rows.drop_last();
        lemma_last_text_row(before);
        let last = last_text_row(rows);
        assert forall|i: int| last < i < rows.len() implies !has_text(#[trigger] rows[i]) by {
            if i < before.len() {
                assert(before[i] == rows[i]);
            }
        }
    }
}

/// A transcript is on the alternate screen only, and there exactly under a title and above a rule
/// and both rows of controls, with three rows or more between them and no text below them. It has
/// the width of the screen, and every row between title and rule, but for the white space at their
/// ends.
pub proof fn law_transcript_is_what_stands_between(
    snapshot: SnapshotView,
    screen: ActiveScreen,
    last: int,
)
    requires
        0 <= last < snapshot.rows.len(),
        has_text(snapshot.rows[last]),
        forall|i: int| last < i < snapshot.rows.len() ==> !has_text(#[trigger] snapshot.rows[i]),
    ensures
        snapshot.transcript(screen) is Some <==> {
            &&& screen == ActiveScreen::Alternate
            &&& last >= 6
            &&& "/ T R A N S C R I P T /"@.is_prefix_of(squeezed(snapshot.rows[0]))
            &&& "───"@.is_prefix_of(squeezed(snapshot.rows[last - 2]))
            &&& squeezed(snapshot.rows[last - 1])
                == "↑/↓ to scroll pgup/pgdn to page home/end to jump"@
            &&& squeezed(snapshot.rows[last]) == "q close esc to edit prev"@
        },
        snapshot.transcript(screen) matches Some(transcript) ==> {
            &&& transcript.cols == snapshot.cols
            &&& transcript.body.len() == last - 3
            &&& forall|i: int|
                0 <= i < last - 3 ==> #[trigger] transcript.body[i] == trimmed(
                    snapshot.rows[i + 1],
                )
            &&& snapshot.header() == snapshot.rows[0]
        },
{
    lemma_last_text_row(snapshot.rows);
    assert(last_text_row(snapshot.rows) == last);
}

/// A screen without text shows no transcript.
pub proof fn law_blank_screens_show_no_transcript(snapshot: SnapshotView, screen: ActiveScreen)
    requires
        forall|i: int| 0 <= i < snapshot.rows.len() ==> !has_text(#[trigger] snapshot.rows[i]),
    ensures
        snapshot.transcript(screen) is None,
{
    lemma_last_text_row(snapshot.rows);
}

/// A screen and a transcript are known by their width and each of their rows.
pub proof fn law_views_of_rows(snapshot: ScreenSnapshot, transcript: Transcript)
    ensures
        snapshot@.cols == snapshot.cols,
        snapshot@.rows.len() == snapshot.rows@.len(),
        forall|i: int|
            0 <= i < snapshot.rows@.len() ==> #[trigger] snapshot@.rows[i] == snapshot.rows@[i]@,
        transcript@.cols == transcript.cols,
        transcript@.body.len() == transcript.body@.len(),
        forall|i: int|
            0 <= i < transcript.body@.len() ==> #[trigger] transcript@.body[i]
                == transcript.body@[i]@,
{
}

/// Tells whether two lists of rows hold the same texts.
pub fn same_rows(a: &Vec<String>, b: &Vec<String>) -> (res: bool)
    ensures
        res == (texts(a@) == texts(b@)),
{
    if a.len() != b.len() {
        assert(texts(a@).len() != texts(b@).len());
        return false;
    }
    for i in 0..a.len()
        invariant
            a.len() == b.len(),
            forall|j: int| 0 <= j < i ==> #[trigger] texts(a@)[j] == texts(b@)[j],
    {
        if a[i] != b[i] {
            assert(texts(a@)[i as int] != texts(b@)[i as int]);
            return false;
        }
    }
    assert(texts(a@) =~= texts(b@));
    true
}

/// The rows from index `from` up to index `to`.
pub fn copy_rows(rows: &[String], from: usize, to: usize) -> (res: Vec<String>)
    requires
        from <= to <= rows.len(),
    ensures
        texts(res@) == texts(rows@).subrange(from as int, to as int),
{
    let mut res: Vec<String> = Vec::new();
    for i in from..to
        invariant
            from <= to <= rows.len(),
            texts(res@) == texts(rows@).subrange(from as int, i as int),
    {
        let ghost before = res@;
        res.push(rows[i].clone());
        assert(texts(res@) =~= texts(before).push(rows@[i as int]@));
        assert(texts(res@) =~= texts(rows@).subrange(from as int, i + 1));
    }
    res
}

impl Transcript {
    /// Reads the transcript off a screen. There is one only on the alternate screen, under the
    /// pager's title and above all of its controls.
    pub fn from_screen(screen: ActiveScreen, snapshot: ScreenSnapshot) -> (res: Option<Self>)
        ensures
            res matches Some(transcript) ==> snapshot@.transcript(screen) == Some(transcript@),
            res is None ==> snapshot@.transcript(screen) is None,
    {
        if screen != ActiveScreen::Alternate {
            return None;
        }
        let mut text: Vec<String> = Vec::new();
        let mut lines: Vec<Vec<char>> = Vec::new();
        for i in 0..snapshot.rows.len()
            invariant
                text.len() == i,
                lines.len() == i,
                forall|j: int| 0 <= j < i ==> (#[trigger] text@[j])@ == trimmed(snapshot@.rows[j]),
                forall|j: int| 0 <= j < i ==> (#[trigger] lines@[j])@ == squeezed(snapshot@.rows[j]),
        {
            let row: &String = &snapshot.rows[i];
            text.push(trim_end(row.as_str()));
            lines.push(squeeze(row.as_str()));
        }
        let mut count: usize = lines.len();
        assert(snapshot@.rows.take(count as int) =~= snapshot@.rows);
        while count > 0 && lines[count - 1].len() == 0
            invariant
                count <= lines.len(),
                lines.len() == snapshot@.rows.len(),
                forall|j: int|
                    0 <= j < lines.len() ==> (#[trigger] lines@[j])@ == squeezed(snapshot@.rows[j]),
                last_text_row(snapshot@.rows) == last_text_row(snapshot@.rows.take(count as int)),
            decreases count,
        {
            assert(snapshot@.rows.take(count as int).drop_last() =~= snapshot@.rows.take(count - 1));
            count = count - 1;
        }
        if count < 7 {
            return None;
        }
        let last: usize = count - 1;
        if !starts_with(&lines[0], "/ T R A N S C R I P T /") || !is_text(
            &lines[last],
            "q close esc to edit prev",
        ) || !is_text(&lines[last - 1], "↑/↓ to scroll pgup/pgdn to page home/end to jump")
            || !starts_with(&lines[last - 2], "───") {
            return None;
        }
        let body: Vec<String> = copy_rows(text.as_slice(), 1, last - 2);
        assert(texts(body@) =~= snapshot@.body());
        Some(Transcript { cols: snapshot.cols, body })
    }
}

} // verus!
