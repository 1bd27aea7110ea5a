//! Why an export ends without a transcript.

use vstd::prelude::*;

verus! {

/// Why a capture, or the export that it is for, ends without a transcript.
#[derive(Clone, Copy, Debug, PartialEq, Eq, Structural)]
pub enum Failure {
    /// The user typed.
    Interrupted,
    /// The steps back up did not lead where they should, or not in time.
    PositionNotRestored,
    /// An update of the screen stayed open.
    NotDrawn,
    /// Time was up, and the screen could not be read.
    TimedOutUnread,
    /// Time was up, and the screen was still changing.
    KeptChanging,
    /// The screen shows something else.
    LeftView,
    /// The screen has another size.
    SizeChanged,
    /// Time was up; the view is back where it was.
    TimedOut,
    /// Time was up, and the last move could not be measured.
    TimedOutUnmeasured,
    /// On the way down, the view is the same at several positions.
    RepeatedOnTheWayDown,
    /// A move down could not be measured.
    ScrollUnmeasured,
    /// The last row is not where the way down ended.
    BottomNotReached,
    /// Older rows cannot be had; the view is back where it was.
    HistoryUnavailable,
    /// The last rows changed while older ones were loaded; the view is back where it was.
    ChangedWhileLoading,
    /// On the way up, the view is the same at several positions; it is back where it was.
    RepeatedOnTheWayUp,
    /// A move up could not be measured; the view is back where it was.
    ScrollAmbiguous,
    /// The first row is not where the way up ended; the view is back where it was.
    TopNotReached,
    /// The way back did not lead to the last row.
    BottomNotRegained,
    /// The way back did not end at the first view.
    ViewNotRestored,
    /// The terminal took no keys.
    SendFailed,
    /// The terminal is gone.
    TerminalGone,
    /// The agent in the terminal is another, or it is at work.
    NotIdle,
    /// The request is for no pane.
    PaneChanged,
    /// The client or its focus is no longer the one that asked.
    FocusChanged,
}

impl Failure {
    /// What the user is told.
    pub open spec fn text(self) -> Seq<char> {
        match self {
            Failure::Interrupted =>
                "Transcript export interrupted by input; scroll position was not restored"@,
            Failure::PositionNotRestored =>
                "Transcript export could not restore the scroll position"@,
            Failure::NotDrawn =>
                "Transcript did not finish drawing; scroll position was not restored"@,
            Failure::TimedOutUnread =>
                "Transcript export timed out; scroll position was not restored"@,
            Failure::KeptChanging =>
                "Transcript kept changing; export cancelled and scroll position was not restored"@,
            Failure::LeftView =>
                "Codex left the transcript view; export cancelled without sending more keys"@,
            Failure::SizeChanged =>
                "Transcript size changed; export cancelled without sending more keys"@,
            Failure::TimedOut => "Transcript export timed out; no partial file was opened"@,
            Failure::TimedOutUnmeasured =>
                "Transcript export timed out; scroll position could not be restored"@,
            Failure::RepeatedOnTheWayDown =>
                "Repeated transcript rows hide the scroll position; export cancelled and position could not be restored"@,
            Failure::ScrollUnmeasured =>
                "Transcript scroll could not be measured; export cancelled, scroll position may have changed"@,
            Failure::BottomNotReached =>
                "Transcript did not reach the expected bottom; export cancelled and position could not be restored"@,
            Failure::HistoryUnavailable =>
                "Codex could not load older history; no partial file was opened"@,
            Failure::ChangedWhileLoading =>
                "Transcript changed while loading history; no partial file was opened"@,
            Failure::RepeatedOnTheWayUp =>
                "Repeated transcript rows hide the scroll position; no partial file was opened"@,
            Failure::ScrollAmbiguous =>
                "Transcript changed or scrolling was ambiguous; no partial file was opened"@,
            Failure::TopNotReached =>
                "Transcript did not reach the expected top; no partial file was opened"@,
            Failure::BottomNotRegained =>
                "Transcript export could not return to the bottom; position was not restored"@,
            Failure::ViewNotRestored =>
                "Transcript export could not restore the original view"@,
            Failure::SendFailed =>
                "Could not send transcript navigation; scroll position may have changed"@,
            Failure::TerminalGone => "Source terminal disappeared"@,
            Failure::NotIdle =>
                "Codex is no longer idle; transcript export cancelled without sending more keys"@,
            Failure::PaneChanged => "Source pane changed"@,
            Failure::FocusChanged =>
                "Source pane or client focus changed; transcript was not opened"@,
        }
    }

    /// What the user is told.
    pub fn message(&self) -> (res: String)
        ensures
            res@ == self.text(),
    {
        let text: &str = match self {
            Failure::Interrupted =>
                "Transcript export interrupted by input; scroll position was not restored",
            Failure::PositionNotRestored =>
                "Transcript export could not restore the scroll position",
            Failure::NotDrawn =>
                "Transcript did not finish drawing; scroll position was not restored",
            Failure::TimedOutUnread =>
                "Transcript export timed out; scroll position was not restored",
            Failure::KeptChanging =>
                "Transcript kept changing; export cancelled and scroll position was not restored",
            Failure::LeftView =>
                "Codex left the transcript view; export cancelled without sending more keys",
            Failure::SizeChanged =>
                "Transcript size changed; export cancelled without sending more keys",
            Failure::TimedOut => "Transcript export timed out; no partial file was opened",
            Failure::TimedOutUnmeasured =>
                "Transcript export timed out; scroll position could not be restored",
            Failure::RepeatedOnTheWayDown =>
                "Repeated transcript rows hide the scroll position; export cancelled and position could not be restored",
            Failure::ScrollUnmeasured =>
                "Transcript scroll could not be measured; export cancelled, scroll position may have changed",
            Failure::BottomNotReached =>
                "Transcript did not reach the expected bottom; export cancelled and position could not be restored",
            Failure::HistoryUnavailable =>
                "Codex could not load older history; no partial file was opened",
            Failure::ChangedWhileLoading =>
                "Transcript changed while loading history; no partial file was opened",
            Failure::RepeatedOnTheWayUp =>
                "Repeated transcript rows hide the scroll position; no partial file was opened",
            Failure::ScrollAmbiguous =>
                "Transcript changed or scrolling was ambiguous; no partial file was opened",
            Failure::TopNotReached =>
                "Transcript did not reach the expected top; no partial file was opened",
            Failure::BottomNotRegained =>
                "Transcript export could not return to the bottom; position was not restored",
            Failure::ViewNotRestored =>
                "Transcript export could not restore the original view",
            Failure::SendFailed =>
                "Could not send transcript navigation; scroll position may have changed",
            Failure::TerminalGone => "Source terminal disappeared",
            Failure::NotIdle =>
                "Codex is no longer idle; transcript export cancelled without sending more keys",
            Failure::PaneChanged => "Source pane changed",
            Failure::FocusChanged =>
                "Source pane or client focus changed; transcript was not opened",
        };
        text.to_owned()
    }
}

} // verus!
