use transcript_export::failure::Failure;
use transcript_export::transcript::{
    copy_rows, same_rows, ActiveScreen, ScreenSnapshot, Transcript,
};

const TITLE: &str = "/ T R A N S C R I P T / / /";
const RULE: &str = "─────── 100% ─";
const SCROLL: &str = " ↑/↓ to scroll   pgup/pgdn to page   home/end to jump";
const CLOSE: &str = " q close   esc to edit prev";

fn read(rows: &[&str]) -> Option<Transcript> {
    Transcript::from_screen(
        ActiveScreen::Alternate,
        ScreenSnapshot {
            cols: 80,
            rows: rows.iter().map(|row| row.to_string()).collect(),
        },
    )
}

#[test]
fn the_body_is_between_title_and_rule() {
    let rows = [TITLE, "  one  ", "", "three", RULE, SCROLL, CLOSE, "  ", ""];
    let transcript = read(&rows).unwrap();
    assert_eq!(transcript.cols, 80);
    assert_eq!(transcript.body, vec!["  one", "", "three"]);
    assert_eq!(transcript.clone(), transcript);
    let other = read(&[TITLE, "one", "", "three", RULE, SCROLL, CLOSE]).unwrap();
    assert!(other != transcript);
}

#[test]
fn every_control_is_needed() {
    let rows = [TITLE, "one", "two", "three", RULE, SCROLL, CLOSE];
    assert!(read(&rows).is_some());
    for index in [0, 4, 5, 6] {
        let mut other = rows;
        other[index] = "something else";
        assert!(read(&other).is_none());
    }
    assert!(read(&[TITLE, "one", "two", RULE, SCROLL, CLOSE]).is_none());
    assert!(read(&[]).is_none());
    assert!(read(&["", "  "]).is_none());
}

#[test]
fn text_below_the_controls_is_no_transcript() {
    let rows = [TITLE, "one", "two", "three", RULE, SCROLL, CLOSE, "more"];
    assert!(read(&rows).is_none());
}

#[test]
fn the_primary_screen_has_no_transcript() {
    let rows = [TITLE, "one", "two", "three", RULE, SCROLL, CLOSE];
    let snapshot = ScreenSnapshot {
        cols: 80,
        rows: rows.iter().map(|row| row.to_string()).collect(),
    };
    assert!(Transcript::from_screen(ActiveScreen::Primary, snapshot).is_none());
}

#[test]
fn rows_are_copied_and_compared() {
    let rows = vec!["a".to_owned(), "b".to_owned(), "c".to_owned()];
    assert_eq!(copy_rows(&rows, 1, 3), vec!["b", "c"]);
    assert_eq!(copy_rows(&rows, 2, 2), Vec::<String>::new());
    assert!(same_rows(&rows, &copy_rows(&rows, 0, 3)));
    assert!(!same_rows(&rows, &copy_rows(&rows, 0, 2)));
}

#[test]
fn failures_have_their_messages() {
    for (failure, message) in [
        (
            Failure::Interrupted,
            "Transcript export interrupted by input; scroll position was not restored",
        ),
        (
            Failure::PositionNotRestored,
            "Transcript export could not restore the scroll position",
        ),
        (
            Failure::NotDrawn,
            "Transcript did not finish drawing; scroll position was not restored",
        ),
        (
            Failure::TimedOutUnread,
            "Transcript export timed out; scroll position was not restored",
        ),
        (
            Failure::KeptChanging,
            "Transcript kept changing; export cancelled and scroll position was not restored",
        ),
        (
            Failure::LeftView,
            "Codex left the transcript view; export cancelled without sending more keys",
        ),
        (
            Failure::SizeChanged,
            "Transcript size changed; export cancelled without sending more keys",
        ),
        (
            Failure::TimedOut,
            "Transcript export timed out; no partial file was opened",
        ),
        (
            Failure::TimedOutUnmeasured,
            "Transcript export timed out; scroll position could not be restored",
        ),
        (
            Failure::RepeatedOnTheWayDown,
            "Repeated transcript rows hide the scroll position; export cancelled and position could not be restored",
        ),
        (
            Failure::ScrollUnmeasured,
            "Transcript scroll could not be measured; export cancelled, scroll position may have changed",
        ),
        (
            Failure::BottomNotReached,
            "Transcript did not reach the expected bottom; export cancelled and position could not be restored",
        ),
        (
            Failure::HistoryUnavailable,
            "Codex could not load older history; no partial file was opened",
        ),
        (
            Failure::ChangedWhileLoading,
            "Transcript changed while loading history; no partial file was opened",
        ),
        (
            Failure::RepeatedOnTheWayUp,
            "Repeated transcript rows hide the scroll position; no partial file was opened",
        ),
        (
            Failure::ScrollAmbiguous,
            "Transcript changed or scrolling was ambiguous; no partial file was opened",
        ),
        (
            Failure::TopNotReached,
            "Transcript did not reach the expected top; no partial file was opened",
        ),
        (
            Failure::BottomNotRegained,
            "Transcript export could not return to the bottom; position was not restored",
        ),
        (
            Failure::ViewNotRestored,
            "Transcript export could not restore the original view",
        ),
        (
            Failure::SendFailed,
            "Could not send transcript navigation; scroll position may have changed",
        ),
        (Failure::TerminalGone, "Source terminal disappeared"),
        (
            Failure::NotIdle,
            "Codex is no longer idle; transcript export cancelled without sending more keys",
        ),
        (Failure::PaneChanged, "Source pane changed"),
        (
            Failure::FocusChanged,
            "Source pane or client focus changed; transcript was not opened",
        ),
    ] {
        assert_eq!(failure.message(), message);
    }
}
