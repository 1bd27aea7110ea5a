use std::collections::VecDeque;

use transcript_export::capture::{
    key_bytes, Capture, Key, Observation, Phase, ScreenReading, Step, CAPTURE_TIMEOUT, QUIET,
    RESTORE_TIMEOUT, STEP_TIMEOUT,
};
use transcript_export::failure::Failure;
use transcript_export::transcript::{ActiveScreen, ScreenSnapshot};

const BODY_ROWS: usize = 20;
const TITLE: &str = "/ T R A N S C R I P T / / /";
const STARTED: u64 = 5_000_000_000;

/// A terminal that holds what was drawn, and the bytes that it was sent.
struct Terminal {
    screen: ActiveScreen,
    cols: u16,
    rows: Vec<String>,
    height: usize,
    content_seq: u64,
    input_seq: u64,
    synchronized: bool,
    readable: bool,
    drawing: bool,
    open: bool,
    input: VecDeque<Vec<u8>>,
}

fn encode(key: Key) -> Vec<u8> {
    match key {
        Key::Up => b"\x1b[A".to_vec(),
        Key::Down => b"\x1b[B".to_vec(),
        Key::Home => b"\x1b[H".to_vec(),
        Key::End => b"\x1b[F".to_vec(),
    }
}

impl Terminal {
    fn new(cols: u16, height: usize, screen: ActiveScreen, lines: Vec<String>) -> Self {
        let mut terminal = Terminal {
            screen,
            cols,
            rows: Vec::new(),
            height,
            content_seq: 0,
            input_seq: 7,
            synchronized: false,
            readable: true,
            drawing: false,
            open: true,
            input: VecDeque::new(),
        };
        terminal.draw(lines);
        terminal
    }

    fn draw(&mut self, lines: Vec<String>) {
        self.rows = lines;
        self.rows.resize(self.height, String::new());
        self.content_seq += 1;
    }

    fn reading(&self) -> Option<ScreenReading> {
        self.readable.then(|| ScreenReading {
            screen: self.screen,
            snapshot: ScreenSnapshot {
                cols: self.cols,
                rows: self.rows.clone(),
            },
            seq: self.content_seq,
        })
    }

    fn observe(&self) -> Observation {
        Observation {
            input_seq: self.input_seq,
            content_seq: self.content_seq,
            synchronized: self.synchronized,
            reading: self.reading(),
            confirmed_seq: self.content_seq + self.drawing as u64,
        }
    }

    fn capture(&self, now: u64) -> Option<Capture> {
        Capture::new(self.reading(), self.input_seq, now)
    }

    fn press(&mut self, capture: &mut Capture, key: Key, count: usize, now: u64) -> Step {
        let seq = self.content_seq;
        if self.open {
            self.input.push_back(key_bytes(&encode(key), count));
        }
        capture.send(count, seq, self.open, now)
    }

    fn poll(&mut self, capture: &mut Capture, now: u64) -> Option<Result<String, Failure>> {
        assert!(capture.movement_fits());
        let step = match capture.poll(self.observe(), now) {
            Step::Send { key, count } => self.press(capture, key, count, now),
            step => step,
        };
        match step {
            Step::Finished(result) => Some(result),
            _ => None,
        }
    }

    fn navigate(&mut self, bytes: &[u8], position: &mut usize, total: usize) {
        let keys = [Key::Up, Key::Down, Key::End, Key::Home];
        let mut rest = bytes;
        while !rest.is_empty() {
            let key = keys
                .into_iter()
                .find(|key| rest.starts_with(&encode(*key)))
                .expect("only pager navigation keys");
            rest = &rest[encode(key).len()..];
            *position = match key {
                Key::Up => position.saturating_sub(1),
                Key::Down => (*position + 1).min(total - BODY_ROWS),
                Key::End => total - BODY_ROWS,
                Key::Home => 0,
            };
        }
        self.draw(draw(*position, total));
    }
}

fn page(title: &str, body: Vec<String>) -> Vec<String> {
    let mut lines = vec![title.to_owned()];
    lines.extend(body);
    lines.push("──────── 50% ─".into());
    lines.push(" ↑/↓ to scroll   pgup/pgdn to page   home/end to jump".into());
    lines.push(" q close   esc to edit prev".into());
    lines
}

fn draw(position: usize, total: usize) -> Vec<String> {
    let mut lines = page(
        TITLE,
        (position..position + BODY_ROWS)
            .map(|row| format!("transcript row {row:05} 日本語"))
            .collect(),
    );
    lines[BODY_ROWS + 1] = format!(
        "──────── {}% ─",
        100 * position / (total - BODY_ROWS).max(1)
    );
    lines
}

fn shown(position: usize, total: usize) -> Terminal {
    Terminal::new(
        100,
        BODY_ROWS + 4,
        ActiveScreen::Alternate,
        draw(position, total),
    )
}

/// Runs a capture to its end; `at` may change the terminal or the capture before each poll.
fn run(
    terminal: &mut Terminal,
    position: &mut usize,
    total: usize,
    mut at: impl FnMut(&mut Capture, &mut Terminal, u64),
) -> (Result<String, Failure>, u64) {
    let mut now = STARTED;
    let mut capture = terminal.capture(now).expect("transcript recognized");
    loop {
        now = capture.next_deadline().max(now + QUIET);
        at(&mut capture, terminal, now);
        if let Some(result) = terminal.poll(&mut capture, now) {
            return (result, now);
        }
        while let Some(bytes) = terminal.input.pop_front() {
            terminal.navigate(&bytes, position, total);
        }
    }
}

#[test]
fn codex_transcript_export_captures_over_1000_rows_and_restores_start_middle_and_end() {
    let total = 2037;
    for initial in [0, 13, 737, total - BODY_ROWS] {
        let mut terminal = shown(initial, total);
        let mut position = initial;
        let (text, _) = run(&mut terminal, &mut position, total, |_, _, _| {});
        assert_eq!(position, initial);
        let expected = (0..total)
            .map(|row| format!("transcript row {row:05} 日本語\n"))
            .collect::<String>();
        assert_eq!(
            text.expect("complete export"),
            expected,
            "initial={initial}"
        );
    }
}

#[test]
fn codex_transcript_requires_alternate_screen_and_all_controls() {
    let ordinary = vec![
        "/ T R A N S C R I P T /".to_owned(),
        "ordinary output".to_owned(),
    ];
    for (screen, lines, expected) in [
        (ActiveScreen::Alternate, draw(0, 100), true),
        (ActiveScreen::Primary, draw(0, 100), false),
        (ActiveScreen::Alternate, ordinary, false),
    ] {
        let terminal = Terminal::new(100, 24, screen, lines);
        assert_eq!(terminal.capture(STARTED).is_some(), expected);
    }
}

#[test]
fn codex_transcript_user_input_aborts_without_synthetic_keys() {
    let mut terminal = shown(100, 200);
    let now = STARTED;
    let mut capture = terminal.capture(now).unwrap();
    terminal.input_seq += 1;
    let failure = terminal
        .poll(&mut capture, now + QUIET)
        .unwrap()
        .unwrap_err();
    assert!(failure.message().contains("interrupted"));
    assert_eq!(failure, Failure::Interrupted);
    assert!(terminal.input.is_empty());
}

#[test]
fn codex_transcript_timeout_restores_before_reporting_incomplete() {
    let total = 333;
    let initial = 67;
    let mut terminal = shown(initial, total);
    let mut position = initial;
    let mut expired = false;
    let (result, _) = run(
        &mut terminal,
        &mut position,
        total,
        |capture, _, now| {
            if capture.phase == Phase::Capture && !expired {
                capture.deadline = now;
                expired = true;
            }
        },
    );
    assert!(result.unwrap_err().message().contains("timed out"));
    assert_eq!(position, initial);
}

#[test]
fn codex_transcript_timeout_accounts_for_outstanding_down() {
    let initial = 67;
    let total = 333;
    let mut terminal = shown(initial, total);
    let started = STARTED;
    let mut capture = terminal.capture(started).unwrap();
    assert!(terminal.poll(&mut capture, started + QUIET).is_none());
    let mut position = initial;
    let bytes = terminal.input.pop_front().unwrap();
    terminal.navigate(&bytes, &mut position, total);
    assert_ne!(position, initial);
    let mut now = started + CAPTURE_TIMEOUT;
    for _ in 0..30 {
        if let Some(result) = terminal.poll(&mut capture, now) {
            assert!(result.unwrap_err().message().contains("timed out"));
            assert_eq!(position, initial);
            return;
        }
        while let Some(bytes) = terminal.input.pop_front() {
            terminal.navigate(&bytes, &mut position, total);
        }
        now += QUIET;
    }
    panic!("restoration did not finish");
}

#[test]
fn codex_transcript_repeated_rows_are_not_mistaken_for_eof() {
    let mut lines = draw(500, 2000);
    for line in &mut lines[1..=BODY_ROWS] {
        *line = "repeated row".into();
    }
    let mut terminal = Terminal::new(100, 24, ActiveScreen::Alternate, lines);
    let now = STARTED;
    let mut capture = terminal.capture(now).unwrap();
    assert!(terminal.poll(&mut capture, now + QUIET).is_none());
    terminal.input.pop_front().unwrap();
    let error = terminal
        .poll(&mut capture, now + STEP_TIMEOUT + QUIET)
        .unwrap()
        .unwrap_err()
        .message();
    assert!(error.contains("Repeated"));
    assert!(error.contains("could not be restored"));
    assert!(terminal.input.is_empty());
}

#[test]
fn codex_transcript_view_exit_sends_no_more_keys() {
    for leave in [true, false] {
        let mut terminal = shown(0, 2000);
        let now = STARTED;
        let mut capture = terminal.capture(now).unwrap();
        if leave {
            terminal.screen = ActiveScreen::Primary;
            terminal.draw(Vec::new());
        } else {
            terminal.draw(vec!["different view".to_owned()]);
        }
        assert!(terminal.poll(&mut capture, now + QUIET).is_none());
        assert_eq!(
            terminal.poll(&mut capture, now + QUIET * 2).unwrap(),
            Err(Failure::LeftView)
        );
        assert!(terminal.input.is_empty());
    }
}

#[test]
fn codex_transcript_waits_for_home_and_lazy_history_before_end() {
    let mut terminal = shown(100, 200);
    let now = STARTED;
    let mut capture = terminal.capture(now).unwrap();
    capture.phase = Phase::LoadStart;
    terminal.press(&mut capture, Key::Home, 1, now);
    terminal.input.pop_front().unwrap();
    assert!(terminal.poll(&mut capture, now + QUIET).is_none());
    assert!(terminal.input.is_empty(), "Home has not drawn yet");

    let mut partial = draw(0, 200);
    partial[0] = partial[0].replace("/ / /", "/ / / partial history | PgUp for earlier");
    terminal.draw(partial);
    assert!(terminal.poll(&mut capture, now + QUIET * 2).is_none());
    assert!(terminal.poll(&mut capture, now + QUIET * 3).is_none());
    assert!(terminal.input.is_empty(), "older history is not loaded yet");

    terminal.draw(draw(0, 200));
    assert!(terminal.poll(&mut capture, now + QUIET * 4).is_none());
    assert!(terminal.poll(&mut capture, now + QUIET * 5).is_none());
    assert_eq!(terminal.input.pop_front().unwrap(), encode(Key::End));
}

#[test]
fn codex_transcript_resize_sends_no_more_keys() {
    let mut terminal = shown(0, 200);
    let now = STARTED;
    let mut capture = terminal.capture(now).unwrap();
    terminal.cols = 110;
    terminal.content_seq += 1;
    assert!(terminal.poll(&mut capture, now + QUIET).is_none());
    assert_eq!(
        terminal.poll(&mut capture, now + QUIET * 2).unwrap(),
        Err(Failure::SizeChanged)
    );
    assert!(terminal.input.is_empty());
}

#[test]
fn a_new_capture_knows_its_deadlines() {
    let terminal = shown(3, 200);
    let capture = terminal.capture(STARTED).unwrap();
    assert_eq!(capture.phase, Phase::Bottom);
    assert_eq!(capture.initial.cols, 100);
    assert_eq!(capture.initial.body.len(), BODY_ROWS);
    assert_eq!(capture.initial.body[0], "transcript row 00003 日本語");
    assert_eq!(capture.quiet_until, 5_010_000_000);
    assert_eq!(capture.step_deadline, 6_000_000_000);
    assert_eq!(capture.deadline, 45_000_000_000);
    assert_eq!(capture.next_deadline(), 5_010_000_000);
    assert_eq!(capture.input_seq, 7);
    assert_eq!(capture.output_seq, 1);
    assert!(capture.movement_fits());
}

#[test]
fn the_deadline_comes_first_when_it_is_earlier() {
    let mut capture = shown(3, 200).capture(STARTED).unwrap();
    capture.deadline = STARTED + 1;
    assert_eq!(capture.next_deadline(), STARTED + 1);
}

#[test]
fn an_unreadable_screen_begins_no_capture() {
    let mut terminal = shown(0, 200);
    terminal.readable = false;
    assert!(terminal.capture(STARTED).is_none());
}

#[test]
fn counted_rows_that_do_not_fit_are_told() {
    let mut capture = shown(3, 200).capture(STARTED).unwrap();
    capture.initial_from_bottom = usize::MAX - 9;
    capture.sent_rows = 9;
    assert!(capture.movement_fits());
    capture.sent_rows = 10;
    assert!(!capture.movement_fits());
    capture.phase = Phase::Capture;
    assert!(capture.movement_fits());
}

#[test]
fn a_poll_with_nothing_new_does_nothing() {
    let mut terminal = shown(3, 200);
    let mut capture = terminal.capture(STARTED).unwrap();
    let before = format!("{capture:?}");
    assert!(terminal.poll(&mut capture, STARTED + QUIET - 1).is_none());
    assert_eq!(format!("{capture:?}"), before);
    assert!(terminal.input.is_empty());
}

#[test]
fn keys_are_counted_by_the_rows_that_move() {
    let total = 100;
    let initial = 77;
    let mut terminal = shown(initial, total);
    let mut position = initial;
    let mut counted = 0;
    let (text, _) = run(&mut terminal, &mut position, total, |capture, _, _| {
        counted = capture.initial_from_bottom;
    });
    assert!(text.is_ok());
    assert_eq!(counted, 3);
    assert_eq!(position, initial);
}

#[test]
fn half_a_view_is_asked_for_at_a_time() {
    let mut terminal = shown(0, 200);
    let mut capture = terminal.capture(STARTED).unwrap();
    assert!(terminal.poll(&mut capture, STARTED + QUIET).is_none());
    assert_eq!(terminal.input.pop_front().unwrap(), b"\x1b[B".repeat(10));
    assert_eq!(capture.sent_rows, 10);
    assert_eq!(capture.quiet_until, STARTED + QUIET * 2);
    assert_eq!(capture.step_deadline, STARTED + QUIET + STEP_TIMEOUT);
}

#[test]
fn key_bytes_are_repeated() {
    assert_eq!(key_bytes(&b"ab".to_vec(), 3), b"ababab".to_vec());
    assert_eq!(key_bytes(&b"ab".to_vec(), 0), b"".to_vec());
    assert_eq!(key_bytes(&Vec::new(), 5), b"".to_vec());
}

#[test]
fn older_rows_that_home_loads_are_exported_too() {
    let total = 300;
    let loaded = 150;
    let mut position = 40;
    let mut terminal = shown(loaded + position, total);
    let mut now = STARTED;
    let mut capture = terminal.capture(now).unwrap();
    let mut first = loaded;
    let text = loop {
        now = capture.next_deadline().max(now + QUIET);
        if let Some(result) = terminal.poll(&mut capture, now) {
            break result.expect("complete export");
        }
        while let Some(bytes) = terminal.input.pop_front() {
            if bytes == encode(Key::Home) {
                first = 0;
            }
            terminal.navigate(&bytes, &mut position, total - first);
            terminal.draw(draw(first + position, total));
        }
    };
    assert_eq!(first + position, loaded + 40);
    let expected = (0..total)
        .map(|row| format!("transcript row {row:05} 日本語\n"))
        .collect::<String>();
    assert_eq!(text, expected);
}

#[test]
fn an_update_that_stays_open_ends_the_capture() {
    let mut terminal = shown(0, 200);
    let mut capture = terminal.capture(STARTED).unwrap();
    terminal.synchronized = true;
    assert!(terminal.poll(&mut capture, STARTED + QUIET).is_none());
    assert_eq!(capture.quiet_until, STARTED + QUIET * 2);
    assert_eq!(
        terminal.poll(&mut capture, STARTED + STEP_TIMEOUT),
        Some(Err(Failure::NotDrawn))
    );
    assert!(terminal.input.is_empty());
}

#[test]
fn time_that_is_up_on_an_unreadable_screen_ends_the_capture() {
    let mut terminal = shown(0, 200);
    let mut capture = terminal.capture(STARTED).unwrap();
    terminal.readable = false;
    assert!(terminal.poll(&mut capture, STARTED + QUIET).is_none());
    assert_eq!(
        terminal.poll(&mut capture, STARTED + CAPTURE_TIMEOUT),
        Some(Err(Failure::TimedOutUnread))
    );
}

#[test]
fn time_that_is_up_on_a_changing_screen_ends_the_capture() {
    let mut terminal = shown(0, 200);
    let mut capture = terminal.capture(STARTED).unwrap();
    terminal.drawing = true;
    assert!(terminal.poll(&mut capture, STARTED + QUIET).is_none());
    assert!(capture.step_observed_output);
    assert_eq!(
        terminal.poll(&mut capture, STARTED + CAPTURE_TIMEOUT),
        Some(Err(Failure::KeptChanging))
    );
    assert!(terminal.input.is_empty());
}

#[test]
fn time_that_is_up_after_a_move_without_overlap_ends_the_capture() {
    let mut terminal = shown(0, 200);
    let mut capture = terminal.capture(STARTED).unwrap();
    assert!(terminal.poll(&mut capture, STARTED + QUIET).is_none());
    terminal.draw(draw(100, 200));
    assert_eq!(
        terminal.poll(&mut capture, STARTED + CAPTURE_TIMEOUT),
        Some(Err(Failure::TimedOutUnmeasured))
    );
}

#[test]
fn a_move_down_without_overlap_ends_the_capture() {
    let mut terminal = shown(0, 200);
    let mut capture = terminal.capture(STARTED).unwrap();
    assert!(terminal.poll(&mut capture, STARTED + QUIET).is_none());
    terminal.draw(draw(100, 200));
    assert!(terminal.poll(&mut capture, STARTED + QUIET * 2).is_none());
    assert_eq!(
        terminal.poll(&mut capture, STARTED + QUIET * 3),
        Some(Err(Failure::ScrollUnmeasured))
    );
}

#[test]
fn a_bottom_that_is_not_the_end_ends_the_capture() {
    let total = 200;
    let mut position = 180;
    let mut terminal = shown(position, total);
    let (result, _) = run(&mut terminal, &mut position, total, |capture, terminal, _| {
        if capture.phase == Phase::VerifyBottom {
            terminal.draw(draw(3, total));
            terminal.content_seq = capture.output_seq;
            capture.step_observed_output = true;
            capture.quiet_until = 0;
        }
    });
    assert_eq!(result, Err(Failure::BottomNotReached));
}

#[test]
fn history_that_cannot_be_had_is_told_after_the_way_back() {
    let total = 200;
    let mut position = 55;
    let mut terminal = shown(position, total);
    let (result, _) = run(&mut terminal, &mut position, total, |capture, terminal, _| {
        if capture.phase == Phase::LoadStart {
            terminal.rows[0] = format!("{TITLE} history unavailable");
        }
    });
    assert_eq!(result, Err(Failure::HistoryUnavailable));
    assert_eq!(position, 55);
}

#[test]
fn an_end_that_changes_while_loading_is_told_after_the_way_back() {
    let total = 200;
    let mut position = 55;
    let mut terminal = shown(position, total);
    let (result, _) = run(&mut terminal, &mut position, total, |capture, terminal, _| {
        if capture.phase == Phase::CaptureEnd {
            terminal.rows[5] = "something new".to_owned();
        }
    });
    assert_eq!(result, Err(Failure::ChangedWhileLoading));
    assert_eq!(position, 55);
}

#[test]
fn repeated_rows_on_the_way_up_are_told_after_the_way_back() {
    let total = 60;
    let mut position = 30;
    let mut terminal = shown(position, total);
    let (result, _) = run(&mut terminal, &mut position, total, |capture, terminal, _| {
        if capture.phase == Phase::Capture {
            let same = vec!["same".to_owned(); BODY_ROWS];
            terminal.rows = page(TITLE, same.clone());
            capture.previous.body = same;
        }
    });
    assert_eq!(result, Err(Failure::RepeatedOnTheWayUp));
    assert_eq!(position, 30);
}

#[test]
fn a_move_up_without_overlap_is_told_after_the_way_back() {
    let total = 200;
    let mut position = 55;
    let mut terminal = shown(position, total);
    let (result, _) = run(&mut terminal, &mut position, total, |capture, terminal, _| {
        if capture.phase == Phase::Capture {
            terminal.rows = draw(0, total);
        }
    });
    assert_eq!(result, Err(Failure::ScrollAmbiguous));
    assert_eq!(position, 55);
}

#[test]
fn a_top_that_is_not_the_start_is_told_after_the_way_back() {
    let total = 200;
    let mut position = 55;
    let mut terminal = shown(position, total);
    let (result, _) = run(&mut terminal, &mut position, total, |capture, terminal, _| {
        if capture.phase == Phase::VerifyTop {
            terminal.rows = draw(1, total);
        }
    });
    assert_eq!(result, Err(Failure::TopNotReached));
    assert_eq!(position, 55);
}

#[test]
fn an_end_that_is_not_regained_ends_the_capture() {
    let total = 200;
    let mut position = 55;
    let mut terminal = shown(position, total);
    let (result, _) = run(&mut terminal, &mut position, total, |capture, terminal, _| {
        if capture.phase == Phase::RestoreEnd {
            terminal.rows = draw(1, total);
        }
    });
    assert_eq!(result, Err(Failure::BottomNotRegained));
}

#[test]
fn a_step_back_up_that_falls_short_ends_the_capture() {
    let total = 200;
    let mut position = 55;
    let mut terminal = shown(position, total);
    let (result, _) = run(&mut terminal, &mut position, total, |capture, terminal, _| {
        if capture.phase == Phase::RestoreUp {
            terminal.rows = draw(total - BODY_ROWS - 3, total);
        }
    });
    assert_eq!(result, Err(Failure::PositionNotRestored));
}

#[test]
fn time_that_is_up_on_the_way_back_ends_the_capture() {
    let total = 200;
    let mut position = 55;
    let mut terminal = shown(position, total);
    let (result, _) = run(&mut terminal, &mut position, total, |capture, _, now| {
        if capture.phase == Phase::RestoreUp {
            assert!(capture.deadline > now);
            assert!(capture.deadline <= now + RESTORE_TIMEOUT);
            capture.deadline = now;
        }
    });
    assert_eq!(result, Err(Failure::PositionNotRestored));
}

#[test]
fn another_first_view_ends_the_capture() {
    let total = 200;
    let mut position = 55;
    let mut terminal = shown(position, total);
    let (result, _) = run(&mut terminal, &mut position, total, |capture, _, _| {
        if capture.phase == Phase::RestoreUp {
            capture.initial.body[0] = "another row".to_owned();
        }
    });
    assert_eq!(result, Err(Failure::ViewNotRestored));
}

#[test]
fn keys_that_are_not_taken_end_the_capture() {
    let mut terminal = shown(0, 200);
    let mut capture = terminal.capture(STARTED).unwrap();
    terminal.open = false;
    assert_eq!(
        terminal.poll(&mut capture, STARTED + QUIET),
        Some(Err(Failure::SendFailed))
    );
    assert_eq!(capture.sent_rows, 0);
}

#[test]
fn a_hidden_move_is_not_undone_when_time_is_up_right_after_it() {
    let same = page(TITLE, vec!["same".to_owned(); BODY_ROWS]);
    let mut terminal = Terminal::new(100, 24, ActiveScreen::Alternate, same.clone());
    let mut capture = terminal.capture(STARTED).unwrap();
    assert!(terminal.poll(&mut capture, STARTED + QUIET).is_none());
    terminal.input.pop_front().unwrap();
    terminal.draw(same);
    assert_eq!(
        terminal.poll(&mut capture, STARTED + CAPTURE_TIMEOUT),
        Some(Err(Failure::TimedOut))
    );
    assert!(terminal.input.is_empty());
}

#[test]
fn a_document_of_one_view_is_exported() {
    let total = BODY_ROWS;
    let mut position = 0;
    let mut terminal = shown(position, total);
    let (text, _) = run(&mut terminal, &mut position, total, |_, _, _| {});
    let expected = (0..total)
        .map(|row| format!("transcript row {row:05} 日本語\n"))
        .collect::<String>();
    assert_eq!(text, Ok(expected));
}

#[test]
fn presses_stay_within_their_bound() {
    let total = 333;
    let initial = 67;
    let mut position = initial;
    let mut terminal = shown(initial, total);
    let mut now = STARTED;
    let mut capture = terminal.capture(now).unwrap();
    let mut presses = 0;
    while terminal.poll(&mut capture, now).is_none() {
        while let Some(bytes) = terminal.input.pop_front() {
            presses += 1;
            terminal.navigate(&bytes, &mut position, total);
        }
        now = capture.next_deadline().max(now + QUIET);
    }
    assert!(presses > 5);
    assert!(presses <= 2 * (total - BODY_ROWS - initial) + total + 8);
}

#[test]
fn waiting_ends_when_the_keys_have_had_their_time() {
    let mut terminal = shown(180, 200);
    let mut capture = terminal.capture(STARTED).unwrap();
    let sent = STARTED + QUIET;
    assert!(terminal.poll(&mut capture, sent).is_none());
    terminal.input.clear();
    assert!(terminal.poll(&mut capture, sent + QUIET).is_none());
    assert_eq!(capture.next_deadline(), sent + STEP_TIMEOUT);
    assert!(terminal.input.is_empty());
    assert!(terminal.poll(&mut capture, sent + STEP_TIMEOUT).is_none());
    assert_eq!(capture.phase, Phase::VerifyBottom);
    assert_eq!(terminal.input.pop_front().unwrap(), encode(Key::End));
}

#[test]
fn a_capture_turns_back_once_and_has_a_time_for_it() {
    let total = 333;
    let initial = 67;
    let mut position = initial;
    let mut terminal = shown(initial, total);
    let mut deadlines = vec![STARTED + CAPTURE_TIMEOUT];
    let (result, _) = run(&mut terminal, &mut position, total, |capture, _, now| {
        if deadlines.last() != Some(&capture.deadline) {
            assert_eq!(capture.phase, Phase::RestoreEnd);
            assert!(capture.deadline > now);
            deadlines.push(capture.deadline);
        }
    });
    assert!(result.is_ok());
    assert_eq!(deadlines.len(), 2);
}

#[test]
fn rows_are_counted_on_the_way_down_only() {
    let total = 333;
    let initial = 67;
    let mut position = initial;
    let mut terminal = shown(initial, total);
    let (result, _) = run(&mut terminal, &mut position, total, |capture, _, _| {
        if capture.phase != Phase::Bottom {
            assert_eq!(capture.initial_from_bottom, total - BODY_ROWS - initial);
        }
        assert!(capture.restore_remaining <= capture.initial_from_bottom);
    });
    assert!(result.is_ok());
}

#[test]
fn a_poll_after_the_deadline_decides() {
    let total = 333;
    let mut position = 67;
    let mut terminal = shown(position, total);
    let mut capture = terminal.capture(STARTED).unwrap();
    assert!(terminal.poll(&mut capture, STARTED + QUIET).is_none());
    let bytes = terminal.input.pop_front().unwrap();
    terminal.navigate(&bytes, &mut position, total);
    let late = STARTED + CAPTURE_TIMEOUT;
    assert!(terminal.poll(&mut capture, late).is_none());
    assert_eq!(capture.phase, Phase::RestoreUp);
    assert_eq!(capture.error, Some(Failure::TimedOut));
    assert_eq!(capture.deadline, late + RESTORE_TIMEOUT);
    assert_eq!(terminal.input.pop_front().unwrap(), b"\x1b[A".repeat(10));
    assert_eq!(
        terminal.poll(&mut capture, late + RESTORE_TIMEOUT),
        Some(Err(Failure::PositionNotRestored))
    );
}

#[test]
fn keys_that_are_acted_on_late_are_waited_for() {
    let total = 120;
    let initial = 33;
    let mut position = initial;
    let mut terminal = shown(initial, total);
    let mut now = STARTED;
    let mut capture = terminal.capture(now).unwrap();
    let text = loop {
        now += STEP_TIMEOUT / 3;
        capture.deadline = now + CAPTURE_TIMEOUT;
        if let Some(result) = terminal.poll(&mut capture, now) {
            break result.expect("complete export");
        }
        if now - (capture.step_deadline - STEP_TIMEOUT) >= STEP_TIMEOUT / 3 {
            while let Some(bytes) = terminal.input.pop_front() {
                terminal.navigate(&bytes, &mut position, total);
            }
        }
    };
    assert_eq!(position, initial);
    assert_eq!(text.lines().count(), total);
}
