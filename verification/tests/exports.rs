use transcript_export::capture::{
    Key, Observation, Phase, ScreenReading, CAPTURE_TIMEOUT, QUIET,
};
use transcript_export::export::{
    Agent, AgentState, ClientStanding, Deferral, ExportStep, Method, Offer, Request, ShellClient,
    ShellFocusTarget, Standing, TerminalStatus, TerminalTarget, TranscriptExports,
};
use transcript_export::failure::Failure;
use transcript_export::transcript::{ActiveScreen, ScreenSnapshot};

const STARTED: u64 = 5_000_000_000;
const HEIGHT: usize = 4;
const IDLE: TerminalStatus = TerminalStatus {
    agent: Some(Agent::Codex),
    state: AgentState::Idle,
};
const FOCUS: ShellFocusTarget = ShellFocusTarget {
    workspace_index: 2,
    pane_id: 9,
    surface: 1,
};

fn reading(position: usize, seq: u64) -> ScreenReading {
    let mut rows = vec!["/ T R A N S C R I P T /".to_owned()];
    rows.extend((position..position + HEIGHT).map(|row| format!("row {row}")));
    rows.push("───".to_owned());
    rows.push("↑/↓ to scroll pgup/pgdn to page home/end to jump".to_owned());
    rows.push("q close esc to edit prev".to_owned());
    ScreenReading {
        screen: ActiveScreen::Alternate,
        snapshot: ScreenSnapshot { cols: 80, rows },
        seq,
    }
}

fn seen(position: usize, seq: u64) -> Observation {
    Observation {
        input_seq: 3,
        content_seq: seq,
        synchronized: false,
        reading: Some(reading(position, seq)),
        confirmed_seq: seq,
    }
}

fn target(terminal_id: &str) -> TerminalTarget {
    TerminalTarget {
        ws_idx: 2,
        pane_id: 9,
        terminal_id: terminal_id.to_owned(),
    }
}

fn client() -> ClientStanding {
    ClientStanding {
        id: 11,
        shell: Some(ShellClient {
            active: true,
            revision: 4,
        }),
        focus: Some(FOCUS),
    }
}

fn standing(terminal_id: &str) -> Standing {
    Standing {
        client: Some(client()),
        default_focus: None,
        target: Some(target(terminal_id)),
    }
}

fn unasked(terminal_id: &str) -> Standing {
    Standing {
        client: None,
        default_focus: Some(FOCUS),
        target: Some(target(terminal_id)),
    }
}

fn offer(id: &str, terminal_id: &str) -> Offer {
    Offer {
        request: Request {
            id: id.to_owned(),
            method: Method::PaneEditScrollback {
                pane_id: "w2-p9".to_owned(),
            },
        },
        standing: standing(terminal_id),
        shutting_down: false,
        terminal: Some(IDLE),
        reading: Some(reading(0, 1)),
        input_seq: 3,
        attached: false,
        reads: vec!["other".to_owned()],
    }
}

fn deferred(exports: &mut TranscriptExports, offer: Offer) {
    assert!(matches!(
        exports.defer_codex_transcript_export(offer, STARTED),
        Deferral::Deferred
    ));
}

fn declined(offer: Offer) {
    let mut exports = TranscriptExports::new();
    assert!(matches!(
        exports.defer_codex_transcript_export(offer, STARTED),
        Deferral::Declined
    ));
    assert!(exports.pending.is_empty());
}

fn busy(exports: &mut TranscriptExports, offer: Offer) {
    let before = exports.pending.len();
    match exports.defer_codex_transcript_export(offer, STARTED) {
        Deferral::Busy(reply) => {
            assert_eq!(reply.id, "again");
            assert_eq!(reply.code, "terminal_busy");
            assert_eq!(
                reply.message,
                "A terminal read or attachment is already in progress"
            );
        }
        other => panic!("{other:?}"),
    }
    assert_eq!(exports.pending.len(), before);
}

fn refused(step: ExportStep, failure: Failure) {
    match step {
        ExportStep::Refused(reply) => {
            assert_eq!(reply.id, "first");
            assert_eq!(reply.code, "transcript_export_incomplete");
            assert_eq!(reply.message, failure.message());
        }
        other => panic!("{other:?}"),
    }
}

/// Pages through a document of one view, up to the poll that ends the capture.
fn last_poll(exports: &mut TranscriptExports, asked: Standing) -> ExportStep {
    let mut now = STARTED;
    let seq = 1;
    let mut asked = Some(asked);
    loop {
        now += CAPTURE_TIMEOUT / 20;
        let capture = &mut exports.pending[0].capture;
        capture.deadline = now + CAPTURE_TIMEOUT;
        capture.step_observed_output = true;
        let last = capture.phase == Phase::RestoreEnd;
        let who = match last {
            true => asked.take().unwrap(),
            false => unasked("gone"),
        };
        assert!(exports.movement_fits(0));
        match exports.poll_transcript_export(0, Some(IDLE), Some(seen(0, seq)), who, now) {
            ExportStep::Send { count, .. } => {
                assert!(matches!(
                    exports.sent(0, count, seq, true, now),
                    ExportStep::Waiting
                ));
            }
            ExportStep::Waiting => {}
            step => {
                assert!(last);
                return step;
            }
        }
    }
}

#[test]
fn a_fitting_request_becomes_an_export() {
    let mut exports = TranscriptExports::new();
    deferred(&mut exports, offer("first", "t1"));
    let pending = &exports.pending[0];
    assert_eq!(pending.terminal_id, "t1");
    assert_eq!(pending.request.id, "first");
    assert_eq!(pending.client, Some((11, 4)));
    assert_eq!(pending.source, FOCUS);
    assert_eq!(pending.capture.input_seq, 3);
    assert_eq!(pending.capture.deadline, STARTED + CAPTURE_TIMEOUT);
}

#[test]
fn a_request_from_no_client_goes_by_the_default_focus() {
    let mut exports = TranscriptExports::new();
    let mut offer = offer("first", "t1");
    offer.standing = unasked("t1");
    deferred(&mut exports, offer);
    assert_eq!(exports.pending[0].client, None);
    assert_eq!(exports.pending[0].source, FOCUS);
}

#[test]
fn a_client_that_is_not_connected_is_not_kept() {
    let mut exports = TranscriptExports::new();
    let mut offer = offer("first", "t1");
    offer.standing.client = Some(ClientStanding {
        shell: None,
        ..client()
    });
    deferred(&mut exports, offer);
    assert_eq!(exports.pending[0].client, None);
}

#[test]
fn other_requests_are_declined() {
    let mut other = offer("first", "t1");
    other.request.method = Method::Other;
    declined(other);
    let mut other = offer("first", "t1");
    other.shutting_down = true;
    declined(other);
    let mut other = offer("first", "t1");
    other.standing.target = None;
    declined(other);
    let mut other = offer("first", "t1");
    other.standing.client = Some(ClientStanding {
        focus: None,
        ..client()
    });
    declined(other);
    let mut other = offer("first", "t1");
    other.standing.target.as_mut().unwrap().ws_idx = 1;
    declined(other);
    let mut other = offer("first", "t1");
    other.standing.target.as_mut().unwrap().pane_id = 8;
    declined(other);
    let mut other = offer("first", "t1");
    other.terminal = None;
    declined(other);
    let mut other = offer("first", "t1");
    other.terminal = Some(TerminalStatus {
        agent: Some(Agent::Other),
        ..IDLE
    });
    declined(other);
    let mut other = offer("first", "t1");
    other.terminal = Some(TerminalStatus {
        agent: None,
        ..IDLE
    });
    declined(other);
    let mut other = offer("first", "t1");
    other.terminal = Some(TerminalStatus {
        state: AgentState::Other,
        ..IDLE
    });
    declined(other);
    let mut other = offer("first", "t1");
    other.reading = None;
    declined(other);
    let mut other = offer("first", "t1");
    other.reading.as_mut().unwrap().screen = ActiveScreen::Primary;
    declined(other);
}

#[test]
fn a_terminal_in_other_use_is_busy() {
    let mut exports = TranscriptExports::new();
    let mut other = offer("again", "t1");
    other.attached = true;
    busy(&mut exports, other);
    let mut other = offer("again", "t1");
    other.reads = vec!["t0".to_owned(), "t1".to_owned()];
    busy(&mut exports, other);
    deferred(&mut exports, offer("first", "t1"));
    busy(&mut exports, offer("again", "t1"));
    deferred(&mut exports, offer("second", "t2"));
    assert_eq!(exports.pending.len(), 2);
}

#[test]
fn the_text_is_opened_for_the_client_that_asked() {
    let mut exports = TranscriptExports::new();
    deferred(&mut exports, offer("first", "t1"));
    deferred(&mut exports, offer("second", "t2"));
    match last_poll(&mut exports, standing("t1")) {
        ExportStep::Opened {
            request,
            client,
            text,
        } => {
            assert_eq!(request.id, "first");
            assert_eq!(client, Some((11, 4)));
            assert_eq!(text, "row 0\nrow 1\nrow 2\nrow 3\n");
        }
        other => panic!("{other:?}"),
    }
    assert_eq!(exports.pending.len(), 1);
    assert_eq!(exports.pending[0].terminal_id, "t2");
}

#[test]
fn the_text_is_opened_for_the_default_focus() {
    let mut exports = TranscriptExports::new();
    let mut first = offer("first", "t1");
    first.standing = unasked("t1");
    deferred(&mut exports, first);
    assert!(matches!(
        last_poll(&mut exports, unasked("t1")),
        ExportStep::Opened { client: None, .. }
    ));
}

#[test]
fn a_text_that_nobody_waits_for_is_refused() {
    let elsewhere = ShellFocusTarget {
        surface: 2,
        ..FOCUS
    };
    let shell = |active, revision| Some(ShellClient { active, revision });
    for asked in [
        Standing {
            client: None,
            ..standing("t1")
        },
        Standing {
            client: Some(ClientStanding { id: 12, ..client() }),
            ..standing("t1")
        },
        Standing {
            client: Some(ClientStanding {
                shell: None,
                ..client()
            }),
            ..standing("t1")
        },
        Standing {
            client: Some(ClientStanding {
                shell: shell(false, 4),
                ..client()
            }),
            ..standing("t1")
        },
        Standing {
            client: Some(ClientStanding {
                shell: shell(true, 5),
                ..client()
            }),
            ..standing("t1")
        },
        Standing {
            client: Some(ClientStanding {
                focus: Some(elsewhere),
                ..client()
            }),
            ..standing("t1")
        },
        standing("t2"),
        Standing {
            target: None,
            ..standing("t1")
        },
    ] {
        let mut exports = TranscriptExports::new();
        deferred(&mut exports, offer("first", "t1"));
        refused(last_poll(&mut exports, asked), Failure::FocusChanged);
        assert!(exports.pending.is_empty());
    }
}

#[test]
fn a_request_for_no_pane_is_refused() {
    let mut exports = TranscriptExports::new();
    deferred(&mut exports, offer("first", "t1"));
    exports.pending[0].request.method = Method::Other;
    refused(
        last_poll(&mut exports, standing("t1")),
        Failure::PaneChanged,
    );
}

#[test]
fn an_agent_at_work_ends_the_export_without_keys() {
    for terminal in [
        None,
        Some(TerminalStatus {
            state: AgentState::Other,
            ..IDLE
        }),
        Some(TerminalStatus {
            agent: Some(Agent::Other),
            ..IDLE
        }),
    ] {
        let mut exports = TranscriptExports::new();
        deferred(&mut exports, offer("first", "t1"));
        let step = exports.poll_transcript_export(
            0,
            terminal,
            Some(seen(0, 1)),
            standing("t1"),
            STARTED + QUIET,
        );
        refused(step, Failure::NotIdle);
        assert!(exports.pending.is_empty());
    }
}

#[test]
fn a_terminal_that_is_gone_ends_the_export() {
    let mut exports = TranscriptExports::new();
    deferred(&mut exports, offer("first", "t1"));
    let step =
        exports.poll_transcript_export(0, Some(IDLE), None, standing("t1"), STARTED + QUIET);
    refused(step, Failure::TerminalGone);
}

#[test]
fn keys_go_out_and_are_reported() {
    let mut exports = TranscriptExports::new();
    deferred(&mut exports, offer("zero", "t0"));
    deferred(&mut exports, offer("first", "t1"));
    let now = STARTED + QUIET;
    assert!(matches!(
        exports.poll_transcript_export(1, Some(IDLE), Some(seen(0, 1)), standing("t1"), now - 1),
        ExportStep::Waiting
    ));
    assert!(matches!(
        exports.poll_transcript_export(1, Some(IDLE), Some(seen(0, 1)), standing("t1"), now),
        ExportStep::Send {
            key: Key::Down,
            count: 2
        }
    ));
    assert!(matches!(
        exports.sent(1, 2, 1, true, now),
        ExportStep::Waiting
    ));
    assert_eq!(exports.pending[1].capture.sent_rows, 2);
    refused(exports.sent(1, 2, 1, false, now), Failure::SendFailed);
    assert_eq!(exports.pending.len(), 1);
    assert_eq!(exports.pending[0].terminal_id, "t0");
}

#[test]
fn a_capture_that_fails_ends_the_export() {
    let mut exports = TranscriptExports::new();
    deferred(&mut exports, offer("first", "t1"));
    let mut observation = seen(0, 1);
    observation.input_seq += 1;
    let step = exports.poll_transcript_export(
        0,
        Some(IDLE),
        Some(observation),
        standing("t1"),
        STARTED + QUIET,
    );
    refused(step, Failure::Interrupted);
}
