//! What becomes of requests for a transcript, and of the exports that wait for their captures.

use vstd::prelude::*;

use crate::capture::Key;
use crate::export::{Agent, AgentState, ClientStanding, ShellFocusTarget, TerminalStatus};
use crate::failure::Failure;
use crate::model::{CaptureView, ObservationView, ReadingView, StepView, failed};

verus! {

/// What a request asks for.
pub enum MethodView {
    PaneEditScrollback { pane_id: Seq<char> },
    Other,
}

/// A request to the server.
pub struct RequestView {
    pub id: Seq<char>,
    pub method: MethodView,
}

/// The terminal that a pane shows.
pub struct TargetView {
    pub ws_idx: usize,
    pub pane_id: u64,
    pub terminal_id: Seq<char>,
}

/// Who asks, and for what.
pub struct StandingView {
    pub client: Option<ClientStanding>,
    pub default_focus: Option<ShellFocusTarget>,
    pub target: Option<TargetView>,
}

/// A request that may become an export, and what the server knows of it.
pub struct OfferView {
    pub request: RequestView,
    pub standing: StandingView,
    pub shutting_down: bool,
    pub terminal: Option<TerminalStatus>,
    pub reading: Option<ReadingView>,
    pub input_seq: u64,
    pub attached: bool,
    pub reads: Seq<Seq<char>>,
}

/// An error in answer to a request.
pub struct ReplyView {
    pub id: Seq<char>,
    pub code: Seq<char>,
    pub message: Seq<char>,
}

/// What becomes of a request that may become an export.
pub enum DeferralView {
    Declined,
    Busy(ReplyView),
    Deferred,
}

/// What is to be done for an export.
pub enum ExportStepView {
    Waiting,
    Send { key: Key, count: nat },
    Opened { request: RequestView, client: Option<(u64, u64)>, text: Seq<char> },
    Refused(ReplyView),
}

/// An export that waits for its capture.
pub struct PendingView {
    pub capture: CaptureView,
    pub terminal_id: Seq<char>,
    pub request: RequestView,
    pub client: Option<(u64, u64)>,
    pub source: ShellFocusTarget,
}

/// Only the transcript of an idle Codex is exported.
pub open spec fn ready(terminal: Option<TerminalStatus>) -> bool {
    terminal matches Some(status) && status.agent == Some(Agent::Codex) && status.state
        == AgentState::Idle
}

impl StandingView {
    /// Where the focus of the one that asks is.
    pub open spec fn focus(self) -> Option<ShellFocusTarget> {
        match self.client {
            Some(client) => client.focus,
            None => self.default_focus,
        }
    }

    /// The focus of the one that asks is on the pane that it asks for.
    pub open spec fn on_target(self) -> bool {
        &&& self.target is Some
        &&& self.focus() is Some
        &&& self.focus()->0.workspace_index == self.target->0.ws_idx
        &&& self.focus()->0.pane_id == self.target->0.pane_id
    }
}

/// Some export waits for the terminal.
pub open spec fn awaits(exports: Seq<PendingView>, terminal_id: Seq<char>) -> bool {
    exists|i: int| 0 <= i < exports.len() && #[trigger] exports[i].terminal_id == terminal_id
}

impl OfferView {
    /// The request is for the scrollback of a pane in focus, which shows the transcript of an idle
    /// Codex.
    pub open spec fn fits(self) -> bool {
        &&& self.request.method is PaneEditScrollback
        &&& !self.shutting_down
        &&& self.standing.on_target()
        &&& ready(self.terminal)
        &&& self.reading matches Some(reading) && reading.snapshot.transcript(
            reading.screen,
        ) is Some
    }

    /// The terminal is in other use.
    pub open spec fn in_use(self, exports: Seq<PendingView>) -> bool {
        let terminal_id = self.standing.target->0.terminal_id;
        ||| self.attached
        ||| self.reads.contains(terminal_id)
        ||| awaits(exports, terminal_id)
    }

    /// The export that the request becomes.
    pub open spec fn export(self, now: int) -> PendingView {
        let reading = self.reading->0;
        PendingView {
            capture: CaptureView::started(
                reading.snapshot.transcript(reading.screen)->0,
                reading.seq,
                self.input_seq,
                now,
            ),
            terminal_id: self.standing.target->0.terminal_id,
            request: self.request,
            client: match self.standing.client {
                Some(client) => match client.shell {
                    Some(shell) => Some((client.id, shell.revision)),
                    None => None,
                },
                None => None,
            },
            source: self.standing.focus()->0,
        }
    }
}

/// What becomes of a request, and of the exports.
pub open spec fn deferral(exports: Seq<PendingView>, offer: OfferView, now: int) -> (
    Seq<PendingView>,
    DeferralView,
) {
    if !offer.fits() {
        (exports, DeferralView::Declined)
    } else if offer.in_use(exports) {
        (
            exports,
            DeferralView::Busy(
                ReplyView {
                    id: offer.request.id,
                    code: "terminal_busy"@,
                    message: "A terminal read or attachment is already in progress"@,
                },
            ),
        )
    } else {
        (exports.push(offer.export(now)), DeferralView::Deferred)
    }
}

impl PendingView {
    /// The one that asked is still there, is shown the same, and has its focus where it was.
    pub open spec fn still_focused(self, standing: StandingView) -> bool {
        match self.client {
            Some((id, revision)) => standing.client matches Some(client) && {
                &&& client.id == id
                &&& client.shell matches Some(shell) && shell.active && shell.revision == revision
                &&& client.focus == Some(self.source)
            },
            None => standing.default_focus == Some(self.source),
        }
    }

    /// The pane still shows the terminal.
    pub open spec fn same_terminal(self, standing: StandingView) -> bool {
        standing.target matches Some(target) && target.terminal_id == self.terminal_id
    }

    pub open spec fn refused(self, failure: Failure) -> ExportStepView {
        ExportStepView::Refused(
            ReplyView {
                id: self.request.id,
                code: "transcript_export_incomplete"@,
                message: failure.text(),
            },
        )
    }

    /// How the request is answered.
    pub open spec fn answer(
        self,
        result: Result<Seq<char>, Failure>,
        standing: StandingView,
    ) -> ExportStepView {
        match result {
            Err(failure) => self.refused(failure),
            Ok(text) => if !(self.request.method is PaneEditScrollback) {
                self.refused(Failure::PaneChanged)
            } else if self.still_focused(standing) && self.same_terminal(standing) {
                ExportStepView::Opened { request: self.request, client: self.client, text }
            } else {
                self.refused(Failure::FocusChanged)
            },
        }
    }

    /// One poll of the capture, if the terminal is still there and at rest.
    pub open spec fn poll(
        self,
        terminal: Option<TerminalStatus>,
        seen: Option<ObservationView>,
        now: int,
    ) -> (CaptureView, StepView) {
        if !ready(terminal) {
            (self.capture, failed(Failure::NotIdle))
        } else {
            match seen {
                None => (self.capture, failed(Failure::TerminalGone)),
                Some(seen) => self.capture.poll(seen, now),
            }
        }
    }
}

/// What a step of the capture at `index` means for the exports.
pub open spec fn settle(
    exports: Seq<PendingView>,
    index: int,
    polled: (CaptureView, StepView),
    standing: StandingView,
) -> (Seq<PendingView>, ExportStepView) {
    let kept = exports.update(index, PendingView { capture: polled.0, ..exports[index] });
    match polled.1 {
        StepView::Wait => (kept, ExportStepView::Waiting),
        StepView::Send { key, count } => (kept, ExportStepView::Send { key, count }),
        StepView::Finished(result) => (
            exports.remove(index),
            exports[index].answer(result, standing),
        ),
    }
}

/// No terminal is in two exports, and each was asked for by a request for a pane's scrollback.
pub open spec fn well_formed(exports: Seq<PendingView>) -> bool {
    &&& forall|i: int, j: int|
        0 <= i < j < exports.len() ==> (#[trigger] exports[i]).terminal_id != (
        #[trigger] exports[j]).terminal_id
    &&& forall|i: int|
        0 <= i < exports.len() ==> (#[trigger] exports[i]).capture.wf()
            && exports[i].request.method is PaneEditScrollback
}

/// What a report of `count` keys for the capture at `index` means for the exports.
pub open spec fn report(
    exports: Seq<PendingView>,
    index: int,
    count: nat,
    seq: u64,
    delivered: bool,
    now: int,
) -> (Seq<PendingView>, ExportStepView) {
    let (capture, step) = exports[index].capture.send(count, seq, delivered, now);
    match step {
        StepView::Finished(Err(failure)) => (exports.remove(index), exports[index].refused(failure)),
        _ => (
            exports.update(index, PendingView { capture, ..exports[index] }),
            ExportStepView::Waiting,
        ),
    }
}

/// Keys are pressed for an export only while an idle Codex is in its terminal; otherwise it ends.
pub proof fn law_keys_only_for_an_idle_codex(
    exports: Seq<PendingView>,
    index: int,
    terminal: Option<TerminalStatus>,
    seen: Option<ObservationView>,
    standing: StandingView,
    now: int,
)
    requires
        0 <= index < exports.len(),
        !ready(terminal),
    ensures
        settle(exports, index, exports[index].poll(terminal, seen, now), standing) == (
            exports.remove(index),
            exports[index].refused(Failure::NotIdle),
        ),
{
}

/// A text is handed out only to the one that asked, with its focus where it was, for the terminal
/// that was captured, and only the text that the capture ended with.
pub proof fn law_text_only_for_the_one_that_asked(
    exports: Seq<PendingView>,
    index: int,
    polled: (CaptureView, StepView),
    standing: StandingView,
)
    requires
        0 <= index < exports.len(),
        settle(exports, index, polled, standing).1 is Opened,
    ensures
        exports[index].still_focused(standing),
        exports[index].same_terminal(standing),
        ({
            let (rest, step) = settle(exports, index, polled, standing);
            &&& rest == exports.remove(index)
            &&& step matches ExportStepView::Opened { request, client, text } && {
                &&& request == exports[index].request
                &&& client == exports[index].client
                &&& polled.1 == StepView::Finished(Ok(text))
            }
        }),
{
}

/// An export is over when its request is answered, and not before; the other exports keep their
/// order and are as they were.
pub proof fn law_over_when_answered(
    exports: Seq<PendingView>,
    index: int,
    polled: (CaptureView, StepView),
    standing: StandingView,
)
    requires
        0 <= index < exports.len(),
    ensures
        ({
            let (rest, step) = settle(exports, index, polled, standing);
            if step is Opened || step is Refused {
                rest == exports.remove(index)
            } else {
                &&& rest.len() == exports.len()
                &&& rest[index].terminal_id == exports[index].terminal_id
                &&& forall|i: int| 0 <= i < rest.len() && i != index ==> rest[i] == exports[i]
            }
        }),
{
}

/// A second request for a terminal whose transcript is being exported is answered as busy, and
/// changes nothing.
pub proof fn law_one_export_for_a_terminal(
    exports: Seq<PendingView>,
    offer: OfferView,
    now: int,
)
    requires
        offer.fits(),
        awaits(exports, offer.standing.target->0.terminal_id),
    ensures
        deferral(exports, offer, now).0 == exports,
        deferral(exports, offer, now).1 is Busy,
{
}

/// A request becomes an export, or is answered as busy, exactly where it asks for the scrollback of
/// a pane, nothing is shutting down, an idle Codex is in the pane's terminal with its transcript in
/// view, and the focus is on that pane: the focus of the client where a client asks, and the default
/// focus where none does. It is answered as busy exactly where its terminal is attached, read or
/// being exported besides. Any other request is declined.
pub proof fn law_deferred_exactly_where_the_focus_is(
    exports: Seq<PendingView>,
    offer: OfferView,
    now: int,
)
    ensures
        ({
            let (after, answer) = deferral(exports, offer, now);
            let standing = offer.standing;
            let terminal_id = standing.target->0.terminal_id;
            let on_pane = |focus: Option<ShellFocusTarget>|
                {
                    &&& focus is Some
                    &&& standing.target is Some
                    &&& focus->0.workspace_index == standing.target->0.ws_idx
                    &&& focus->0.pane_id == standing.target->0.pane_id
                };
            let wanted = {
                &&& offer.request.method is PaneEditScrollback
                &&& !offer.shutting_down
                &&& standing.client is Some ==> on_pane(standing.client->0.focus)
                &&& standing.client is None ==> on_pane(standing.default_focus)
                &&& offer.terminal is Some
                &&& offer.terminal->0.agent == Some(Agent::Codex)
                &&& offer.terminal->0.state == AgentState::Idle
                &&& offer.reading is Some
                &&& offer.reading->0.snapshot.transcript(offer.reading->0.screen) is Some
            };
            let taken = {
                ||| offer.attached
                ||| exists|i: int|
                    0 <= i < offer.reads.len() && #[trigger] offer.reads[i] == terminal_id
                ||| exists|i: int|
                    0 <= i < exports.len() && (#[trigger] exports[i]).terminal_id == terminal_id
            };
            &&& answer is Declined <==> !wanted
            &&& answer is Busy <==> wanted && taken
            &&& answer is Deferred <==> wanted && !taken
            &&& !(answer is Deferred) ==> after == exports
        }),
{
    let terminal_id = offer.standing.target->0.terminal_id;
    if offer.reads.contains(terminal_id) {
        let i = choose|i: int| 0 <= i < offer.reads.len() && offer.reads[i] == terminal_id;
        assert(offer.reads[i] == terminal_id);
    }
}

/// Whoever asks, a request for a pane that the focus is not on is declined, and changes nothing.
pub proof fn law_focus_elsewhere_is_declined(exports: Seq<PendingView>, offer: OfferView, now: int)
    requires
        ({
            let focus = if offer.standing.client is Some {
                offer.standing.client->0.focus
            } else {
                offer.standing.default_focus
            };
            ||| focus is None
            ||| offer.standing.target is None
            ||| focus->0.workspace_index != offer.standing.target->0.ws_idx
            ||| focus->0.pane_id != offer.standing.target->0.pane_id
        }),
    ensures
        deferral(exports, offer, now) == (exports, DeferralView::Declined),
{
}

/// A request that is deferred joins the exports as the last of them, and the others stay as they
/// were. The new one captures the transcript that was in view, is for the terminal that the pane
/// shows, and remembers the request, where the focus was, and the client that asked with the
/// revision of what it was shown.
pub proof fn law_deferred_as_it_was_asked_for(
    exports: Seq<PendingView>,
    offer: OfferView,
    now: int,
)
    requires
        deferral(exports, offer, now).1 is Deferred,
    ensures
        ({
            let after = deferral(exports, offer, now).0;
            let export = after[exports.len() as int];
            let standing = offer.standing;
            let reading = offer.reading->0;
            &&& after.len() == exports.len() + 1
            &&& forall|i: int| 0 <= i < exports.len() ==> #[trigger] after[i] == exports[i]
            &&& Some(export.capture.initial) == reading.snapshot.transcript(reading.screen)
            &&& export.capture == CaptureView::started(
                export.capture.initial,
                reading.seq,
                offer.input_seq,
                now,
            )
            &&& export.terminal_id == standing.target->0.terminal_id
            &&& export.request == offer.request
            &&& standing.client is None ==> export.client is None && Some(export.source)
                == standing.default_focus
            &&& standing.client matches Some(client) ==> {
                &&& Some(export.source) == client.focus
                &&& client.shell is None ==> export.client is None
                &&& client.shell matches Some(shell) ==> export.client == Some(
                    (client.id, shell.revision),
                )
            }
        }),
{
}

/// A busy terminal is told to the one that asked, by the number of the request.
pub proof fn law_busy_answers_the_request(exports: Seq<PendingView>, offer: OfferView, now: int)
    ensures
        deferral(exports, offer, now).1 matches DeferralView::Busy(reply) ==> {
            &&& reply.id == offer.request.id
            &&& reply.code == "terminal_busy"@
            &&& reply.message == "A terminal read or attachment is already in progress"@
        },
{
}

/// The answer to a request is a text exactly where its capture ended with that text, and all is
/// still as it was: the request is for a pane, the pane shows the terminal that was captured, and
/// the focus is where it was. Where no client asked, that is the default focus; where a client did,
/// it is the focus of the same client, which is an active shell and is shown the same revision.
pub proof fn law_text_exactly_where_all_is_as_it_was(
    exports: Seq<PendingView>,
    index: int,
    polled: (CaptureView, StepView),
    standing: StandingView,
    text: Seq<char>,
)
    requires
        0 <= index < exports.len(),
    ensures
        ({
            let export = exports[index];
            let step = settle(exports, index, polled, standing).1;
            &&& step == (ExportStepView::Opened {
                request: export.request,
                client: export.client,
                text,
            }) <==> {
                &&& polled.1 == StepView::Finished(Ok(text))
                &&& export.request.method is PaneEditScrollback
                &&& standing.target is Some
                &&& standing.target->0.terminal_id == export.terminal_id
                &&& export.client is None ==> standing.default_focus == Some(export.source)
                &&& export.client matches Some(asker) ==> {
                    &&& standing.client is Some
                    &&& standing.client->0.id == asker.0
                    &&& standing.client->0.shell is Some
                    &&& standing.client->0.shell->0.active
                    &&& standing.client->0.shell->0.revision == asker.1
                    &&& standing.client->0.focus == Some(export.source)
                }
            }
            &&& step matches ExportStepView::Opened { request, client, text } ==> request
                == export.request && client == export.client
        }),
{
}

/// An export ends with an answer to its request, by the number of the request: with the text, or
/// with an error that tells what went wrong. A capture's failure is told as it is, and a text that
/// may not be handed out gives way to the failure that tells why.
pub proof fn law_refused_with_the_reason(
    exports: Seq<PendingView>,
    index: int,
    polled: (CaptureView, StepView),
    standing: StandingView,
)
    requires
        0 <= index < exports.len(),
        polled.1 is Finished,
    ensures
        ({
            let export = exports[index];
            match settle(exports, index, polled, standing).1 {
                ExportStepView::Opened { request, client, text } => polled.1
                    == StepView::Finished(Ok(text)),
                ExportStepView::Refused(reply) => {
                    &&& reply.id == export.request.id
                    &&& reply.code == "transcript_export_incomplete"@
                    &&& polled.1 matches StepView::Finished(Err(failure)) ==> reply.message
                        == failure.text()
                    &&& polled.1 matches StepView::Finished(Ok(_)) ==> reply.message == if
                        export.request.method is PaneEditScrollback {
                        Failure::FocusChanged.text()
                    } else {
                        Failure::PaneChanged.text()
                    }
                },
                _ => false,
            }
        }),
{
}

/// While its capture goes on, an export keeps all but the capture, and passes on the keys that the
/// capture asks for. When it ends, it is taken out from among the others, which keep their order.
pub proof fn law_exports_go_on_with_their_captures(
    exports: Seq<PendingView>,
    index: int,
    polled: (CaptureView, StepView),
    standing: StandingView,
)
    requires
        0 <= index < exports.len(),
    ensures
        ({
            let (after, step) = settle(exports, index, polled, standing);
            let going_on = {
                &&& after.len() == exports.len()
                &&& after[index].capture == polled.0
                &&& after[index].terminal_id == exports[index].terminal_id
                &&& after[index].request == exports[index].request
                &&& after[index].client == exports[index].client
                &&& after[index].source == exports[index].source
                &&& forall|i: int|
                    0 <= i < exports.len() && i != index ==> #[trigger] after[i] == exports[i]
            };
            &&& polled.1 is Wait ==> going_on && step is Waiting
            &&& polled.1 matches StepView::Send { key, count } ==> going_on && step
                == (ExportStepView::Send { key, count })
            &&& polled.1 is Finished ==> {
                &&& after.len() == exports.len() - 1
                &&& forall|i: int| 0 <= i < index ==> #[trigger] after[i] == exports[i]
                &&& forall|i: int| index <= i < after.len() ==> #[trigger] after[i] == exports[i
                    + 1]
            }
        }),
{
}

/// A capture is polled exactly where an idle Codex is in a terminal that is still there. Otherwise
/// it ends as it stands, with the failure that tells which of these is not so.
pub proof fn law_polled_exactly_for_an_idle_codex(
    export: PendingView,
    terminal: Option<TerminalStatus>,
    seen: Option<ObservationView>,
    now: int,
)
    ensures
        ({
            let idle = {
                &&& terminal is Some
                &&& terminal->0.agent == Some(Agent::Codex)
                &&& terminal->0.state == AgentState::Idle
            };
            let polled = export.poll(terminal, seen, now);
            &&& idle && seen is Some ==> polled == export.capture.poll(seen->0, now)
            &&& idle && seen is None ==> polled == (
                export.capture,
                StepView::Finished(Err(Failure::TerminalGone)),
            )
            &&& !idle ==> polled == (
                export.capture,
                StepView::Finished(Err(Failure::NotIdle)),
            )
        }),
{
}

/// Keys that were taken change nothing of an export but when its capture looks again, and what it
/// compares with. Keys that were not taken end the export, with an error that tells it.
pub proof fn law_reported_keys_end_nothing_unless_lost(
    exports: Seq<PendingView>,
    index: int,
    count: nat,
    seq: u64,
    delivered: bool,
    now: int,
)
    requires
        0 <= index < exports.len(),
    ensures
        ({
            let (after, step) = report(exports, index, count, seq, delivered, now);
            let export = exports[index];
            &&& delivered ==> {
                &&& step is Waiting
                &&& after.len() == exports.len()
                &&& after[index] == (PendingView {
                    capture: export.capture.send(count, seq, true, now).0,
                    ..export
                })
                &&& forall|i: int|
                    0 <= i < exports.len() && i != index ==> #[trigger] after[i] == exports[i]
            }
            &&& !delivered ==> {
                &&& step == ExportStepView::Refused(
                    ReplyView {
                        id: export.request.id,
                        code: "transcript_export_incomplete"@,
                        message: Failure::SendFailed.text(),
                    },
                )
                &&& after.len() == exports.len() - 1
                &&& forall|i: int| 0 <= i < index ==> #[trigger] after[i] == exports[i]
                &&& forall|i: int| index <= i < after.len() ==> #[trigger] after[i] == exports[i
                    + 1]
            }
        }),
{
}

/// Exports are in order exactly where no two of them are for one terminal, each is for a pane, and
/// each compares views of one height.
pub proof fn law_exports_in_order(exports: Seq<PendingView>)
    ensures
        well_formed(exports) <==> {
            &&& forall|i: int, j: int|
                0 <= i < exports.len() && 0 <= j < exports.len() && (
                #[trigger] exports[i]).terminal_id == (#[trigger] exports[j]).terminal_id ==> i == j
            &&& forall|i: int|
                0 <= i < exports.len() ==> (#[trigger] exports[i]).request.method
                    is PaneEditScrollback
            &&& forall|i: int|
                0 <= i < exports.len() ==> (#[trigger] exports[i]).capture.previous.body.len()
                    == exports[i].capture.initial.body.len()
        },
{
    if well_formed(exports) {
        assert forall|i: int, j: int|
            0 <= i < exports.len() && 0 <= j < exports.len() && (#[trigger] exports[i]).terminal_id
                == (#[trigger] exports[j]).terminal_id implies i == j by {
            if i < j {
                assert(exports[i].terminal_id != exports[j].terminal_id);
            } else if j < i {
                assert(exports[j].terminal_id != exports[i].terminal_id);
            }
        }
    }
}

} // verus!
