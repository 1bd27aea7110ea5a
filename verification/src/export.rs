//! Exports that wait for their captures: which requests become one, and how each is answered.
//!
//! The server is at the edge: its owner looks up terminals, clients and focus, hands in what it
//! found, and sends the answers.

use vstd::prelude::*;

use crate::capture::{
    CAPTURE_TIMEOUT, Capture, Key, Observation, RESTORE_TIMEOUT, ScreenReading, Step,
};
use crate::export_model::{
    DeferralView, ExportStepView, MethodView, OfferView, PendingView, ReplyView, RequestView,
    StandingView, TargetView, awaits, deferral, ready, report, settle, well_formed,
};
use crate::failure::Failure;
use crate::model::StepView;
use crate::text::texts;

verus! {

/// The agent that is known to run in a terminal.
#[derive(Clone, Copy, Debug, PartialEq, Eq, Structural)]
pub enum Agent {
    Codex,
    Other,
}

/// What an agent is doing.
#[derive(Clone, Copy, Debug, PartialEq, Eq, Structural)]
pub enum AgentState {
    Idle,
    Other,
}

/// What is known of the agent in a terminal.
#[derive(Clone, Copy, Debug, PartialEq, Eq, Structural)]
pub struct TerminalStatus {
    pub agent: Option<Agent>,
    pub state: AgentState,
}

/// Where a shell's focus is. `surface` tells apart what workspace and pane do not.
#[derive(Clone, Copy, Debug, PartialEq, Eq, Structural)]
pub struct ShellFocusTarget {
    pub workspace_index: usize,
    pub pane_id: u64,
    pub surface: u64,
}

/// A client that is connected.
#[derive(Clone, Copy, Debug, PartialEq, Eq, Structural)]
pub struct ShellClient {
    /// Whether it is an active shell client.
    pub active: bool,
    /// The revision of what it is shown.
    pub revision: u64,
}

/// How a client stands: whether it is connected, and where its focus is.
#[derive(Clone, Copy, Debug, PartialEq, Eq, Structural)]
pub struct ClientStanding {
    pub id: u64,
    pub shell: Option<ShellClient>,
    pub focus: Option<ShellFocusTarget>,
}

/// What a request asks for.
#[derive(Debug)]
pub enum Method {
    PaneEditScrollback { pane_id: String },
    Other,
}

/// A request to the server.
#[derive(Debug)]
pub struct Request {
    pub id: String,
    pub method: Method,
}

/// The terminal that a pane shows.
#[derive(Debug)]
pub struct TerminalTarget {
    pub ws_idx: usize,
    pub pane_id: u64,
    pub terminal_id: String,
}

/// Who asks, and for what.
#[derive(Debug)]
pub struct Standing {
    /// The client that asks, if it is a client.
    pub client: Option<ClientStanding>,
    /// Where the focus is for requests that come from no client.
    pub default_focus: Option<ShellFocusTarget>,
    /// What the pane of the request shows.
    pub target: Option<TerminalTarget>,
}

/// A request that may become an export, and what the server knows of it.
#[derive(Debug)]
pub struct Offer {
    pub request: Request,
    pub standing: Standing,
    pub shutting_down: bool,
    /// What is known of the target's terminal, if there is one of that name.
    pub terminal: Option<TerminalStatus>,
    /// The terminal's screen, where it can be read.
    pub reading: Option<ScreenReading>,
    /// The number of the user's last input to the terminal.
    pub input_seq: u64,
    /// Whether the terminal is attached to somewhere else.
    pub attached: bool,
    /// The terminals whose alternate screens are being read.
    pub reads: Vec<String>,
}

/// An error in answer to a request.
#[derive(Debug)]
pub struct ErrorReply {
    pub id: String,
    pub code: String,
    pub message: String,
}

/// What becomes of a request that may become an export.
#[derive(Debug)]
pub enum Deferral {
    /// It is none; it is to be served as any other.
    Declined,
    /// It cannot become one now.
    Busy(ErrorReply),
    /// It is one.
    Deferred,
}

/// What is to be done for an export.
#[derive(Debug)]
pub enum ExportStep {
    /// Nothing yet.
    Waiting,
    /// Press `key` `count` times in its terminal, and report it.
    Send { key: Key, count: usize },
    /// Serve the request with the text; the export is over.
    Opened { request: Request, client: Option<(u64, u64)>, text: String },
    /// Answer the request with an error; the export is over.
    Refused(ErrorReply),
}

/// An export that waits for its capture.
#[derive(Debug)]
pub struct PendingExport {
    pub capture: Capture,
    pub terminal_id: String,
    pub request: Request,
    /// The client that asked, and the revision of what it was shown.
    pub client: Option<(u64, u64)>,
    pub source: ShellFocusTarget,
}

/// The exports that wait for their captures.
#[derive(Debug)]
pub struct TranscriptExports {
    pub pending: Vec<PendingExport>,
}

impl View for Method {
    type V = MethodView;

    open spec fn view(&self) -> MethodView {
        match self {
            Method::PaneEditScrollback { pane_id } => MethodView::PaneEditScrollback {
                pane_id: pane_id@,
            },
            Method::Other => MethodView::Other,
        }
    }
}

impl View for Request {
    type V = RequestView;

    open spec fn view(&self) -> RequestView {
        RequestView { id: self.id@, method: self.method@ }
    }
}

impl View for TerminalTarget {
    type V = TargetView;

    open spec fn view(&self) -> TargetView {
        TargetView {
            ws_idx: self.ws_idx,
            pane_id: self.pane_id,
            terminal_id: self.terminal_id@,
        }
    }
}

impl View for Standing {
    type V = StandingView;

    open spec fn view(&self) -> StandingView {
        StandingView {
            client: self.client,
            default_focus: self.default_focus,
            target: match self.target {
                Some(target) => Some(target@),
                None => None,
            },
        }
    }
}

impl View for Offer {
    type V = OfferView;

    open spec fn view(&self) -> OfferView {
        OfferView {
            request: self.request@,
            standing: self.standing@,
            shutting_down: self.shutting_down,
            terminal: self.terminal,
            reading: match self.reading {
                Some(reading) => Some(reading@),
                None => None,
            },
            input_seq: self.input_seq,
            attached: self.attached,
            reads: texts(self.reads@),
        }
    }
}

impl View for ErrorReply {
    type V = ReplyView;

    open spec fn view(&self) -> ReplyView {
        ReplyView { id: self.id@, code: self.code@, message: self.message@ }
    }
}

impl View for Deferral {
    type V = DeferralView;

    open spec fn view(&self) -> DeferralView {
        match self {
            Deferral::Declined => DeferralView::Declined,
            Deferral::Busy(reply) => DeferralView::Busy(reply@),
            Deferral::Deferred => DeferralView::Deferred,
        }
    }
}

impl View for ExportStep {
    type V = ExportStepView;

    open spec fn view(&self) -> ExportStepView {
        match self {
            ExportStep::Waiting => ExportStepView::Waiting,
            ExportStep::Send { key, count } => ExportStepView::Send {
                key: *key,
                count: *count as nat,
            },
            ExportStep::Opened { request, client, text } => ExportStepView::Opened {
                request: request@,
                client: *client,
                text: text@,
            },
            ExportStep::Refused(reply) => ExportStepView::Refused(reply@),
        }
    }
}

impl View for PendingExport {
    type V = PendingView;

    open spec fn view(&self) -> PendingView {
        PendingView {
            capture: self.capture@,
            terminal_id: self.terminal_id@,
            request: self.request@,
            client: self.client,
            source: self.source,
        }
    }
}

impl View for TranscriptExports {
    type V = Seq<PendingView>;

    open spec fn view(&self) -> Seq<PendingView> {
        Seq::new(self.pending@.len(), |i: int| self.pending@[i]@)
    }
}

/// What the server knows of a request is known by all of its fields.
pub proof fn law_views_of_offers(offer: Offer)
    ensures
        offer@.request == offer.request@,
        offer@.standing == offer.standing@,
        offer@.shutting_down == offer.shutting_down,
        offer@.terminal == offer.terminal,
        offer.reading is None <==> offer@.reading is None,
        offer.reading matches Some(reading) ==> offer@.reading == Some(reading@),
        offer@.input_seq == offer.input_seq,
        offer@.attached == offer.attached,
        offer@.reads.len() == offer.reads@.len(),
        forall|i: int|
            0 <= i < offer.reads@.len() ==> #[trigger] offer@.reads[i] == offer.reads@[i]@,
{
}

/// Who asks, and for what, is known by all of its fields.
pub proof fn law_views_of_requests(request: Request, standing: Standing)
    ensures
        request@.id == request.id@,
        request.method matches Method::PaneEditScrollback { pane_id } ==> request@.method
            == (MethodView::PaneEditScrollback { pane_id: pane_id@ }),
        request.method is Other <==> request@.method is Other,
        standing@.client == standing.client,
        standing@.default_focus == standing.default_focus,
        standing.target is None <==> standing@.target is None,
        standing.target matches Some(target) ==> standing@.target == Some(
            TargetView {
                ws_idx: target.ws_idx,
                pane_id: target.pane_id,
                terminal_id: target.terminal_id@,
            },
        ),
{
}

/// An export is known by all of its fields, and the exports by each of them in order.
pub proof fn law_views_of_exports(exports: TranscriptExports)
    ensures
        exports@.len() == exports.pending@.len(),
        forall|i: int|
            0 <= i < exports.pending@.len() ==> {
                let export = exports.pending@[i];
                #[trigger] exports@[i] == (PendingView {
                    capture: export.capture@,
                    terminal_id: export.terminal_id@,
                    request: export.request@,
                    client: export.client,
                    source: export.source,
                })
            },
{
}

/// An answer is known by all that it holds.
pub proof fn law_views_of_answers(deferral: Deferral, step: ExportStep, reply: ErrorReply)
    ensures
        deferral is Declined <==> deferral@ is Declined,
        deferral is Deferred <==> deferral@ is Deferred,
        deferral matches Deferral::Busy(reply) ==> deferral@ == DeferralView::Busy(reply@),
        step is Waiting <==> step@ is Waiting,
        step matches ExportStep::Send { key, count } ==> step@ == (ExportStepView::Send {
            key,
            count: count as nat,
        }),
        step matches ExportStep::Opened { request, client, text } ==> step@
            == (ExportStepView::Opened { request: request@, client, text: text@ }),
        step matches ExportStep::Refused(reply) ==> step@ == ExportStepView::Refused(reply@),
        reply@.id == reply.id@,
        reply@.code == reply.code@,
        reply@.message == reply.message@,
{
}

fn holds(ids: &Vec<String>, id: &String) -> (res: bool)
    ensures
        res == texts(ids@).contains(id@),
{
    for i in 0..ids.len()
        invariant
            forall|j: int| 0 <= j < i ==> #[trigger] texts(ids@)[j] != id@,
    {
        if ids[i] == *id {
            assert(texts(ids@)[i as int] == id@);
            return true;
        }
    }
    false
}

fn is_ready(terminal: &Option<TerminalStatus>) -> (res: bool)
    ensures
        res == ready(*terminal),
{
    match terminal {
        Some(status) => {
            (match status.agent {
                Some(agent) => agent == Agent::Codex,
                None => false,
            }) && status.state == AgentState::Idle
        },
        None => false,
    }
}

fn same_focus(focus: &Option<ShellFocusTarget>, source: &ShellFocusTarget) -> (res: bool)
    ensures
        res == (*focus == Some(*source)),
{
    match focus {
        Some(focus) => *focus == *source,
        None => false,
    }
}

impl PendingExport {
    fn still_focused(&self, standing: &Standing) -> (res: bool)
        ensures
            res == self@.still_focused(standing@),
    {
        match self.client {
            Some((id, revision)) => match standing.client {
                Some(client) => client.id == id && (match client.shell {
                    Some(shell) => shell.active && shell.revision == revision,
                    None => false,
                }) && same_focus(&client.focus, &self.source),
                None => false,
            },
            None => same_focus(&standing.default_focus, &self.source),
        }
    }

    fn same_terminal(&self, standing: &Standing) -> (res: bool)
        ensures
            res == self@.same_terminal(standing@),
    {
        match &standing.target {
            Some(target) => target.terminal_id == self.terminal_id,
            None => false,
        }
    }

    fn refuse(self, failure: Failure) -> (res: ExportStep)
        ensures
            res@ == self@.refused(failure),
    {
        ExportStep::Refused(
            ErrorReply {
                id: self.request.id,
                code: "transcript_export_incomplete".to_owned(),
                message: failure.message(),
            },
        )
    }

    /// Answers the request. The text goes only to the one that asked, and only while it still has
    /// its focus on the pane.
    fn answer(self, result: Result<String, Failure>, standing: &Standing) -> (res: ExportStep)
        ensures
            res@ == self@.answer(
                match result {
                    Ok(text) => Ok(text@),
                    Err(failure) => Err(failure),
                },
                standing@,
            ),
    {
        let text: String = match result {
            Ok(text) => text,
            Err(failure) => return self.refuse(failure),
        };
        let for_a_pane: bool = match &self.request.method {
            Method::PaneEditScrollback { pane_id } => true,
            Method::Other => false,
        };
        if !for_a_pane {
            return self.refuse(Failure::PaneChanged);
        }
        if self.still_focused(standing) && self.same_terminal(standing) {
            return ExportStep::Opened { request: self.request, client: self.client, text };
        }
        self.refuse(Failure::FocusChanged)
    }
}

impl TranscriptExports {
    /// No exports.
    pub fn new() -> (res: Self)
        ensures
            res@ == Seq::<PendingView>::empty(),
            well_formed(res@),
    {
        let res: TranscriptExports = TranscriptExports { pending: Vec::new() };
        assert(res@ =~= Seq::empty());
        res
    }

    fn awaits(&self, terminal_id: &String) -> (res: bool)
        ensures
            res == awaits(self@, terminal_id@),
    {
        for i in 0..self.pending.len()
            invariant
                forall|j: int| 0 <= j < i ==> (#[trigger] self@[j]).terminal_id != terminal_id@,
        {
            if self.pending[i].terminal_id == *terminal_id {
                assert(self@[i as int].terminal_id == terminal_id@);
                return true;
            }
        }
        false
    }

    /// Makes an export of a request for the scrollback of a pane in focus that shows the transcript
    /// of an idle Codex, unless its terminal is in other use.
    pub fn defer_codex_transcript_export(&mut self, offer: Offer, now: u64) -> (res: Deferral)
        requires
            well_formed(old(self)@),
            now + CAPTURE_TIMEOUT <= u64::MAX,
        ensures
            (final(self)@, res@) == deferral(old(self)@, offer@, now as int),
            well_formed(final(self)@),
    {
        let asks_for_a_pane: bool = match &offer.request.method {
            Method::PaneEditScrollback { pane_id } => true,
            Method::Other => false,
        };
        if !asks_for_a_pane || offer.shutting_down {
            return Deferral::Declined;
        }
        let target: TerminalTarget = match offer.standing.target {
            Some(target) => target,
            None => return Deferral::Declined,
        };
        let focus: Option<ShellFocusTarget> = match offer.standing.client {
            Some(client) => client.focus,
            None => offer.standing.default_focus,
        };
        let source: ShellFocusTarget = match focus {
            Some(source) => source,
            None => return Deferral::Declined,
        };
        if source.workspace_index != target.ws_idx || source.pane_id != target.pane_id {
            return Deferral::Declined;
        }
        if !is_ready(&offer.terminal) {
            return Deferral::Declined;
        }
        let capture: Capture = match Capture::new(offer.reading, offer.input_seq, now) {
            Some(capture) => capture,
            None => return Deferral::Declined,
        };
        if offer.attached || holds(&offer.reads, &target.terminal_id) || self.awaits(
            &target.terminal_id,
        ) {
            return Deferral::Busy(
                ErrorReply {
                    id: offer.request.id,
                    code: "terminal_busy".to_owned(),
                    message: "A terminal read or attachment is already in progress".to_owned(),
                },
            );
        }
        let client: Option<(u64, u64)> = match offer.standing.client {
            Some(client) => match client.shell {
                Some(shell) => Some((client.id, shell.revision)),
                None => None,
            },
            None => None,
        };
        let ghost before = self@;
        self.pending.push(
            PendingExport {
                capture,
                terminal_id: target.terminal_id,
                request: offer.request,
                client,
                source,
            },
        );
        assert(self@ =~= before.push(offer@.export(now as int)));
        Deferral::Deferred
    }

    /// Tells whether the export at `index` may be polled: see [`Capture::movement_fits`].
    pub fn movement_fits(&self, index: usize) -> (res: bool)
        requires
            index < self@.len(),
        ensures
            res == self@[index as int].capture.movement_fits(),
    {
        self.pending[index].capture.movement_fits()
    }

    /// Polls the export at `index`. No key is pressed unless an idle Codex is in its terminal.
    pub fn poll_transcript_export(
        &mut self,
        index: usize,
        terminal: Option<TerminalStatus>,
        seen: Option<Observation>,
        standing: Standing,
        now: u64,
    ) -> (res: ExportStep)
        requires
            well_formed(old(self)@),
            index < old(self)@.len(),
            old(self)@[index as int].capture.movement_fits(),
            now + RESTORE_TIMEOUT <= u64::MAX,
        ensures
            (final(self)@, res@) == settle(
                old(self)@,
                index as int,
                old(self)@[index as int].poll(
                    terminal,
                    match seen {
                        Some(seen) => Some(seen@),
                        None => None,
                    },
                    now as int,
                ),
                standing@,
            ),
            well_formed(final(self)@),
    {
        let ghost before = self@;
        let step: Step = if !is_ready(&terminal) {
            Step::Finished(Err(Failure::NotIdle))
        } else {
            match seen {
                Some(seen) => self.pending[index].capture.poll(seen, now),
                None => Step::Finished(Err(Failure::TerminalGone)),
            }
        };
        assert(self@ =~= before.update(index as int, self@[index as int]));
        let ghost polled = self@;
        let res: ExportStep = self.settle(index, step, &standing);
        assert(polled.remove(index as int) =~= before.remove(index as int));
        res
    }

    /// Takes note that `count` keys were handed to the terminal of the export at `index`: see
    /// [`Capture::send`].
    pub fn sent(
        &mut self,
        index: usize,
        count: usize,
        content_seq: u64,
        delivered: bool,
        now: u64,
    ) -> (res: ExportStep)
        requires
            well_formed(old(self)@),
            index < old(self)@.len(),
            now + RESTORE_TIMEOUT <= u64::MAX,
        ensures
            (final(self)@, res@) == report(
                old(self)@,
                index as int,
                count as nat,
                content_seq,
                delivered,
                now as int,
            ),
            well_formed(final(self)@),
    {
        let ghost before = self@;
        match self.pending[index].capture.send(count, content_seq, delivered, now) {
            Step::Finished(Err(failure)) => {
                let export: PendingExport = self.pending.remove(index);
                assert(self@ =~= before.remove(index as int));
                export.refuse(failure)
            },
            _ => {
                assert(self@ =~= before.update(index as int, self@[index as int]));
                ExportStep::Waiting
            },
        }
    }

    /// Ends the export at `index` where its capture has ended.
    fn settle(&mut self, index: usize, step: Step, standing: &Standing) -> (res: ExportStep)
        requires
            well_formed(old(self)@),
            index < old(self)@.len(),
        ensures
            match step@ {
                StepView::Wait => final(self)@ == old(self)@ && res@ == ExportStepView::Waiting,
                StepView::Send { key, count } => final(self)@ == old(self)@ && res@
                    == (ExportStepView::Send { key, count }),
                StepView::Finished(result) => final(self)@ == old(self)@.remove(index as int)
                    && res@ == old(self)@[index as int].answer(result, standing@),
            },
            well_formed(final(self)@),
    {
        match step {
            Step::Wait => ExportStep::Waiting,
            Step::Send { key, count } => ExportStep::Send { key, count },
            Step::Finished(result) => {
                let ghost before = self@;
                let export: PendingExport = self.pending.remove(index);
                assert(self@ =~= before.remove(index as int));
                export.answer(result, standing)
            },
        }
    }
}

} // verus!
