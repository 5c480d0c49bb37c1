//! Sending a request to an Owner: the files that it needs are read first, tokens
//! are drawn for parts and progress, and the time that is left is handed along.
//!
//! The caller carries out one action at a time and hands back what it came to.
//! Clocks are read in nanoseconds.

use vstd::prelude::*;

use crate::compose::{DispatchRequest, RequestView};
use crate::documents::{DocumentSnapshot, DocumentView};
use crate::failure::{ContractFailure, FailureView, result_view};
use crate::json::{Json, JsonView};
use crate::manifest::PathView;
use crate::owner::{
    OwnerResponse,
    QueueDeadline,
    accept_dispatch,
    dispatch_answer,
    queue_deadline_remaining,
    time_left,
};
use crate::owner_query::{needed_tokens, params_with_tokens, with_tokens};
use crate::path::NativePath;
use crate::query_execute::{DispatchFailure, DispatchFailureView, DispatchResponse, ResponseView};
use crate::text::{opt_view, views};

verus! {

/// A document that an Owner is to synchronize.
pub struct OwnerDocument {
    pub path: NativePath,
    pub language_id: String,
    pub expected_digest: String,
}

/// What an [`OwnerDocument`] stands for.
#[verifier::ext_equal]
pub ghost struct OwnerDocumentView {
    pub path: PathView,
    pub language_id: Seq<char>,
    pub expected_digest: Seq<char>,
}

impl View for OwnerDocument {
    type V = OwnerDocumentView;

    open spec fn view(&self) -> OwnerDocumentView {
        OwnerDocumentView {
            path: self.path@,
            language_id: self.language_id@,
            expected_digest: self.expected_digest@,
        }
    }
}

/// The document as an Owner is to synchronize it.
pub open spec fn handed_over(document: DocumentView) -> OwnerDocumentView {
    OwnerDocumentView {
        path: document.path,
        language_id: document.language_id,
        expected_digest: document.digest,
    }
}

/// The document as an Owner is to synchronize it.
pub fn owner_document(document: DocumentSnapshot) -> (r: OwnerDocument)
    ensures
        r@ == handed_over(document@),
{
    OwnerDocument {
        path: document.path,
        language_id: document.language_id,
        expected_digest: document.digest,
    }
}

/// What the sending waits for.
#[derive(Clone, Copy, Debug, PartialEq, Eq, Structural)]
pub enum DispatchPhase {
    Start,
    ReadingDocument,
    DrawingPartialToken,
    DrawingWorkToken,
    ReadingClock,
    Sending,
    Finished,
}

/// What an action of the sending came to.
pub enum DispatchEvent {
    Begin,
    Document(DocumentSnapshot),
    /// A random token.
    Drawn(String),
    Clock { now: u128 },
    Answered(OwnerResponse),
    Failed(ContractFailure),
}

/// What a [`DispatchEvent`] stands for.
pub ghost enum DispatchEventView {
    Begin,
    Document(DocumentView),
    Drawn(Seq<char>),
    Clock { now: u128 },
    Answered(OwnerResponse),
    Failed(FailureView),
}

impl View for DispatchEvent {
    type V = DispatchEventView;

    open spec fn view(&self) -> DispatchEventView {
        match self {
            DispatchEvent::Begin => DispatchEventView::Begin,
            DispatchEvent::Document(document) => DispatchEventView::Document(document@),
            DispatchEvent::Drawn(token) => DispatchEventView::Drawn(token@),
            DispatchEvent::Clock { now } => DispatchEventView::Clock { now: *now },
            DispatchEvent::Answered(response) => DispatchEventView::Answered(*response),
            DispatchEvent::Failed(f) => DispatchEventView::Failed(f@),
        }
    }
}

/// A request as it is sent to an Owner.
pub struct OwnerDispatch {
    pub method: String,
    pub params: Option<Json>,
    pub documents: Vec<OwnerDocument>,
    pub refresh_open_documents: bool,
    pub raw_request: bool,
    pub request_timeout_ms: u64,
    pub trace_protocol: bool,
    pub apply_edits: bool,
    /// The time that is left for waiting, in nanoseconds.
    pub within: Option<u128>,
}

/// What an [`OwnerDispatch`] stands for.
#[verifier::ext_equal]
pub ghost struct OwnerDispatchView {
    pub method: Seq<char>,
    pub params: Option<JsonView>,
    pub documents: Seq<OwnerDocumentView>,
    pub refresh_open_documents: bool,
    pub raw_request: bool,
    pub request_timeout_ms: u64,
    pub trace_protocol: bool,
    pub apply_edits: bool,
    pub within: Option<u128>,
}

impl View for OwnerDispatch {
    type V = OwnerDispatchView;

    open spec fn view(&self) -> OwnerDispatchView {
        OwnerDispatchView {
            method: self.method@,
            params: opt_view(self.params),
            documents: views(self.documents@),
            refresh_open_documents: self.refresh_open_documents,
            raw_request: self.raw_request,
            request_timeout_ms: self.request_timeout_ms,
            trace_protocol: self.trace_protocol,
            apply_edits: self.apply_edits,
            within: self.within,
        }
    }
}

/// What is to be done next.
pub enum DispatchAction {
    /// Read the document at a path, where it is within reach.
    ReadDocument(String),
    /// Draw a random token.
    Draw,
    ReadClock,
    Send(OwnerDispatch),
    Finish(Result<DispatchResponse, DispatchFailure>),
}

/// What a [`DispatchAction`] stands for.
pub ghost enum DispatchActionView {
    ReadDocument(Seq<char>),
    Draw,
    ReadClock,
    Send(OwnerDispatchView),
    Finish(Result<ResponseView, DispatchFailureView>),
}

impl View for DispatchAction {
    type V = DispatchActionView;

    open spec fn view(&self) -> DispatchActionView {
        match self {
            DispatchAction::ReadDocument(path) => DispatchActionView::ReadDocument(path@),
            DispatchAction::Draw => DispatchActionView::Draw,
            DispatchAction::ReadClock => DispatchActionView::ReadClock,
            DispatchAction::Send(dispatch) => DispatchActionView::Send(dispatch@),
            DispatchAction::Finish(outcome) => DispatchActionView::Finish(result_view(*outcome)),
        }
    }
}

/// The sending of a request.
pub struct DispatchRun {
    pub request: DispatchRequest,
    pub request_timeout_ms: u64,
    pub queue_deadline: Option<QueueDeadline>,
    /// The documents that were read, in the order in which the request names them.
    pub documents: Vec<OwnerDocument>,
    pub partial_token: String,
    pub work_token: String,
    pub phase: DispatchPhase,
}

/// What a [`DispatchRun`] stands for.
#[verifier::ext_equal]
pub ghost struct DispatchRunView {
    pub request: RequestView,
    pub request_timeout_ms: u64,
    pub queue_deadline: Option<QueueDeadline>,
    pub documents: Seq<OwnerDocumentView>,
    pub partial_token: Seq<char>,
    pub work_token: Seq<char>,
    pub phase: DispatchPhase,
}

impl View for DispatchRun {
    type V = DispatchRunView;

    open spec fn view(&self) -> DispatchRunView {
        DispatchRunView {
            request: self.request@,
            request_timeout_ms: self.request_timeout_ms,
            queue_deadline: self.queue_deadline,
            documents: views(self.documents@),
            partial_token: self.partial_token@,
            work_token: self.work_token@,
            phase: self.phase,
        }
    }
}

/// Only an object can hold tokens.
pub open spec fn holds_tokens(r: RequestView) -> bool {
    r.params matches Some(JsonView::Object(_))
}

/// A failure before anything was sent.
pub open spec fn not_sent(f: FailureView) -> DispatchFailureView {
    DispatchFailureView {
        failure: f,
        server_error: None,
        partial_results: seq![],
        trace: None,
        apply_edit_ledger: seq![],
    }
}

impl DispatchRunView {
    /// No more documents are read than the request names, and nothing is sent
    /// before all of them are read.
    pub open spec fn sound(self) -> bool {
        match self.phase {
            DispatchPhase::Start => self.documents.len() == 0,
            DispatchPhase::ReadingDocument => self.documents.len() < self.request.synchronized_files.len(),
            DispatchPhase::DrawingPartialToken | DispatchPhase::DrawingWorkToken | DispatchPhase::ReadingClock => {
                self.documents.len() == self.request.synchronized_files.len()
            },
            _ => true,
        }
    }

    /// Whether what an action came to is what is waited for.
    pub open spec fn expects(self, e: DispatchEventView) -> bool {
        match self.phase {
            DispatchPhase::Start => e is Begin,
            DispatchPhase::ReadingDocument => e is Document || e is Failed,
            DispatchPhase::DrawingPartialToken | DispatchPhase::DrawingWorkToken => e is Drawn || e is Failed,
            DispatchPhase::ReadingClock => e is Clock,
            DispatchPhase::Sending => e is Answered || e is Failed,
            DispatchPhase::Finished => false,
        }
    }

    /// The sending in another phase.
    pub open spec fn in_phase(self, phase: DispatchPhase) -> DispatchRunView {
        DispatchRunView { phase, ..self }
    }

    /// The sending is at its end.
    pub open spec fn ended(self, outcome: Result<ResponseView, DispatchFailureView>) -> (
        DispatchRunView,
        DispatchActionView,
    ) {
        (self.in_phase(DispatchPhase::Finished), DispatchActionView::Finish(outcome))
    }

    /// The next document, or the tokens.
    pub open spec fn reading(self) -> (DispatchRunView, DispatchActionView) {
        if self.documents.len() < self.request.synchronized_files.len() {
            (
                self.in_phase(DispatchPhase::ReadingDocument),
                DispatchActionView::ReadDocument(self.request.synchronized_files[self.documents.len() as int]),
            )
        } else if self.request.partial_results && holds_tokens(self.request) {
            (self.in_phase(DispatchPhase::DrawingPartialToken), DispatchActionView::Draw)
        } else {
            self.drawing_work()
        }
    }

    /// The token for progress, or the clock.
    pub open spec fn drawing_work(self) -> (DispatchRunView, DispatchActionView) {
        if self.request.work_done_progress && holds_tokens(self.request) {
            (self.in_phase(DispatchPhase::DrawingWorkToken), DispatchActionView::Draw)
        } else {
            (self.in_phase(DispatchPhase::ReadingClock), DispatchActionView::ReadClock)
        }
    }

    /// The request as it is sent.
    pub open spec fn sent(self, within: Option<u128>) -> OwnerDispatchView {
        OwnerDispatchView {
            method: self.request.method,
            params: params_with_tokens(self.request, self.partial_token, self.work_token),
            documents: self.documents,
            refresh_open_documents: self.request.refresh_open_documents,
            raw_request: self.request.raw_request,
            request_timeout_ms: self.request_timeout_ms,
            trace_protocol: self.request.trace_protocol,
            apply_edits: self.request.apply_edits,
            within,
        }
    }

    /// What follows an event.
    pub open spec fn next(self, e: DispatchEventView) -> (DispatchRunView, DispatchActionView) {
        match e {
            DispatchEventView::Begin => self.reading(),
            DispatchEventView::Document(document) => (DispatchRunView {
                documents: self.documents.push(handed_over(document)),
                ..self
            }).reading(),
            DispatchEventView::Drawn(token) => if self.phase == DispatchPhase::DrawingPartialToken {
                (DispatchRunView { partial_token: token, ..self }).drawing_work()
            } else {
                (
                    (DispatchRunView { work_token: token, ..self }).in_phase(DispatchPhase::ReadingClock),
                    DispatchActionView::ReadClock,
                )
            },
            DispatchEventView::Clock { now } => match time_left(self.queue_deadline, now) {
                Err(f) => self.ended(Err(not_sent(f))),
                Ok(within) => (
                    (DispatchRunView { documents: seq![], ..self }).in_phase(DispatchPhase::Sending),
                    DispatchActionView::Send(self.sent(within)),
                ),
            },
            DispatchEventView::Answered(response) => self.ended(dispatch_answer(response)),
            DispatchEventView::Failed(f) => self.ended(Err(not_sent(f))),
        }
    }
}

impl DispatchRun {
    /// A sending that has not begun.
    pub fn new(request: DispatchRequest, request_timeout_ms: u64, queue_deadline: Option<QueueDeadline>) -> (r: DispatchRun)
        ensures
            r@ == (DispatchRunView {
                request: request@,
                request_timeout_ms,
                queue_deadline,
                documents: seq![],
                partial_token: ""@,
                work_token: ""@,
                phase: DispatchPhase::Start,
            }),
            r@.sound(),
    {
        let documents: Vec<OwnerDocument> = Vec::new();
        assert(views(documents@) =~= seq![]);
        DispatchRun {
            request,
            request_timeout_ms,
            queue_deadline,
            documents,
            partial_token: "".to_owned(),
            work_token: "".to_owned(),
            phase: DispatchPhase::Start,
        }
    }

    fn fail(&mut self, f: ContractFailure) -> (r: DispatchAction)
        ensures
            (final(self)@, r@) == old(self)@.ended(Err(not_sent(f@))),
            final(self)@.sound(),
    {
        self.phase = DispatchPhase::Finished;
        DispatchAction::Finish(Err(DispatchFailure::from_failure(f)))
    }

    fn draw_work(&mut self) -> (r: DispatchAction)
        requires
            old(self)@.documents.len() == old(self)@.request.synchronized_files.len(),
        ensures
            (final(self)@, r@) == old(self)@.drawing_work(),
            final(self)@.sound(),
    {
        if needed_tokens(&self.request).1 {
            self.phase = DispatchPhase::DrawingWorkToken;
            DispatchAction::Draw
        } else {
            self.phase = DispatchPhase::ReadingClock;
            DispatchAction::ReadClock
        }
    }

    fn read_next(&mut self) -> (r: DispatchAction)
        requires
            old(self)@.documents.len() <= old(self)@.request.synchronized_files.len(),
        ensures
            (final(self)@, r@) == old(self)@.reading(),
            final(self)@.sound(),
    {
        assert(self@.documents.len() == self.documents@.len());
        assert(self@.request.synchronized_files.len() == self.request.synchronized_files@.len());
        if self.documents.len() < self.request.synchronized_files.len() {
            let path: String = self.request.synchronized_files[self.documents.len()].clone();
            assert(self@.request.synchronized_files[self.documents@.len() as int] == path@);
            self.phase = DispatchPhase::ReadingDocument;
            return DispatchAction::ReadDocument(path);
        }
        if needed_tokens(&self.request).0 {
            self.phase = DispatchPhase::DrawingPartialToken;
            return DispatchAction::Draw;
        }
        self.draw_work()
    }

    fn send(&mut self, within: Option<u128>) -> (r: DispatchAction)
        ensures
            final(self)@ == (DispatchRunView { documents: seq![], ..old(self)@ }).in_phase(DispatchPhase::Sending),
            r@ == DispatchActionView::Send(old(self)@.sent(within)),
    {
        let params: Option<Json> = with_tokens(&self.request, self.partial_token.as_str(), self.work_token.as_str());
        let mut documents: Vec<OwnerDocument> = Vec::new();
        assert(views(documents@) =~= seq![]);
        std::mem::swap(&mut documents, &mut self.documents);
        self.phase = DispatchPhase::Sending;
        DispatchAction::Send(
            OwnerDispatch {
                method: self.request.method.clone(),
                params,
                documents,
                refresh_open_documents: self.request.refresh_open_documents,
                raw_request: self.request.raw_request,
                request_timeout_ms: self.request_timeout_ms,
                trace_protocol: self.request.trace_protocol,
                apply_edits: self.request.apply_edits,
                within,
            },
        )
    }

    /// Goes on after an event.
    pub fn step(&mut self, event: DispatchEvent) -> (r: DispatchAction)
        requires
            old(self)@.sound(),
            old(self)@.expects(event@),
        ensures
            (final(self)@, r@) == old(self)@.next(event@),
            final(self)@.sound(),
    {
        match event {
            DispatchEvent::Begin => self.read_next(),
            DispatchEvent::Document(document) => {
                let ghost before = self.documents@;
                self.documents.push(owner_document(document));
                assert(views(self.documents@) =~= views(before).push(handed_over(document@)));
                self.read_next()
            },
            DispatchEvent::Drawn(token) => if self.phase == DispatchPhase::DrawingPartialToken {
                self.partial_token = token;
                self.draw_work()
            } else {
                self.work_token = token;
                self.phase = DispatchPhase::ReadingClock;
                DispatchAction::ReadClock
            },
            DispatchEvent::Clock { now } => match queue_deadline_remaining(self.queue_deadline, now) {
                Err(f) => self.fail(f),
                Ok(within) => self.send(within),
            },
            DispatchEvent::Answered(response) => {
                self.phase = DispatchPhase::Finished;
                DispatchAction::Finish(accept_dispatch(response))
            },
            DispatchEvent::Failed(f) => self.fail(f),
        }
    }
}

/// A request is sent only once every file that it names was read, in the order in
/// which it names them, and only while there is time left. It is sent as it was
/// composed, but for its tokens.
pub proof fn law_documents_come_first(run: DispatchRunView, e: DispatchEventView)
    requires
        run.sound(),
        run.expects(e),
    ensures
        run.next(e).1 matches DispatchActionView::Send(dispatch) ==> {
            &&& dispatch.documents == run.documents
            &&& dispatch.documents.len() == run.request.synchronized_files.len()
            &&& dispatch.method == run.request.method
            &&& !(run.request.partial_results || run.request.work_done_progress) ==> dispatch.params
                == run.request.params
            &&& e matches DispatchEventView::Clock { now }
            &&& time_left(run.queue_deadline, now) == Ok::<Option<u128>, FailureView>(dispatch.within)
        },
        run.next(e).1 matches DispatchActionView::ReadDocument(path) ==> {
            let read = run.next(e).0.documents.len() as int;
            0 <= read < run.request.synchronized_files.len() && path == run.request.synchronized_files[read]
        },
{
}

/// Each step leads to one that can follow, and the request is not changed.
pub proof fn law_sending_leads_on(run: DispatchRunView, e: DispatchEventView)
    requires
        run.sound(),
        run.expects(e),
    ensures
        run.next(e).0.sound(),
        run.next(e).0.request == run.request,
        run.next(e).0.phase == DispatchPhase::Finished <==> run.next(e).1 is Finish,
{
}

} // verus!
