//! Taking in an expert's response: it is saved, embedded, stored as a vector
//! attributed to the expert and the paper, written to the graph, and only
//! then marked as embedded.
//!
//! Every stage is a request to an outside store or service, so the intake
//! is a state machine driven by `step`. A failed request ends the intake
//! (the driver stops and reports it), so the response is never marked
//! embedded unless both stores took it.

use vstd::prelude::*;
use crate::json::JsonValue;
use crate::retrieval::{expert_response_metadata, expert_response_vector_id, string_object};
use crate::text::{push_str, to_string};

verus! {

/// Where the intake of a response stands.
#[derive(Debug, Clone, Copy, PartialEq, Eq, Structural)]
pub enum ResponsePhase {
    Start,
    /// Waiting for the response to be saved.
    AwaitSaved,
    /// Waiting for the paper it answers about.
    AwaitPaper,
    /// Waiting for the response's embedding.
    AwaitEmbedding,
    /// Waiting for the response's vector to be stored.
    AwaitVector,
    /// Waiting for the response to be written to the graph.
    AwaitGraph,
    /// Waiting for the response to be marked embedded.
    AwaitMarked,
    Finished,
}

/// The intake of one expert response.
pub struct ResponseIngestion {
    pub paper_id: String,
    pub expert_email: String,
    pub response_text: String,
    pub phase: ResponsePhase,
    /// The id the saved response was given.
    pub response_id: String,
    /// The title of the paper.
    pub paper_title: String,
}

/// A `ResponseIngestion` by its characters.
pub struct ResponseView {
    pub paper_id: Seq<char>,
    pub expert_email: Seq<char>,
    pub response_text: Seq<char>,
    pub phase: ResponsePhase,
    pub response_id: Seq<char>,
    pub paper_title: Seq<char>,
}

impl View for ResponseIngestion {
    type V = ResponseView;

    open spec fn view(&self) -> ResponseView {
        ResponseView {
            paper_id: self.paper_id@,
            expert_email: self.expert_email@,
            response_text: self.response_text@,
            phase: self.phase,
            response_id: self.response_id@,
            paper_title: self.paper_title@,
        }
    }
}

/// What the intake hears back.
pub enum ResponseEvent {
    Begin,
    /// The response was saved under this id.
    Saved(String),
    /// The paper's title, or `None` when there is no such paper.
    PaperFound(Option<String>),
    /// The response was embedded (the driver keeps the vector).
    Embedded,
    /// The vector was stored.
    VectorStored,
    /// The graph took the response.
    GraphStored,
    /// The response was marked embedded.
    Marked,
}

/// A `ResponseEvent` by its characters.
pub enum ResponseEventView {
    Begin,
    Saved(Seq<char>),
    PaperFound(Option<Seq<char>>),
    Embedded,
    VectorStored,
    GraphStored,
    Marked,
}

impl View for ResponseEvent {
    type V = ResponseEventView;

    open spec fn view(&self) -> ResponseEventView {
        match self {
            ResponseEvent::Begin => ResponseEventView::Begin,
            ResponseEvent::Saved(id) => ResponseEventView::Saved(id@),
            ResponseEvent::PaperFound(t) => ResponseEventView::PaperFound(
                match t {
                    Some(x) => Some(x@),
                    None => None,
                },
            ),
            ResponseEvent::Embedded => ResponseEventView::Embedded,
            ResponseEvent::VectorStored => ResponseEventView::VectorStored,
            ResponseEvent::GraphStored => ResponseEventView::GraphStored,
            ResponseEvent::Marked => ResponseEventView::Marked,
        }
    }
}

/// What the intake asks for next.
pub enum ResponseAction {
    /// Save the response under its paper and expert.
    SaveResponse,
    /// Read the paper.
    GetPaper,
    /// Embed this text.
    Embed(String),
    /// Store the embedding under this id, with this metadata.
    StoreVector { vector_id: String, metadata: JsonValue },
    /// Write the response to the graph, linked to its paper and expert.
    StoreGraph { response_id: String, paper_id: String, expert_email: String, text: String },
    /// Mark the saved response as embedded.
    MarkEmbedded,
    /// There is no such paper: stop with this message.
    PaperMissing(String),
    /// The response is in.
    Done,
}

/// What a step asks for, by its characters; a vector's metadata is given by
/// the string values of its members.
pub enum ResponsePlan {
    SaveResponse,
    GetPaper,
    Embed(Seq<char>),
    StoreVector(Seq<char>, Seq<Seq<char>>),
    StoreGraph(Seq<char>, Seq<char>, Seq<char>, Seq<char>),
    MarkEmbedded,
    PaperMissing(Seq<char>),
    Done,
}

/// The members of a response vector's metadata, in order.
pub open spec fn response_metadata_keys() -> Seq<Seq<char>> {
    seq!["paper_id"@, "paper_title"@, "chunk_type"@, "text"@, "expert_email"@]
}

/// The action carries out the plan.
pub open spec fn carries(a: ResponseAction, p: ResponsePlan) -> bool {
    match p {
        ResponsePlan::SaveResponse => a is SaveResponse,
        ResponsePlan::GetPaper => a is GetPaper,
        ResponsePlan::Embed(t) => a matches ResponseAction::Embed(x) && x@ == t,
        ResponsePlan::StoreVector(id, values) => a matches ResponseAction::StoreVector { vector_id, metadata }
            && vector_id@ == id && string_object(metadata, response_metadata_keys(), values),
        ResponsePlan::StoreGraph(r, pid, email, t) => a matches ResponseAction::StoreGraph {
            response_id,
            paper_id,
            expert_email,
            text,
        } && response_id@ == r && paper_id@ == pid && expert_email@ == email && text@ == t,
        ResponsePlan::MarkEmbedded => a is MarkEmbedded,
        ResponsePlan::PaperMissing(m) => a matches ResponseAction::PaperMissing(x) && x@ == m,
        ResponsePlan::Done => a is Done,
    }
}

/// The event the intake waits for in its phase.
pub open spec fn response_accepts(s: ResponseView, e: ResponseEventView) -> bool {
    match e {
        ResponseEventView::Begin => s.phase == ResponsePhase::Start,
        ResponseEventView::Saved(_) => s.phase == ResponsePhase::AwaitSaved,
        ResponseEventView::PaperFound(_) => s.phase == ResponsePhase::AwaitPaper,
        ResponseEventView::Embedded => s.phase == ResponsePhase::AwaitEmbedding,
        ResponseEventView::VectorStored => s.phase == ResponsePhase::AwaitVector,
        ResponseEventView::GraphStored => s.phase == ResponsePhase::AwaitGraph,
        ResponseEventView::Marked => s.phase == ResponsePhase::AwaitMarked,
    }
}

/// The message for a response about an unknown paper.
pub open spec fn paper_missing_message(paper_id: Seq<char>) -> Seq<char> {
    "Paper "@ + paper_id + " not found"@
}

/// One step of the intake.
pub open spec fn response_step_spec(s: ResponseView, e: ResponseEventView) -> (ResponseView, ResponsePlan) {
    match e {
        ResponseEventView::Begin => (ResponseView { phase: ResponsePhase::AwaitSaved, ..s }, ResponsePlan::SaveResponse),
        ResponseEventView::Saved(id) => (
            ResponseView { phase: ResponsePhase::AwaitPaper, response_id: id, ..s },
            ResponsePlan::GetPaper,
        ),
        ResponseEventView::PaperFound(t) => match t {
            Some(title) => (
                ResponseView { phase: ResponsePhase::AwaitEmbedding, paper_title: title, ..s },
                ResponsePlan::Embed(s.response_text),
            ),
            None => (
                ResponseView { phase: ResponsePhase::Finished, ..s },
                ResponsePlan::PaperMissing(paper_missing_message(s.paper_id)),
            ),
        },
        ResponseEventView::Embedded => (
            ResponseView { phase: ResponsePhase::AwaitVector, ..s },
            ResponsePlan::StoreVector(
                "expert_resp_"@ + s.response_id,
                seq![s.paper_id, s.paper_title, "expert_response"@, s.response_text, s.expert_email],
            ),
        ),
        ResponseEventView::VectorStored => (
            ResponseView { phase: ResponsePhase::AwaitGraph, ..s },
            ResponsePlan::StoreGraph(s.response_id, s.paper_id, s.expert_email, s.response_text),
        ),
        ResponseEventView::GraphStored => (
            ResponseView { phase: ResponsePhase::AwaitMarked, ..s },
            ResponsePlan::MarkEmbedded,
        ),
        ResponseEventView::Marked => (ResponseView { phase: ResponsePhase::Finished, ..s }, ResponsePlan::Done),
    }
}

impl ResponseIngestion {
    /// The intake of `response_text`, given by `expert_email` about the paper
    /// `paper_id`.
    pub fn new(paper_id: String, expert_email: String, response_text: String) -> (r: Self)
        ensures
            r@ == (ResponseView {
                paper_id: paper_id@,
                expert_email: expert_email@,
                response_text: response_text@,
                phase: ResponsePhase::Start,
                response_id: seq![],
                paper_title: seq![],
            }),
    {
        ResponseIngestion {
            paper_id,
            expert_email,
            response_text,
            phase: ResponsePhase::Start,
            response_id: String::new(),
            paper_title: String::new(),
        }
    }

    /// Takes what the last request returned and says what to request next.
    pub fn step(&mut self, event: ResponseEvent) -> (a: ResponseAction)
        requires
            response_accepts(old(self)@, event@),
        ensures
            final(self)@ == response_step_spec(old(self)@, event@).0,
            carries(a, response_step_spec(old(self)@, event@).1),
    {
        match event {
            ResponseEvent::Begin => {
                self.phase = ResponsePhase::AwaitSaved;
                ResponseAction::SaveResponse
            },
            ResponseEvent::Saved(id) => {
                self.response_id = id;
                self.phase = ResponsePhase::AwaitPaper;
                ResponseAction::GetPaper
            },
            ResponseEvent::PaperFound(t) => match t {
                Some(title) => {
                    self.paper_title = title;
                    self.phase = ResponsePhase::AwaitEmbedding;
                    ResponseAction::Embed(self.response_text.clone())
                },
                None => {
                    self.phase = ResponsePhase::Finished;
                    let mut m = to_string("Paper ");
                    push_str(&mut m, self.paper_id.as_str());
                    push_str(&mut m, " not found");
                    ResponseAction::PaperMissing(m)
                },
            },
            ResponseEvent::Embedded => {
                self.phase = ResponsePhase::AwaitVector;
                let vector_id = expert_response_vector_id(self.response_id.as_str());
                let metadata = expert_response_metadata(
                    self.paper_id.as_str(),
                    self.paper_title.as_str(),
                    self.response_text.as_str(),
                    self.expert_email.as_str(),
                );
                ResponseAction::StoreVector { vector_id, metadata }
            },
            ResponseEvent::VectorStored => {
                self.phase = ResponsePhase::AwaitGraph;
                ResponseAction::StoreGraph {
                    response_id: self.response_id.clone(),
                    paper_id: self.paper_id.clone(),
                    expert_email: self.expert_email.clone(),
                    text: self.response_text.clone(),
                }
            },
            ResponseEvent::GraphStored => {
                self.phase = ResponsePhase::AwaitMarked;
                ResponseAction::MarkEmbedded
            },
            ResponseEvent::Marked => {
                self.phase = ResponsePhase::Finished;
                ResponseAction::Done
            },
        }
    }
}

// ---------------------------------------------------------------------------
// Laws
// ---------------------------------------------------------------------------

/// The state and the requests after a run of events.
pub open spec fn response_run(s: ResponseView, es: Seq<ResponseEventView>) -> (ResponseView, Seq<ResponsePlan>)
    decreases es.len(),
{
    if es.len() == 0 {
        (s, seq![])
    } else {
        let (t, ps) = response_run(s, es.drop_last());
        let (u, p) = response_step_spec(t, es.last());
        (u, ps.push(p))
    }
}

/// Every event of the run is one the intake waits for.
pub open spec fn response_run_accepted(s: ResponseView, es: Seq<ResponseEventView>) -> bool
    decreases es.len(),
{
    es.len() == 0 || (response_run_accepted(s, es.drop_last()) && response_accepts(
        response_run(s, es.drop_last()).0,
        es.last(),
    ))
}

/// The phase after `k` steps of an intake that finds its paper.
pub open spec fn phase_after(k: int) -> ResponsePhase {
    if k == 0 {
        ResponsePhase::Start
    } else if k == 1 {
        ResponsePhase::AwaitSaved
    } else if k == 2 {
        ResponsePhase::AwaitPaper
    } else if k == 3 {
        ResponsePhase::AwaitEmbedding
    } else if k == 4 {
        ResponsePhase::AwaitVector
    } else if k == 5 {
        ResponsePhase::AwaitGraph
    } else if k == 6 {
        ResponsePhase::AwaitMarked
    } else {
        ResponsePhase::Finished
    }
}

/// The request an intake makes at step `i`: save, read the paper, embed
/// (or stop on an unknown paper), store the vector, write the graph, mark
/// embedded, done.
pub open spec fn plan_in_order(i: int, p: ResponsePlan) -> bool {
    &&& i == 0 <==> p is SaveResponse
    &&& i == 1 <==> p is GetPaper
    &&& i == 2 <==> (p is Embed || p is PaperMissing)
    &&& i == 3 <==> p is StoreVector
    &&& i == 4 <==> p is StoreGraph
    &&& i == 5 <==> p is MarkEmbedded
    &&& i == 6 <==> p is Done
}

proof fn lemma_run_shape(s: ResponseView, es: Seq<ResponseEventView>)
    requires
        s.phase == ResponsePhase::Start,
        response_run_accepted(s, es),
    ensures
        response_run(s, es).1.len() == es.len(),
        es.len() <= 7,
        forall|i: int| 0 <= i < es.len() ==> plan_in_order(i, #[trigger] response_run(s, es).1[i]),
        (es.len() >= 3 && response_run(s, es).1[2] is PaperMissing) ==> es.len() == 3
            && response_run(s, es).0.phase == ResponsePhase::Finished,
        !(es.len() >= 3 && response_run(s, es).1[2] is PaperMissing) ==> response_run(s, es).0.phase == phase_after(
            es.len() as int,
        ),
    decreases es.len(),
{
    if es.len() > 0 {
        let prev = es.drop_last();
        lemma_run_shape(s, prev);
        let t = response_run(s, prev).0;
        let ps = response_run(s, prev).1;
        assert(response_run(s, es).1 == ps.push(response_step_spec(t, es.last()).1));
        if prev.len() >= 3 {
            assert(ps[2] == response_run(s, es).1[2]);
        }
    }
}

/// The order of an expert response's intake: the response is saved first,
/// then its paper is read, then it is embedded (or, for an unknown paper,
/// the intake stops there), its vector is stored, it is written to the
/// graph, and only then is it marked embedded, which ends the intake. So a
/// response marked embedded has been stored in both stores.
pub proof fn lemma_response_intake_order(s: ResponseView, es: Seq<ResponseEventView>)
    requires
        s.phase == ResponsePhase::Start,
        response_run_accepted(s, es),
    ensures
        es.len() <= 7,
        forall|i: int| 0 <= i < es.len() ==> plan_in_order(i, #[trigger] response_run(s, es).1[i]),
        forall|i: int|
            0 <= i < es.len() && (#[trigger] response_run(s, es).1[i]) is MarkEmbedded ==> response_run(
                s,
                es,
            ).1[i - 2] is StoreVector && response_run(s, es).1[i - 1] is StoreGraph,
        (es.len() >= 3 && response_run(s, es).1[2] is PaperMissing) ==> es.len() == 3,
{
    lemma_run_shape(s, es);
    assert forall|i: int|
        0 <= i < es.len() && (#[trigger] response_run(s, es).1[i]) is MarkEmbedded implies response_run(
            s,
            es,
        ).1[i - 2] is StoreVector && response_run(s, es).1[i - 1] is StoreGraph by {
        assert(plan_in_order(i, response_run(s, es).1[i]));
        assert(plan_in_order(i - 2, response_run(s, es).1[i - 2]));
        assert(plan_in_order(i - 1, response_run(s, es).1[i - 1]));
    }
}

} // verus!
