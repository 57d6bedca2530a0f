//! Ingesting a paper: its graph node, its authors, its full text, the
//! knowledge the model extracts from it, and the vectors of its abstract and
//! body.
//!
//! Every stage writes to or reads from an outside store or service, so the
//! ingestion is a state machine driven by `step`. A failed request of the
//! stages that must succeed ends the ingestion (the driver stops and reports
//! it); a failed PDF download, a failed extraction and a failed body chunk
//! are tolerated.

use vstd::prelude::*;
use crate::extraction::{
    CHUNK_OVERLAP, CHUNK_WORDS, EXTRACTION_SYSTEM_PROMPT, IngestionAuthorInput, MAX_EMBEDDED_CHUNKS, authors_to_link,
    authors_to_link_spec, embedded_chunk_count, empty_extraction, excerpt_cut_ok, extraction_spec,
    extraction_user_prompt, extraction_user_prompt_spec, full_text_or_abstract, parse_extraction,
};
use crate::json::json_parse;
use crate::models::{ExtractionView, PaperExtraction, opt_view};
use crate::numeral::decimal_spec;
use crate::pdf::{chunk_text, chunk_text_spec};
use crate::retrieval::{abstract_vector_id, chunk_vector_id};
use crate::text::{string_views, to_string};

verus! {

/// Where an ingestion stands.
#[derive(Debug, Clone, Copy, PartialEq, Eq, Structural)]
pub enum IngestPhase {
    Start,
    /// Waiting for the paper's status to read "processing".
    AwaitProcessing,
    /// Waiting for the paper's graph node.
    AwaitPaperNode,
    /// Waiting for an author to be stored and linked.
    AwaitAuthor,
    /// Waiting for the paper's full text.
    AwaitFullText,
    /// Waiting for the model's extraction.
    AwaitExtraction,
    /// Waiting for the extraction to be written to the graph.
    AwaitGraphWrite,
    /// Waiting for the abstract's vector.
    AwaitAbstract,
    /// Waiting for a body chunk's vector.
    AwaitChunk,
    /// Waiting for the paper's status to read "completed".
    AwaitCompleted,
    Finished,
}

/// An ingestion in progress.
pub struct Ingestion {
    pub paper_id: String,
    pub title: String,
    pub abstract_text: String,
    pub paper_url: String,
    pub pdf_url: Option<String>,
    /// The authors that are stored and linked.
    pub authors: Vec<IngestionAuthorInput>,
    pub phase: IngestPhase,
    pub next: usize,
    pub full_text: String,
    pub chunks: Vec<String>,
}

/// An `Ingestion` by its characters.
pub struct IngestView {
    pub paper_id: Seq<char>,
    pub title: Seq<char>,
    pub abstract_text: Seq<char>,
    pub paper_url: Seq<char>,
    pub pdf_url: Option<Seq<char>>,
    pub authors: Seq<(Seq<char>, Seq<char>)>,
    pub phase: IngestPhase,
    pub next: nat,
    pub full_text: Seq<char>,
    pub chunks: Seq<Seq<char>>,
}

impl View for Ingestion {
    type V = IngestView;

    open spec fn view(&self) -> IngestView {
        IngestView {
            paper_id: self.paper_id@,
            title: self.title@,
            abstract_text: self.abstract_text@,
            paper_url: self.paper_url@,
            pdf_url: opt_view(self.pdf_url),
            authors: Seq::new(self.authors@.len(), |i: int| (self.authors@[i].name@, self.authors@[i].email@)),
            phase: self.phase,
            next: self.next as nat,
            full_text: self.full_text@,
            chunks: string_views(self.chunks@),
        }
    }
}

/// What an ingestion hears back.
pub enum IngestEvent {
    Begin,
    /// The last request succeeded (for a body chunk: finished, failed or not).
    Done,
    /// The text of the paper's PDF, or `None` when there is no PDF or it
    /// could not be downloaded or read.
    FullText(Option<String>),
    /// The model's extraction answer, or `None` when the request failed.
    ExtractionReplied(Option<String>),
}

/// An `IngestEvent` by its characters.
pub enum IngestEventView {
    Begin,
    Done,
    FullText(Option<Seq<char>>),
    ExtractionReplied(Option<Seq<char>>),
}

impl View for IngestEvent {
    type V = IngestEventView;

    open spec fn view(&self) -> IngestEventView {
        match self {
            IngestEvent::Begin => IngestEventView::Begin,
            IngestEvent::Done => IngestEventView::Done,
            IngestEvent::FullText(t) => IngestEventView::FullText(opt_view(*t)),
            IngestEvent::ExtractionReplied(r) => IngestEventView::ExtractionReplied(opt_view(*r)),
        }
    }
}

/// What an ingestion asks for next.
pub enum IngestAction {
    /// Set the paper's ingestion status.
    SetStatus(String),
    /// Write the paper's graph node.
    UpsertPaperNode { paper_id: String, title: String, paper_url: String, abstract_text: String },
    /// Store an author, link them to the paper, and write their graph node.
    LinkAuthor { name: String, email: String },
    /// Download and read the PDF, if there is one.
    ObtainFullText(Option<String>),
    /// Ask the model for the paper's knowledge.
    AskModel { system: String, user: String },
    /// Write the extracted knowledge to the graph.
    StoreExtraction(PaperExtraction),
    /// Embed a text and store its vector with the paper's metadata; when
    /// `required`, a failure ends the ingestion.
    StoreVector { vector_id: String, chunk_type: String, text: String, required: bool },
    /// The ingestion is over.
    Finish,
}

/// An `IngestAction` by its characters.
pub enum IngestActionView {
    SetStatus(Seq<char>),
    UpsertPaperNode(Seq<char>, Seq<char>, Seq<char>, Seq<char>),
    LinkAuthor(Seq<char>, Seq<char>),
    ObtainFullText(Option<Seq<char>>),
    AskModel(Seq<char>, Seq<char>),
    StoreExtraction(ExtractionView),
    StoreVector(Seq<char>, Seq<char>, Seq<char>, bool),
    Finish,
}

impl View for IngestAction {
    type V = IngestActionView;

    open spec fn view(&self) -> IngestActionView {
        match self {
            IngestAction::SetStatus(s) => IngestActionView::SetStatus(s@),
            IngestAction::UpsertPaperNode { paper_id, title, paper_url, abstract_text } =>
                IngestActionView::UpsertPaperNode(paper_id@, title@, paper_url@, abstract_text@),
            IngestAction::LinkAuthor { name, email } => IngestActionView::LinkAuthor(name@, email@),
            IngestAction::ObtainFullText(u) => IngestActionView::ObtainFullText(opt_view(*u)),
            IngestAction::AskModel { system, user } => IngestActionView::AskModel(system@, user@),
            IngestAction::StoreExtraction(e) => IngestActionView::StoreExtraction(e@),
            IngestAction::StoreVector { vector_id, chunk_type, text, required } =>
                IngestActionView::StoreVector(vector_id@, chunk_type@, text@, *required),
            IngestAction::Finish => IngestActionView::Finish,
        }
    }
}

/// The text a paper is ingested from, given what its PDF gave.
pub open spec fn full_text_spec(s: IngestView, pdf: Option<Seq<char>>) -> Seq<char> {
    match pdf {
        Some(t) => t,
        None => s.abstract_text,
    }
}

/// The event an ingestion waits for in its phase. The model is only asked
/// for an excerpt that can be cut at its byte limit.
pub open spec fn ingest_accepts(s: IngestView, e: IngestEventView) -> bool {
    match e {
        IngestEventView::Begin => s.phase == IngestPhase::Start,
        IngestEventView::Done => s.phase == IngestPhase::AwaitProcessing || s.phase == IngestPhase::AwaitPaperNode
            || (s.phase == IngestPhase::AwaitAuthor && s.next < s.authors.len()) || s.phase
            == IngestPhase::AwaitGraphWrite || s.phase == IngestPhase::AwaitAbstract || (s.phase
            == IngestPhase::AwaitChunk && s.next < s.chunks.len()) || s.phase == IngestPhase::AwaitCompleted,
        IngestEventView::FullText(t) => s.phase == IngestPhase::AwaitFullText && excerpt_cut_ok(full_text_spec(s, t)),
        IngestEventView::ExtractionReplied(_) => s.phase == IngestPhase::AwaitExtraction,
    }
}

/// The next author to link, or the full text once all are linked.
pub open spec fn next_author_spec(s: IngestView) -> (IngestView, IngestActionView) {
    if s.next < s.authors.len() {
        (
            IngestView { phase: IngestPhase::AwaitAuthor, ..s },
            IngestActionView::LinkAuthor(s.authors[s.next as int].0, s.authors[s.next as int].1),
        )
    } else {
        (IngestView { phase: IngestPhase::AwaitFullText, ..s }, IngestActionView::ObtainFullText(s.pdf_url))
    }
}

/// The number of body chunks that are embedded.
pub open spec fn embedded_chunks(s: IngestView) -> nat {
    if s.chunks.len() < MAX_EMBEDDED_CHUNKS { s.chunks.len() } else { MAX_EMBEDDED_CHUNKS as nat }
}

/// The next body chunk to embed, or the final status.
pub open spec fn next_chunk_spec(s: IngestView) -> (IngestView, IngestActionView) {
    if s.next < embedded_chunks(s) {
        (
            IngestView { phase: IngestPhase::AwaitChunk, ..s },
            IngestActionView::StoreVector(
                s.paper_id + "_chunk_"@ + decimal_spec(s.next),
                "body"@,
                s.chunks[s.next as int],
                false,
            ),
        )
    } else {
        (IngestView { phase: IngestPhase::AwaitCompleted, ..s }, IngestActionView::SetStatus("completed"@))
    }
}

/// The extraction written to the graph: what the model's answer describes,
/// or nothing when the answer is missing or not JSON.
pub open spec fn ingested_extraction(reply: Option<Seq<char>>) -> ExtractionView {
    match reply {
        Some(raw) => match json_parse(raw) {
            Some(v) => extraction_spec(v),
            None => ExtractionView { concepts: seq![], citations: seq![], key_findings: seq![], methods: seq![], topics: seq![] },
        },
        None => ExtractionView { concepts: seq![], citations: seq![], key_findings: seq![], methods: seq![], topics: seq![] },
    }
}

/// One step of an ingestion.
pub open spec fn ingest_step_spec(s: IngestView, e: IngestEventView) -> (IngestView, IngestActionView) {
    match e {
        IngestEventView::Begin => (IngestView { phase: IngestPhase::AwaitProcessing, ..s }, IngestActionView::SetStatus("processing"@)),
        IngestEventView::FullText(t) => {
            let full = full_text_spec(s, t);
            (
                IngestView { phase: IngestPhase::AwaitExtraction, full_text: full, ..s },
                IngestActionView::AskModel(
                    EXTRACTION_SYSTEM_PROMPT@,
                    extraction_user_prompt_spec(s.title, s.abstract_text, full),
                ),
            )
        },
        IngestEventView::ExtractionReplied(r) => (
            IngestView { phase: IngestPhase::AwaitGraphWrite, ..s },
            IngestActionView::StoreExtraction(ingested_extraction(r)),
        ),
        IngestEventView::Done => {
            if s.phase == IngestPhase::AwaitProcessing {
                (
                    IngestView { phase: IngestPhase::AwaitPaperNode, ..s },
                    IngestActionView::UpsertPaperNode(s.paper_id, s.title, s.paper_url, s.abstract_text),
                )
            } else if s.phase == IngestPhase::AwaitPaperNode {
                next_author_spec(IngestView { next: 0, ..s })
            } else if s.phase == IngestPhase::AwaitAuthor {
                next_author_spec(IngestView { next: s.next + 1, ..s })
            } else if s.phase == IngestPhase::AwaitGraphWrite {
                (
                    IngestView {
                        phase: IngestPhase::AwaitAbstract,
                        chunks: chunk_text_spec(s.full_text, CHUNK_WORDS as nat, CHUNK_OVERLAP as nat),
                        ..s
                    },
                    IngestActionView::StoreVector(s.paper_id + "_abstract"@, "abstract"@, s.abstract_text, true),
                )
            } else if s.phase == IngestPhase::AwaitAbstract {
                next_chunk_spec(IngestView { next: 0, ..s })
            } else if s.phase == IngestPhase::AwaitChunk {
                next_chunk_spec(IngestView { next: s.next + 1, ..s })
            } else {
                (IngestView { phase: IngestPhase::Finished, ..s }, IngestActionView::Finish)
            }
        },
    }
}

/// What holds of an ingestion between any two steps: every author it links
/// has an email, and a pending author or body chunk is one that exists.
pub open spec fn ingest_inv(s: IngestView) -> bool {
    &&& forall|i: int| 0 <= i < s.authors.len() ==> (#[trigger] s.authors[i]).1.len() > 0
    &&& s.phase == IngestPhase::AwaitAuthor ==> s.next < s.authors.len()
    &&& s.phase == IngestPhase::AwaitChunk ==> s.next < embedded_chunks(s)
}

proof fn lemma_linked_authors_have_email(authors: Seq<IngestionAuthorInput>)
    ensures
        forall|i: int|
            0 <= i < authors_to_link_spec(authors).len() ==> (#[trigger] authors_to_link_spec(authors)[i]).1.len()
                > 0,
    decreases authors.len(),
{
    if authors.len() > 0 {
        let rest = authors_to_link_spec(authors.drop_last());
        lemma_linked_authors_have_email(authors.drop_last());
        let r = authors_to_link_spec(authors);
        assert forall|i: int| 0 <= i < r.len() implies (#[trigger] r[i]).1.len() > 0 by {
            if i < rest.len() {
                assert(r[i] == rest[i]);
            }
        }
    }
}

/// An ingestion made by `Ingestion::new` starts in a state where its
/// invariant holds.
pub proof fn lemma_ingest_inv_initial(s: IngestView, authors: Seq<IngestionAuthorInput>)
    requires
        s.phase == IngestPhase::Start,
        s.authors == authors_to_link_spec(authors),
    ensures
        ingest_inv(s),
{
    lemma_linked_authors_have_email(authors);
}

/// Every step keeps the invariant.
pub proof fn lemma_ingest_step_inv(s: IngestView, e: IngestEventView)
    requires
        ingest_inv(s),
        ingest_accepts(s, e),
    ensures
        ingest_inv(ingest_step_spec(s, e).0),
{
}

/// An ingestion that waits on a request takes its success: the driver can
/// always hand `Done` back to a waiting stage.
pub proof fn lemma_done_accepted(s: IngestView)
    requires
        ingest_inv(s),
        s.phase == IngestPhase::AwaitProcessing || s.phase == IngestPhase::AwaitPaperNode || s.phase
            == IngestPhase::AwaitAuthor || s.phase == IngestPhase::AwaitGraphWrite || s.phase
            == IngestPhase::AwaitAbstract || s.phase == IngestPhase::AwaitChunk || s.phase
            == IngestPhase::AwaitCompleted,
    ensures
        ingest_accepts(s, IngestEventView::Done),
{
}

/// An author without an email is never linked.
pub proof fn lemma_linked_author_has_email(s: IngestView, e: IngestEventView)
    requires
        ingest_inv(s),
        ingest_accepts(s, e),
    ensures
        ingest_step_spec(s, e).1 matches IngestActionView::LinkAuthor(_, email) ==> email.len() > 0,
{
}

/// The only vector whose failure ends the ingestion is the abstract's; the
/// others are body chunks, at most `MAX_EMBEDDED_CHUNKS` of them, each stored
/// under its index.
pub proof fn lemma_stored_vectors(s: IngestView, e: IngestEventView)
    requires
        ingest_inv(s),
        ingest_accepts(s, e),
    ensures
        ingest_step_spec(s, e).1 matches IngestActionView::StoreVector(id, _, text, required) ==> {
            let t = ingest_step_spec(s, e).0;
            &&& required ==> id == s.paper_id + "_abstract"@ && text == s.abstract_text
            &&& !required ==> t.next < MAX_EMBEDDED_CHUNKS && t.next < t.chunks.len() && id == s.paper_id
                + "_chunk_"@ + decimal_spec(t.next) && text == t.chunks[t.next as int]
        },
{
}

/// How far an ingestion has got: its phases in the order they are passed.
pub open spec fn phase_rank(p: IngestPhase) -> nat {
    match p {
        IngestPhase::Start => 0,
        IngestPhase::AwaitProcessing => 1,
        IngestPhase::AwaitPaperNode => 2,
        IngestPhase::AwaitAuthor => 3,
        IngestPhase::AwaitFullText => 4,
        IngestPhase::AwaitExtraction => 5,
        IngestPhase::AwaitGraphWrite => 6,
        IngestPhase::AwaitAbstract => 7,
        IngestPhase::AwaitChunk => 8,
        IngestPhase::AwaitCompleted => 9,
        IngestPhase::Finished => 10,
    }
}

/// The state reached, and the requests made, by a run of events.
pub open spec fn ingest_run(s: IngestView, es: Seq<IngestEventView>) -> (IngestView, Seq<IngestActionView>)
    decreases es.len(),
{
    if es.len() == 0 {
        (s, seq![])
    } else {
        let (t, acts) = ingest_run(s, es.drop_last());
        let (u, a) = ingest_step_spec(t, es.last());
        (u, acts.push(a))
    }
}

/// Every event of the run is one its ingestion waits for.
pub open spec fn run_accepted(s: IngestView, es: Seq<IngestEventView>) -> bool
    decreases es.len(),
{
    es.len() == 0 || (run_accepted(s, es.drop_last()) && ingest_accepts(ingest_run(s, es.drop_last()).0, es.last()))
}

/// A request that sets no status, or sets "processing" or "completed".
pub open spec fn sets_known_status(a: IngestActionView) -> bool {
    match a {
        IngestActionView::SetStatus(x) => x == "processing"@ || x == "completed"@,
        _ => true,
    }
}

/// A request that writes to a store.
pub open spec fn is_store_write(a: IngestActionView) -> bool {
    ||| a is UpsertPaperNode
    ||| a is LinkAuthor
    ||| a is StoreExtraction
    ||| a is StoreVector
}

proof fn lemma_step_order(s: IngestView, e: IngestEventView)
    requires
        ingest_inv(s),
        ingest_accepts(s, e),
    ensures
        ({
            let (t, a) = ingest_step_spec(s, e);
            &&& phase_rank(t.phase) >= phase_rank(s.phase)
            &&& phase_rank(s.phase) < 6 ==> phase_rank(t.phase) <= 6
            &&& phase_rank(s.phase) < 6 && phase_rank(t.phase) == 6 ==> a is StoreExtraction
            &&& phase_rank(s.phase) < 7 ==> phase_rank(t.phase) <= 7
            &&& phase_rank(s.phase) < 7 && phase_rank(t.phase) == 7 ==> (a matches IngestActionView::StoreVector(
                _,
                _,
                _,
                true,
            ))
            &&& (a matches IngestActionView::SetStatus(x) ==> (phase_rank(s.phase) == 0 && x == "processing"@) || (
            phase_rank(s.phase) >= 7 && t.phase == IngestPhase::AwaitCompleted && x == "completed"@))
            &&& is_store_write(a) ==> 1 <= phase_rank(s.phase) && phase_rank(t.phase) <= 8
            &&& phase_rank(s.phase) == 0 ==> a == IngestActionView::SetStatus("processing"@)
        }),
{
}

proof fn lemma_run_order(s: IngestView, es: Seq<IngestEventView>)
    requires
        ingest_inv(s),
        run_accepted(s, es),
    ensures
        ({
            let (u, acts) = ingest_run(s, es);
            &&& ingest_inv(u)
            &&& acts.len() == es.len()
            &&& phase_rank(u.phase) >= phase_rank(s.phase)
            &&& phase_rank(s.phase) < 6 && phase_rank(u.phase) >= 6 ==> exists|i: int|
                0 <= i < acts.len() && (#[trigger] acts[i]) is StoreExtraction
            &&& phase_rank(s.phase) < 7 && phase_rank(u.phase) >= 7 ==> exists|i: int|
                0 <= i < acts.len() && ((#[trigger] acts[i]) matches IngestActionView::StoreVector(_, _, _, true))
            &&& phase_rank(s.phase) == 0 && es.len() > 0 ==> acts[0] == IngestActionView::SetStatus("processing"@)
        }),
    decreases es.len(),
{
    if es.len() > 0 {
        lemma_run_order(s, es.drop_last());
        let (t, prev) = ingest_run(s, es.drop_last());
        lemma_ingest_step_inv(t, es.last());
        lemma_step_order(t, es.last());
        let (u, a) = ingest_step_spec(t, es.last());
        let acts = prev.push(a);
        if phase_rank(s.phase) < 6 && phase_rank(u.phase) >= 6 {
            if phase_rank(t.phase) >= 6 {
                let i = choose|i: int| 0 <= i < prev.len() && (#[trigger] prev[i]) is StoreExtraction;
                assert(acts[i] == prev[i]);
            } else {
                assert(acts[prev.len() as int] == a);
            }
        }
        if phase_rank(s.phase) < 7 && phase_rank(u.phase) >= 7 {
            if phase_rank(t.phase) >= 7 {
                let i = choose|i: int|
                    0 <= i < prev.len() && ((#[trigger] prev[i]) matches IngestActionView::StoreVector(_, _, _, true));
                assert(acts[i] == prev[i]);
            } else {
                assert(acts[prev.len() as int] == a);
            }
        }
        if phase_rank(s.phase) == 0 && es.len() > 1 {
            assert(acts[0] == prev[0]);
        }
    }
}

/// The status of an ingestion over a whole run: the first request sets it to
/// "processing", before any store is written; it is set to "completed" only
/// after the extraction was written to the graph and the abstract's vector
/// stored; and after "completed" only the end can follow. The status is set
/// to nothing else.
pub proof fn lemma_ingestion_status_order(s: IngestView, authors: Seq<IngestionAuthorInput>, es: Seq<IngestEventView>)
    requires
        s.phase == IngestPhase::Start,
        s.authors == authors_to_link_spec(authors),
        run_accepted(s, es),
    ensures
        ({
            let (u, acts) = ingest_run(s, es);
            &&& es.len() > 0 ==> acts[0] == IngestActionView::SetStatus("processing"@)
            &&& forall|i: int| 0 <= i < acts.len() && is_store_write(#[trigger] acts[i]) ==> i > 0
            &&& forall|i: int| 0 <= i < acts.len() ==> sets_known_status(#[trigger] acts[i])
            &&& (acts.len() > 0 && acts.last() == IngestActionView::SetStatus("completed"@)) ==> {
                &&& exists|i: int| 0 <= i < acts.len() && (#[trigger] acts[i]) is StoreExtraction
                &&& exists|i: int| 0 <= i < acts.len() && ((#[trigger] acts[i]) matches IngestActionView::StoreVector(_, _, _, true))
                &&& u.phase == IngestPhase::AwaitCompleted
                &&& forall|e: IngestEventView| #[trigger] ingest_accepts(u, e) ==> ingest_step_spec(u, e).1 == IngestActionView::Finish
            }
        }),
{
    lemma_ingest_inv_initial(s, authors);
    lemma_run_order(s, es);
    lemma_run_actions(s, es);
    let (u, acts) = ingest_run(s, es);
    if acts.len() > 0 && acts.last() == IngestActionView::SetStatus("completed"@) {
        reveal_strlit("processing");
        reveal_strlit("completed");
        let (t, prev) = ingest_run(s, es.drop_last());
        lemma_run_order(s, es.drop_last());
        lemma_step_order(t, es.last());
        assert(acts.last() == ingest_step_spec(t, es.last()).1);
        assert("processing"@.len() != "completed"@.len());
        assert(phase_rank(t.phase) >= 7);
    }
}

proof fn lemma_run_actions(s: IngestView, es: Seq<IngestEventView>)
    requires
        ingest_inv(s),
        phase_rank(s.phase) == 0,
        run_accepted(s, es),
    ensures
        ({
            let acts = ingest_run(s, es).1;
            &&& forall|i: int| 0 <= i < acts.len() && is_store_write(#[trigger] acts[i]) ==> i > 0
            &&& forall|i: int| 0 <= i < acts.len() ==> sets_known_status(#[trigger] acts[i])
        }),
    decreases es.len(),
{
    if es.len() > 0 {
        lemma_run_actions(s, es.drop_last());
        lemma_run_order(s, es.drop_last());
        let (t, prev) = ingest_run(s, es.drop_last());
        lemma_step_order(t, es.last());
        let a = ingest_step_spec(t, es.last()).1;
        let acts = prev.push(a);
        assert forall|i: int| 0 <= i < acts.len() && is_store_write(#[trigger] acts[i]) implies i > 0 by {
            if i < prev.len() {
                assert(acts[i] == prev[i]);
            } else if i == 0 {
                assert(phase_rank(t.phase) == 0);
            }
        }
        assert forall|i: int| 0 <= i < acts.len() implies sets_known_status(#[trigger] acts[i]) by {
            if i < prev.len() {
                assert(acts[i] == prev[i]);
            }
        }
    }
}

/// The authors a run of requests links, in the order it links them.
pub open spec fn linked_authors(acts: Seq<IngestActionView>) -> Seq<(Seq<char>, Seq<char>)>
    decreases acts.len(),
{
    if acts.len() == 0 {
        seq![]
    } else {
        match acts.last() {
            IngestActionView::LinkAuthor(name, email) => linked_authors(acts.drop_last()).push((name, email)),
            _ => linked_authors(acts.drop_last()),
        }
    }
}

/// The authors stored and linked are exactly those with an email, each once,
/// in their order, by name and email.
pub proof fn lemma_linked_authors_are_those_with_email(authors: Seq<IngestionAuthorInput>)
    ensures
        authors_to_link_spec(authors) == authors.filter(|a: IngestionAuthorInput| a.email@.len() > 0).map_values(
            |a: IngestionAuthorInput| (a.name@, a.email@),
        ),
    decreases authors.len(),
{
    reveal(Seq::filter);
    if authors.len() > 0 {
        lemma_linked_authors_are_those_with_email(authors.drop_last());
        let f = authors.drop_last().filter(|a: IngestionAuthorInput| a.email@.len() > 0);
        let a = authors.last();
        if a.email@.len() > 0 {
            assert(f.push(a).map_values(|a: IngestionAuthorInput| (a.name@, a.email@)) =~= f.map_values(
                |a: IngestionAuthorInput| (a.name@, a.email@),
            ).push((a.name@, a.email@)));
        }
    }
}

proof fn lemma_link_run(s: IngestView, es: Seq<IngestEventView>)
    requires
        s.phase == IngestPhase::Start,
        ingest_inv(s),
        run_accepted(s, es),
    ensures
        ({
            let (u, acts) = ingest_run(s, es);
            &&& u.authors == s.authors
            &&& acts.len() == es.len()
            &&& phase_rank(u.phase) <= 2 ==> linked_authors(acts) == Seq::<(Seq<char>, Seq<char>)>::empty()
            &&& u.phase == IngestPhase::AwaitAuthor ==> u.next < s.authors.len() && linked_authors(acts)
                == s.authors.take(u.next + 1 as int)
            &&& phase_rank(u.phase) >= 4 ==> linked_authors(acts) == s.authors
            &&& forall|j: int|
                0 <= j < acts.len() && (#[trigger] acts[j]) is ObtainFullText ==> linked_authors(acts.take(j))
                    == s.authors
        }),
    decreases es.len(),
{
    if es.len() > 0 {
        let prev_es = es.drop_last();
        lemma_link_run(s, prev_es);
        lemma_run_order(s, prev_es);
        let (t, prev) = ingest_run(s, prev_es);
        let e = es.last();
        lemma_step_order(t, e);
        let (u, a) = ingest_step_spec(t, e);
        let acts = prev.push(a);
        assert(acts.drop_last() =~= prev);
        assert(acts.last() == a);
        if t.phase == IngestPhase::AwaitPaperNode && e is Done {
            if t.authors.len() > 0 {
                assert(s.authors.take(1) =~= seq![s.authors[0]]);
            } else {
                assert(s.authors =~= Seq::<(Seq<char>, Seq<char>)>::empty());
            }
        } else if t.phase == IngestPhase::AwaitAuthor && e is Done {
            if t.next + 1 < t.authors.len() {
                assert(s.authors.take(t.next + 2 as int) =~= s.authors.take(t.next + 1 as int).push(s.authors[t.next + 1 as int]));
            } else {
                assert(s.authors.take(t.next + 1 as int) =~= s.authors);
            }
        }
        assert forall|j: int|
            0 <= j < acts.len() && (#[trigger] acts[j]) is ObtainFullText implies linked_authors(acts.take(j))
                == s.authors by {
            if j < prev.len() {
                assert(acts.take(j) =~= prev.take(j));
                assert(prev[j] == acts[j]);
            } else {
                assert(acts.take(j) =~= prev);
            }
        }
    }
}

/// Over any run of an ingestion, the authors it asks to link are the
/// authors with an email, each once and in order: the links made so far are
/// always a beginning of that list, and when the ingestion asks for the full
/// text every one of them has been linked, and none is linked after.
pub proof fn lemma_authors_linked_in_order(s: IngestView, authors: Seq<IngestionAuthorInput>, es: Seq<IngestEventView>)
    requires
        s.phase == IngestPhase::Start,
        s.authors == authors_to_link_spec(authors),
        run_accepted(s, es),
    ensures
        ({
            let acts = ingest_run(s, es).1;
            let with_email = authors.filter(|a: IngestionAuthorInput| a.email@.len() > 0).map_values(
                |a: IngestionAuthorInput| (a.name@, a.email@),
            );
            &&& linked_authors(acts).len() <= with_email.len()
            &&& linked_authors(acts) == with_email.take(linked_authors(acts).len() as int)
            &&& forall|j: int|
                0 <= j < acts.len() && (#[trigger] acts[j]) is ObtainFullText ==> linked_authors(acts.take(j))
                    == with_email && linked_authors(acts) == with_email
        }),
{
    lemma_ingest_inv_initial(s, authors);
    lemma_linked_authors_are_those_with_email(authors);
    lemma_link_run(s, es);
    lemma_run_order(s, es);
    let (u, acts) = ingest_run(s, es);
    if u.phase == IngestPhase::Start || u.phase == IngestPhase::AwaitProcessing || u.phase == IngestPhase::AwaitPaperNode {
        assert(s.authors.take(0) =~= Seq::<(Seq<char>, Seq<char>)>::empty());
    } else if u.phase != IngestPhase::AwaitAuthor {
        assert(s.authors.take(s.authors.len() as int) =~= s.authors);
    }
    assert forall|j: int|
        0 <= j < acts.len() && (#[trigger] acts[j]) is ObtainFullText implies linked_authors(acts.take(j)) == s.authors
            && linked_authors(acts) == s.authors by {
        lemma_linked_prefix(acts, j);
    }
}

/// The links of a beginning of a run are a beginning of the run's links.
proof fn lemma_linked_prefix(acts: Seq<IngestActionView>, j: int)
    requires
        0 <= j <= acts.len(),
    ensures
        linked_authors(acts.take(j)).len() <= linked_authors(acts).len(),
        linked_authors(acts.take(j)) == linked_authors(acts).take(linked_authors(acts.take(j)).len() as int),
    decreases acts.len(),
{
    if j < acts.len() {
        lemma_linked_prefix(acts.drop_last(), j);
        assert(acts.drop_last().take(j) =~= acts.take(j));
        let l = linked_authors(acts.drop_last());
        if acts.last() is LinkAuthor {
            assert(l.push((acts.last()->LinkAuthor_0, acts.last()->LinkAuthor_1)).take(
                linked_authors(acts.take(j)).len() as int,
            ) =~= l.take(linked_authors(acts.take(j)).len() as int));
        }
    } else {
        assert(acts.take(j) =~= acts);
        assert(linked_authors(acts).take(linked_authors(acts).len() as int) =~= linked_authors(acts));
    }
}

impl Ingestion {
    /// An ingestion of a new paper; authors without an email are not linked.
    pub fn new(
        paper_id: String,
        title: String,
        abstract_text: String,
        paper_url: String,
        pdf_url: Option<String>,
        authors: &Vec<IngestionAuthorInput>,
    ) -> (r: Self)
        ensures
            r@ == (IngestView {
                paper_id: paper_id@,
                title: title@,
                abstract_text: abstract_text@,
                paper_url: paper_url@,
                pdf_url: opt_view(pdf_url),
                authors: authors_to_link_spec(authors@),
                phase: IngestPhase::Start,
                next: 0,
                full_text: seq![],
                chunks: seq![],
            }),
    {
        let r = Ingestion {
            paper_id,
            title,
            abstract_text,
            paper_url,
            pdf_url,
            authors: authors_to_link(authors),
            phase: IngestPhase::Start,
            next: 0,
            full_text: String::new(),
            chunks: Vec::new(),
        };
        assert(string_views(r.chunks@) =~= seq![]);
        r
    }

    fn next_author(&mut self) -> (a: IngestAction)
        ensures
            (final(self)@, a@) == next_author_spec(old(self)@),
    {
        if self.next < self.authors.len() {
            self.phase = IngestPhase::AwaitAuthor;
            let a = &self.authors[self.next];
            IngestAction::LinkAuthor { name: a.name.clone(), email: a.email.clone() }
        } else {
            self.phase = IngestPhase::AwaitFullText;
            IngestAction::ObtainFullText(
                match &self.pdf_url {
                    Some(u) => Some(u.clone()),
                    None => None,
                },
            )
        }
    }

    fn next_chunk(&mut self) -> (a: IngestAction)
        ensures
            (final(self)@, a@) == next_chunk_spec(old(self)@),
    {
        let limit = embedded_chunk_count(self.chunks.len());
        if self.next < limit {
            self.phase = IngestPhase::AwaitChunk;
            IngestAction::StoreVector {
                vector_id: chunk_vector_id(self.paper_id.as_str(), self.next),
                chunk_type: to_string("body"),
                text: self.chunks[self.next].clone(),
                required: false,
            }
        } else {
            self.phase = IngestPhase::AwaitCompleted;
            IngestAction::SetStatus(to_string("completed"))
        }
    }

    /// Takes what the last request returned and says what to request next.
    pub fn step(&mut self, event: IngestEvent) -> (a: IngestAction)
        requires
            ingest_accepts(old(self)@, event@),
        ensures
            (final(self)@, a@) == ingest_step_spec(old(self)@, event@),
    {
        match event {
            IngestEvent::Begin => {
                self.phase = IngestPhase::AwaitProcessing;
                IngestAction::SetStatus(to_string("processing"))
            },
            IngestEvent::FullText(t) => {
                let full = full_text_or_abstract(t, self.abstract_text.as_str());
                let user = extraction_user_prompt(self.title.as_str(), self.abstract_text.as_str(), full.as_str());
                self.full_text = full;
                self.phase = IngestPhase::AwaitExtraction;
                IngestAction::AskModel { system: to_string(EXTRACTION_SYSTEM_PROMPT), user }
            },
            IngestEvent::ExtractionReplied(r) => {
                let extraction = match &r {
                    Some(raw) => match parse_extraction(raw.as_str()) {
                        Ok(e) => e,
                        Err(_) => empty_extraction(),
                    },
                    None => empty_extraction(),
                };
                proof {
                    let ev = ingested_extraction(opt_view(r));
                    assert(extraction@.concepts =~= ev.concepts);
                    assert(extraction@.citations =~= ev.citations);
                    assert(extraction@.key_findings =~= ev.key_findings);
                    assert(extraction@.methods =~= ev.methods);
                    assert(extraction@.topics =~= ev.topics);
                }
                self.phase = IngestPhase::AwaitGraphWrite;
                IngestAction::StoreExtraction(extraction)
            },
            IngestEvent::Done => {
                if self.phase == IngestPhase::AwaitProcessing {
                    self.phase = IngestPhase::AwaitPaperNode;
                    IngestAction::UpsertPaperNode {
                        paper_id: self.paper_id.clone(),
                        title: self.title.clone(),
                        paper_url: self.paper_url.clone(),
                        abstract_text: self.abstract_text.clone(),
                    }
                } else if self.phase == IngestPhase::AwaitPaperNode {
                    self.next = 0;
                    self.next_author()
                } else if self.phase == IngestPhase::AwaitAuthor {
                    assert(self@.authors.len() == self.authors@.len());
                    assert(self.next < self.authors.len());
                    self.next = self.next + 1;
                    self.next_author()
                } else if self.phase == IngestPhase::AwaitGraphWrite {
                    self.chunks = chunk_text(self.full_text.as_str(), CHUNK_WORDS, CHUNK_OVERLAP);
                    self.phase = IngestPhase::AwaitAbstract;
                    IngestAction::StoreVector {
                        vector_id: abstract_vector_id(self.paper_id.as_str()),
                        chunk_type: to_string("abstract"),
                        text: self.abstract_text.clone(),
                        required: true,
                    }
                } else if self.phase == IngestPhase::AwaitAbstract {
                    self.next = 0;
                    self.next_chunk()
                } else if self.phase == IngestPhase::AwaitChunk {
                    assert(string_views(self.chunks@).len() == self.chunks@.len());
                    assert(self.next < self.chunks.len());
                    self.next = self.next + 1;
                    self.next_chunk()
                } else {
                    self.phase = IngestPhase::Finished;
                    IngestAction::Finish
                }
            },
        }
    }
}

} // verus!
