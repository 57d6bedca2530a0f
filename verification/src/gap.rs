//! Deciding whether the knowledge base answers a question or has a gap.
//!
//! A gap is suspected when the best match scores below the confidence
//! threshold or nothing matched. With no matches the gap is certain; with
//! some, the language model is asked to confirm it, and a failed request
//! counts as a confirmed gap. For a gap, the concepts of up to three matched
//! papers are collected from the knowledge graph to route the question.
//!
//! The model and the graph are asked in turn, so the assessment is a state
//! machine driven by `step`.

use vstd::prelude::*;
use crate::models::{MetadataView, VectorMetadata, metadata_views};
use crate::retrieval::{distinct_nonempty, distinct_paper_ids, paper_ids_of};
use crate::text::{
    append_strings, chars_of, clone_strings, join_spec, join_strings, push_str, starts_with_chars, starts_with_spec,
    str_equal, string_views, take_chars, take_chars_spec, to_string, trim_spec, trim_str,
};

verus! {

// ---------------------------------------------------------------------------
// The model's verdict
// ---------------------------------------------------------------------------

/// The upper-case form of a string, as `str::to_uppercase` gives it.
pub uninterp spec fn unicode_uppercase(s: Seq<char>) -> Seq<char>;

/// Trusted: `str::to_uppercase`. Its documentation defines it by the Unicode
/// `Uppercase` mapping and gives no table, so the result is named.
#[verifier::external_body]
pub(crate) fn to_uppercase(s: &str) -> (r: String)
    ensures
        r@ == unicode_uppercase(s@),
{
    s.to_uppercase()
}

/// The model confirms a gap when its trimmed answer, upper-cased, begins
/// with `YES`.
pub open spec fn verdict_spec(reply: Seq<char>) -> bool {
    starts_with_spec(unicode_uppercase(trim_spec(reply)), "YES"@)
}

/// Reads the model's verdict.
pub fn model_confirms_gap(reply: &str) -> (r: bool)
    ensures
        r == verdict_spec(reply@),
{
    let t = trim_str(reply);
    let u = to_uppercase(t.as_str());
    let uv = chars_of(u.as_str());
    let yes = chars_of("YES");
    starts_with_chars(&uv, &yes)
}

/// The instructions given to the model for confirming a gap.
pub const GAP_SYSTEM_PROMPT: &'static str = "You are a knowledge gap detector for research papers.\nGiven a question and retrieved context, determine if the context adequately answers the question.\nRespond with ONLY \"YES\" if there is a gap (context does not answer the question) or \"NO\" if no gap.";

/// The previews of the first three passages: their first 200 characters.
pub open spec fn previews_spec(matches: Seq<MetadataView>) -> Seq<Seq<char>> {
    let n: nat = if matches.len() < 3 { matches.len() } else { 3 };
    Seq::new(n, |i: int| take_chars_spec(matches[i].text, 200))
}

/// The question and retrieved context given to the model.
pub open spec fn gap_user_prompt_spec(question: Seq<char>, matches: Seq<MetadataView>) -> Seq<char> {
    "Question: "@ + question + "\n\nRetrieved context:\n"@ + join_spec(previews_spec(matches), "\n---\n"@)
        + "\n\nIs there a knowledge gap?"@
}

/// Writes the gap question for the model.
pub fn gap_user_prompt(question: &str, matches: &Vec<VectorMetadata>) -> (r: String)
    ensures
        r@ == gap_user_prompt_spec(question@, metadata_views(matches@)),
{
    let ghost pv = previews_spec(metadata_views(matches@));
    let n: usize = if matches.len() < 3 { matches.len() } else { 3 };
    let mut previews: Vec<String> = Vec::new();
    let mut i: usize = 0;
    while i < n
        invariant
            n <= matches.len(),
            n as nat == pv.len(),
            pv == previews_spec(metadata_views(matches@)),
            i <= n,
            string_views(previews@) == pv.take(i as int),
        decreases n - i,
    {
        let p = take_chars(matches[i].text.as_str(), 200);
        let ghost before = previews@;
        previews.push(p);
        assert(metadata_views(matches@)[i as int] == matches@[i as int]@);
        assert(string_views(previews@) =~= string_views(before).push(p@));
        assert(string_views(previews@) =~= pv.take(i + 1));
        i += 1;
    }
    assert(pv.take(n as int) =~= pv);
    let mut out = to_string("Question: ");
    push_str(&mut out, question);
    push_str(&mut out, "\n\nRetrieved context:\n");
    push_str(&mut out, join_strings(&previews, "\n---\n").as_str());
    push_str(&mut out, "\n\nIs there a knowledge gap?");
    out
}

// ---------------------------------------------------------------------------
// Concepts
// ---------------------------------------------------------------------------

/// `s` with runs of equal neighbours reduced to one, as `Vec::dedup` leaves it.
pub open spec fn dedup_spec(s: Seq<Seq<char>>) -> Seq<Seq<char>>
    decreases s.len(),
{
    if s.len() == 0 {
        seq![]
    } else {
        let r = dedup_spec(s.drop_last());
        if r.len() > 0 && r.last() == s.last() {
            r
        } else {
            r.push(s.last())
        }
    }
}

/// The concepts kept for routing: neighbours deduplicated, at most ten.
pub open spec fn kept_concepts_spec(all: Seq<Seq<char>>) -> Seq<Seq<char>> {
    let d = dedup_spec(all);
    if d.len() <= 10 { d } else { d.take(10) }
}

/// Deduplicates neighbours and keeps at most ten concepts.
pub fn keep_concepts(all: &Vec<String>) -> (r: Vec<String>)
    ensures
        string_views(r@) == kept_concepts_spec(string_views(all@)),
{
    let ghost av = string_views(all@);
    let mut out: Vec<String> = Vec::new();
    let mut i: usize = 0;
    while i < all.len()
        invariant
            i <= all.len(),
            av == string_views(all@),
            string_views(out@) == dedup_spec(av.take(i as int)),
        decreases all.len() - i,
    {
        assert(av.take(i + 1).drop_last() =~= av.take(i as int));
        assert(av.take(i + 1).last() == all@[i as int]@);
        let ghost before = out@;
        let same = out.len() > 0 && str_equal(out[out.len() - 1].as_str(), all[i].as_str());
        if !same {
            out.push(all[i].clone());
            assert(string_views(out@) =~= string_views(before).push(all@[i as int]@));
        }
        i += 1;
    }
    assert(av.take(all.len() as int) =~= av);
    if out.len() > 10 {
        out.truncate(10);
        assert(string_views(out@) =~= dedup_spec(av).take(10));
    }
    out
}

/// No two neighbouring kept concepts are equal, and at most ten are kept.
pub proof fn lemma_kept_concepts(all: Seq<Seq<char>>)
    ensures
        kept_concepts_spec(all).len() <= 10,
        forall|k: int| 0 <= k < kept_concepts_spec(all).len() - 1 ==> #[trigger] kept_concepts_spec(all)[k]
            != kept_concepts_spec(all)[k + 1],
{
    lemma_dedup_no_repeats(all);
}

/// `dedup_spec` leaves no equal neighbours.
pub proof fn lemma_dedup_no_repeats(s: Seq<Seq<char>>)
    ensures
        forall|k: int| 0 <= k < dedup_spec(s).len() - 1 ==> #[trigger] dedup_spec(s)[k] != dedup_spec(s)[k + 1],
    decreases s.len(),
{
    if s.len() > 0 {
        lemma_dedup_no_repeats(s.drop_last());
        let r = dedup_spec(s.drop_last());
        if !(r.len() > 0 && r.last() == s.last()) {
            let r2 = r.push(s.last());
            assert forall|k: int| 0 <= k < r2.len() - 1 implies #[trigger] r2[k] != r2[k + 1] by {
                if k + 1 < r.len() {
                    assert(r2[k] == r[k] && r2[k + 1] == r[k + 1]);
                }
            }
        }
    }
}

// ---------------------------------------------------------------------------
// The assessment state machine
// ---------------------------------------------------------------------------

/// The verdict on a question.
#[derive(Debug, Clone)]
pub struct GapAssessment {
    pub has_gap: bool,
    /// Concepts of the matched papers, for routing.
    pub relevant_concepts: Vec<String>,
    /// The matched papers.
    pub relevant_paper_ids: Vec<String>,
}

/// Where an assessment stands.
#[derive(Debug, Clone, Copy, PartialEq, Eq, Structural)]
pub enum GapPhase {
    Start,
    /// Waiting for the model's verdict.
    AwaitVerdict,
    /// Waiting for the concepts of one matched paper.
    AwaitConcepts,
    Finished,
}

/// An assessment in progress.
pub struct GapDetector {
    pub question: String,
    pub matches: Vec<VectorMetadata>,
    pub below_threshold: bool,
    pub phase: GapPhase,
    pub has_gap: bool,
    /// The papers whose concepts are collected.
    pub concept_papers: Vec<String>,
    pub next: usize,
    /// The concepts collected so far, in order.
    pub collected: Vec<String>,
}

/// A `GapDetector` by its characters.
pub struct GapView {
    pub question: Seq<char>,
    pub matches: Seq<MetadataView>,
    pub below_threshold: bool,
    pub phase: GapPhase,
    pub has_gap: bool,
    pub concept_papers: Seq<Seq<char>>,
    pub next: nat,
    pub collected: Seq<Seq<char>>,
}

impl View for GapDetector {
    type V = GapView;

    open spec fn view(&self) -> GapView {
        GapView {
            question: self.question@,
            matches: metadata_views(self.matches@),
            below_threshold: self.below_threshold,
            phase: self.phase,
            has_gap: self.has_gap,
            concept_papers: string_views(self.concept_papers@),
            next: self.next as nat,
            collected: string_views(self.collected@),
        }
    }
}

/// What an assessment hears back.
pub enum GapEvent {
    Begin,
    /// The model's answer, or `None` when the request failed.
    VerdictReplied(Option<String>),
    /// The concepts of the paper asked about, or `None` when the lookup failed.
    ConceptsFound(Option<Vec<String>>),
}

/// A `GapEvent` by its characters.
pub enum GapEventView {
    Begin,
    VerdictReplied(Option<Seq<char>>),
    ConceptsFound(Option<Seq<Seq<char>>>),
}

impl View for GapEvent {
    type V = GapEventView;

    open spec fn view(&self) -> GapEventView {
        match self {
            GapEvent::Begin => GapEventView::Begin,
            GapEvent::VerdictReplied(r) => GapEventView::VerdictReplied(crate::models::opt_view(*r)),
            GapEvent::ConceptsFound(c) => GapEventView::ConceptsFound(
                match c {
                    Some(v) => Some(string_views(v@)),
                    None => None,
                },
            ),
        }
    }
}

/// What an assessment asks for next.
pub enum GapAction {
    /// Ask the model whether the context answers the question.
    AskModel { system: String, user: String },
    /// Look up the concepts of a paper.
    FetchConcepts(String),
    /// The assessment is over.
    Finish(GapAssessment),
}

/// A `GapAction` by its characters.
pub enum GapActionView {
    AskModel(Seq<char>, Seq<char>),
    FetchConcepts(Seq<char>),
    Finish(bool, Seq<Seq<char>>, Seq<Seq<char>>),
}

impl View for GapAction {
    type V = GapActionView;

    open spec fn view(&self) -> GapActionView {
        match self {
            GapAction::AskModel { system, user } => GapActionView::AskModel(system@, user@),
            GapAction::FetchConcepts(p) => GapActionView::FetchConcepts(p@),
            GapAction::Finish(a) => GapActionView::Finish(
                a.has_gap,
                string_views(a.relevant_concepts@),
                string_views(a.relevant_paper_ids@),
            ),
        }
    }
}

/// The event an assessment waits for in its phase.
pub open spec fn gap_accepts(s: GapView, e: GapEventView) -> bool {
    match e {
        GapEventView::Begin => s.phase == GapPhase::Start,
        GapEventView::VerdictReplied(_) => s.phase == GapPhase::AwaitVerdict,
        GapEventView::ConceptsFound(_) => s.phase == GapPhase::AwaitConcepts && s.next < s.concept_papers.len(),
    }
}

/// The distinct matched papers.
pub open spec fn matched_papers(s: GapView) -> Seq<Seq<char>> {
    distinct_nonempty(paper_ids_of(s.matches))
}

/// The next concept lookup, or the end of the assessment.
pub open spec fn next_concepts_spec(s: GapView) -> (GapView, GapActionView) {
    if s.next < s.concept_papers.len() {
        (GapView { phase: GapPhase::AwaitConcepts, ..s }, GapActionView::FetchConcepts(s.concept_papers[s.next as int]))
    } else {
        (
            GapView { phase: GapPhase::Finished, ..s },
            GapActionView::Finish(s.has_gap, kept_concepts_spec(s.collected), matched_papers(s)),
        )
    }
}

/// Once the verdict is known: the concepts of the first three matched
/// papers are collected.
pub open spec fn collect_spec(s: GapView, has_gap: bool) -> (GapView, GapActionView) {
    let papers = matched_papers(s);
    next_concepts_spec(
        GapView {
            has_gap,
            concept_papers: if papers.len() <= 3 { papers } else { papers.take(3) },
            next: 0,
            collected: seq![],
            ..s
        },
    )
}

/// One step of an assessment.
pub open spec fn gap_step_spec(s: GapView, e: GapEventView) -> (GapView, GapActionView) {
    match e {
        GapEventView::Begin => {
            if !(s.below_threshold || s.matches.len() == 0) {
                (GapView { phase: GapPhase::Finished, has_gap: false, ..s }, GapActionView::Finish(false, seq![], seq![]))
            } else if s.matches.len() == 0 {
                collect_spec(s, true)
            } else {
                (
                    GapView { phase: GapPhase::AwaitVerdict, ..s },
                    GapActionView::AskModel(GAP_SYSTEM_PROMPT@, gap_user_prompt_spec(s.question, s.matches)),
                )
            }
        },
        GapEventView::VerdictReplied(r) => collect_spec(
            s,
            match r {
                Some(t) => verdict_spec(t),
                None => true,
            },
        ),
        GapEventView::ConceptsFound(c) => next_concepts_spec(
            GapView {
                collected: match c {
                    Some(v) => s.collected + v,
                    None => s.collected,
                },
                next: s.next + 1,
                ..s
            },
        ),
    }
}

impl GapDetector {
    /// An assessment of `question` given its matches and whether the best
    /// match scored below the confidence threshold.
    pub fn new(question: String, matches: Vec<VectorMetadata>, below_threshold: bool) -> (r: Self)
        ensures
            r@ == (GapView {
                question: question@,
                matches: metadata_views(matches@),
                below_threshold,
                phase: GapPhase::Start,
                has_gap: false,
                concept_papers: seq![],
                next: 0,
                collected: seq![],
            }),
    {
        let r = GapDetector {
            question,
            matches,
            below_threshold,
            phase: GapPhase::Start,
            has_gap: false,
            concept_papers: Vec::new(),
            next: 0,
            collected: Vec::new(),
        };
        assert(string_views(r.concept_papers@) =~= seq![]);
        assert(string_views(r.collected@) =~= seq![]);
        r
    }

    fn next_concepts(&mut self) -> (a: GapAction)
        ensures
            (final(self)@, a@) == next_concepts_spec(old(self)@),
    {
        if self.next < self.concept_papers.len() {
            self.phase = GapPhase::AwaitConcepts;
            assert(string_views(self.concept_papers@)[self.next as int] == self.concept_papers@[self.next as int]@);
            GapAction::FetchConcepts(self.concept_papers[self.next].clone())
        } else {
            self.phase = GapPhase::Finished;
            GapAction::Finish(
                GapAssessment {
                    has_gap: self.has_gap,
                    relevant_concepts: keep_concepts(&self.collected),
                    relevant_paper_ids: distinct_paper_ids(&self.matches),
                },
            )
        }
    }

    fn collect(&mut self, has_gap: bool) -> (a: GapAction)
        ensures
            (final(self)@, a@) == collect_spec(old(self)@, has_gap),
    {
        let mut papers = distinct_paper_ids(&self.matches);
        if papers.len() > 3 {
            let ghost pv = string_views(papers@);
            papers.truncate(3);
            assert(string_views(papers@) =~= pv.take(3));
        }
        self.has_gap = has_gap;
        self.concept_papers = papers;
        self.next = 0;
        self.collected = Vec::new();
        assert(string_views(self.collected@) =~= seq![]);
        self.next_concepts()
    }

    /// Takes what the last request returned and says what to request next.
    pub fn step(&mut self, event: GapEvent) -> (a: GapAction)
        requires
            gap_accepts(old(self)@, event@),
        ensures
            (final(self)@, a@) == gap_step_spec(old(self)@, event@),
    {
        match event {
            GapEvent::Begin => {
                if !(self.below_threshold || self.matches.len() == 0) {
                    self.phase = GapPhase::Finished;
                    self.has_gap = false;
                    let none_c: Vec<String> = Vec::new();
                    let none_p: Vec<String> = Vec::new();
                    assert(string_views(none_c@) =~= seq![]);
                    assert(string_views(none_p@) =~= seq![]);
                    let a = GapAction::Finish(
                        GapAssessment { has_gap: false, relevant_concepts: none_c, relevant_paper_ids: none_p },
                    );
                    assert(a@ == GapActionView::Finish(false, seq![], seq![]));
                    a
                } else if self.matches.len() == 0 {
                    self.collect(true)
                } else {
                    self.phase = GapPhase::AwaitVerdict;
                    let user = gap_user_prompt(self.question.as_str(), &self.matches);
                    GapAction::AskModel { system: to_string(GAP_SYSTEM_PROMPT), user }
                }
            },
            GapEvent::VerdictReplied(r) => {
                let has_gap = match &r {
                    Some(t) => model_confirms_gap(t.as_str()),
                    None => true,
                };
                self.collect(has_gap)
            },
            GapEvent::ConceptsFound(c) => {
                assert(string_views(self.concept_papers@).len() == self.concept_papers@.len());
                match c {
                    Some(v) => append_strings(&mut self.collected, &v),
                    None => {},
                }
                assert(self.next < self.concept_papers.len());
                self.next = self.next + 1;
                self.next_concepts()
            },
        }
    }
}

} // verus!

verus! {

/// What holds of an assessment between any two steps: a pending concept
/// lookup is for one of at most three chosen papers.
pub open spec fn gap_inv(s: GapView) -> bool {
    &&& s.concept_papers.len() <= 3
    &&& s.phase == GapPhase::AwaitConcepts ==> s.next < s.concept_papers.len()
}

/// An assessment made by `GapDetector::new` starts in a state where its
/// invariant holds.
pub proof fn lemma_gap_inv_initial(s: GapView)
    requires
        s.phase == GapPhase::Start,
        s.concept_papers.len() == 0,
    ensures
        gap_inv(s),
{
}

/// Every step keeps the invariant, so the concepts found for a pending lookup
/// are always accepted.
pub proof fn lemma_gap_step_inv(s: GapView, e: GapEventView)
    requires
        gap_inv(s),
        gap_accepts(s, e),
    ensures
        gap_inv(gap_step_spec(s, e).0),
        gap_step_spec(s, e).0.phase == GapPhase::AwaitConcepts ==> gap_accepts(
            gap_step_spec(s, e).0,
            GapEventView::ConceptsFound(None),
        ),
{
}

/// A question whose best match clears the threshold has no gap: the
/// assessment finishes at once, without asking the model or the graph.
pub proof fn lemma_confident_answer_has_no_gap(s: GapView)
    requires
        s.phase == GapPhase::Start,
        !s.below_threshold,
        s.matches.len() > 0,
    ensures
        gap_step_spec(s, GapEventView::Begin).1 == GapActionView::Finish(false, seq![], seq![]),
{
}

/// With nothing matched the gap is certain: the model is not asked.
pub proof fn lemma_no_match_is_gap(s: GapView)
    requires
        s.phase == GapPhase::Start,
        s.matches.len() == 0,
    ensures
        gap_step_spec(s, GapEventView::Begin).1 == GapActionView::Finish(true, kept_concepts_spec(seq![]), seq![]),
{
    assert(paper_ids_of(s.matches) =~= seq![]);
}

/// A failed request for the model's verdict counts as a confirmed gap.
pub proof fn lemma_failed_verdict_is_gap(s: GapView)
    requires
        s.phase == GapPhase::AwaitVerdict,
    ensures
        gap_step_spec(s, GapEventView::VerdictReplied(None)).0.has_gap,
{
}

/// Concepts are collected from at most three distinct matched papers: the
/// first ones, in the order they were matched.
pub proof fn lemma_at_most_three_concept_papers(s: GapView, has_gap: bool)
    ensures
        collect_spec(s, has_gap).0.concept_papers.len() <= 3,
        collect_spec(s, has_gap).0.concept_papers.len() <= matched_papers(s).len(),
        collect_spec(s, has_gap).0.concept_papers == matched_papers(s).take(
            collect_spec(s, has_gap).0.concept_papers.len() as int,
        ),
{
    let papers = matched_papers(s);
    if papers.len() <= 3 {
        assert(papers.take(papers.len() as int) =~= papers);
    }
}

} // verus!
