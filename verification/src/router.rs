//! Routing a knowledge gap to people who can close it.
//!
//! Registered experts who know the gap's concepts come first; when they are
//! fewer than the per-question email budget, paper authors of those concepts
//! are added. When there are more candidates than the budget, the language
//! model ranks them. The first candidates, up to the budget, are emailed.
//!
//! Each of these steps waits on the graph, the language model, the paper
//! store or the mail service, so the routing is a state machine: `step` takes
//! what the last request returned and says what to request next.

use vstd::prelude::*;
use crate::graph::{Contact, contact_views};
use crate::numeral::{decimal_spec, parse_decimal, parse_unsigned_spec, usize_to_decimal};
use crate::text::{
    char_vec_views, chars_of, clone_strings, join_spec, join_strings, push_str, split_chars,
    split_spec, split_state, str_equal, string_views, to_string, trim_chars, trim_spec,
};

verus! {

// ---------------------------------------------------------------------------
// Candidates
// ---------------------------------------------------------------------------

/// Where a candidate was found.
#[derive(Debug, Clone, Copy, PartialEq, Eq, Structural)]
pub enum CandidateSource {
    RegisteredExpert,
    PaperAuthor,
}

/// A person who may be asked about a gap.
#[derive(Debug, Clone)]
pub struct ExpertCandidate {
    pub name: String,
    pub email: String,
    pub source: CandidateSource,
}

/// An `ExpertCandidate` by its characters.
pub struct CandidateView {
    pub name: Seq<char>,
    pub email: Seq<char>,
    pub source: CandidateSource,
}

impl View for ExpertCandidate {
    type V = CandidateView;

    open spec fn view(&self) -> CandidateView {
        CandidateView { name: self.name@, email: self.email@, source: self.source }
    }
}

/// The views of a list of candidates.
pub open spec fn candidate_views(v: Seq<ExpertCandidate>) -> Seq<CandidateView> {
    Seq::new(v.len(), |i: int| v[i]@)
}

/// The outcome of routing: the emails actually sent, and the candidates in
/// the order they were considered.
#[derive(Debug, Clone)]
pub struct RoutingResult {
    pub notified: Vec<String>,
    pub candidates: Vec<ExpertCandidate>,
}

/// A copy of a candidate.
pub fn clone_candidate(c: &ExpertCandidate) -> (r: ExpertCandidate)
    ensures
        r@ == c@,
{
    ExpertCandidate { name: c.name.clone(), email: c.email.clone(), source: c.source }
}

/// A copy of a list of candidates.
pub fn clone_candidates(v: &Vec<ExpertCandidate>) -> (r: Vec<ExpertCandidate>)
    ensures
        candidate_views(r@) == candidate_views(v@),
{
    let mut out: Vec<ExpertCandidate> = Vec::new();
    let mut i: usize = 0;
    while i < v.len()
        invariant
            i <= v.len(),
            candidate_views(out@) == candidate_views(v@).take(i as int),
        decreases v.len() - i,
    {
        let ghost before = out@;
        let c = clone_candidate(&v[i]);
        out.push(c);
        assert(candidate_views(out@) =~= candidate_views(before).push(c@));
        assert(candidate_views(out@) =~= candidate_views(v@).take(i + 1));
        i += 1;
    }
    assert(candidate_views(v@).take(v.len() as int) =~= candidate_views(v@));
    out
}

/// The registered experts as candidates, in the order the graph gave them.
pub open spec fn expert_candidates_spec(experts: Seq<(Seq<char>, Seq<char>)>) -> Seq<CandidateView> {
    Seq::new(
        experts.len(),
        |i: int| CandidateView { name: experts[i].0, email: experts[i].1, source: CandidateSource::RegisteredExpert },
    )
}

/// Some candidate has this email.
pub open spec fn candidate_has_email(list: Seq<CandidateView>, email: Seq<char>) -> bool {
    exists|k: int| 0 <= k < list.len() && (#[trigger] list[k]).email == email
}

/// The candidates after adding paper authors: an author is added when no
/// candidate listed so far has the same email.
pub open spec fn with_authors_spec(candidates: Seq<CandidateView>, authors: Seq<(Seq<char>, Seq<char>)>) -> Seq<CandidateView>
    decreases authors.len(),
{
    if authors.len() == 0 {
        candidates
    } else {
        let r = with_authors_spec(candidates, authors.drop_last());
        let a = authors.last();
        if candidate_has_email(r, a.1) {
            r
        } else {
            r.push(CandidateView { name: a.0, email: a.1, source: CandidateSource::PaperAuthor })
        }
    }
}

/// Registered experts as candidates.
pub fn expert_candidates(experts: &Vec<Contact>) -> (r: Vec<ExpertCandidate>)
    ensures
        candidate_views(r@) == expert_candidates_spec(contact_views(experts@)),
{
    let mut out: Vec<ExpertCandidate> = Vec::new();
    let mut i: usize = 0;
    while i < experts.len()
        invariant
            i <= experts.len(),
            candidate_views(out@) == expert_candidates_spec(contact_views(experts@)).take(i as int),
        decreases experts.len() - i,
    {
        let ghost before = out@;
        let c = ExpertCandidate {
            name: experts[i].0.clone(),
            email: experts[i].1.clone(),
            source: CandidateSource::RegisteredExpert,
        };
        out.push(c);
        assert(candidate_views(out@) =~= candidate_views(before).push(c@));
        assert(candidate_views(out@) =~= expert_candidates_spec(contact_views(experts@)).take(i + 1));
        i += 1;
    }
    assert(expert_candidates_spec(contact_views(experts@)).take(experts.len() as int) =~= expert_candidates_spec(
        contact_views(experts@),
    ));
    out
}

/// Whether a candidate list holds this email.
pub fn candidates_contain_email(list: &Vec<ExpertCandidate>, email: &String) -> (r: bool)
    ensures
        r == candidate_has_email(candidate_views(list@), email@),
{
    let mut k: usize = 0;
    while k < list.len()
        invariant
            k <= list.len(),
            forall|j: int| 0 <= j < k ==> list@[j].email@ != email@,
        decreases list.len() - k,
    {
        if str_equal(list[k].email.as_str(), email.as_str()) {
            assert(candidate_views(list@)[k as int].email == email@);
            return true;
        }
        k += 1;
    }
    assert forall|j: int| 0 <= j < candidate_views(list@).len() implies #[trigger] candidate_views(list@)[j].email
        != email@ by {
        assert(candidate_views(list@)[j].email == list@[j].email@);
    }
    false
}

/// Adds paper authors whose emails are not yet among the candidates.
pub fn add_author_candidates(candidates: &mut Vec<ExpertCandidate>, authors: &Vec<Contact>)
    ensures
        candidate_views(final(candidates)@) == with_authors_spec(
            candidate_views(old(candidates)@),
            contact_views(authors@),
        ),
{
    let ghost start = candidate_views(candidates@);
    let ghost av = contact_views(authors@);
    let mut i: usize = 0;
    while i < authors.len()
        invariant
            i <= authors.len(),
            av == contact_views(authors@),
            candidate_views(candidates@) == with_authors_spec(start, av.take(i as int)),
        decreases authors.len() - i,
    {
        assert(av.take(i + 1).drop_last() =~= av.take(i as int));
        assert(av.take(i + 1).last() == (authors@[i as int].0@, authors@[i as int].1@));
        if !candidates_contain_email(candidates, &authors[i].1) {
            let ghost before = candidates@;
            let c = ExpertCandidate {
                name: authors[i].0.clone(),
                email: authors[i].1.clone(),
                source: CandidateSource::PaperAuthor,
            };
            candidates.push(c);
            assert(candidate_views(candidates@) =~= candidate_views(before).push(c@));
        }
        i += 1;
    }
    assert(av.take(authors.len() as int) =~= av);
}

/// Every candidate email appears once.
pub open spec fn distinct_candidate_emails(list: Seq<CandidateView>) -> bool {
    forall|j: int, k: int| 0 <= j < k < list.len() ==> (#[trigger] list[j]).email != (#[trigger] list[k]).email
}

/// Experts with distinct emails stay distinct once authors are added: no one
/// is asked twice.
pub proof fn lemma_candidates_distinct(experts: Seq<(Seq<char>, Seq<char>)>, authors: Seq<(Seq<char>, Seq<char>)>)
    requires
        forall|j: int, k: int| 0 <= j < k < experts.len() ==> (#[trigger] experts[j]).1 != (#[trigger] experts[k]).1,
    ensures
        distinct_candidate_emails(with_authors_spec(expert_candidates_spec(experts), authors)),
    decreases authors.len(),
{
    let base = expert_candidates_spec(experts);
    if authors.len() == 0 {
        assert forall|j: int, k: int| 0 <= j < k < base.len() implies (#[trigger] base[j]).email != (#[trigger] base[k]).email by {
            assert(experts[j].1 != experts[k].1);
        }
    } else {
        lemma_candidates_distinct(experts, authors.drop_last());
        let r = with_authors_spec(base, authors.drop_last());
        let a = authors.last();
        if !candidate_has_email(r, a.1) {
            let r2 = r.push(CandidateView { name: a.0, email: a.1, source: CandidateSource::PaperAuthor });
            assert forall|j: int, k: int| 0 <= j < k < r2.len() implies (#[trigger] r2[j]).email != (#[trigger] r2[k]).email by {
                if k == r.len() {
                    assert(r[j] == r2[j]);
                }
            }
        }
    }
}

// ---------------------------------------------------------------------------
// Ranking
// ---------------------------------------------------------------------------

/// The instructions given to the language model for ranking candidates.
pub const RANKING_SYSTEM_PROMPT: &'static str = "You are an expert routing assistant. \nGiven a research question and a list of potential experts/authors,\nreturn the indices (1-based) of the top 3 most relevant candidates, comma-separated.\nRespond ONLY with numbers like: 1,3,5";

/// The line that presents the `i`-th candidate (counting from one).
pub open spec fn candidate_line(i: nat, c: CandidateView) -> Seq<char> {
    decimal_spec(i) + ". "@ + c.name + " <"@ + c.email + ">"@
}

/// The question and the numbered candidate list given to the model.
pub open spec fn ranking_user_prompt_spec(question: Seq<char>, candidates: Seq<CandidateView>) -> Seq<char> {
    "Question: "@ + question + "\n\nCandidates:\n"@ + join_spec(
        Seq::new(candidates.len(), |i: int| candidate_line((i + 1) as nat, candidates[i])),
        "\n"@,
    )
}

/// Writes the ranking request's question and candidate list.
pub fn ranking_user_prompt(question: &str, candidates: &Vec<ExpertCandidate>) -> (r: String)
    ensures
        r@ == ranking_user_prompt_spec(question@, candidate_views(candidates@)),
{
    let ghost lines = Seq::new(
        candidates@.len(),
        |i: int| candidate_line((i + 1) as nat, candidate_views(candidates@)[i]),
    );
    let mut list: Vec<String> = Vec::new();
    let mut i: usize = 0;
    while i < candidates.len()
        invariant
            i <= candidates.len(),
            lines == Seq::new(
                candidates@.len(),
                |i: int| candidate_line((i + 1) as nat, candidate_views(candidates@)[i]),
            ),
            string_views(list@) == lines.take(i as int),
        decreases candidates.len() - i,
    {
        let mut line = usize_to_decimal(i + 1);
        push_str(&mut line, ". ");
        push_str(&mut line, candidates[i].name.as_str());
        push_str(&mut line, " <");
        push_str(&mut line, candidates[i].email.as_str());
        push_str(&mut line, ">");
        let ghost before = list@;
        list.push(line);
        assert(candidate_views(candidates@)[i as int] == candidates@[i as int]@);
        assert(lines[i as int] == line@);
        assert(string_views(list@) =~= string_views(before).push(line@));
        assert(string_views(list@) =~= lines.take(i + 1));
        i += 1;
    }
    assert(lines.take(candidates.len() as int) =~= lines);
    let mut out = to_string("Question: ");
    push_str(&mut out, question);
    push_str(&mut out, "\n\nCandidates:\n");
    push_str(&mut out, join_strings(&list, "\n").as_str());
    out
}

/// The candidate index named by one comma-separated piece of the model's
/// answer: a number from 1 to `n`, trimmed, as a 0-based index.
pub open spec fn rank_index_spec(piece: Seq<char>, n: nat) -> Option<int> {
    match parse_unsigned_spec(trim_spec(piece), usize::MAX as nat) {
        Some(v) => if 0 < v <= n {
            Some(v - 1)
        } else {
            None
        },
        None => None,
    }
}

/// The candidate indices named by the pieces of an answer, in order.
pub open spec fn rank_indices_spec(pieces: Seq<Seq<char>>, n: nat) -> Seq<int>
    decreases pieces.len(),
{
    if pieces.len() == 0 {
        seq![]
    } else {
        let rest = rank_indices_spec(pieces.drop_last(), n);
        match rank_index_spec(pieces.last(), n) {
            Some(i) => rest.push(i),
            None => rest,
        }
    }
}

/// Reads the model's ranking: the 0-based indices of the candidates it
/// names, in the order it names them.
pub fn parse_ranking(reply: &str, n: usize) -> (r: Vec<usize>)
    ensures
        r@.map_values(|i: usize| i as int) == rank_indices_spec(split_spec(reply@, ','), n as nat),
        forall|k: int| 0 <= k < r@.len() ==> r@[k] < n,
{
    let v = chars_of(reply);
    let pieces = split_chars(&v, ',');
    let ghost pv = char_vec_views(pieces@);
    let mut out: Vec<usize> = Vec::new();
    let mut i: usize = 0;
    while i < pieces.len()
        invariant
            i <= pieces.len(),
            pv == char_vec_views(pieces@),
            out@.map_values(|i: usize| i as int) == rank_indices_spec(pv.take(i as int), n as nat),
            forall|k: int| 0 <= k < out@.len() ==> out@[k] < n,
        decreases pieces.len() - i,
    {
        assert(pv.take(i + 1).drop_last() =~= pv.take(i as int));
        assert(pv.take(i + 1).last() == pieces@[i as int]@);
        let t = trim_chars(&pieces[i]);
        match parse_decimal(&t, usize::MAX as u64) {
            Some(x) => {
                if 0 < x && x <= n as u64 {
                    let ghost before = out@;
                    out.push((x - 1) as usize);
                    assert(out@.map_values(|i: usize| i as int) =~= before.map_values(|i: usize| i as int).push(
                        x - 1,
                    ));
                }
            },
            None => {},
        }
        i += 1;
    }
    assert(pv.take(pieces.len() as int) =~= pv);
    out
}

/// The candidates in the model's order: those it names (a candidate named
/// twice appears twice), or all of them, as they were, when it names none or
/// gave no answer.
pub open spec fn ranking_spec(candidates: Seq<CandidateView>, reply: Option<Seq<char>>) -> Seq<CandidateView> {
    match reply {
        None => candidates,
        Some(r) => {
            let idx = rank_indices_spec(split_spec(r, ','), candidates.len());
            if idx.len() == 0 {
                candidates
            } else {
                Seq::new(idx.len(), |k: int| candidates[idx[k]])
            }
        },
    }
}

/// Applies the model's answer (none when the request failed) to the
/// candidates.
pub fn apply_ranking(candidates: &Vec<ExpertCandidate>, reply: Option<&str>) -> (r: Vec<ExpertCandidate>)
    ensures
        candidate_views(r@) == ranking_spec(
            candidate_views(candidates@),
            match reply {
                Some(s) => Some(s@),
                None => None,
            },
        ),
{
    match reply {
        None => clone_candidates(candidates),
        Some(text) => {
            let idx = parse_ranking(text, candidates.len());
            let ghost iv = idx@.map_values(|i: usize| i as int);
            if idx.len() == 0 {
                return clone_candidates(candidates);
            }
            let mut out: Vec<ExpertCandidate> = Vec::new();
            let mut k: usize = 0;
            while k < idx.len()
                invariant
                    k <= idx.len(),
                    iv == idx@.map_values(|i: usize| i as int),
                    forall|j: int| 0 <= j < idx@.len() ==> idx@[j] < candidates.len(),
                    candidate_views(out@) == Seq::new(k as nat, |j: int| candidate_views(candidates@)[iv[j]]),
                decreases idx.len() - k,
            {
                let c = clone_candidate(&candidates[idx[k]]);
                let ghost before = out@;
                out.push(c);
                assert(iv[k as int] == idx@[k as int] as int);
                assert(candidate_views(candidates@)[iv[k as int]] == c@);
                assert(candidate_views(out@) =~= candidate_views(before).push(c@));
                assert(candidate_views(out@) =~= Seq::new((k + 1) as nat, |j: int| candidate_views(candidates@)[iv[j]]));
                k += 1;
            }
            out
        },
    }
}

// ---------------------------------------------------------------------------
// The routing state machine
// ---------------------------------------------------------------------------

/// Where a routing stands.
#[derive(Debug, Clone, Copy, PartialEq, Eq, Structural)]
pub enum RouterPhase {
    /// Nothing requested yet.
    Start,
    /// Waiting for the registered experts who know the concepts.
    AwaitExperts,
    /// Waiting for the paper authors of the concepts.
    AwaitAuthors,
    /// Waiting for the model's ranking.
    AwaitRanking,
    /// Waiting for the title of the paper the question is about.
    AwaitTitle,
    /// Waiting to hear whether an email went out.
    AwaitSend,
    /// The routing is over.
    Finished,
}

/// A routing in progress.
pub struct ExpertRouter {
    pub question: String,
    pub concepts: Vec<String>,
    pub paper_ids: Vec<String>,
    pub max_emails: usize,
    pub phase: RouterPhase,
    pub candidates: Vec<ExpertCandidate>,
    pub ranked: Vec<ExpertCandidate>,
    pub next: usize,
    pub paper_title: String,
    pub notified: Vec<String>,
}

/// An `ExpertRouter` by its characters.
pub struct RouterView {
    pub question: Seq<char>,
    pub concepts: Seq<Seq<char>>,
    pub paper_ids: Seq<Seq<char>>,
    pub max_emails: nat,
    pub phase: RouterPhase,
    pub candidates: Seq<CandidateView>,
    pub ranked: Seq<CandidateView>,
    pub next: nat,
    pub paper_title: Seq<char>,
    pub notified: Seq<Seq<char>>,
}

impl View for ExpertRouter {
    type V = RouterView;

    open spec fn view(&self) -> RouterView {
        RouterView {
            question: self.question@,
            concepts: string_views(self.concepts@),
            paper_ids: string_views(self.paper_ids@),
            max_emails: self.max_emails as nat,
            phase: self.phase,
            candidates: candidate_views(self.candidates@),
            ranked: candidate_views(self.ranked@),
            next: self.next as nat,
            paper_title: self.paper_title@,
            notified: string_views(self.notified@),
        }
    }
}

/// What a routing hears back from the request it made.
pub enum RouterEvent {
    /// Start the routing.
    Begin,
    /// The registered experts who know the concepts (none when the lookup failed).
    ExpertsFound(Vec<Contact>),
    /// The paper authors of the concepts (none when the lookup failed).
    AuthorsFound(Vec<Contact>),
    /// The model's ranking answer, or `None` when the request failed.
    RankingReplied(Option<String>),
    /// The title of the paper, if one of the ids names a stored paper.
    TitleFound(Option<String>),
    /// Whether the email went out.
    EmailSent(bool),
}

/// A `RouterEvent` by its characters.
pub enum RouterEventView {
    Begin,
    ExpertsFound(Seq<(Seq<char>, Seq<char>)>),
    AuthorsFound(Seq<(Seq<char>, Seq<char>)>),
    RankingReplied(Option<Seq<char>>),
    TitleFound(Option<Seq<char>>),
    EmailSent(bool),
}

impl View for RouterEvent {
    type V = RouterEventView;

    open spec fn view(&self) -> RouterEventView {
        match self {
            RouterEvent::Begin => RouterEventView::Begin,
            RouterEvent::ExpertsFound(v) => RouterEventView::ExpertsFound(contact_views(v@)),
            RouterEvent::AuthorsFound(v) => RouterEventView::AuthorsFound(contact_views(v@)),
            RouterEvent::RankingReplied(r) => RouterEventView::RankingReplied(crate::models::opt_view(*r)),
            RouterEvent::TitleFound(t) => RouterEventView::TitleFound(crate::models::opt_view(*t)),
            RouterEvent::EmailSent(b) => RouterEventView::EmailSent(*b),
        }
    }
}

/// What a routing asks for next.
pub enum RouterAction {
    /// Look up the registered experts who know these concepts.
    FindExperts(Vec<String>),
    /// Look up the paper authors of these concepts.
    FindAuthors(Vec<String>),
    /// Ask the model to rank the candidates.
    RankCandidates { system: String, user: String },
    /// Find the title of the first of these papers that is stored.
    LookupPaperTitle(Vec<String>),
    /// Email a candidate the question.
    SendEmail { to_name: String, to_email: String, paper_title: String, question: String, paper_id: String },
    /// The routing is over.
    Finish(RoutingResult),
}

/// A `RouterAction` by its characters.
pub enum RouterActionView {
    FindExperts(Seq<Seq<char>>),
    FindAuthors(Seq<Seq<char>>),
    RankCandidates(Seq<char>, Seq<char>),
    LookupPaperTitle(Seq<Seq<char>>),
    SendEmail(Seq<char>, Seq<char>, Seq<char>, Seq<char>, Seq<char>),
    Finish(Seq<Seq<char>>, Seq<CandidateView>),
}

impl View for RouterAction {
    type V = RouterActionView;

    open spec fn view(&self) -> RouterActionView {
        match self {
            RouterAction::FindExperts(c) => RouterActionView::FindExperts(string_views(c@)),
            RouterAction::FindAuthors(c) => RouterActionView::FindAuthors(string_views(c@)),
            RouterAction::RankCandidates { system, user } => RouterActionView::RankCandidates(system@, user@),
            RouterAction::LookupPaperTitle(ids) => RouterActionView::LookupPaperTitle(string_views(ids@)),
            RouterAction::SendEmail { to_name, to_email, paper_title, question, paper_id } =>
                RouterActionView::SendEmail(to_name@, to_email@, paper_title@, question@, paper_id@),
            RouterAction::Finish(r) => RouterActionView::Finish(
                string_views(r.notified@),
                candidate_views(r.candidates@),
            ),
        }
    }
}

/// The event a routing waits for in its phase.
pub open spec fn router_accepts(s: RouterView, e: RouterEventView) -> bool {
    match e {
        RouterEventView::Begin => s.phase == RouterPhase::Start,
        RouterEventView::ExpertsFound(_) => s.phase == RouterPhase::AwaitExperts,
        RouterEventView::AuthorsFound(_) => s.phase == RouterPhase::AwaitAuthors,
        RouterEventView::RankingReplied(_) => s.phase == RouterPhase::AwaitRanking,
        RouterEventView::TitleFound(_) => s.phase == RouterPhase::AwaitTitle && s.next < s.ranked.len(),
        RouterEventView::EmailSent(_) => s.phase == RouterPhase::AwaitSend && s.next < s.ranked.len(),
    }
}

/// The next email, or the end: the next ranked candidate is emailed while
/// fewer than the budget have been tried.
pub open spec fn send_next_spec(s: RouterView) -> (RouterView, RouterActionView) {
    if s.next < s.max_emails && s.next < s.ranked.len() {
        (RouterView { phase: RouterPhase::AwaitTitle, ..s }, RouterActionView::LookupPaperTitle(s.paper_ids))
    } else {
        (RouterView { phase: RouterPhase::Finished, ..s }, RouterActionView::Finish(s.notified, s.ranked))
    }
}

/// What follows once the candidates are known: a ranking when there are more
/// than the budget, the emails otherwise.
pub open spec fn after_candidates_spec(s: RouterView) -> (RouterView, RouterActionView) {
    if s.candidates.len() > s.max_emails {
        (
            RouterView { phase: RouterPhase::AwaitRanking, ..s },
            RouterActionView::RankCandidates(
                RANKING_SYSTEM_PROMPT@,
                ranking_user_prompt_spec(s.question, s.candidates),
            ),
        )
    } else {
        send_next_spec(RouterView { ranked: s.candidates, next: 0, ..s })
    }
}

/// The paper a question is about: the first matched paper, or none.
pub open spec fn first_or_empty(ids: Seq<Seq<char>>) -> Seq<char> {
    if ids.len() > 0 { ids[0] } else { seq![] }
}

/// One step of a routing.
pub open spec fn router_step_spec(s: RouterView, e: RouterEventView) -> (RouterView, RouterActionView) {
    match e {
        RouterEventView::Begin => (
            RouterView { phase: RouterPhase::AwaitExperts, ..s },
            RouterActionView::FindExperts(s.concepts),
        ),
        RouterEventView::ExpertsFound(experts) => {
            let s2 = RouterView { candidates: expert_candidates_spec(experts), ..s };
            if s2.candidates.len() < s.max_emails {
                (RouterView { phase: RouterPhase::AwaitAuthors, ..s2 }, RouterActionView::FindAuthors(s.concepts))
            } else {
                after_candidates_spec(s2)
            }
        },
        RouterEventView::AuthorsFound(authors) => after_candidates_spec(
            RouterView { candidates: with_authors_spec(s.candidates, authors), ..s },
        ),
        RouterEventView::RankingReplied(reply) => send_next_spec(
            RouterView { ranked: ranking_spec(s.candidates, reply), next: 0, ..s },
        ),
        RouterEventView::TitleFound(t) => {
            let title = match t {
                Some(x) => x,
                None => "Research Paper"@,
            };
            let c = s.ranked[s.next as int];
            (
                RouterView { phase: RouterPhase::AwaitSend, paper_title: title, ..s },
                RouterActionView::SendEmail(c.name, c.email, title, s.question, first_or_empty(s.paper_ids)),
            )
        },
        RouterEventView::EmailSent(ok) => {
            let c = s.ranked[s.next as int];
            send_next_spec(
                RouterView {
                    notified: if ok { s.notified.push(c.email) } else { s.notified },
                    next: s.next + 1,
                    ..s
                },
            )
        },
    }
}

impl ExpertRouter {
    /// A routing of `question` over the gap's concepts and matched papers,
    /// emailing at most `max_emails` people.
    pub fn new(question: String, concepts: Vec<String>, paper_ids: Vec<String>, max_emails: usize) -> (r: Self)
        ensures
            r@ == (RouterView {
                question: question@,
                concepts: string_views(concepts@),
                paper_ids: string_views(paper_ids@),
                max_emails: max_emails as nat,
                phase: RouterPhase::Start,
                candidates: seq![],
                ranked: seq![],
                next: 0,
                paper_title: seq![],
                notified: seq![],
            }),
    {
        let r = ExpertRouter {
            question,
            concepts,
            paper_ids,
            max_emails,
            phase: RouterPhase::Start,
            candidates: Vec::new(),
            ranked: Vec::new(),
            next: 0,
            paper_title: String::new(),
            notified: Vec::new(),
        };
        assert(candidate_views(r.candidates@) =~= seq![]);
        assert(string_views(r.notified@) =~= seq![]);
        r
    }

    fn send_next(&mut self) -> (a: RouterAction)
        ensures
            (final(self)@, a@) == send_next_spec(old(self)@),
    {
        if self.next < self.max_emails && self.next < self.ranked.len() {
            self.phase = RouterPhase::AwaitTitle;
            RouterAction::LookupPaperTitle(clone_strings(&self.paper_ids))
        } else {
            self.phase = RouterPhase::Finished;
            RouterAction::Finish(
                RoutingResult { notified: clone_strings(&self.notified), candidates: clone_candidates(&self.ranked) },
            )
        }
    }

    fn after_candidates(&mut self) -> (a: RouterAction)
        ensures
            (final(self)@, a@) == after_candidates_spec(old(self)@),
    {
        if self.candidates.len() > self.max_emails {
            self.phase = RouterPhase::AwaitRanking;
            let user = ranking_user_prompt(self.question.as_str(), &self.candidates);
            RouterAction::RankCandidates { system: to_string(RANKING_SYSTEM_PROMPT), user }
        } else {
            self.ranked = clone_candidates(&self.candidates);
            self.next = 0;
            self.send_next()
        }
    }

    /// Takes what the last request returned and says what to request next.
    pub fn step(&mut self, event: RouterEvent) -> (a: RouterAction)
        requires
            router_accepts(old(self)@, event@),
        ensures
            (final(self)@, a@) == router_step_spec(old(self)@, event@),
    {
        match event {
            RouterEvent::Begin => {
                self.phase = RouterPhase::AwaitExperts;
                RouterAction::FindExperts(clone_strings(&self.concepts))
            },
            RouterEvent::ExpertsFound(experts) => {
                self.candidates = expert_candidates(&experts);
                if self.candidates.len() < self.max_emails {
                    self.phase = RouterPhase::AwaitAuthors;
                    RouterAction::FindAuthors(clone_strings(&self.concepts))
                } else {
                    self.after_candidates()
                }
            },
            RouterEvent::AuthorsFound(authors) => {
                add_author_candidates(&mut self.candidates, &authors);
                self.after_candidates()
            },
            RouterEvent::RankingReplied(reply) => {
                let ranked = match &reply {
                    Some(r) => apply_ranking(&self.candidates, Some(r.as_str())),
                    None => apply_ranking(&self.candidates, None),
                };
                self.ranked = ranked;
                self.next = 0;
                self.send_next()
            },
            RouterEvent::TitleFound(t) => {
                assert(candidate_views(self.ranked@).len() == self.ranked@.len());
                let title = match t {
                    Some(x) => x,
                    None => to_string("Research Paper"),
                };
                let c = &self.ranked[self.next];
                let paper_id = if self.paper_ids.len() > 0 {
                    self.paper_ids[0].clone()
                } else {
                    String::new()
                };
                let action = RouterAction::SendEmail {
                    to_name: c.name.clone(),
                    to_email: c.email.clone(),
                    paper_title: title.clone(),
                    question: self.question.clone(),
                    paper_id,
                };
                self.paper_title = title;
                self.phase = RouterPhase::AwaitSend;
                action
            },
            RouterEvent::EmailSent(ok) => {
                assert(candidate_views(self.ranked@).len() == self.ranked@.len());
                assert(self.next < self.ranked.len());
                if ok {
                    let email = self.ranked[self.next].email.clone();
                    let ghost before = self.notified@;
                    self.notified.push(email);
                    assert(string_views(self.notified@) =~= string_views(before).push(email@));
                }
                self.next = self.next + 1;
                self.send_next()
            },
        }
    }
}

} // verus!

verus! {

/// Every notified email belongs to one of the first `bound` ranked candidates.
pub open spec fn notified_from_ranked(notified: Seq<Seq<char>>, ranked: Seq<CandidateView>, bound: nat) -> bool {
    forall|j: int|
        0 <= j < notified.len() ==> exists|k: int| 0 <= k < bound && k < ranked.len() && #[trigger] notified[j] == ranked[k].email
}

/// What holds of a routing at every step.
pub open spec fn router_inv(s: RouterView) -> bool {
    &&& s.next <= s.max_emails
    &&& s.notified.len() <= s.next
    &&& (s.phase == RouterPhase::Start || s.phase == RouterPhase::AwaitExperts || s.phase
        == RouterPhase::AwaitAuthors || s.phase == RouterPhase::AwaitRanking) ==> s.next == 0 && s.ranked.len()
        == 0
    &&& (s.phase == RouterPhase::AwaitTitle || s.phase == RouterPhase::AwaitSend) ==> s.next < s.ranked.len()
        && s.next < s.max_emails
    &&& notified_from_ranked(s.notified, s.ranked, s.next)
    &&& ranked_from_candidates(s.ranked, s.candidates)
}

/// Every ranked candidate is one of the candidates the lookups found.
pub open spec fn ranked_from_candidates(ranked: Seq<CandidateView>, candidates: Seq<CandidateView>) -> bool {
    forall|k: int| 0 <= k < ranked.len() ==> candidates.contains(#[trigger] ranked[k])
}

/// The indices read from the model's answer name candidates that exist.
pub proof fn lemma_rank_indices_in_range(pieces: Seq<Seq<char>>, n: nat)
    ensures
        forall|k: int| 0 <= k < rank_indices_spec(pieces, n).len() ==> 0 <= #[trigger] rank_indices_spec(pieces, n)[k] < n,
    decreases pieces.len(),
{
    if pieces.len() > 0 {
        lemma_rank_indices_in_range(pieces.drop_last(), n);
        let rest = rank_indices_spec(pieces.drop_last(), n);
        let r = rank_indices_spec(pieces, n);
        assert forall|k: int| 0 <= k < r.len() implies 0 <= #[trigger] r[k] < n by {
            if k < rest.len() {
                assert(r[k] == rest[k]);
            }
        }
    }
}

/// The model's ranking only reorders, drops or repeats candidates: it never
/// brings in anyone the lookups did not find.
pub proof fn lemma_ranking_keeps_candidates(candidates: Seq<CandidateView>, reply: Option<Seq<char>>)
    ensures
        ranked_from_candidates(ranking_spec(candidates, reply), candidates),
{
    match reply {
        None => {
            assert forall|k: int| 0 <= k < candidates.len() implies candidates.contains(#[trigger] candidates[k]) by {}
        },
        Some(r) => {
            let idx = rank_indices_spec(split_spec(r, ','), candidates.len());
            lemma_rank_indices_in_range(split_spec(r, ','), candidates.len());
            let out = ranking_spec(candidates, reply);
            if idx.len() == 0 {
                assert forall|k: int| 0 <= k < candidates.len() implies candidates.contains(#[trigger] candidates[k]) by {}
            } else {
                assert forall|k: int| 0 <= k < out.len() implies candidates.contains(#[trigger] out[k]) by {
                    assert(0 <= idx[k] < candidates.len());
                    assert(out[k] == candidates[idx[k]]);
                }
            }
        },
    }
}

/// The number a piece of the model's answer holds, once trimmed.
pub open spec fn piece_number(piece: Seq<char>) -> Option<nat> {
    parse_unsigned_spec(trim_spec(piece), usize::MAX as nat)
}

/// Whether some comma-separated piece of a reply, trimmed, is a number from 1
/// to `n`: whether the reply names one of `n` candidates.
pub open spec fn names_a_candidate(reply: Seq<char>, n: nat) -> bool {
    exists|i: int|
        0 <= i < split_spec(reply, ',').len() && (piece_number(#[trigger] split_spec(reply, ',')[i]) matches Some(v)
            && 1 <= v <= n)
}

proof fn lemma_unnamed_pieces_give_no_index(pieces: Seq<Seq<char>>, n: nat)
    requires
        forall|i: int| 0 <= i < pieces.len() ==> rank_index_spec(#[trigger] pieces[i], n) is None,
    ensures
        rank_indices_spec(pieces, n).len() == 0,
    decreases pieces.len(),
{
    if pieces.len() > 0 {
        let rest = pieces.drop_last();
        assert forall|i: int| 0 <= i < rest.len() implies rank_index_spec(#[trigger] rest[i], n) is None by {
            assert(rest[i] == pieces[i]);
        }
        lemma_unnamed_pieces_give_no_index(rest, n);
        assert(rank_index_spec(pieces[pieces.len() - 1], n) is None);
    }
}

/// When the model gives no answer, or an answer that names none of the
/// candidates by a number from 1 to their count, the candidates keep the
/// order in which they were found: the ranked list is the candidate list,
/// unchanged.
pub proof fn lemma_unnamed_ranking_keeps_candidates(candidates: Seq<CandidateView>, reply: Option<Seq<char>>)
    requires
        reply matches Some(r) ==> !names_a_candidate(r, candidates.len()),
    ensures
        ranking_spec(candidates, reply) == candidates,
{
    match reply {
        None => {},
        Some(r) => {
            let pieces = split_spec(r, ',');
            assert forall|i: int| 0 <= i < pieces.len() implies rank_index_spec(
                #[trigger] pieces[i],
                candidates.len(),
            ) is None by {
                if rank_index_spec(pieces[i], candidates.len()) is Some {
                    assert(names_a_candidate(r, candidates.len()));
                }
            }
            lemma_unnamed_pieces_give_no_index(pieces, candidates.len());
        },
    }
}

/// When the model's answer names candidates, every candidate in the ranked
/// list is one the answer names: for each place in the list there is a
/// piece of the answer that, trimmed, is the number `v` of a candidate (1 to
/// the count), and the place holds candidate `v`.
pub proof fn lemma_ranking_follows_named_numbers(candidates: Seq<CandidateView>, r: Seq<char>)
    requires
        names_a_candidate(r, candidates.len()),
    ensures
        forall|k: int|
            0 <= k < ranking_spec(candidates, Some(r)).len() ==> exists|i: int|
                0 <= i < split_spec(r, ',').len() && (piece_number(#[trigger] split_spec(r, ',')[i]) matches Some(v)
                    && 1 <= v <= candidates.len() && #[trigger] ranking_spec(candidates, Some(r))[k] == candidates[v
                    - 1]),
{
    let pieces = split_spec(r, ',');
    let n = candidates.len();
    let idx = rank_indices_spec(pieces, n);
    if idx.len() == 0 {
        let i = choose|i: int|
            0 <= i < pieces.len() && (piece_number(#[trigger] pieces[i]) matches Some(v) && 1 <= v <= n);
        assert(rank_index_spec(pieces[i], n) is Some);
        lemma_named_piece_gives_index(pieces, n, i);
    } else {
        lemma_indices_come_from_pieces(pieces, n);
        assert forall|k: int| 0 <= k < ranking_spec(candidates, Some(r)).len() implies exists|i: int|
            0 <= i < split_spec(r, ',').len() && (piece_number(#[trigger] split_spec(r, ',')[i]) matches Some(v)
                && 1 <= v <= candidates.len() && #[trigger] ranking_spec(candidates, Some(r))[k] == candidates[v
                - 1]) by {
            let i = choose|i: int| 0 <= i < pieces.len() && rank_index_spec(#[trigger] pieces[i], n) == Some(idx[k]);
            assert(ranking_spec(candidates, Some(r))[k] == candidates[idx[k]]);
            assert(piece_number(pieces[i]) is Some);
        }
    }
}

proof fn lemma_named_piece_gives_index(pieces: Seq<Seq<char>>, n: nat, i: int)
    requires
        0 <= i < pieces.len(),
        rank_index_spec(pieces[i], n) is Some,
    ensures
        rank_indices_spec(pieces, n).len() > 0,
    decreases pieces.len(),
{
    if i < pieces.len() - 1 {
        assert(pieces.drop_last()[i] == pieces[i]);
        lemma_named_piece_gives_index(pieces.drop_last(), n, i);
    }
}

proof fn lemma_indices_come_from_pieces(pieces: Seq<Seq<char>>, n: nat)
    ensures
        forall|k: int|
            0 <= k < rank_indices_spec(pieces, n).len() ==> exists|i: int|
                0 <= i < pieces.len() && rank_index_spec(#[trigger] pieces[i], n) == Some(
                    #[trigger] rank_indices_spec(pieces, n)[k],
                ),
    decreases pieces.len(),
{
    if pieces.len() > 0 {
        let rest = pieces.drop_last();
        lemma_indices_come_from_pieces(rest, n);
        let r = rank_indices_spec(pieces, n);
        let q = rank_indices_spec(rest, n);
        assert forall|k: int| 0 <= k < r.len() implies exists|i: int|
            0 <= i < pieces.len() && rank_index_spec(#[trigger] pieces[i], n) == Some(#[trigger] r[k]) by {
            if k < q.len() {
                assert(r[k] == q[k]);
                let i = choose|i: int| 0 <= i < rest.len() && rank_index_spec(#[trigger] rest[i], n) == Some(q[k]);
                assert(pieces[i] == rest[i]);
            } else {
                assert(pieces[pieces.len() - 1] == pieces.last());
            }
        }
    }
}

proof fn lemma_split_state_after_sep(a: Seq<char>, b: Seq<char>)
    ensures
        split_state(a + seq![','] + b, ',') == (split_spec(a, ',') + split_state(b, ',').0, split_state(b, ',').1),
    decreases b.len(),
{
    let whole = a + seq![','] + b;
    if b.len() == 0 {
        assert(whole =~= a.push(','));
        assert(whole.drop_last() =~= a);
        assert(split_spec(a, ',') + split_state(b, ',').0 =~= split_spec(a, ','));
    } else {
        lemma_split_state_after_sep(a, b.drop_last());
        assert(whole.drop_last() =~= a + seq![','] + b.drop_last());
        assert(whole.last() == b.last());
        let (d, c) = split_state(b.drop_last(), ',');
        if b.last() == ',' {
            assert((split_spec(a, ',') + d).push(c) =~= split_spec(a, ',') + d.push(c));
        }
    }
}

proof fn lemma_split_after_sep(a: Seq<char>, b: Seq<char>)
    ensures
        split_spec(a + seq![','] + b, ',') == split_spec(a, ',') + split_spec(b, ','),
{
    lemma_split_state_after_sep(a, b);
    let (d, c) = split_state(b, ',');
    assert((split_spec(a, ',') + d).push(c) =~= split_spec(a, ',') + d.push(c));
}

proof fn lemma_split_without_sep(r: Seq<char>)
    requires
        !r.contains(','),
    ensures
        split_state(r, ',') == (Seq::<Seq<char>>::empty(), r),
    decreases r.len(),
{
    if r.len() > 0 {
        assert(!r.drop_last().contains(',')) by {
            if r.drop_last().contains(',') {
                let i = choose|i: int| 0 <= i < r.drop_last().len() && r.drop_last()[i] == ',';
                assert(r[i] == ',');
            }
        }
        lemma_split_without_sep(r.drop_last());
        assert(r[r.len() - 1] != ',');
        assert(r.drop_last().push(r.last()) =~= r);
    }
}

proof fn lemma_rank_indices_append(p: Seq<Seq<char>>, q: Seq<Seq<char>>, n: nat)
    ensures
        rank_indices_spec(p + q, n) == rank_indices_spec(p, n) + rank_indices_spec(q, n),
    decreases q.len(),
{
    if q.len() == 0 {
        assert(p + q =~= p);
        assert(rank_indices_spec(p, n) + rank_indices_spec(q, n) =~= rank_indices_spec(p, n));
    } else {
        lemma_rank_indices_append(p, q.drop_last(), n);
        assert((p + q).drop_last() =~= p + q.drop_last());
        assert((p + q).last() == q.last());
        match rank_index_spec(q.last(), n) {
            Some(i) => {
                assert((rank_indices_spec(p, n) + rank_indices_spec(q.drop_last(), n)).push(i) =~= rank_indices_spec(
                    p,
                    n,
                ) + rank_indices_spec(q.drop_last(), n).push(i));
            },
            None => {},
        }
    }
}

/// An answer that is one number `v` of a candidate (1 to their count), with
/// no comma, ranks that candidate alone.
pub proof fn lemma_single_number_ranks_one(candidates: Seq<CandidateView>, r: Seq<char>)
    requires
        !r.contains(','),
        piece_number(r) matches Some(v) && 1 <= v <= candidates.len(),
    ensures
        ranking_spec(candidates, Some(r)) == seq![candidates[piece_number(r)->0 - 1]],
{
    lemma_split_without_sep(r);
    assert(split_spec(r, ',') =~= seq![r]);
    assert(seq![r].drop_last() =~= Seq::<Seq<char>>::empty());
    assert(seq![r].last() == r);
    assert(rank_indices_spec(Seq::<Seq<char>>::empty(), candidates.len()) =~= Seq::<int>::empty());
    assert(rank_index_spec(r, candidates.len()) == Some(piece_number(r)->0 - 1));
    assert(rank_indices_spec(seq![r], candidates.len()) =~= seq![piece_number(r)->0 - 1]);
    assert(ranking_spec(candidates, Some(r)) =~= seq![candidates[piece_number(r)->0 - 1]]);
}

/// Answers joined by a comma rank as the two answers one after the other,
/// when each names a candidate: the ranking follows the answer's order, a
/// candidate named twice appears twice, and nothing named is dropped.
pub proof fn lemma_joined_answers_rank_in_turn(candidates: Seq<CandidateView>, r1: Seq<char>, r2: Seq<char>)
    requires
        names_a_candidate(r1, candidates.len()),
        names_a_candidate(r2, candidates.len()),
    ensures
        ranking_spec(candidates, Some(r1 + seq![','] + r2)) == ranking_spec(candidates, Some(r1)) + ranking_spec(
            candidates,
            Some(r2),
        ),
{
    let n = candidates.len();
    lemma_split_after_sep(r1, r2);
    let p1 = split_spec(r1, ',');
    let p2 = split_spec(r2, ',');
    lemma_rank_indices_append(p1, p2, n);
    let i1 = rank_indices_spec(p1, n);
    let i2 = rank_indices_spec(p2, n);
    let c1 = choose|i: int| 0 <= i < p1.len() && (piece_number(#[trigger] p1[i]) matches Some(v) && 1 <= v <= n);
    assert(rank_index_spec(p1[c1], n) is Some);
    lemma_named_piece_gives_index(p1, n, c1);
    let c2 = choose|i: int| 0 <= i < p2.len() && (piece_number(#[trigger] p2[i]) matches Some(v) && 1 <= v <= n);
    assert(rank_index_spec(p2[c2], n) is Some);
    lemma_named_piece_gives_index(p2, n, c2);
    assert(ranking_spec(candidates, Some(r1 + seq![','] + r2)) =~= ranking_spec(candidates, Some(r1)) + ranking_spec(
        candidates,
        Some(r2),
    ));
}

/// A routing starts in a state where its invariant holds.
pub proof fn lemma_router_inv_initial(s: RouterView)
    requires
        s.phase == RouterPhase::Start,
        s.next == 0,
        s.notified.len() == 0,
        s.ranked.len() == 0,
    ensures
        router_inv(s),
{
}

proof fn lemma_send_next_inv(s: RouterView)
    requires
        s.next <= s.max_emails,
        s.notified.len() <= s.next,
        notified_from_ranked(s.notified, s.ranked, s.next),
        ranked_from_candidates(s.ranked, s.candidates),
    ensures
        router_inv(send_next_spec(s).0),
{
}

proof fn lemma_after_candidates_inv(s: RouterView)
    requires
        router_inv(s),
        s.next == 0,
        s.notified.len() == 0,
        s.ranked.len() == 0,
    ensures
        router_inv(after_candidates_spec(s).0),
{
    if s.candidates.len() <= s.max_emails {
        assert forall|k: int| 0 <= k < s.candidates.len() implies s.candidates.contains(#[trigger] s.candidates[k]) by {}
        lemma_send_next_inv(RouterView { ranked: s.candidates, next: 0, ..s });
    }
}

/// Every step keeps the routing's invariant: no more people are tried than
/// the budget allows, and only ranked candidates are notified.
pub proof fn lemma_router_step_inv(s: RouterView, e: RouterEventView)
    requires
        router_inv(s),
        router_accepts(s, e),
    ensures
        router_inv(router_step_spec(s, e).0),
{
    match e {
        RouterEventView::Begin => {},
        RouterEventView::ExpertsFound(experts) => {
            let s2 = RouterView { candidates: expert_candidates_spec(experts), ..s };
            if s2.candidates.len() >= s.max_emails {
                lemma_after_candidates_inv(s2);
            }
        },
        RouterEventView::AuthorsFound(authors) => {
            lemma_after_candidates_inv(RouterView { candidates: with_authors_spec(s.candidates, authors), ..s });
        },
        RouterEventView::RankingReplied(reply) => {
            lemma_ranking_keeps_candidates(s.candidates, reply);
            lemma_send_next_inv(RouterView { ranked: ranking_spec(s.candidates, reply), next: 0, ..s });
        },
        RouterEventView::TitleFound(_) => {},
        RouterEventView::EmailSent(ok) => {
            let c = s.ranked[s.next as int];
            let s2 = RouterView {
                notified: if ok { s.notified.push(c.email) } else { s.notified },
                next: s.next + 1,
                ..s
            };
            assert forall|j: int| 0 <= j < s2.notified.len() implies exists|k: int|
                0 <= k < s2.next && k < s2.ranked.len() && #[trigger] s2.notified[j] == s2.ranked[k].email by {
                if j < s.notified.len() {
                    assert(s2.notified[j] == s.notified[j]);
                } else {
                    assert(s2.notified[j] == s.ranked[s.next as int].email);
                }
            }
            lemma_send_next_inv(s2);
        },
    }
}

/// When a routing finishes, it reports at most `max_emails` notified emails,
/// each the email of a ranked candidate.
pub proof fn lemma_router_finish(s: RouterView, e: RouterEventView)
    requires
        router_inv(s),
        router_accepts(s, e),
        router_step_spec(s, e).1 is Finish,
    ensures
        router_step_spec(s, e).1->Finish_0.len() <= s.max_emails,
        router_step_spec(s, e).1->Finish_0 == router_step_spec(s, e).0.notified,
        router_step_spec(s, e).1->Finish_1 == router_step_spec(s, e).0.ranked,
        notified_from_ranked(router_step_spec(s, e).0.notified, router_step_spec(s, e).0.ranked, s.max_emails),
        forall|j: int|
            0 <= j < router_step_spec(s, e).0.notified.len() ==> candidate_has_email(
                router_step_spec(s, e).0.candidates,
                #[trigger] router_step_spec(s, e).0.notified[j],
            ),
{
    lemma_router_step_inv(s, e);
    let t = router_step_spec(s, e).0;
    assert forall|j: int| 0 <= j < t.notified.len() implies exists|k: int|
        0 <= k < s.max_emails && k < t.ranked.len() && #[trigger] t.notified[j] == t.ranked[k].email by {
        let k = choose|k: int| 0 <= k < t.next && k < t.ranked.len() && t.notified[j] == t.ranked[k].email;
    }
    assert forall|j: int| 0 <= j < t.notified.len() implies candidate_has_email(t.candidates, #[trigger] t.notified[j]) by {
        let k = choose|k: int| 0 <= k < t.next && k < t.ranked.len() && t.notified[j] == t.ranked[k].email;
        assert(t.candidates.contains(t.ranked[k]));
        let m = choose|m: int| 0 <= m < t.candidates.len() && t.candidates[m] == t.ranked[k];
        assert(t.candidates[m].email == t.notified[j]);
    }
}

/// Every email goes to a candidate that the lookups found, under the name
/// they were found with.
pub proof fn lemma_email_goes_to_candidate(s: RouterView, e: RouterEventView)
    requires
        router_inv(s),
        router_accepts(s, e),
    ensures
        router_step_spec(s, e).1 matches RouterActionView::SendEmail(name, email, _, _, _) ==> exists|m: int|
            0 <= m < s.candidates.len() && (#[trigger] s.candidates[m]).name == name && s.candidates[m].email == email,
{
    if let RouterEventView::TitleFound(_) = e {
        let c = s.ranked[s.next as int];
        assert(s.candidates.contains(c));
        let m = choose|m: int| 0 <= m < s.candidates.len() && s.candidates[m] == c;
        assert(s.candidates[m].name == c.name && s.candidates[m].email == c.email);
    }
}

} // verus!

verus! {

/// The 128-bit value of a UUID written as text, as `uuid::Uuid::parse_str`
/// reads it; `None` when it does not read.
pub uninterp spec fn uuid_value(text: Seq<char>) -> Option<u128>;

/// Trusted: `uuid::Uuid::parse_str`, giving the UUID as a 128-bit number.
/// Which texts it accepts, and their values, are named, not described.
#[verifier::external_body]
pub(crate) fn parse_uuid(text: &str) -> (r: Option<u128>)
    ensures
        r == uuid_value(text@),
{
    match uuid::Uuid::parse_str(text) {
        Ok(u) => Some(u.as_u128()),
        Err(_) => None,
    }
}

/// The papers whose stored titles are looked up, in order: the matched
/// paper ids that read as UUIDs.
pub open spec fn title_candidates_spec(ids: Seq<Seq<char>>) -> Seq<u128>
    decreases ids.len(),
{
    if ids.len() == 0 {
        seq![]
    } else {
        let rest = title_candidates_spec(ids.drop_last());
        match uuid_value(ids.last()) {
            Some(u) => rest.push(u),
            None => rest,
        }
    }
}

/// The matched paper ids that read as UUIDs, in order; the first of them
/// that names a stored paper gives the title of a routed question.
pub fn title_candidates(ids: &Vec<String>) -> (r: Vec<u128>)
    ensures
        r@ == title_candidates_spec(string_views(ids@)),
{
    let ghost iv = string_views(ids@);
    let mut out: Vec<u128> = Vec::new();
    let mut i: usize = 0;
    while i < ids.len()
        invariant
            i <= ids.len(),
            iv == string_views(ids@),
            out@ == title_candidates_spec(iv.take(i as int)),
        decreases ids.len() - i,
    {
        assert(iv.take(i + 1).drop_last() =~= iv.take(i as int));
        assert(iv.take(i + 1).last() == ids@[i as int]@);
        match parse_uuid(ids[i].as_str()) {
            Some(u) => out.push(u),
            None => {},
        }
        i += 1;
    }
    assert(iv.take(ids.len() as int) =~= iv);
    out
}

} // verus!
