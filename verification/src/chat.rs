//! The chat pipeline: retrieval, graph enrichment, gap detection, escalation
//! to experts, and answer generation.
//!
//! A turn first looks the question up as asked: when an expert's response is
//! among the passages close to it (clearing the confidence threshold), that
//! stored answer is returned at once, without the model.
//!
//! Escalation happens before the answer is written, so that the system
//! prompt can tell the model truthfully whether and how many experts were
//! notified. Every stage waits on an outside service, so the pipeline is a
//! state machine driven by `step`.

use vstd::prelude::*;
use crate::gap::GapAssessment;
use crate::models::{ChatMessage, MetadataView, VectorMetadata, metadata_views, opt_view};
use crate::numeral::{decimal_spec, usize_to_decimal};
use crate::retrieval::{
    GraphContext, GraphPaper, build_context_string, context_spec, distinct_nonempty, distinct_paper_ids,
    paper_ids_of,
};
use crate::text::{
    clone_strings, push_str, str_equal, string_views, take_chars, take_chars_spec, to_string, trim_spec, trim_str,
};

verus! {

// ---------------------------------------------------------------------------
// Prompt and messages
// ---------------------------------------------------------------------------

/// Escalation note for notified experts, up to the first count.
pub const GAP_NOTIFIED_OPEN: &'static str = "\n\n## Knowledge Gap — Expert Escalation Triggered\nThe knowledge base does not fully answer this question. ";

/// Escalation note for notified experts, between the two counts.
pub const GAP_NOTIFIED_MIDDLE: &'static str = " expert(s) have already been notified by email and will respond directly to the user.\nIn your answer:\n- Share whatever partial information exists in the context below\n- Clearly state that this question has been escalated to ";

/// Escalation note for notified experts, after the second count.
pub const GAP_NOTIFIED_CLOSE: &'static str = " expert(s)\n- Do NOT say you cannot contact experts — you already have\n- Do NOT suggest the user contact experts themselves — that is already done\n- Do NOT list example questions to ask — answer what you can and confirm escalation";

/// Escalation note when no experts were found.
pub const GAP_NO_EXPERTS: &'static str = "\n\n## Knowledge Gap — No Experts on File\nThe knowledge base does not fully answer this question and no registered experts were found for the relevant topics.\nIn your answer:\n- Share whatever partial information exists in the context below\n- Acknowledge the gap honestly\n- Suggest the user invite relevant paper authors via the LivePaper dashboard";

/// System prompt up to the escalation note.
pub const PROMPT_OPEN: &'static str = "You are LivePaper, an AI research assistant that helps researchers understand academic papers.\nYou have access to a knowledge base of ingested papers with their concepts, citations, and expert responses.\nAlways cite which paper or source you are drawing from. Never hallucinate.\n";

/// System prompt between the escalation note and the knowledge base.
pub const PROMPT_BEFORE_CONTEXT: &'static str = "\n\n--- KNOWLEDGE BASE ---\n";

/// System prompt after the knowledge base.
pub const PROMPT_CLOSE: &'static str = "\n--- END KNOWLEDGE BASE ---\n\nStructure your response:\n1. Direct answer using evidence from the knowledge base\n2. Supporting citations (paper title or source)\n3. If escalated: confirm that expert(s) have been notified and the user will hear back by email";

/// Stands in for an empty knowledge base.
pub const EMPTY_CONTEXT: &'static str = "No relevant passages found in the knowledge base.";

/// Follows the count in the message to the user when experts were notified.
pub const NOTIFIED_MESSAGE_TAIL: &'static str = " expert(s) have been notified and will respond by email.";

/// The message to the user when no experts were found.
pub const NO_EXPERTS_MESSAGE: &'static str = "No registered experts were found for this topic. Consider inviting relevant authors via the dashboard.";

/// The part of the system prompt that reports an escalation: none without a
/// gap; with one, either how many experts were notified or that none were
/// found.
pub open spec fn escalation_block_spec(has_gap: bool, notified: nat) -> Seq<char> {
    if has_gap {
        if notified > 0 {
            GAP_NOTIFIED_OPEN@ + decimal_spec(notified) + GAP_NOTIFIED_MIDDLE@ + decimal_spec(notified)
                + GAP_NOTIFIED_CLOSE@
        } else {
            GAP_NO_EXPERTS@
        }
    } else {
        seq![]
    }
}

/// The system prompt: the assistant's role, the escalation report, and the
/// knowledge-base context (or a note that it is empty).
pub open spec fn system_prompt_spec(context: Seq<char>, has_gap: bool, notified: nat) -> Seq<char> {
    PROMPT_OPEN@ + escalation_block_spec(has_gap, notified) + PROMPT_BEFORE_CONTEXT@ + (if context.len() == 0 {
        EMPTY_CONTEXT@
    } else {
        context
    }) + PROMPT_CLOSE@
}

/// Writes the system prompt for the answer.
pub fn build_system_prompt(context: &str, has_gap: bool, notified: &Vec<String>) -> (r: String)
    ensures
        r@ == system_prompt_spec(context@, has_gap, notified@.len()),
{
    let mut out = to_string(PROMPT_OPEN);
    if has_gap {
        if notified.len() > 0 {
            let n = usize_to_decimal(notified.len());
            push_str(&mut out, GAP_NOTIFIED_OPEN);
            push_str(&mut out, n.as_str());
            push_str(&mut out, GAP_NOTIFIED_MIDDLE);
            push_str(&mut out, n.as_str());
            push_str(&mut out, GAP_NOTIFIED_CLOSE);
        } else {
            push_str(&mut out, GAP_NO_EXPERTS);
        }
    }
    push_str(&mut out, PROMPT_BEFORE_CONTEXT);
    if context.is_empty() {
        push_str(&mut out, EMPTY_CONTEXT);
    } else {
        push_str(&mut out, context);
    }
    push_str(&mut out, PROMPT_CLOSE);
    proof {
        let e = escalation_block_spec(has_gap, notified@.len());
        let c = if context@.len() == 0 { EMPTY_CONTEXT@ } else { context@ };
        assert(system_prompt_spec(context@, has_gap, notified@.len()) =~= PROMPT_OPEN@ + e + PROMPT_BEFORE_CONTEXT@
            + c + PROMPT_CLOSE@);
    }
    out
}

/// The message shown to the user after an escalation: how many experts were
/// notified, or that none were found.
pub open spec fn escalation_message_spec(notified: nat) -> Seq<char> {
    if notified > 0 {
        decimal_spec(notified) + NOTIFIED_MESSAGE_TAIL@
    } else {
        NO_EXPERTS_MESSAGE@
    }
}

/// Writes the message shown to the user after an escalation.
pub fn escalation_message(notified: usize) -> (r: String)
    ensures
        r@ == escalation_message_spec(notified as nat),
{
    if notified > 0 {
        let mut s = usize_to_decimal(notified);
        push_str(&mut s, NOTIFIED_MESSAGE_TAIL);
        s
    } else {
        to_string(NO_EXPERTS_MESSAGE)
    }
}

/// A `ChatMessage` by its characters.
pub struct MessageView {
    pub role: Seq<char>,
    pub content: Seq<char>,
}

impl View for ChatMessage {
    type V = MessageView;

    open spec fn view(&self) -> MessageView {
        MessageView { role: self.role@, content: self.content@ }
    }
}

/// The views of a list of messages.
pub open spec fn message_views(v: Seq<ChatMessage>) -> Seq<MessageView> {
    Seq::new(v.len(), |i: int| v[i]@)
}

/// A copy of a message.
pub fn clone_message(m: &ChatMessage) -> (r: ChatMessage)
    ensures
        r@ == m@,
{
    ChatMessage { role: m.role.clone(), content: m.content.clone() }
}

/// The conversation history given to the model: the stored turns without
/// system messages, in order.
pub open spec fn history_spec(rows: Seq<MessageView>) -> Seq<MessageView>
    decreases rows.len(),
{
    if rows.len() == 0 {
        seq![]
    } else {
        let rest = history_spec(rows.drop_last());
        if rows.last().role == "system"@ {
            rest
        } else {
            rest.push(rows.last())
        }
    }
}

/// Keeps the stored turns that are not system messages.
pub fn history_from_rows(rows: &Vec<ChatMessage>) -> (r: Vec<ChatMessage>)
    ensures
        message_views(r@) == history_spec(message_views(rows@)),
{
    let ghost rv = message_views(rows@);
    let mut out: Vec<ChatMessage> = Vec::new();
    let mut i: usize = 0;
    while i < rows.len()
        invariant
            i <= rows.len(),
            rv == message_views(rows@),
            message_views(out@) == history_spec(rv.take(i as int)),
        decreases rows.len() - i,
    {
        assert(rv.take(i + 1).drop_last() =~= rv.take(i as int));
        assert(rv.take(i + 1).last() == rows@[i as int]@);
        if !str_equal(rows[i].role.as_str(), "system") {
            let ghost before = out@;
            let m = clone_message(&rows[i]);
            out.push(m);
            assert(message_views(out@) =~= message_views(before).push(m@));
        }
        i += 1;
    }
    assert(rv.take(rows.len() as int) =~= rv);
    out
}

/// The messages sent for the answer: the history, then the question as the
/// user's turn.
pub open spec fn answer_messages_spec(history: Seq<MessageView>, question: Seq<char>) -> Seq<MessageView> {
    history.push(MessageView { role: "user"@, content: question })
}

/// Builds the messages sent for the answer.
pub fn answer_messages(history: &Vec<ChatMessage>, question: &str) -> (r: Vec<ChatMessage>)
    ensures
        message_views(r@) == answer_messages_spec(message_views(history@), question@),
{
    let mut out: Vec<ChatMessage> = Vec::new();
    let mut i: usize = 0;
    while i < history.len()
        invariant
            i <= history.len(),
            message_views(out@) == message_views(history@).take(i as int),
        decreases history.len() - i,
    {
        let ghost before = out@;
        let m = clone_message(&history[i]);
        out.push(m);
        assert(message_views(out@) =~= message_views(before).push(m@));
        assert(message_views(out@) =~= message_views(history@).take(i + 1));
        i += 1;
    }
    assert(message_views(history@).take(history.len() as int) =~= message_views(history@));
    let ghost before = out@;
    let q = ChatMessage { role: to_string("user"), content: to_string(question) };
    out.push(q);
    assert(message_views(out@) =~= message_views(before).push(q@));
    out
}

// ---------------------------------------------------------------------------
// The chat state machine
// ---------------------------------------------------------------------------

/// What a finished chat turn reports.
#[derive(Debug, Clone)]
pub struct ChatOutcome {
    pub content: String,
    pub escalated: bool,
    pub escalation_message: Option<String>,
    pub notified_experts: Vec<String>,
}

/// Where a chat turn stands.
#[derive(Debug, Clone, Copy, PartialEq, Eq, Structural)]
pub enum ChatPhase {
    Start,
    AwaitStoredAnswer,
    AwaitRetrieval,
    AwaitGraph,
    AwaitGap,
    AwaitRouting,
    AwaitAnswer,
    Finished,
}

/// A chat turn in progress.
pub struct ChatFlow {
    pub question: String,
    pub history: Vec<ChatMessage>,
    pub phase: ChatPhase,
    pub matches: Vec<VectorMetadata>,
    pub context: String,
    pub has_gap: bool,
    pub gap_concepts: Vec<String>,
    pub gap_paper_ids: Vec<String>,
    pub notified: Vec<String>,
    pub escalation_message: Option<String>,
}

/// A `ChatFlow` by its characters.
pub struct ChatView {
    pub question: Seq<char>,
    pub history: Seq<MessageView>,
    pub phase: ChatPhase,
    pub matches: Seq<MetadataView>,
    pub context: Seq<char>,
    pub has_gap: bool,
    pub gap_concepts: Seq<Seq<char>>,
    pub gap_paper_ids: Seq<Seq<char>>,
    pub notified: Seq<Seq<char>>,
    pub escalation_message: Option<Seq<char>>,
}

impl View for ChatFlow {
    type V = ChatView;

    open spec fn view(&self) -> ChatView {
        ChatView {
            question: self.question@,
            history: message_views(self.history@),
            phase: self.phase,
            matches: metadata_views(self.matches@),
            context: self.context@,
            has_gap: self.has_gap,
            gap_concepts: string_views(self.gap_concepts@),
            gap_paper_ids: string_views(self.gap_paper_ids@),
            notified: string_views(self.notified@),
            escalation_message: crate::models::opt_view(self.escalation_message),
        }
    }
}

/// What a chat turn hears back.
pub enum ChatEvent {
    Begin,
    /// The passages found for the question as asked whose score clears the
    /// confidence threshold (those close enough to answer it), best first.
    StoredFound(Vec<VectorMetadata>),
    /// The passages that matched the question, best first.
    Retrieved(Vec<VectorMetadata>),
    /// The graph context of the matched papers, or `None` when the lookup failed.
    GraphFetched(Option<GraphContext>),
    /// The gap assessment.
    GapAssessed(GapAssessment),
    /// The emails sent by the expert routing, or `None` when it failed.
    Routed(Option<Vec<String>>),
    /// The model's answer.
    Answered(String),
}

/// A `ChatEvent` by its characters.
pub enum ChatEventView {
    Begin,
    StoredFound(Seq<MetadataView>),
    Retrieved(Seq<MetadataView>),
    GraphFetched(Option<Seq<GraphPaper>>),
    GapAssessed(bool, Seq<Seq<char>>, Seq<Seq<char>>),
    Routed(Option<Seq<Seq<char>>>),
    Answered(Seq<char>),
}

impl View for ChatEvent {
    type V = ChatEventView;

    open spec fn view(&self) -> ChatEventView {
        match self {
            ChatEvent::Begin => ChatEventView::Begin,
            ChatEvent::StoredFound(m) => ChatEventView::StoredFound(metadata_views(m@)),
            ChatEvent::Retrieved(m) => ChatEventView::Retrieved(metadata_views(m@)),
            ChatEvent::GraphFetched(g) => ChatEventView::GraphFetched(
                match g {
                    Some(c) => Some(c.papers@),
                    None => None,
                },
            ),
            ChatEvent::GapAssessed(a) => ChatEventView::GapAssessed(
                a.has_gap,
                string_views(a.relevant_concepts@),
                string_views(a.relevant_paper_ids@),
            ),
            ChatEvent::Routed(r) => ChatEventView::Routed(
                match r {
                    Some(v) => Some(string_views(v@)),
                    None => None,
                },
            ),
            ChatEvent::Answered(t) => ChatEventView::Answered(t@),
        }
    }
}

/// What a chat turn asks for next.
pub enum ChatAction {
    /// Look the question up in the vector store as asked, with no model
    /// involved (no query expansion), for a stored expert answer.
    LookUpStoredAnswer(String),
    /// Retrieve passages for the question.
    Retrieve(String),
    /// Fetch the graph context of these papers.
    FetchGraph(Vec<String>),
    /// Assess whether the matches answer the question.
    AssessGap { question: String, matches: Vec<VectorMetadata> },
    /// Route the question to experts of these concepts and papers.
    Route { question: String, concepts: Vec<String>, paper_ids: Vec<String> },
    /// Ask the model for the answer.
    GenerateAnswer { system: String, messages: Vec<ChatMessage> },
    /// The turn is over.
    Finish(ChatOutcome),
}

/// A `ChatAction` by its characters.
pub enum ChatActionView {
    LookUpStoredAnswer(Seq<char>),
    Retrieve(Seq<char>),
    FetchGraph(Seq<Seq<char>>),
    AssessGap(Seq<char>, Seq<MetadataView>),
    Route(Seq<char>, Seq<Seq<char>>, Seq<Seq<char>>),
    GenerateAnswer(Seq<char>, Seq<MessageView>),
    Finish(Seq<char>, bool, Option<Seq<char>>, Seq<Seq<char>>),
}

impl View for ChatAction {
    type V = ChatActionView;

    open spec fn view(&self) -> ChatActionView {
        match self {
            ChatAction::LookUpStoredAnswer(q) => ChatActionView::LookUpStoredAnswer(q@),
            ChatAction::Retrieve(q) => ChatActionView::Retrieve(q@),
            ChatAction::FetchGraph(ids) => ChatActionView::FetchGraph(string_views(ids@)),
            ChatAction::AssessGap { question, matches } => ChatActionView::AssessGap(
                question@,
                metadata_views(matches@),
            ),
            ChatAction::Route { question, concepts, paper_ids } => ChatActionView::Route(
                question@,
                string_views(concepts@),
                string_views(paper_ids@),
            ),
            ChatAction::GenerateAnswer { system, messages } => ChatActionView::GenerateAnswer(
                system@,
                message_views(messages@),
            ),
            ChatAction::Finish(o) => ChatActionView::Finish(
                o.content@,
                o.escalated,
                crate::models::opt_view(o.escalation_message),
                string_views(o.notified_experts@),
            ),
        }
    }
}

/// The event a chat turn waits for in its phase.
pub open spec fn chat_accepts(s: ChatView, e: ChatEventView) -> bool {
    match e {
        ChatEventView::Begin => s.phase == ChatPhase::Start,
        ChatEventView::StoredFound(_) => s.phase == ChatPhase::AwaitStoredAnswer,
        ChatEventView::Retrieved(_) => s.phase == ChatPhase::AwaitRetrieval,
        ChatEventView::GraphFetched(_) => s.phase == ChatPhase::AwaitGraph,
        ChatEventView::GapAssessed(_, _, _) => s.phase == ChatPhase::AwaitGap,
        ChatEventView::Routed(_) => s.phase == ChatPhase::AwaitRouting,
        ChatEventView::Answered(_) => s.phase == ChatPhase::AwaitAnswer,
    }
}

/// The request for the answer.
pub open spec fn answer_step_spec(s: ChatView) -> (ChatView, ChatActionView) {
    (
        ChatView { phase: ChatPhase::AwaitAnswer, ..s },
        ChatActionView::GenerateAnswer(
            system_prompt_spec(s.context, s.has_gap, s.notified.len()),
            answer_messages_spec(s.history, s.question),
        ),
    )
}

/// The stored expert answer to the question: the text of the first expert's
/// response among the passages close to the question as asked, in the order
/// found (best first), if any of them is one.
pub open spec fn stored_answer_spec(close: Seq<MetadataView>) -> Option<Seq<char>>
    decreases close.len(),
{
    if close.len() == 0 {
        None
    } else if close[0].chunk_type == "expert_response"@ {
        Some(close[0].text)
    } else {
        stored_answer_spec(close.drop_first())
    }
}

/// One step of a chat turn.
pub open spec fn chat_step_spec(s: ChatView, e: ChatEventView) -> (ChatView, ChatActionView) {
    match e {
        ChatEventView::Begin => (
            ChatView { phase: ChatPhase::AwaitStoredAnswer, ..s },
            ChatActionView::LookUpStoredAnswer(s.question),
        ),
        ChatEventView::StoredFound(m) => match stored_answer_spec(m) {
            Some(text) => (
                ChatView { phase: ChatPhase::Finished, matches: m, ..s },
                ChatActionView::Finish(text, false, None, seq![]),
            ),
            None => (ChatView { phase: ChatPhase::AwaitRetrieval, ..s }, ChatActionView::Retrieve(s.question)),
        },
        ChatEventView::Retrieved(m) => (
            ChatView { phase: ChatPhase::AwaitGraph, matches: m, ..s },
            ChatActionView::FetchGraph(distinct_nonempty(paper_ids_of(m))),
        ),
        ChatEventView::GraphFetched(g) => {
            let papers = match g {
                Some(p) => p,
                None => seq![],
            };
            (
                ChatView { phase: ChatPhase::AwaitGap, context: context_spec(s.matches, papers), ..s },
                ChatActionView::AssessGap(s.question, s.matches),
            )
        },
        ChatEventView::GapAssessed(has_gap, concepts, ids) => {
            let s2 = ChatView { has_gap, gap_concepts: concepts, gap_paper_ids: ids, ..s };
            if has_gap {
                (ChatView { phase: ChatPhase::AwaitRouting, ..s2 }, ChatActionView::Route(s.question, concepts, ids))
            } else {
                answer_step_spec(s2)
            }
        },
        ChatEventView::Routed(r) => match r {
            Some(n) => answer_step_spec(
                ChatView { notified: n, escalation_message: Some(escalation_message_spec(n.len())), ..s },
            ),
            None => answer_step_spec(s),
        },
        ChatEventView::Answered(text) => (
            ChatView { phase: ChatPhase::Finished, ..s },
            ChatActionView::Finish(text, s.has_gap, s.escalation_message, s.notified),
        ),
    }
}

impl ChatFlow {
    /// A chat turn answering `question` after the given history.
    pub fn new(question: String, history: Vec<ChatMessage>) -> (r: Self)
        ensures
            r@ == (ChatView {
                question: question@,
                history: message_views(history@),
                phase: ChatPhase::Start,
                matches: seq![],
                context: seq![],
                has_gap: false,
                gap_concepts: seq![],
                gap_paper_ids: seq![],
                notified: seq![],
                escalation_message: None,
            }),
    {
        let r = ChatFlow {
            question,
            history,
            phase: ChatPhase::Start,
            matches: Vec::new(),
            context: String::new(),
            has_gap: false,
            gap_concepts: Vec::new(),
            gap_paper_ids: Vec::new(),
            notified: Vec::new(),
            escalation_message: None,
        };
        assert(metadata_views(r.matches@) =~= seq![]);
        assert(string_views(r.gap_concepts@) =~= seq![]);
        assert(string_views(r.gap_paper_ids@) =~= seq![]);
        assert(string_views(r.notified@) =~= seq![]);
        r
    }

    fn answer_step(&mut self) -> (a: ChatAction)
        ensures
            (final(self)@, a@) == answer_step_spec(old(self)@),
    {
        self.phase = ChatPhase::AwaitAnswer;
        let system = build_system_prompt(self.context.as_str(), self.has_gap, &self.notified);
        let messages = answer_messages(&self.history, self.question.as_str());
        ChatAction::GenerateAnswer { system, messages }
    }

    /// Takes what the last request returned and says what to request next.
    pub fn step(&mut self, event: ChatEvent) -> (a: ChatAction)
        requires
            chat_accepts(old(self)@, event@),
        ensures
            (final(self)@, a@) == chat_step_spec(old(self)@, event@),
    {
        match event {
            ChatEvent::Begin => {
                self.phase = ChatPhase::AwaitStoredAnswer;
                ChatAction::LookUpStoredAnswer(self.question.clone())
            },
            ChatEvent::StoredFound(m) => {
                match stored_expert_answer(&m) {
                    Some(text) => {
                        self.matches = m;
                        self.phase = ChatPhase::Finished;
                        let none: Vec<String> = Vec::new();
                        assert(string_views(none@) =~= seq![]);
                        ChatAction::Finish(
                            ChatOutcome { content: text, escalated: false, escalation_message: None, notified_experts: none },
                        )
                    },
                    None => {
                        self.phase = ChatPhase::AwaitRetrieval;
                        ChatAction::Retrieve(self.question.clone())
                    },
                }
            },
            ChatEvent::Retrieved(m) => {
                let ids = distinct_paper_ids(&m);
                self.matches = m;
                self.phase = ChatPhase::AwaitGraph;
                ChatAction::FetchGraph(ids)
            },
            ChatEvent::GraphFetched(g) => {
                let graph = match g {
                    Some(c) => c,
                    None => GraphContext { papers: Vec::new() },
                };
                assert(graph.papers@ == (match event@ {
                    ChatEventView::GraphFetched(Some(p)) => p,
                    _ => Seq::<GraphPaper>::empty(),
                }));
                self.context = build_context_string(&self.matches, &graph);
                self.phase = ChatPhase::AwaitGap;
                ChatAction::AssessGap { question: self.question.clone(), matches: clone_matches(&self.matches) }
            },
            ChatEvent::GapAssessed(a) => {
                let concepts = clone_strings(&a.relevant_concepts);
                let ids = clone_strings(&a.relevant_paper_ids);
                self.has_gap = a.has_gap;
                self.gap_concepts = a.relevant_concepts;
                self.gap_paper_ids = a.relevant_paper_ids;
                if self.has_gap {
                    self.phase = ChatPhase::AwaitRouting;
                    ChatAction::Route { question: self.question.clone(), concepts, paper_ids: ids }
                } else {
                    self.answer_step()
                }
            },
            ChatEvent::Routed(r) => {
                match r {
                    Some(n) => {
                        self.escalation_message = Some(escalation_message(n.len()));
                        self.notified = n;
                    },
                    None => {},
                }
                self.answer_step()
            },
            ChatEvent::Answered(text) => {
                self.phase = ChatPhase::Finished;
                let message = match &self.escalation_message {
                    Some(m) => Some(m.clone()),
                    None => None,
                };
                ChatAction::Finish(
                    ChatOutcome {
                        content: text,
                        escalated: self.has_gap,
                        escalation_message: message,
                        notified_experts: clone_strings(&self.notified),
                    },
                )
            },
        }
    }
}

/// The stored expert answer among the passages found for the question as
/// asked, if there is one (see `stored_answer_spec`).
pub fn stored_expert_answer(close: &Vec<VectorMetadata>) -> (r: Option<String>)
    ensures
        opt_view(r) == stored_answer_spec(metadata_views(close@)),
{
    let ghost mv = metadata_views(close@);
    let mut i: usize = 0;
    assert(mv.skip(0) =~= mv);
    while i < close.len()
        invariant
            i <= close.len(),
            mv == metadata_views(close@),
            stored_answer_spec(mv) == stored_answer_spec(mv.skip(i as int)),
        decreases close.len() - i,
    {
        assert(mv.skip(i as int).drop_first() =~= mv.skip(i + 1));
        assert(mv.skip(i as int)[0] == close@[i as int]@);
        if str_equal(close[i].chunk_type.as_str(), "expert_response") {
            return Some(close[i].text.clone());
        }
        i += 1;
    }
    assert(mv.skip(i as int).len() == 0);
    None
}

/// How many characters of a passage the answer's sources show.
pub const PREVIEW_CHARS: usize = 150;

/// The preview of a passage listed among an answer's sources: its first
/// `PREVIEW_CHARS` characters.
pub fn source_preview(text: &str) -> (r: String)
    ensures
        r@ == take_chars_spec(text@, PREVIEW_CHARS as nat),
{
    take_chars(text, PREVIEW_CHARS)
}

/// A copy of a metadata record.
pub fn clone_metadata(m: &VectorMetadata) -> (r: VectorMetadata)
    ensures
        r@ == m@,
{
    VectorMetadata {
        paper_id: m.paper_id.clone(),
        paper_title: m.paper_title.clone(),
        chunk_type: m.chunk_type.clone(),
        text: m.text.clone(),
        expert_email: match &m.expert_email {
            Some(e) => Some(e.clone()),
            None => None,
        },
    }
}

/// A copy of a list of metadata records.
pub fn clone_matches(v: &Vec<VectorMetadata>) -> (r: Vec<VectorMetadata>)
    ensures
        metadata_views(r@) == metadata_views(v@),
{
    let mut out: Vec<VectorMetadata> = Vec::new();
    let mut i: usize = 0;
    while i < v.len()
        invariant
            i <= v.len(),
            metadata_views(out@) == metadata_views(v@).take(i as int),
        decreases v.len() - i,
    {
        let ghost before = out@;
        let m = clone_metadata(&v[i]);
        out.push(m);
        assert(metadata_views(out@) =~= metadata_views(before).push(m@));
        assert(metadata_views(out@) =~= metadata_views(v@).take(i + 1));
        i += 1;
    }
    assert(metadata_views(v@).take(v.len() as int) =~= metadata_views(v@));
    out
}

} // verus!

verus! {

/// What holds of a chat turn at every step: experts are only notified, and
/// the user only told of an escalation, when there is a gap.
pub open spec fn chat_inv(s: ChatView) -> bool {
    &&& s.escalation_message is Some ==> s.has_gap
    &&& s.notified.len() > 0 ==> s.has_gap
    &&& (s.phase == ChatPhase::Start || s.phase == ChatPhase::AwaitStoredAnswer || s.phase == ChatPhase::AwaitRetrieval
        || s.phase == ChatPhase::AwaitGraph || s.phase == ChatPhase::AwaitGap) ==> !s.has_gap && s.notified.len() == 0 && s.escalation_message is None
    &&& s.phase == ChatPhase::AwaitRouting ==> s.has_gap && s.notified.len() == 0 && s.escalation_message is None
}

/// A chat turn starts in a state where its invariant holds.
pub proof fn lemma_chat_inv_initial(s: ChatView)
    requires
        s.phase == ChatPhase::Start,
        !s.has_gap,
        s.notified.len() == 0,
        s.escalation_message is None,
    ensures
        chat_inv(s),
{
}

/// Every step keeps the chat turn's invariant.
pub proof fn lemma_chat_step_inv(s: ChatView, e: ChatEventView)
    requires
        chat_inv(s),
        chat_accepts(s, e),
    ensures
        chat_inv(chat_step_spec(s, e).0),
{
}

/// A finished turn is escalated exactly when a gap was found, and it
/// reports notified experts or an escalation message only then.
pub proof fn lemma_chat_outcome_truthful(s: ChatView, e: ChatEventView)
    requires
        chat_inv(s),
        chat_accepts(s, e),
        chat_step_spec(s, e).1 is Finish,
    ensures
        chat_step_spec(s, e).1->Finish_1 == s.has_gap,
        chat_step_spec(s, e).1->Finish_2 is Some ==> chat_step_spec(s, e).1->Finish_1,
        chat_step_spec(s, e).1->Finish_3.len() > 0 ==> chat_step_spec(s, e).1->Finish_1,
{
}

/// The question is routed to experts exactly when the gap assessment finds
/// a gap, and with the assessment's concepts and papers.
pub proof fn lemma_route_only_on_gap(s: ChatView, has_gap: bool, concepts: Seq<Seq<char>>, ids: Seq<Seq<char>>)
    requires
        s.phase == ChatPhase::AwaitGap,
    ensures
        chat_step_spec(s, ChatEventView::GapAssessed(has_gap, concepts, ids)).1 is Route <==> has_gap,
        has_gap ==> chat_step_spec(s, ChatEventView::GapAssessed(has_gap, concepts, ids)).1
            == ChatActionView::Route(s.question, concepts, ids),
{
}

/// When there is a gap, the answer is asked for only once the routing is
/// over, so the prompt can say truthfully whether experts were notified.
pub proof fn lemma_answer_after_routing(s: ChatView, e: ChatEventView)
    requires
        chat_inv(s),
        chat_accepts(s, e),
        chat_step_spec(s, e).1 is GenerateAnswer,
    ensures
        chat_step_spec(s, e).0.has_gap ==> e is Routed,
{
}

/// The actions that ask the language model: retrieval (which first expands
/// the query with the model), gap assessment (which asks the model to
/// confirm a gap), routing (which asks it to rank experts) and the answer.
pub open spec fn asks_model(a: ChatActionView) -> bool {
    ||| a is Retrieve
    ||| a is AssessGap
    ||| a is Route
    ||| a is GenerateAnswer
}

/// An expert's answer already in the knowledge base answers the same
/// question at once, straight from the vector store: when an expert's
/// response is among the passages close to the question as asked, the turn
/// looks the question up and finishes with the first such response's text. Neither of its two actions asks the model, nobody
/// is notified, nothing is escalated, and the turn accepts no further event.
pub proof fn lemma_expert_answer_returned_directly(
    s: ChatView,
    m: Seq<MetadataView>,
    e: ChatEventView,
)
    requires
        s.phase == ChatPhase::Start,
        stored_answer_spec(m) is Some,
    ensures
        chat_step_spec(s, ChatEventView::Begin).1 == ChatActionView::LookUpStoredAnswer(s.question),
        !asks_model(chat_step_spec(s, ChatEventView::Begin).1),
        chat_accepts(chat_step_spec(s, ChatEventView::Begin).0, ChatEventView::StoredFound(m)),
        chat_step_spec(chat_step_spec(s, ChatEventView::Begin).0, ChatEventView::StoredFound(m)).1
            == ChatActionView::Finish(stored_answer_spec(m)->0, false, None, seq![]),
        !asks_model(
            chat_step_spec(chat_step_spec(s, ChatEventView::Begin).0, ChatEventView::StoredFound(m)).1,
        ),
        !chat_accepts(
            chat_step_spec(chat_step_spec(s, ChatEventView::Begin).0, ChatEventView::StoredFound(m)).0,
            e,
        ),
{
}

/// Without a stored expert answer to the question, the turn goes on as
/// before: it retrieves passages for the question.
pub proof fn lemma_no_stored_answer_retrieves(s: ChatView, m: Seq<MetadataView>)
    requires
        s.phase == ChatPhase::AwaitStoredAnswer,
        stored_answer_spec(m) is None,
    ensures
        chat_step_spec(s, ChatEventView::StoredFound(m)).1 == ChatActionView::Retrieve(s.question),
        chat_step_spec(s, ChatEventView::StoredFound(m)).0.phase == ChatPhase::AwaitRetrieval,
{
}

/// The messages sent for the answer are the stored history, in its stored
/// order and unchanged, followed by the question as the user's turn.
pub proof fn lemma_answer_messages_keep_history(history: Seq<MessageView>, question: Seq<char>)
    ensures
        answer_messages_spec(history, question).len() == history.len() + 1,
        forall|k: int| 0 <= k < history.len() ==> #[trigger] answer_messages_spec(history, question)[k] == history[k],
        answer_messages_spec(history, question)[history.len() as int].role == "user"@,
        answer_messages_spec(history, question)[history.len() as int].content == question,
{
}

/// After routing, the answer's system prompt reports exactly the number of
/// experts notified, and the user's message says the same.
pub proof fn lemma_prompt_reports_routing(s: ChatView, notified: Seq<Seq<char>>)
    requires
        s.phase == ChatPhase::AwaitRouting,
        s.has_gap,
    ensures
        chat_step_spec(s, ChatEventView::Routed(Some(notified))).1 == ChatActionView::GenerateAnswer(
            system_prompt_spec(s.context, true, notified.len()),
            answer_messages_spec(s.history, s.question),
        ),
        chat_step_spec(s, ChatEventView::Routed(Some(notified))).0.escalation_message == Some(
            escalation_message_spec(notified.len()),
        ),
{
}

} // verus!
