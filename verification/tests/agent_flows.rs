use livepaper::chat::{
    answer_messages, build_system_prompt, escalation_message, history_from_rows, source_preview, ChatAction, ChatEvent,
    ChatFlow,
};
use livepaper::extraction::{IngestionAuthorInput, EXTRACTION_SYSTEM_PROMPT};
use livepaper::gap::{
    gap_user_prompt, keep_concepts, model_confirms_gap, GapAction, GapAssessment, GapDetector, GapEvent,
    GAP_SYSTEM_PROMPT,
};
use livepaper::ingestion::{IngestAction, IngestEvent, Ingestion};
use livepaper::models::{ChatMessage, VectorMetadata};
use livepaper::retrieval::{GraphContext, GraphPaper};
use livepaper::router::{
    apply_ranking, parse_ranking, ranking_user_prompt, title_candidates, CandidateSource, ExpertCandidate,
    ExpertRouter, RouterAction, RouterEvent, RANKING_SYSTEM_PROMPT,
};

fn meta(paper_id: &str, text: &str) -> VectorMetadata {
    VectorMetadata {
        paper_id: paper_id.to_string(),
        paper_title: format!("Title {paper_id}"),
        chunk_type: "body".to_string(),
        text: text.to_string(),
        expert_email: None,
    }
}

fn strings(v: &[&str]) -> Vec<String> {
    v.iter().map(|s| s.to_string()).collect()
}

fn contact(name: &str, email: &str) -> (String, String) {
    (name.to_string(), email.to_string())
}

fn candidate(name: &str, email: &str, source: CandidateSource) -> ExpertCandidate {
    ExpertCandidate { name: name.to_string(), email: email.to_string(), source }
}

// ---------------------------------------------------------------- gap detection

#[test]
fn verdict_reads_a_leading_yes() {
    assert!(model_confirms_gap("YES"));
    assert!(model_confirms_gap("  yes, the context is missing  "));
    assert!(model_confirms_gap("Yes."));
    assert!(!model_confirms_gap("NO"));
    assert!(!model_confirms_gap("I think yes"));
    assert!(!model_confirms_gap(""));
}

#[test]
fn gap_prompt_previews_three_passages() {
    let long = "x".repeat(250);
    let matches = vec![meta("a", "first"), meta("b", &long), meta("c", "third"), meta("d", "fourth")];
    let p = gap_user_prompt("Why?", &matches);
    assert_eq!(
        p,
        format!("Question: Why?\n\nRetrieved context:\nfirst\n---\n{}\n---\nthird\n\nIs there a knowledge gap?", "x".repeat(200))
    );
}

#[test]
fn keep_concepts_dedups_neighbours_and_keeps_ten() {
    assert_eq!(keep_concepts(&strings(&["a", "a", "b", "a", "b", "b"])), strings(&["a", "b", "a", "b"]));
    let many: Vec<String> = (0..15).map(|i| format!("c{i}")).collect();
    assert_eq!(keep_concepts(&many), many[0..10].to_vec());
}

#[test]
fn confident_retrieval_has_no_gap() {
    let mut g = GapDetector::new("q".to_string(), vec![meta("p1", "t")], false);
    match g.step(GapEvent::Begin) {
        GapAction::Finish(a) => {
            assert!(!a.has_gap);
            assert!(a.relevant_concepts.is_empty());
            assert!(a.relevant_paper_ids.is_empty());
        },
        _ => panic!("expected the assessment to finish"),
    }
}

#[test]
fn no_match_is_a_gap_without_asking_the_model() {
    let mut g = GapDetector::new("q".to_string(), vec![], false);
    match g.step(GapEvent::Begin) {
        GapAction::Finish(a) => {
            assert!(a.has_gap);
            assert!(a.relevant_paper_ids.is_empty());
        },
        _ => panic!("expected the assessment to finish"),
    }
}

#[test]
fn low_confidence_asks_the_model_then_collects_concepts() {
    let matches = vec![meta("p1", "one"), meta("p2", "two"), meta("p1", "three"), meta("p3", "four"), meta("p4", "five")];
    let mut g = GapDetector::new("What is X?".to_string(), matches.clone(), true);
    match g.step(GapEvent::Begin) {
        GapAction::AskModel { system, user } => {
            assert_eq!(system, GAP_SYSTEM_PROMPT);
            assert_eq!(user, gap_user_prompt("What is X?", &matches));
        },
        _ => panic!("expected a question to the model"),
    }
    match g.step(GapEvent::VerdictReplied(Some(" yes ".to_string()))) {
        GapAction::FetchConcepts(p) => assert_eq!(p, "p1"),
        _ => panic!("expected a concept lookup"),
    }
    match g.step(GapEvent::ConceptsFound(Some(strings(&["attention", "attention", "rnn"])))) {
        GapAction::FetchConcepts(p) => assert_eq!(p, "p2"),
        _ => panic!("expected a concept lookup"),
    }
    match g.step(GapEvent::ConceptsFound(None)) {
        GapAction::FetchConcepts(p) => assert_eq!(p, "p3"),
        _ => panic!("expected a concept lookup"),
    }
    match g.step(GapEvent::ConceptsFound(Some(strings(&["rnn", "lstm"])))) {
        GapAction::Finish(a) => {
            assert!(a.has_gap);
            assert_eq!(a.relevant_concepts, strings(&["attention", "rnn", "lstm"]));
            assert_eq!(a.relevant_paper_ids, strings(&["p1", "p2", "p3", "p4"]));
        },
        _ => panic!("expected the assessment to finish"),
    }
}

#[test]
fn a_no_from_the_model_is_no_gap_and_a_failure_is_a_gap() {
    let mut g = GapDetector::new("q".to_string(), vec![meta("", "t")], true);
    g.step(GapEvent::Begin);
    match g.step(GapEvent::VerdictReplied(Some("NO".to_string()))) {
        GapAction::Finish(a) => assert!(!a.has_gap),
        _ => panic!("expected the assessment to finish"),
    }
    let mut g = GapDetector::new("q".to_string(), vec![meta("", "t")], true);
    g.step(GapEvent::Begin);
    match g.step(GapEvent::VerdictReplied(None)) {
        GapAction::Finish(a) => assert!(a.has_gap),
        _ => panic!("expected the assessment to finish"),
    }
}

// ---------------------------------------------------------------- routing

#[test]
fn ranking_reply_is_read_as_one_based_indices() {
    assert_eq!(parse_ranking("1,3,5", 5), vec![0, 2, 4]);
    assert_eq!(parse_ranking(" 2 , 9, x, 0, +1", 4), vec![1, 0]);
    assert_eq!(parse_ranking("none", 4), Vec::<usize>::new());
    assert_eq!(parse_ranking("3,3", 3), vec![2, 2]);
}

#[test]
fn ranking_falls_back_to_all_candidates() {
    let cs = vec![
        candidate("A", "a@x", CandidateSource::RegisteredExpert),
        candidate("B", "b@x", CandidateSource::PaperAuthor),
    ];
    let r = apply_ranking(&cs, None);
    assert_eq!(r.len(), 2);
    let r = apply_ranking(&cs, Some("nothing useful"));
    assert_eq!(r[0].email, "a@x");
    let r = apply_ranking(&cs, Some("2"));
    assert_eq!(r.len(), 1);
    assert_eq!(r[0].email, "b@x");
    assert_eq!(r[0].source, CandidateSource::PaperAuthor);
}

#[test]
fn ranking_prompt_numbers_the_candidates() {
    let cs = vec![
        candidate("Ada", "ada@x", CandidateSource::RegisteredExpert),
        candidate("Alan", "alan@y", CandidateSource::PaperAuthor),
    ];
    assert_eq!(ranking_user_prompt("Q?", &cs), "Question: Q?\n\nCandidates:\n1. Ada <ada@x>\n2. Alan <alan@y>");
}

#[test]
fn title_candidates_are_the_ids_that_read_as_uuids() {
    let ids = strings(&["not-a-uuid", "67e55044-10b1-426f-9247-bb680e5fe0c8", ""]);
    assert_eq!(title_candidates(&ids), vec![0x67e5504410b1426f9247bb680e5fe0c8u128]);
}

#[test]
fn routing_with_enough_experts_skips_authors_and_ranking() {
    let mut r = ExpertRouter::new("Q".to_string(), strings(&["c"]), strings(&["p1"]), 2);
    match r.step(RouterEvent::Begin) {
        RouterAction::FindExperts(c) => assert_eq!(c, strings(&["c"])),
        _ => panic!("expected an expert lookup"),
    }
    match r.step(RouterEvent::ExpertsFound(vec![contact("E1", "e1@x"), contact("E2", "e2@x")])) {
        RouterAction::LookupPaperTitle(ids) => assert_eq!(ids, strings(&["p1"])),
        _ => panic!("expected a title lookup"),
    }
    match r.step(RouterEvent::TitleFound(Some("Deep Nets".to_string()))) {
        RouterAction::SendEmail { to_name, to_email, paper_title, question, paper_id } => {
            assert_eq!((to_name.as_str(), to_email.as_str()), ("E1", "e1@x"));
            assert_eq!(paper_title, "Deep Nets");
            assert_eq!(question, "Q");
            assert_eq!(paper_id, "p1");
        },
        _ => panic!("expected an email"),
    }
    r.step(RouterEvent::EmailSent(true));
    r.step(RouterEvent::TitleFound(Some("Deep Nets".to_string())));
    match r.step(RouterEvent::EmailSent(true)) {
        RouterAction::Finish(res) => {
            assert_eq!(res.notified, strings(&["e1@x", "e2@x"]));
            assert_eq!(res.candidates.len(), 2);
            assert_eq!(res.candidates[0].source, CandidateSource::RegisteredExpert);
        },
        _ => panic!("expected the routing to finish"),
    }
}

#[test]
fn routing_adds_authors_ranks_and_emails_the_chosen() {
    let mut r = ExpertRouter::new("Q".to_string(), strings(&["c"]), vec![], 3);
    r.step(RouterEvent::Begin);
    match r.step(RouterEvent::ExpertsFound(vec![contact("E1", "e1@x")])) {
        RouterAction::FindAuthors(c) => assert_eq!(c, strings(&["c"])),
        _ => panic!("expected an author lookup"),
    }
    let authors = vec![contact("A1", "a1@x"), contact("E1 again", "e1@x"), contact("A2", "a2@x"), contact("A3", "a3@x")];
    match r.step(RouterEvent::AuthorsFound(authors)) {
        RouterAction::RankCandidates { system, user } => {
            assert_eq!(system, RANKING_SYSTEM_PROMPT);
            assert_eq!(user, "Question: Q\n\nCandidates:\n1. E1 <e1@x>\n2. A1 <a1@x>\n3. A2 <a2@x>\n4. A3 <a3@x>");
        },
        _ => panic!("expected a ranking"),
    }
    match r.step(RouterEvent::RankingReplied(Some("4, 2, 9".to_string()))) {
        RouterAction::LookupPaperTitle(ids) => assert!(ids.is_empty()),
        _ => panic!("expected a title lookup"),
    }
    match r.step(RouterEvent::TitleFound(None)) {
        RouterAction::SendEmail { to_email, paper_title, paper_id, .. } => {
            assert_eq!(to_email, "a3@x");
            assert_eq!(paper_title, "Research Paper");
            assert_eq!(paper_id, "");
        },
        _ => panic!("expected an email"),
    }
    r.step(RouterEvent::EmailSent(false));
    match r.step(RouterEvent::TitleFound(None)) {
        RouterAction::SendEmail { to_email, .. } => assert_eq!(to_email, "a1@x"),
        _ => panic!("expected an email"),
    }
    match r.step(RouterEvent::EmailSent(true)) {
        RouterAction::Finish(res) => {
            assert_eq!(res.notified, strings(&["a1@x"]));
            let emails: Vec<&str> = res.candidates.iter().map(|c| c.email.as_str()).collect();
            assert_eq!(emails, vec!["a3@x", "a1@x"]);
        },
        _ => panic!("expected the routing to finish"),
    }
}

#[test]
fn routing_with_nobody_finishes_at_once() {
    let mut r = ExpertRouter::new("Q".to_string(), vec![], vec![], 3);
    r.step(RouterEvent::Begin);
    r.step(RouterEvent::ExpertsFound(vec![]));
    match r.step(RouterEvent::AuthorsFound(vec![])) {
        RouterAction::Finish(res) => {
            assert!(res.notified.is_empty());
            assert!(res.candidates.is_empty());
        },
        _ => panic!("expected the routing to finish"),
    }
}

// ---------------------------------------------------------------- chat

#[test]
fn escalation_messages_report_the_outcome() {
    assert_eq!(escalation_message(2), "2 expert(s) have been notified and will respond by email.");
    assert_eq!(
        escalation_message(0),
        "No registered experts were found for this topic. Consider inviting relevant authors via the dashboard."
    );
}

fn expected_prompt(context: &str, block: &str) -> String {
    format!(
        r#"You are LivePaper, an AI research assistant that helps researchers understand academic papers.
You have access to a knowledge base of ingested papers with their concepts, citations, and expert responses.
Always cite which paper or source you are drawing from. Never hallucinate.
{escalation_block}

--- KNOWLEDGE BASE ---
{ctx}
--- END KNOWLEDGE BASE ---

Structure your response:
1. Direct answer using evidence from the knowledge base
2. Supporting citations (paper title or source)
3. If escalated: confirm that expert(s) have been notified and the user will hear back by email"#,
        escalation_block = block,
        ctx = if context.is_empty() { "No relevant passages found in the knowledge base." } else { context },
    )
}

#[test]
fn system_prompt_without_gap() {
    assert_eq!(build_system_prompt("ctx", false, &vec![]), expected_prompt("ctx", ""));
    assert_eq!(build_system_prompt("", false, &vec![]), expected_prompt("", ""));
}

#[test]
fn system_prompt_reports_the_escalation() {
    let notified = strings(&["a@x", "b@x"]);
    let block = format!(
        "\n\n## Knowledge Gap — Expert Escalation Triggered\n\
         The knowledge base does not fully answer this question. \
         {} expert(s) have already been notified by email and will respond directly to the user.\n\
         In your answer:\n\
         - Share whatever partial information exists in the context below\n\
         - Clearly state that this question has been escalated to {} expert(s)\n\
         - Do NOT say you cannot contact experts — you already have\n\
         - Do NOT suggest the user contact experts themselves — that is already done\n\
         - Do NOT list example questions to ask — answer what you can and confirm escalation",
        2, 2,
    );
    assert_eq!(build_system_prompt("ctx", true, &notified), expected_prompt("ctx", &block));
    let none = "\n\n## Knowledge Gap — No Experts on File\n\
                The knowledge base does not fully answer this question and no registered experts \
                were found for the relevant topics.\n\
                In your answer:\n\
                - Share whatever partial information exists in the context below\n\
                - Acknowledge the gap honestly\n\
                - Suggest the user invite relevant paper authors via the LivePaper dashboard";
    assert_eq!(build_system_prompt("ctx", true, &vec![]), expected_prompt("ctx", none));
}

fn msg(role: &str, content: &str) -> ChatMessage {
    ChatMessage { role: role.to_string(), content: content.to_string() }
}

#[test]
fn history_drops_system_messages() {
    let rows = vec![msg("user", "hi"), msg("system", "note"), msg("assistant", "hello")];
    let h = history_from_rows(&rows);
    assert_eq!(h.len(), 2);
    assert_eq!(h[0].content, "hi");
    assert_eq!(h[1].role, "assistant");
    let m = answer_messages(&h, "next?");
    assert_eq!(m.len(), 3);
    assert_eq!((m[2].role.as_str(), m[2].content.as_str()), ("user", "next?"));
}

fn drive_to_gap(question: &str) -> (ChatFlow, Vec<VectorMetadata>) {
    let mut c = ChatFlow::new(question.to_string(), vec![msg("user", "earlier")]);
    match c.step(ChatEvent::Begin) {
        ChatAction::LookUpStoredAnswer(q) => assert_eq!(q, question),
        _ => panic!("expected a lookup of a stored answer"),
    }
    match c.step(ChatEvent::StoredFound(vec![meta("p1", "alpha")])) {
        ChatAction::Retrieve(q) => assert_eq!(q, question),
        _ => panic!("expected a retrieval"),
    }
    let matches = vec![meta("p1", "alpha"), meta("p2", "beta"), meta("p1", "gamma")];
    match c.step(ChatEvent::Retrieved(matches.clone())) {
        ChatAction::FetchGraph(ids) => assert_eq!(ids, strings(&["p1", "p2"])),
        _ => panic!("expected a graph lookup"),
    }
    let graph = GraphContext {
        papers: vec![GraphPaper {
            paper_id: "p1".to_string(),
            title: "Title p1".to_string(),
            concepts: strings(&["k"]),
            topics: vec![],
            authors: strings(&["Ada"]),
            citations: vec![],
        }],
    };
    match c.step(ChatEvent::GraphFetched(Some(graph))) {
        ChatAction::AssessGap { question: q, matches: m } => {
            assert_eq!(q, question);
            assert_eq!(m.len(), 3);
        },
        _ => panic!("expected a gap assessment"),
    }
    (c, matches)
}

#[test]
fn chat_without_gap_answers_directly() {
    let (mut c, _) = drive_to_gap("What is alpha?");
    let a = GapAssessment { has_gap: false, relevant_concepts: vec![], relevant_paper_ids: vec![] };
    match c.step(ChatEvent::GapAssessed(a)) {
        ChatAction::GenerateAnswer { system, messages } => {
            let ctx = "[Source 1] Paper: Title p1\nalpha\n\n[Source 2] Paper: Title p2\nbeta\n\n\
                       [Source 3] Paper: Title p1\ngamma\n\n[Graph] 'Title p1' by Ada — concepts: k";
            assert_eq!(system, expected_prompt(ctx, ""));
            assert_eq!(messages.len(), 2);
            assert_eq!(messages[1].content, "What is alpha?");
        },
        _ => panic!("expected an answer request"),
    }
    match c.step(ChatEvent::Answered("Alpha is A.".to_string())) {
        ChatAction::Finish(o) => {
            assert_eq!(o.content, "Alpha is A.");
            assert!(!o.escalated);
            assert_eq!(o.escalation_message, None);
            assert!(o.notified_experts.is_empty());
        },
        _ => panic!("expected the turn to finish"),
    }
}

#[test]
fn chat_with_gap_routes_before_answering() {
    let (mut c, _) = drive_to_gap("What is delta?");
    let a = GapAssessment { has_gap: true, relevant_concepts: strings(&["k"]), relevant_paper_ids: strings(&["p1", "p2"]) };
    match c.step(ChatEvent::GapAssessed(a)) {
        ChatAction::Route { question, concepts, paper_ids } => {
            assert_eq!(question, "What is delta?");
            assert_eq!(concepts, strings(&["k"]));
            assert_eq!(paper_ids, strings(&["p1", "p2"]));
        },
        _ => panic!("expected a routing"),
    }
    match c.step(ChatEvent::Routed(Some(strings(&["e@x"])))) {
        ChatAction::GenerateAnswer { system, .. } => {
            assert!(system.contains("1 expert(s) have already been notified by email"));
        },
        _ => panic!("expected an answer request"),
    }
    match c.step(ChatEvent::Answered("Escalated.".to_string())) {
        ChatAction::Finish(o) => {
            assert!(o.escalated);
            assert_eq!(o.escalation_message.as_deref(), Some("1 expert(s) have been notified and will respond by email."));
            assert_eq!(o.notified_experts, strings(&["e@x"]));
        },
        _ => panic!("expected the turn to finish"),
    }
}

#[test]
fn chat_with_gap_and_nobody_to_ask() {
    let (mut c, _) = drive_to_gap("q");
    let a = GapAssessment { has_gap: true, relevant_concepts: vec![], relevant_paper_ids: vec![] };
    c.step(ChatEvent::GapAssessed(a));
    match c.step(ChatEvent::Routed(Some(vec![]))) {
        ChatAction::GenerateAnswer { system, .. } => assert!(system.contains("No Experts on File")),
        _ => panic!("expected an answer request"),
    }
    match c.step(ChatEvent::Answered("x".to_string())) {
        ChatAction::Finish(o) => {
            assert!(o.escalated);
            assert_eq!(
                o.escalation_message.as_deref(),
                Some("No registered experts were found for this topic. Consider inviting relevant authors via the dashboard.")
            );
        },
        _ => panic!("expected the turn to finish"),
    }
}

#[test]
fn chat_with_failed_routing_reports_no_escalation_message() {
    let (mut c, _) = drive_to_gap("q");
    let a = GapAssessment { has_gap: true, relevant_concepts: vec![], relevant_paper_ids: vec![] };
    c.step(ChatEvent::GapAssessed(a));
    c.step(ChatEvent::Routed(None));
    match c.step(ChatEvent::Answered("x".to_string())) {
        ChatAction::Finish(o) => {
            assert!(o.escalated);
            assert_eq!(o.escalation_message, None);
            assert!(o.notified_experts.is_empty());
        },
        _ => panic!("expected the turn to finish"),
    }
}

// ---------------------------------------------------------------- ingestion

#[test]
fn ingestion_runs_every_stage_in_order() {
    let authors = vec![
        IngestionAuthorInput { name: "Ada".to_string(), email: "ada@x".to_string() },
        IngestionAuthorInput { name: "Anon".to_string(), email: String::new() },
    ];
    let mut ing = Ingestion::new(
        "pid".to_string(),
        "T".to_string(),
        "The abstract.".to_string(),
        "https://p".to_string(),
        Some("https://p.pdf".to_string()),
        &authors,
    );
    match ing.step(IngestEvent::Begin) {
        IngestAction::SetStatus(s) => assert_eq!(s, "processing"),
        _ => panic!("expected a status"),
    }
    match ing.step(IngestEvent::Done) {
        IngestAction::UpsertPaperNode { paper_id, title, paper_url, abstract_text } => {
            assert_eq!(paper_id, "pid");
            assert_eq!(title, "T");
            assert_eq!(paper_url, "https://p");
            assert_eq!(abstract_text, "The abstract.");
        },
        _ => panic!("expected the paper node"),
    }
    match ing.step(IngestEvent::Done) {
        IngestAction::LinkAuthor { name, email } => assert_eq!((name.as_str(), email.as_str()), ("Ada", "ada@x")),
        _ => panic!("expected an author"),
    }
    match ing.step(IngestEvent::Done) {
        IngestAction::ObtainFullText(u) => assert_eq!(u.as_deref(), Some("https://p.pdf")),
        _ => panic!("expected the full text"),
    }
    let body: Vec<String> = (0..700).map(|i| format!("w{i}")).collect();
    match ing.step(IngestEvent::FullText(Some(body.join(" ")))) {
        IngestAction::AskModel { system, user } => {
            assert_eq!(system, EXTRACTION_SYSTEM_PROMPT);
            assert!(user.starts_with("Title: T\n\nAbstract: The abstract.\n\nText excerpt:\nw0 w1"));
        },
        _ => panic!("expected the model"),
    }
    let reply = r#"{"concepts":[{"name":"k","category":"Topic"}],"topics":["t"]}"#;
    match ing.step(IngestEvent::ExtractionReplied(Some(reply.to_string()))) {
        IngestAction::StoreExtraction(e) => {
            assert_eq!(e.concepts.len(), 1);
            assert_eq!(e.topics, strings(&["t"]));
        },
        _ => panic!("expected the extraction"),
    }
    match ing.step(IngestEvent::Done) {
        IngestAction::StoreVector { vector_id, chunk_type, text, required } => {
            assert_eq!(vector_id, "pid_abstract");
            assert_eq!(chunk_type, "abstract");
            assert_eq!(text, "The abstract.");
            assert!(required);
        },
        _ => panic!("expected the abstract vector"),
    }
    for i in 0..3 {
        match ing.step(IngestEvent::Done) {
            IngestAction::StoreVector { vector_id, chunk_type, text, required } => {
                assert_eq!(vector_id, format!("pid_chunk_{i}"));
                assert_eq!(chunk_type, "body");
                assert_eq!(text, body[i * 250..(i * 250 + 300).min(700)].join(" "));
                assert!(!required);
            },
            _ => panic!("expected a body vector"),
        }
    }
    match ing.step(IngestEvent::Done) {
        IngestAction::SetStatus(s) => assert_eq!(s, "completed"),
        _ => panic!("expected the final status"),
    }
    assert!(matches!(ing.step(IngestEvent::Done), IngestAction::Finish));
}

#[test]
fn ingestion_without_pdf_or_model_uses_the_abstract_and_nothing() {
    let mut ing = Ingestion::new("p".to_string(), "T".to_string(), "a b c".to_string(), "u".to_string(), None, &vec![]);
    ing.step(IngestEvent::Begin);
    ing.step(IngestEvent::Done);
    match ing.step(IngestEvent::Done) {
        IngestAction::ObtainFullText(u) => assert_eq!(u, None),
        _ => panic!("expected the full text"),
    }
    match ing.step(IngestEvent::FullText(None)) {
        IngestAction::AskModel { user, .. } => assert_eq!(user, "Title: T\n\nAbstract: a b c\n\nText excerpt:\na b c"),
        _ => panic!("expected the model"),
    }
    match ing.step(IngestEvent::ExtractionReplied(Some("not json".to_string()))) {
        IngestAction::StoreExtraction(e) => assert!(e.concepts.is_empty() && e.topics.is_empty()),
        _ => panic!("expected the extraction"),
    }
    ing.step(IngestEvent::Done);
    match ing.step(IngestEvent::Done) {
        IngestAction::StoreVector { vector_id, text, .. } => {
            assert_eq!(vector_id, "p_chunk_0");
            assert_eq!(text, "a b c");
        },
        _ => panic!("expected a body vector"),
    }
    assert!(matches!(ing.step(IngestEvent::Done), IngestAction::SetStatus(_)));
}

#[test]
fn ingestion_embeds_at_most_twenty_chunks() {
    let mut ing = Ingestion::new("p".to_string(), "T".to_string(), "abs".to_string(), "u".to_string(), None, &vec![]);
    ing.step(IngestEvent::Begin);
    ing.step(IngestEvent::Done);
    ing.step(IngestEvent::Done);
    let body: Vec<String> = (0..6000).map(|i| format!("w{i}")).collect();
    let text = body.join(" ");
    assert!(livepaper::extraction::excerpt_fits(&text));
    ing.step(IngestEvent::FullText(Some(text)));
    ing.step(IngestEvent::ExtractionReplied(None));
    ing.step(IngestEvent::Done);
    let mut stored = 0;
    loop {
        match ing.step(IngestEvent::Done) {
            IngestAction::StoreVector { required, .. } => {
                assert!(!required);
                stored += 1;
            },
            IngestAction::SetStatus(s) => {
                assert_eq!(s, "completed");
                break;
            },
            _ => panic!("unexpected action"),
        }
    }
    assert_eq!(stored, 20);
}

#[test]
fn a_stored_expert_answer_is_returned_without_the_model() {
    let mut c = ChatFlow::new("What is delta?".to_string(), vec![]);
    match c.step(ChatEvent::Begin) {
        ChatAction::LookUpStoredAnswer(q) => assert_eq!(q, "What is delta?"),
        _ => panic!("expected a lookup of a stored answer"),
    }
    let mut expert = meta("p1", "Delta is the change.");
    expert.chunk_type = "expert_response".to_string();
    expert.expert_email = Some("e@x".to_string());
    let mut later = meta("p2", "Another answer.");
    later.chunk_type = "expert_response".to_string();
    match c.step(ChatEvent::StoredFound(vec![meta("p1", "body text"), expert, later])) {
        ChatAction::Finish(o) => {
            assert_eq!(o.content, "Delta is the change.");
            assert!(!o.escalated);
            assert_eq!(o.escalation_message, None);
            assert!(o.notified_experts.is_empty());
        },
        _ => panic!("expected the stored expert answer"),
    }
}

#[test]
fn close_passages_without_an_expert_response_mean_a_retrieval() {
    let mut c = ChatFlow::new("q".to_string(), vec![]);
    c.step(ChatEvent::Begin);
    match c.step(ChatEvent::StoredFound(vec![meta("p1", "paper text"), meta("p2", "more")])) {
        ChatAction::Retrieve(q) => assert_eq!(q, "q"),
        _ => panic!("expected a retrieval"),
    }
}

#[test]
fn nothing_stored_means_a_retrieval() {
    let mut c = ChatFlow::new("q".to_string(), vec![]);
    c.step(ChatEvent::Begin);
    assert!(matches!(c.step(ChatEvent::StoredFound(vec![])), ChatAction::Retrieve(_)));
}

#[test]
fn source_previews_keep_the_first_150_characters() {
    let long: String = "é".repeat(200);
    assert_eq!(source_preview(&long), "é".repeat(150));
    assert_eq!(source_preview("short"), "short");
    assert_eq!(source_preview(""), "");
}
