use livepaper::json::{json_get, json_str_field, JsonValue};
use livepaper::models::VectorMetadata;
use livepaper::retrieval::{
    abstract_vector_id, build_context_string, chunk_vector_id, distinct_paper_ids, expert_response_metadata,
    expert_response_vector_id, metadata_from_json, paper_chunk_metadata, GraphContext, GraphPaper,
};

fn meta(paper_id: &str, title: &str, chunk_type: &str, text: &str, email: Option<&str>) -> VectorMetadata {
    VectorMetadata {
        paper_id: paper_id.to_string(),
        paper_title: title.to_string(),
        chunk_type: chunk_type.to_string(),
        text: text.to_string(),
        expert_email: email.map(|e| e.to_string()),
    }
}

fn strings(v: &[&str]) -> Vec<String> {
    v.iter().map(|s| s.to_string()).collect()
}

#[test]
fn vector_ids_follow_the_naming_scheme() {
    assert_eq!(abstract_vector_id("p1"), "p1_abstract");
    assert_eq!(chunk_vector_id("p1", 0), "p1_chunk_0");
    assert_eq!(chunk_vector_id("p1", 19), "p1_chunk_19");
    assert_eq!(expert_response_vector_id("r-7"), "expert_resp_r-7");
}

#[test]
fn paper_metadata_has_no_expert_email() {
    let m = paper_chunk_metadata("p1", "Title", "body", "some text");
    assert_eq!(json_str_field(&m, "paper_id").map(|s| s.as_str()), Some("p1"));
    assert_eq!(json_str_field(&m, "chunk_type").map(|s| s.as_str()), Some("body"));
    assert!(json_get(&m, "expert_email").is_none());
}

#[test]
fn paper_metadata_reads_back_as_written() {
    let m = paper_chunk_metadata("p1", "Title", "abstract", "the abstract");
    let r = metadata_from_json(&m);
    assert_eq!(r.paper_id, "p1");
    assert_eq!(r.paper_title, "Title");
    assert_eq!(r.chunk_type, "abstract");
    assert_eq!(r.text, "the abstract");
    assert_eq!(r.expert_email, None);
}

#[test]
fn expert_response_metadata_reads_back_as_written() {
    let m = expert_response_metadata("p2", "Other", "my answer", "ex@pert.io");
    let r = metadata_from_json(&m);
    assert_eq!(r.paper_id, "p2");
    assert_eq!(r.paper_title, "Other");
    assert_eq!(r.chunk_type, "expert_response");
    assert_eq!(r.text, "my answer");
    assert_eq!(r.expert_email.as_deref(), Some("ex@pert.io"));
}

#[test]
fn metadata_of_missing_or_odd_members_is_empty() {
    let r = metadata_from_json(&JsonValue::Null);
    assert_eq!(r.paper_id, "");
    assert_eq!(r.text, "");
    assert_eq!(r.expert_email, None);
    let odd = JsonValue::Object(vec![
        ("paper_id".to_string(), JsonValue::Number(Some(3))),
        ("text".to_string(), JsonValue::Str("t".to_string())),
        ("expert_email".to_string(), JsonValue::Null),
    ]);
    let r = metadata_from_json(&odd);
    assert_eq!(r.paper_id, "");
    assert_eq!(r.text, "t");
    assert_eq!(r.expert_email, None);
}

#[test]
fn distinct_paper_ids_keep_first_appearance_and_skip_empty() {
    let matches = vec![
        meta("b", "", "body", "", None),
        meta("", "", "body", "", None),
        meta("a", "", "body", "", None),
        meta("b", "", "abstract", "", None),
        meta("c", "", "body", "", None),
        meta("a", "", "body", "", None),
    ];
    assert_eq!(distinct_paper_ids(&matches), strings(&["b", "a", "c"]));
    assert!(distinct_paper_ids(&vec![]).is_empty());
}

#[test]
fn context_lists_sources_then_graph_papers() {
    let matches = vec![
        meta("p1", "Deep Nets", "body", "Nets are deep.", None),
        meta("p1", "Deep Nets", "expert_response", "I agree.", Some("e@x.io")),
        meta("p2", "Other", "expert_response", "Unsigned.", None),
    ];
    let graph = GraphContext {
        papers: vec![
            GraphPaper {
                paper_id: "p1".to_string(),
                title: "Deep Nets".to_string(),
                concepts: strings(&["depth", "width"]),
                topics: vec![],
                authors: strings(&["Ada", "Alan"]),
                citations: vec![],
            },
            GraphPaper {
                paper_id: "p2".to_string(),
                title: "No concepts".to_string(),
                concepts: vec![],
                topics: vec![],
                authors: strings(&["Zed"]),
                citations: vec![],
            },
        ],
    };
    let ctx = build_context_string(&matches, &graph);
    assert_eq!(
        ctx,
        "[Source 1] Paper: Deep Nets\nNets are deep.\n\n\
         [Source 2] Expert Response (e@x.io)\nI agree.\n\n\
         [Source 3] Expert Response (unknown)\nUnsigned.\n\n\
         [Graph] 'Deep Nets' by Ada, Alan — concepts: depth, width"
    );
}

#[test]
fn context_takes_five_passages_and_three_papers() {
    let matches: Vec<VectorMetadata> =
        (1..=7).map(|i| meta("p", "T", "body", &format!("text {i}"), None)).collect();
    let papers: Vec<GraphPaper> = (1..=4)
        .map(|i| GraphPaper {
            paper_id: format!("p{i}"),
            title: format!("P{i}"),
            concepts: vec![format!("c{i}")],
            topics: vec![],
            authors: vec![],
            citations: vec![],
        })
        .collect();
    let ctx = build_context_string(&matches, &GraphContext { papers });
    assert!(ctx.contains("[Source 5] Paper: T\ntext 5"));
    assert!(!ctx.contains("[Source 6]"));
    assert!(ctx.ends_with("[Graph] 'P3' by  — concepts: c3"));
    assert!(!ctx.contains("'P4'"));
}

#[test]
fn context_of_nothing_is_empty() {
    assert_eq!(build_context_string(&vec![], &GraphContext { papers: vec![] }), "");
}
