use livepaper::json::JsonValue;
use livepaper::responses::{ResponseAction, ResponseEvent, ResponseIngestion};

fn member<'a>(v: &'a JsonValue, key: &str) -> Option<&'a JsonValue> {
    match v {
        JsonValue::Object(members) => members.iter().find(|(k, _)| k == key).map(|(_, x)| x),
        _ => None,
    }
}

fn text_of(v: Option<&JsonValue>) -> Option<String> {
    match v {
        Some(JsonValue::Str(s)) => Some(s.clone()),
        _ => None,
    }
}

#[test]
fn an_expert_response_is_taken_in_order() {
    let mut r = ResponseIngestion::new("p-1".to_string(), "ex@pert.io".to_string(), "My answer.".to_string());
    assert!(matches!(r.step(ResponseEvent::Begin), ResponseAction::SaveResponse));
    assert!(matches!(r.step(ResponseEvent::Saved("r-9".to_string())), ResponseAction::GetPaper));
    match r.step(ResponseEvent::PaperFound(Some("Deep Nets".to_string()))) {
        ResponseAction::Embed(t) => assert_eq!(t, "My answer."),
        _ => panic!("expected an embedding"),
    }
    match r.step(ResponseEvent::Embedded) {
        ResponseAction::StoreVector { vector_id, metadata } => {
            assert_eq!(vector_id, "expert_resp_r-9");
            assert_eq!(text_of(member(&metadata, "paper_id")).as_deref(), Some("p-1"));
            assert_eq!(text_of(member(&metadata, "paper_title")).as_deref(), Some("Deep Nets"));
            assert_eq!(text_of(member(&metadata, "chunk_type")).as_deref(), Some("expert_response"));
            assert_eq!(text_of(member(&metadata, "text")).as_deref(), Some("My answer."));
            assert_eq!(text_of(member(&metadata, "expert_email")).as_deref(), Some("ex@pert.io"));
        },
        _ => panic!("expected the vector"),
    }
    match r.step(ResponseEvent::VectorStored) {
        ResponseAction::StoreGraph { response_id, paper_id, expert_email, text } => {
            assert_eq!(
                (response_id.as_str(), paper_id.as_str(), expert_email.as_str(), text.as_str()),
                ("r-9", "p-1", "ex@pert.io", "My answer.")
            );
        },
        _ => panic!("expected the graph write"),
    }
    assert!(matches!(r.step(ResponseEvent::GraphStored), ResponseAction::MarkEmbedded));
    assert!(matches!(r.step(ResponseEvent::Marked), ResponseAction::Done));
}

#[test]
fn a_response_about_an_unknown_paper_stops_before_any_store() {
    let mut r = ResponseIngestion::new("p-404".to_string(), "e@x".to_string(), "t".to_string());
    r.step(ResponseEvent::Begin);
    r.step(ResponseEvent::Saved("r-1".to_string()));
    match r.step(ResponseEvent::PaperFound(None)) {
        ResponseAction::PaperMissing(m) => assert_eq!(m, "Paper p-404 not found"),
        _ => panic!("expected the unknown paper to stop the intake"),
    }
}
