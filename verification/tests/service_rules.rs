use base64::engine::general_purpose::URL_SAFE_NO_PAD;
use base64::Engine;
use livepaper::auth::{bearer_token, claims_from_json, display_name, find_jwk, verify_with_jwks, AuthError};
use livepaper::config::{
    count_from, dimensions_from, port_from, required_setting, setting_or, ConfigError, DEFAULT_HOST,
    DEFAULT_MAX_EXPERT_EMAILS, DEFAULT_TOP_K,
};
use livepaper::errors::AppError;
use livepaper::graph::{category_label, citation_year, contains_email, graph_lookup_needed, merge_contacts, query_concept_count};
use livepaper::json::JsonValue;
use livepaper::langfuse::{auth_header, is_configured};
use livepaper::models::ConceptCategory;
use livepaper::requests::{
    check_paper_owner, expert_not_found, is_blank, paper_not_found, should_record_escalation, validate_chat_message,
    validate_create_paper, validate_expert_response, validate_invite, CreatePaperRequest,
};
use livepaper::tools::{email_tool_result, graph_query_result};

fn s(x: &str) -> String {
    x.to_string()
}

fn obj(members: Vec<(&str, JsonValue)>) -> JsonValue {
    JsonValue::Object(members.into_iter().map(|(k, v)| (k.to_string(), v)).collect())
}

fn text(x: &str) -> JsonValue {
    JsonValue::Str(x.to_string())
}

// ---------------------------------------------------------------- errors

#[test]
fn client_errors_keep_their_message() {
    let e = AppError::NotFound(s("Paper 1 not found"));
    assert_eq!(e.status_code(), 404);
    assert_eq!(e.client_message(), "Paper 1 not found");
    assert!(!e.is_internal());
    assert_eq!(AppError::Unauthorized(s("m")).status_code(), 401);
    assert_eq!(AppError::Forbidden(s("m")).status_code(), 403);
    assert_eq!(AppError::Validation(s("bad")).status_code(), 422);
    assert_eq!(AppError::Validation(s("bad")).client_message(), "bad");
}

#[test]
fn pdf_errors_are_unprocessable_with_a_prefix() {
    let e = AppError::PdfProcessing(s("broken xref"));
    assert_eq!(e.status_code(), 422);
    assert_eq!(e.client_message(), "PDF error: broken xref");
    assert_eq!(e.describe(), "PDF processing error: broken xref");
}

#[test]
fn internal_errors_hide_their_details() {
    let cases = vec![
        (AppError::Database(s("password=SECRET-REDACTED")), "Database error"),
        (AppError::Neo4j(s("bolt down")), "Graph database error"),
        (AppError::Pinecone(s("429")), "Vector database error"),
        (AppError::Llm(s("timeout")), "AI service error"),
        (AppError::Email(s("403")), "Email service error"),
        (AppError::Internal(s("oops")), "Internal server error"),
    ];
    for (e, m) in cases {
        assert_eq!(e.status_code(), 500);
        assert!(e.is_internal());
        assert_eq!(e.client_message(), m);
    }
}

#[test]
fn describe_names_each_kind() {
    assert_eq!(AppError::NotFound(s("x")).describe(), "Not found: x");
    assert_eq!(AppError::Unauthorized(s("x")).describe(), "Unauthorized: x");
    assert_eq!(AppError::Forbidden(s("x")).describe(), "Forbidden: x");
    assert_eq!(AppError::Validation(s("x")).describe(), "Validation error: x");
    assert_eq!(AppError::Database(s("x")).describe(), "Database error: x");
    assert_eq!(AppError::Neo4j(s("x")).describe(), "Neo4j error: x");
    assert_eq!(AppError::Pinecone(s("x")).describe(), "Pinecone error: x");
    assert_eq!(AppError::Llm(s("x")).describe(), "LLM error: x");
    assert_eq!(AppError::Email(s("x")).describe(), "Email error: x");
    assert_eq!(AppError::Internal(s("x")).describe(), "Internal error: x");
}

// ---------------------------------------------------------------- requests

#[test]
fn blank_texts_are_refused() {
    assert!(is_blank(""));
    assert!(is_blank(" \t\n"));
    assert!(!is_blank(" a "));
    assert!(matches!(validate_chat_message("   "), Err(AppError::Validation(m)) if m == "Message cannot be empty"));
    assert!(validate_chat_message("hi").is_ok());
    assert!(matches!(validate_expert_response(""), Err(AppError::Validation(m)) if m == "response cannot be empty"));
    assert!(validate_expert_response("answer").is_ok());
}

#[test]
fn a_paper_needs_a_title() {
    let mut req = CreatePaperRequest { title: s("  "), abstract_text: s(""), paper_url: s(""), pdf_url: None, authors: vec![] };
    assert!(matches!(validate_create_paper(&req), Err(AppError::Validation(m)) if m == "title is required"));
    req.title = s("Deep Nets");
    assert!(validate_create_paper(&req).is_ok());
}

#[test]
fn an_invite_needs_email_and_name() {
    assert!(validate_invite("a@b", "Ada").is_ok());
    assert!(matches!(validate_invite("", "Ada"), Err(AppError::Validation(m)) if m == "email and name are required"));
    assert!(matches!(validate_invite("a@b", " "), Err(AppError::Validation(_))));
}

#[test]
fn only_the_owner_may_change_a_paper() {
    assert!(check_paper_owner(7, 7).is_ok());
    assert!(matches!(check_paper_owner(7, 8), Err(AppError::Forbidden(m)) if m == "Not your paper"));
}

#[test]
fn not_found_errors_name_what_is_missing() {
    assert!(matches!(paper_not_found("p1"), AppError::NotFound(m) if m == "Paper p1 not found"));
    assert!(matches!(expert_not_found("e@x"), AppError::NotFound(m) if m == "Expert e@x not found"));
}

#[test]
fn escalations_are_recorded_only_when_someone_was_notified() {
    assert!(should_record_escalation(true, &vec![s("a@x")]));
    assert!(!should_record_escalation(true, &vec![]));
    assert!(!should_record_escalation(false, &vec![s("a@x")]));
}

// ---------------------------------------------------------------- config

#[test]
fn port_defaults_to_8080_and_must_be_a_number() {
    assert_eq!(port_from(None).unwrap(), 8080);
    assert_eq!(port_from(Some("3000")).unwrap(), 3000);
    assert_eq!(port_from(Some("+42")).unwrap(), 42);
    assert_eq!(port_from(Some("65535")).unwrap(), 65535);
    assert!(matches!(port_from(Some("65536")), Err(ConfigError::InvalidPort)));
    assert!(port_from(Some("http")).is_err());
    assert!(port_from(Some("")).is_err());
    assert!(port_from(Some(" 80")).is_err());
    assert_eq!(ConfigError::InvalidPort.message(), "PORT must be a number");
}

#[test]
fn dimensions_must_be_positive() {
    assert_eq!(dimensions_from(Some("1024")), Some(1024));
    assert_eq!(dimensions_from(Some("0")), None);
    assert_eq!(dimensions_from(Some("-3")), None);
    assert_eq!(dimensions_from(Some("4294967296")), None);
    assert_eq!(dimensions_from(None), None);
}

#[test]
fn counts_fall_back_to_their_default() {
    assert_eq!(DEFAULT_TOP_K, 8);
    assert_eq!(DEFAULT_MAX_EXPERT_EMAILS, 3);
    assert_eq!(count_from(Some("12"), DEFAULT_TOP_K), 12);
    assert_eq!(count_from(Some("twelve"), DEFAULT_TOP_K), 8);
    assert_eq!(count_from(None, DEFAULT_MAX_EXPERT_EMAILS), 3);
    assert_eq!(count_from(Some("0"), 3), 0);
}

// ---------------------------------------------------------------- auth

#[test]
fn bearer_token_follows_the_prefix() {
    assert_eq!(bearer_token(Some("Bearer abc.def")), Some(s("abc.def")));
    assert_eq!(bearer_token(Some("Bearer ")), Some(s("")));
    assert_eq!(bearer_token(Some("bearer abc")), None);
    assert_eq!(bearer_token(Some("Basic abc")), None);
    assert_eq!(bearer_token(None), None);
}

#[test]
fn display_name_joins_the_given_names() {
    assert_eq!(display_name(Some("Ada"), Some("Lovelace")), "Ada Lovelace");
    assert_eq!(display_name(Some("Ada"), None), "Ada");
    assert_eq!(display_name(None, Some("Lovelace")), "Lovelace");
    assert_eq!(display_name(None, None), "");
}

#[test]
fn claims_need_sub_and_exp() {
    let full = obj(vec![
        ("sub", text("user_1")),
        ("email", text("a@b")),
        ("first_name", JsonValue::Null),
        ("exp", JsonValue::Number(Some(1_700_000_000))),
        ("iat", JsonValue::Number(Some(1))),
    ]);
    let c = claims_from_json(&full).unwrap();
    assert_eq!(c.sub, "user_1");
    assert_eq!(c.email.as_deref(), Some("a@b"));
    assert_eq!(c.first_name, None);
    assert_eq!(c.last_name, None);
    assert_eq!(c.exp, 1_700_000_000);
    assert!(claims_from_json(&obj(vec![("sub", text("u"))])).is_none());
    assert!(claims_from_json(&obj(vec![("exp", JsonValue::Number(Some(1)))])).is_none());
    let bad_email = obj(vec![("sub", text("u")), ("exp", JsonValue::Number(Some(1))), ("email", JsonValue::Bool(true))]);
    assert!(claims_from_json(&bad_email).is_none());
}

fn jwks(keys: Vec<JsonValue>) -> JsonValue {
    obj(vec![("keys", JsonValue::Array(keys))])
}

fn key(kid: &str, n: &str, e: &str) -> JsonValue {
    obj(vec![("kid", text(kid)), ("n", text(n)), ("e", text(e))])
}

#[test]
fn find_jwk_picks_the_first_key_with_the_id() {
    let set = jwks(vec![key("k0", "n0", "e0"), key("k1", "n1", "e1"), key("k1", "n2", "e2")]);
    assert_eq!(find_jwk(&set, "k1").unwrap(), (s("n1"), s("e1")));
    assert!(matches!(find_jwk(&set, "k9"), Err(AuthError::NoMatchingKey(k)) if k == "k9"));
    assert!(matches!(find_jwk(&obj(vec![]), "k1"), Err(AuthError::InvalidJwks)));
    assert!(matches!(find_jwk(&obj(vec![("keys", text("x"))]), "k1"), Err(AuthError::InvalidJwks)));
    let no_kid = jwks(vec![obj(vec![("n", text("n"))])]);
    assert_eq!(find_jwk(&no_kid, "").unwrap(), (s("n"), s("")));
}

#[test]
fn auth_error_messages() {
    assert_eq!(AuthError::InvalidJwks.message(), "Invalid JWKS response");
    assert_eq!(AuthError::NoMatchingKey(s("k")).message(), "No matching JWK found for kid=k");
    assert_eq!(AuthError::InvalidKey(s("m")).message(), "Invalid RSA key: m");
    assert_eq!(AuthError::InvalidToken(s("m")).message(), "JWT invalid: m");
    assert_eq!(AuthError::InvalidHeader(s("m")).message(), "m");
}

fn token_with_kid(kid: &str) -> String {
    let header = URL_SAFE_NO_PAD.encode(format!("{{\"alg\":\"RS256\",\"typ\":\"JWT\",\"kid\":\"{kid}\"}}"));
    let payload = URL_SAFE_NO_PAD.encode("{\"sub\":\"u\",\"exp\":1}");
    format!("{header}.{payload}.c2lnbmF0dXJl")
}

#[test]
fn verify_refuses_an_unreadable_header() {
    let r = verify_with_jwks("not.a.token", &jwks(vec![]));
    assert!(matches!(r, Err(AuthError::InvalidHeader(_))));
}

#[test]
fn verify_reads_the_key_id_from_the_header() {
    let t = token_with_kid("k1");
    let r = verify_with_jwks(&t, &jwks(vec![key("k0", "", "")]));
    assert!(matches!(r, Err(AuthError::NoMatchingKey(k)) if k == "k1"));
}

#[test]
fn verify_refuses_a_key_that_does_not_decode() {
    let t = token_with_kid("k1");
    let r = verify_with_jwks(&t, &jwks(vec![key("k1", "!!!", "AQAB")]));
    assert!(matches!(r, Err(AuthError::InvalidKey(_))));
}

#[test]
fn verify_refuses_components_that_are_not_strict_base64url() {
    let t = token_with_kid("k1");
    // one character more than a multiple of four
    assert!(matches!(verify_with_jwks(&t, &jwks(vec![key("k1", "AQABa", "AQAB")])), Err(AuthError::InvalidKey(_))));
    // padding is refused
    assert!(matches!(verify_with_jwks(&t, &jwks(vec![key("k1", "AQ==", "AQAB")])), Err(AuthError::InvalidKey(_))));
    // the last character carries bits beyond the decoded byte
    assert!(matches!(verify_with_jwks(&t, &jwks(vec![key("k1", "AB", "AQAB")])), Err(AuthError::InvalidKey(_))));
    // the standard alphabet's '+' is not URL-safe
    assert!(matches!(verify_with_jwks(&t, &jwks(vec![key("k1", "A+AB", "AQAB")])), Err(AuthError::InvalidKey(_))));
}

#[test]
fn verify_accepts_strict_base64url_components_and_then_checks_the_token() {
    let t = token_with_kid("k1");
    assert!(matches!(verify_with_jwks(&t, &jwks(vec![key("k1", "AQ", "AQAB")])), Err(AuthError::InvalidToken(_))));
    assert!(matches!(verify_with_jwks(&t, &jwks(vec![key("k1", "AQ-_", "AQAB")])), Err(AuthError::InvalidToken(_))));
}

#[test]
fn verify_refuses_a_bad_signature() {
    let t = token_with_kid("k1");
    let r = verify_with_jwks(&t, &jwks(vec![key("k1", "sXchDaQebHnPiGvyDOAT4saGEUetSyo9MKLOoWFsueri23bOdgWp4Dy1WlUzewbgBHod5pcM9H95GQRV3JDXboIRROSBigeC5yjU1hGzHHyXss8UDprecbAYxknTcQkhslANGRUZmdTOQ5qTRsLAt6BTYuyvVRdhS8exSZEy_c4gs_7svlJJQ4H9_NxsiIoLwAEk7-Q3UXERGYw_75IDrGA84-lA_-Ct4eTlXHBIY2EaV7t7LjJaynVJCpkv4LKjTTAumiGUIuQhrNhZLuF_RJLqHpM2kgWFLU7-VTdL1VbC2tejvcI2BlMkEpk1BzBZI0KQB0GaDWFLN-aEAw3vRw", "AQAB")]));
    assert!(matches!(r, Err(AuthError::InvalidToken(_))));
}

// ---------------------------------------------------------------- tracing

#[test]
fn tracing_needs_both_keys() {
    assert!(is_configured("sk", "pk"));
    assert!(!is_configured("", "pk"));
    assert!(!is_configured("sk", ""));
}

#[test]
fn tracing_authorization_is_basic_base64() {
    assert_eq!(auth_header("pk-lf-1", "sk-lf-2"), "Basic cGstbGYtMTpzay1sZi0y");
    assert_eq!(auth_header("", ""), "Basic Og==");
    assert_eq!(auth_header("a", "bc"), "Basic YTpiYw==");
}

// ---------------------------------------------------------------- graph and tools

#[test]
fn merged_contacts_keep_one_row_per_email() {
    let mut list = vec![(s("Ada"), s("ada@x"))];
    merge_contacts(&mut list, &vec![(s("Ada L."), s("ada@x")), (s("Alan"), s("alan@x")), (s("Alan T."), s("alan@x"))]);
    assert_eq!(list, vec![(s("Ada"), s("ada@x")), (s("Alan"), s("alan@x"))]);
    assert!(contains_email(&list, &s("alan@x")));
    assert!(!contains_email(&list, &s("bob@x")));
}

#[test]
fn graph_queries_use_at_most_five_concepts() {
    let many: Vec<String> = (0..8).map(|i| format!("c{i}")).collect();
    assert_eq!(query_concept_count(&many), 5);
    assert_eq!(query_concept_count(&many[0..2].to_vec()), 2);
    assert!(graph_lookup_needed(&many));
    assert!(!graph_lookup_needed(&vec![]));
}

#[test]
fn categories_are_stored_by_name() {
    assert_eq!(category_label(ConceptCategory::Method), "Method");
    assert_eq!(category_label(ConceptCategory::Finding), "Finding");
    assert_eq!(category_label(ConceptCategory::Topic), "Topic");
    assert_eq!(category_label(ConceptCategory::Citation), "Citation");
    assert_eq!(category_label(ConceptCategory::TechnicalConcept), "TechnicalConcept");
    assert_eq!(citation_year(Some(2017)), 2017);
    assert_eq!(citation_year(None), 0);
}

#[test]
fn tool_results_report_what_happened() {
    let r = email_tool_result("a@x", true);
    assert!(r.success);
    assert_eq!(r.sent_to, vec![s("a@x")]);
    let r = email_tool_result("a@x", false);
    assert!(!r.success);
    assert!(r.sent_to.is_empty());
    let g = graph_query_result(vec![(s("E"), s("e@x"))], vec![], &vec![s("c")]);
    assert_eq!(g.experts.len(), 1);
    assert_eq!(g.concepts, vec![s("c")]);
}

#[test]
fn rendered_numbers_parse_back() {
    for n in [0usize, 7, 10, 99, 1000, 65535, usize::MAX] {
        assert_eq!(count_from(Some(&n.to_string()), 1), n);
    }
    assert_eq!(port_from(Some(&65535u16.to_string())).unwrap(), 65535);
}

#[test]
fn a_required_setting_must_be_set() {
    assert_eq!(required_setting("DATABASE_URL", Some("postgres://x".to_string())).unwrap(), "postgres://x");
    let e = required_setting("DATABASE_URL", None).unwrap_err();
    assert!(matches!(&e, ConfigError::Missing(n) if n == "DATABASE_URL"));
    assert_eq!(e.message(), "DATABASE_URL required");
}

#[test]
fn a_setting_with_a_default() {
    assert_eq!(setting_or(None, DEFAULT_HOST), "0.0.0.0");
    assert_eq!(setting_or(Some("127.0.0.1".to_string()), DEFAULT_HOST), "127.0.0.1");
    assert_eq!(setting_or(Some(String::new()), DEFAULT_HOST), "");
}
