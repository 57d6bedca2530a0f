use livepaper::extraction::{
    authors_to_link, embedded_chunk_count, empty_extraction, excerpt_fits, extraction_user_prompt,
    full_text_or_abstract, ingestion_authors, parse_extraction, ExtractionError, IngestionAuthorInput,
    CHUNK_OVERLAP, CHUNK_WORDS, MAX_EMBEDDED_CHUNKS,
};
use livepaper::models::ConceptCategory;
use livepaper::pdf::{chunk_text, clean_pdf_text};
use livepaper::requests::AuthorInput;

#[test]
fn clean_pdf_text_joins_trimmed_nonblank_lines() {
    assert_eq!(clean_pdf_text("  Hello  \n\n  world \r\n"), "Hello world");
    assert_eq!(clean_pdf_text("one\ntwo\n\n\nthree"), "one two three");
    assert_eq!(clean_pdf_text(""), "");
    assert_eq!(clean_pdf_text("\n  \n\t\n"), "");
}

#[test]
fn clean_pdf_text_keeps_ascii_and_letters_only() {
    assert_eq!(clean_pdf_text("naïve ✓ café"), "naïve  café");
    assert_eq!(clean_pdf_text("α-helix → β-sheet"), "α-helix  β-sheet");
    assert_eq!(clean_pdf_text("tab\tinside"), "tab\tinside");
}

#[test]
fn chunk_text_makes_overlapping_windows() {
    assert_eq!(chunk_text("a b c d e", 2, 1), vec!["a b", "b c", "c d", "d e"]);
    assert_eq!(
        chunk_text("w1 w2 w3 w4 w5 w6 w7", 3, 1),
        vec!["w1 w2 w3", "w3 w4 w5", "w5 w6 w7"]
    );
}

#[test]
fn chunk_text_collapses_whitespace_between_words() {
    assert_eq!(chunk_text("  alpha\n\tbeta   gamma  ", 10, 0), vec!["alpha beta gamma"]);
}

#[test]
fn chunk_text_of_blank_text_is_empty() {
    assert!(chunk_text("", 300, 50).is_empty());
    assert!(chunk_text(" \n\t ", 300, 50).is_empty());
}

#[test]
fn chunk_text_with_the_ingestion_sizes() {
    let words: Vec<String> = (0..600).map(|i| format!("w{i}")).collect();
    let text = words.join(" ");
    let chunks = chunk_text(&text, CHUNK_WORDS, CHUNK_OVERLAP);
    assert_eq!(chunks.len(), 3);
    assert_eq!(chunks[0], words[0..300].join(" "));
    assert_eq!(chunks[1], words[250..550].join(" "));
    assert_eq!(chunks[2], words[500..600].join(" "));
}

#[test]
fn at_most_twenty_chunks_are_embedded() {
    assert_eq!(MAX_EMBEDDED_CHUNKS, 20);
    assert_eq!(embedded_chunk_count(3), 3);
    assert_eq!(embedded_chunk_count(20), 20);
    assert_eq!(embedded_chunk_count(45), 20);
}

#[test]
fn parse_extraction_reads_every_list() {
    let raw = r#"{
        "concepts": [
            {"name": "Attention", "category": "Method", "description": "weights tokens"},
            {"name": "BLEU gain", "category": "Finding"},
            {"name": "NLP", "category": "Topic"},
            {"name": "Vaswani 2017", "category": "Citation"},
            {"name": "Softmax", "category": "Other"},
            {"name": "Layer norm"},
            {"category": "Method"}
        ],
        "citations": [
            {"title": "Attention Is All You Need", "authors": ["Vaswani", 3, "Shazeer"], "year": 2017},
            {"title": "No year"},
            {"authors": ["Nobody"]}
        ],
        "key_findings": ["faster", 1, "better"],
        "methods": ["self-attention"],
        "topics": "not a list"
    }"#;
    let e = parse_extraction(raw).unwrap();
    assert_eq!(e.concepts.len(), 6);
    assert_eq!(e.concepts[0].name, "Attention");
    assert_eq!(e.concepts[0].category, ConceptCategory::Method);
    assert_eq!(e.concepts[0].description.as_deref(), Some("weights tokens"));
    assert_eq!(e.concepts[1].category, ConceptCategory::Finding);
    assert_eq!(e.concepts[1].description, None);
    assert_eq!(e.concepts[2].category, ConceptCategory::Topic);
    assert_eq!(e.concepts[3].category, ConceptCategory::Citation);
    assert_eq!(e.concepts[4].category, ConceptCategory::TechnicalConcept);
    assert_eq!(e.concepts[5].category, ConceptCategory::TechnicalConcept);
    assert_eq!(e.citations.len(), 2);
    assert_eq!(e.citations[0].title, "Attention Is All You Need");
    assert_eq!(e.citations[0].authors, vec!["Vaswani".to_string(), "Shazeer".to_string()]);
    assert_eq!(e.citations[0].year, Some(2017));
    assert_eq!(e.citations[1].authors.len(), 0);
    assert_eq!(e.citations[1].year, None);
    assert_eq!(e.key_findings, vec!["faster".to_string(), "better".to_string()]);
    assert_eq!(e.methods, vec!["self-attention".to_string()]);
    assert!(e.topics.is_empty());
}

#[test]
fn parse_extraction_of_an_empty_object_is_empty() {
    let e = parse_extraction("{}").unwrap();
    assert!(e.concepts.is_empty() && e.citations.is_empty());
    assert!(e.key_findings.is_empty() && e.methods.is_empty() && e.topics.is_empty());
    let e = parse_extraction("[1, 2]").unwrap();
    assert!(e.concepts.is_empty());
}

#[test]
fn parse_extraction_cuts_years_like_as_i32() {
    let e = parse_extraction(r#"{"citations": [{"title": "t", "year": 4294967297}]}"#).unwrap();
    assert_eq!(e.citations[0].year, Some(1));
    let e = parse_extraction(r#"{"citations": [{"title": "t", "year": 2017.5}]}"#).unwrap();
    assert_eq!(e.citations[0].year, None);
}

#[test]
fn parse_extraction_rejects_text_that_is_not_json() {
    assert!(matches!(parse_extraction("Sure! Here is the JSON:"), Err(ExtractionError::InvalidJson(_))));
    assert!(matches!(parse_extraction(""), Err(ExtractionError::InvalidJson(_))));
    let e = parse_extraction("not json").unwrap_err();
    assert!(e.message().starts_with("Parse extraction JSON: "), "{}", e.message());
    assert!(e.message().len() > "Parse extraction JSON: ".len());
}

#[test]
fn empty_extraction_has_nothing() {
    let e = empty_extraction();
    assert!(e.concepts.is_empty() && e.citations.is_empty() && e.topics.is_empty());
}

#[test]
fn the_prompt_shows_the_first_8000_bytes() {
    let short = extraction_user_prompt("T", "A", "body");
    assert_eq!(short, "Title: T\n\nAbstract: A\n\nText excerpt:\nbody");
    let long = "x".repeat(9000);
    let p = extraction_user_prompt("T", "A", &long);
    assert_eq!(p, format!("Title: T\n\nAbstract: A\n\nText excerpt:\n{}", "x".repeat(8000)));
}

#[test]
fn the_excerpt_must_not_cut_a_character() {
    assert!(excerpt_fits(&"x".repeat(9000)));
    assert!(excerpt_fits(&"é".repeat(4000)));
    let odd = format!("x{}", "é".repeat(4500));
    assert!(!excerpt_fits(&odd));
    assert!(excerpt_fits("short é"));
}

#[test]
fn the_full_text_falls_back_to_the_abstract() {
    assert_eq!(full_text_or_abstract(Some("pdf text".to_string()), "abs"), "pdf text");
    assert_eq!(full_text_or_abstract(None, "abs"), "abs");
}

#[test]
fn authors_without_email_are_not_linked() {
    let authors = vec![
        IngestionAuthorInput { name: "Ada".to_string(), email: "ada@x.org".to_string() },
        IngestionAuthorInput { name: "Anon".to_string(), email: String::new() },
        IngestionAuthorInput { name: "Alan".to_string(), email: "alan@y.org".to_string() },
    ];
    let linked = authors_to_link(&authors);
    assert_eq!(linked.len(), 2);
    assert_eq!(linked[0].name, "Ada");
    assert_eq!(linked[1].email, "alan@y.org");
}

#[test]
fn ingestion_authors_copies_names_and_emails() {
    let authors = vec![
        AuthorInput { name: "Ada".to_string(), email: "ada@x.org".to_string() },
        AuthorInput { name: "Anon".to_string(), email: String::new() },
    ];
    let r = ingestion_authors(&authors);
    assert_eq!(r.len(), 2);
    assert_eq!(r[1].name, "Anon");
    assert_eq!(r[1].email, "");
}

#[test]
fn cleaned_text_is_a_single_line() {
    let t = clean_pdf_text("first line\r\nsecond\n\n  third  \n");
    assert_eq!(t, "first line second third");
    assert!(!t.contains('\n'));
}

#[test]
fn chunk_text_with_a_large_overlap_cuts_a_short_text_once() {
    assert!(chunk_text("", 300, 300).is_empty());
    assert_eq!(chunk_text("a b c", 5, 5), vec!["a b c"]);
    assert_eq!(chunk_text("a b c", 3, 9), vec!["a b c"]);
}

#[test]
fn cleaning_clean_text_changes_nothing() {
    let once = clean_pdf_text("  Title  \r\n\nbody text, here.\n\tend ");
    assert_eq!(once, "Title body text, here. end");
    assert_eq!(clean_pdf_text(&once), once);
}

#[test]
fn cleaning_two_texts_joined_by_a_line_break() {
    let (a, b) = ("  first part\n\n", "\r\nsecond ✓ part  ");
    let joined = format!("{a}\n{b}");
    assert_eq!(clean_pdf_text(&joined), format!("{} {}", clean_pdf_text(a), clean_pdf_text(b)));
}
