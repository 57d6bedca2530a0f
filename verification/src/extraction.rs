//! Reading the knowledge that the language model extracts from a paper.
//!
//! The model is asked for a JSON document with concepts, citations, key
//! findings, methods and topics. Reading it is lenient: entries without the
//! required fields are skipped, unknown categories become technical concepts,
//! and a missing or malformed list reads as empty.

use vstd::prelude::*;
use crate::json::{
    JsonValue, array_items, i64_view, json_array_field, json_as_str, json_i64_field, json_index,
    json_parse, json_str_field, parse_json, str_view,
};
use crate::models::{
    CitationRef, CitationView, Concept, ConceptCategory, ConceptView, ExtractionView, PaperExtraction,
};
use crate::requests::AuthorInput;
use crate::text::{push_str, string_views, to_string};
use vstd::utf8::{decode_utf8, encode_utf8, is_char_boundary};
use vstd::string::StringSliceAdditionalSpecFns;

verus! {

/// The category named by a model's answer: one of the four named categories,
/// and a technical concept for anything else, including no name at all.
pub open spec fn category_spec(name: Option<Seq<char>>) -> ConceptCategory {
    let n = match name {
        Some(x) => x,
        None => "TechnicalConcept"@,
    };
    if n == "Method"@ {
        ConceptCategory::Method
    } else if n == "Finding"@ {
        ConceptCategory::Finding
    } else if n == "Topic"@ {
        ConceptCategory::Topic
    } else if n == "Citation"@ {
        ConceptCategory::Citation
    } else {
        ConceptCategory::TechnicalConcept
    }
}

/// The concept described by one JSON entry, if it has a string `name`.
pub open spec fn concept_spec(item: JsonValue) -> Option<ConceptView> {
    match str_view(json_index(item, "name"@)) {
        Some(name) => Some(
            ConceptView {
                name,
                category: category_spec(str_view(json_index(item, "category"@))),
                description: str_view(json_index(item, "description"@)),
            },
        ),
        None => None,
    }
}

/// The concepts of a list of entries, skipping entries without a name.
pub open spec fn concepts_spec(items: Seq<JsonValue>) -> Seq<ConceptView>
    decreases items.len(),
{
    if items.len() == 0 {
        seq![]
    } else {
        let rest = concepts_spec(items.drop_last());
        match concept_spec(items.last()) {
            Some(c) => rest.push(c),
            None => rest,
        }
    }
}

/// The strings among a list of entries, in order.
pub open spec fn strings_spec(items: Seq<JsonValue>) -> Seq<Seq<char>>
    decreases items.len(),
{
    if items.len() == 0 {
        seq![]
    } else {
        let rest = strings_spec(items.drop_last());
        match str_view(items.last()) {
            Some(s) => rest.push(s),
            None => rest,
        }
    }
}

/// The year of a citation entry: its `year` as an `i64`, cut to `i32` as
/// `as i32` does.
pub open spec fn year_spec(item: JsonValue) -> Option<i32> {
    match i64_view(json_index(item, "year"@)) {
        Some(y) => Some(y as i32),
        None => None,
    }
}

/// The citation described by one JSON entry, if it has a string `title`.
pub open spec fn citation_spec(item: JsonValue) -> Option<CitationView> {
    match str_view(json_index(item, "title"@)) {
        Some(title) => Some(
            CitationView {
                title,
                authors: strings_spec(array_items(json_index(item, "authors"@))),
                year: year_spec(item),
            },
        ),
        None => None,
    }
}

/// The citations of a list of entries, skipping entries without a title.
pub open spec fn citations_spec(items: Seq<JsonValue>) -> Seq<CitationView>
    decreases items.len(),
{
    if items.len() == 0 {
        seq![]
    } else {
        let rest = citations_spec(items.drop_last());
        match citation_spec(items.last()) {
            Some(c) => rest.push(c),
            None => rest,
        }
    }
}

/// The extraction that a JSON document describes.
pub open spec fn extraction_spec(v: JsonValue) -> ExtractionView {
    ExtractionView {
        concepts: concepts_spec(array_items(json_index(v, "concepts"@))),
        citations: citations_spec(array_items(json_index(v, "citations"@))),
        key_findings: strings_spec(array_items(json_index(v, "key_findings"@))),
        methods: strings_spec(array_items(json_index(v, "methods"@))),
        topics: strings_spec(array_items(json_index(v, "topics"@))),
    }
}

/// The items of an optional list, empty when there is none.
pub open spec fn items_of(a: Option<&Vec<JsonValue>>) -> Seq<JsonValue> {
    match a {
        Some(v) => v@,
        None => seq![],
    }
}

/// Decides `category_spec`.
pub fn category_of(name: Option<&String>) -> (c: ConceptCategory)
    ensures
        c == category_spec(match name { Some(s) => Some(s@), None => None }),
{
    let n: &str = match name {
        Some(s) => s.as_str(),
        None => "TechnicalConcept",
    };
    if crate::text::str_equal(n, "Method") {
        ConceptCategory::Method
    } else if crate::text::str_equal(n, "Finding") {
        ConceptCategory::Finding
    } else if crate::text::str_equal(n, "Topic") {
        ConceptCategory::Topic
    } else if crate::text::str_equal(n, "Citation") {
        ConceptCategory::Citation
    } else {
        ConceptCategory::TechnicalConcept
    }
}

/// Reads one concept entry.
fn concept_of(item: &JsonValue) -> (r: Option<Concept>)
    ensures
        match r {
            Some(c) => concept_spec(*item) == Some(c@),
            None => concept_spec(*item) is None,
        },
{
    match json_str_field(item, "name") {
        Some(name) => {
            let category = category_of(json_str_field(item, "category"));
            let description = match json_str_field(item, "description") {
                Some(d) => Some(d.clone()),
                None => None,
            };
            Some(Concept { name: name.clone(), category, description })
        },
        None => None,
    }
}

/// Reads the string entries of a list.
fn strings_of(items: Option<&Vec<JsonValue>>) -> (r: Vec<String>)
    ensures
        string_views(r@) == strings_spec(items_of(items)),
{
    let mut out: Vec<String> = Vec::new();
    match items {
        Some(a) => {
            let mut i: usize = 0;
            while i < a.len()
                invariant
                    i <= a.len(),
                    string_views(out@) == strings_spec(a@.take(i as int)),
                decreases a.len() - i,
            {
                assert(a@.take(i + 1).drop_last() =~= a@.take(i as int));
                match json_as_str(&a[i]) {
                    Some(s) => {
                        let ghost before = out@;
                        out.push(s.clone());
                        assert(string_views(out@) =~= string_views(before).push(s@));
                    },
                    None => {},
                }
                i += 1;
            }
            assert(a@.take(a.len() as int) =~= a@);
        },
        None => {},
    }
    out
}

/// Reads one citation entry.
fn citation_of(item: &JsonValue) -> (r: Option<CitationRef>)
    ensures
        match r {
            Some(c) => citation_spec(*item) == Some(c@),
            None => citation_spec(*item) is None,
        },
{
    match json_str_field(item, "title") {
        Some(title) => {
            let authors = strings_of(json_array_field(item, "authors"));
            let year = match json_i64_field(item, "year") {
                Some(y) => Some(y as i32),
                None => None,
            };
            Some(CitationRef { title: title.clone(), authors, year })
        },
        None => None,
    }
}

/// The knowledge that a parsed JSON document describes: its `concepts`,
/// `citations`, `key_findings`, `methods` and `topics`, each read leniently.
pub fn extraction_from_json(v: &JsonValue) -> (r: PaperExtraction)
    ensures
        r@ == extraction_spec(*v),
{
    let mut concepts: Vec<Concept> = Vec::new();
    let items = json_array_field(v, "concepts");
    let ghost citems = items_of(items);
    match items {
        Some(a) => {
            let mut i: usize = 0;
            while i < a.len()
                invariant
                    i <= a.len(),
                    Seq::new(concepts@.len(), |k: int| concepts@[k]@) == concepts_spec(a@.take(i as int)),
                decreases a.len() - i,
            {
                assert(a@.take(i + 1).drop_last() =~= a@.take(i as int));
                match concept_of(&a[i]) {
                    Some(c) => {
                        let ghost before = concepts@;
                        concepts.push(c);
                        assert(Seq::new(concepts@.len(), |k: int| concepts@[k]@) =~= Seq::new(
                            before.len(),
                            |k: int| before[k]@,
                        ).push(c@));
                    },
                    None => {},
                }
                i += 1;
            }
            assert(a@.take(a.len() as int) =~= a@);
        },
        None => {
            assert(Seq::new(concepts@.len(), |k: int| concepts@[k]@) =~= concepts_spec(citems));
        },
    }
    let mut citations: Vec<CitationRef> = Vec::new();
    let items2 = json_array_field(v, "citations");
    let ghost titems = items_of(items2);
    match items2 {
        Some(a) => {
            let mut i: usize = 0;
            while i < a.len()
                invariant
                    i <= a.len(),
                    Seq::new(citations@.len(), |k: int| citations@[k]@) == citations_spec(a@.take(i as int)),
                decreases a.len() - i,
            {
                assert(a@.take(i + 1).drop_last() =~= a@.take(i as int));
                match citation_of(&a[i]) {
                    Some(c) => {
                        let ghost before = citations@;
                        citations.push(c);
                        assert(Seq::new(citations@.len(), |k: int| citations@[k]@) =~= Seq::new(
                            before.len(),
                            |k: int| before[k]@,
                        ).push(c@));
                    },
                    None => {},
                }
                i += 1;
            }
            assert(a@.take(a.len() as int) =~= a@);
        },
        None => {
            assert(Seq::new(citations@.len(), |k: int| citations@[k]@) =~= citations_spec(titems));
        },
    }
    let key_findings = strings_of(json_array_field(v, "key_findings"));
    let methods = strings_of(json_array_field(v, "methods"));
    let topics = strings_of(json_array_field(v, "topics"));
    let r = PaperExtraction { concepts, citations, key_findings, methods, topics };
    assert(r@.concepts =~= extraction_spec(*v).concepts);
    assert(r@.citations =~= extraction_spec(*v).citations);
    r
}

/// Why an extraction could not be read.
#[derive(Debug, Clone)]
pub enum ExtractionError {
    /// The model's answer is not JSON; the parser's message follows.
    InvalidJson(String),
}

impl ExtractionError {
    /// The error's message: the parser's message after
    /// `Parse extraction JSON: `.
    pub fn message(&self) -> (r: String)
        ensures
            r@ == match *self {
                ExtractionError::InvalidJson(m) => "Parse extraction JSON: "@ + m@,
            },
    {
        match self {
            ExtractionError::InvalidJson(m) => {
                let mut s = to_string("Parse extraction JSON: ");
                push_str(&mut s, m.as_str());
                s
            },
        }
    }
}

/// Reads the model's answer as an extraction: an error exactly when the answer
/// is not JSON, and otherwise what `extraction_from_json` reads from it.
pub fn parse_extraction(raw: &str) -> (r: Result<PaperExtraction, ExtractionError>)
    ensures
        r is Ok <==> json_parse(raw@) is Some,
        r matches Ok(e) ==> e@ == extraction_spec(json_parse(raw@)->0),
{
    match parse_json(raw) {
        Ok(v) => Ok(extraction_from_json(&v)),
        Err(msg) => Err(ExtractionError::InvalidJson(msg)),
    }
}

} // verus!

verus! {

/// The instructions given to the model for extracting a paper's knowledge.
pub const EXTRACTION_SYSTEM_PROMPT: &'static str = "You are a research knowledge extractor. Extract structured knowledge.\nReturn ONLY valid JSON:\n{\"concepts\":[{\"name\":\"string\",\"category\":\"Method|Finding|Topic|Citation|TechnicalConcept\",\"description\":\"string\"}],\n \"citations\":[{\"title\":\"string\",\"authors\":[\"string\"],\"year\":0}],\n \"key_findings\":[\"string\"],\"methods\":[\"string\"],\"topics\":[\"string\"]}";

// ---------------------------------------------------------------------------
// Ingestion decisions
// ---------------------------------------------------------------------------

/// An author of a paper being ingested.
#[derive(Debug, Clone)]
pub struct IngestionAuthorInput {
    pub name: String,
    pub email: String,
}

/// The authors of a new paper, as handed to ingestion.
pub fn ingestion_authors(authors: &Vec<AuthorInput>) -> (r: Vec<IngestionAuthorInput>)
    ensures
        r@.len() == authors@.len(),
        forall|i: int| 0 <= i < r@.len() ==> (#[trigger] r@[i]).name@ == authors@[i].name@ && r@[i].email@
            == authors@[i].email@,
{
    let mut out: Vec<IngestionAuthorInput> = Vec::new();
    let mut i: usize = 0;
    while i < authors.len()
        invariant
            i <= authors.len(),
            out@.len() == i,
            forall|k: int| 0 <= k < i ==> (#[trigger] out@[k]).name@ == authors@[k].name@ && out@[k].email@
                == authors@[k].email@,
        decreases authors.len() - i,
    {
        out.push(IngestionAuthorInput { name: authors[i].name.clone(), email: authors[i].email.clone() });
        i += 1;
    }
    out
}

/// The authors that are stored and linked: those with an email, in order.
pub open spec fn authors_to_link_spec(authors: Seq<IngestionAuthorInput>) -> Seq<(Seq<char>, Seq<char>)>
    decreases authors.len(),
{
    if authors.len() == 0 {
        seq![]
    } else {
        let rest = authors_to_link_spec(authors.drop_last());
        let a = authors.last();
        if a.email@.len() == 0 {
            rest
        } else {
            rest.push((a.name@, a.email@))
        }
    }
}

/// The authors that are stored and linked: an author without an email is
/// skipped.
pub fn authors_to_link(authors: &Vec<IngestionAuthorInput>) -> (r: Vec<IngestionAuthorInput>)
    ensures
        Seq::new(r@.len(), |i: int| (r@[i].name@, r@[i].email@)) == authors_to_link_spec(authors@),
{
    let mut out: Vec<IngestionAuthorInput> = Vec::new();
    let mut i: usize = 0;
    while i < authors.len()
        invariant
            i <= authors.len(),
            Seq::new(out@.len(), |k: int| (out@[k].name@, out@[k].email@)) == authors_to_link_spec(
                authors@.take(i as int),
            ),
        decreases authors.len() - i,
    {
        assert(authors@.take(i + 1).drop_last() =~= authors@.take(i as int));
        assert(authors@.take(i + 1).last() == authors@[i as int]);
        if !authors[i].email.as_str().is_empty() {
            let ghost before = out@;
            let a = IngestionAuthorInput { name: authors[i].name.clone(), email: authors[i].email.clone() };
            out.push(a);
            assert(Seq::new(out@.len(), |k: int| (out@[k].name@, out@[k].email@)) =~= Seq::new(
                before.len(),
                |k: int| (before[k].name@, before[k].email@),
            ).push((a.name@, a.email@)));
        }
        i += 1;
    }
    assert(authors@.take(authors.len() as int) =~= authors@);
    out
}

/// The text a paper is ingested from: its PDF's text when that could be had,
/// its abstract otherwise.
pub fn full_text_or_abstract(pdf_text: Option<String>, abstract_text: &str) -> (r: String)
    ensures
        r@ == match pdf_text {
            Some(t) => t@,
            None => abstract_text@,
        },
{
    match pdf_text {
        Some(t) => t,
        None => to_string(abstract_text),
    }
}

/// The longest excerpt of a paper's text shown to the model, in bytes.
pub const EXCERPT_BYTES: usize = 8000;

/// Whether the excerpt can be cut: the text fits, or its 8000th byte ends a
/// character. Cutting inside a character is refused.
pub open spec fn excerpt_cut_ok(text: Seq<char>) -> bool {
    encode_utf8(text).len() <= 8000 || is_char_boundary(encode_utf8(text), 8000)
}

/// The excerpt of a paper's text: its first 8000 bytes when it is longer.
pub open spec fn excerpt_spec(text: Seq<char>) -> Seq<char> {
    if encode_utf8(text).len() > 8000 {
        decode_utf8(encode_utf8(text).take(8000))
    } else {
        text
    }
}

/// Decides `excerpt_cut_ok`.
pub fn excerpt_fits(text: &str) -> (r: bool)
    ensures
        r == excerpt_cut_ok(text@),
{
    text.as_bytes().len() <= EXCERPT_BYTES || text.is_char_boundary(EXCERPT_BYTES)
}

/// The question put to the model about a paper: its title, abstract and an
/// excerpt of its text.
pub open spec fn extraction_user_prompt_spec(title: Seq<char>, abstract_text: Seq<char>, full_text: Seq<char>) -> Seq<char> {
    "Title: "@ + title + "\n\nAbstract: "@ + abstract_text + "\n\nText excerpt:\n"@ + excerpt_spec(full_text)
}

/// Writes the question put to the model about a paper.
pub fn extraction_user_prompt(title: &str, abstract_text: &str, full_text: &str) -> (r: String)
    requires
        excerpt_cut_ok(full_text@),
    ensures
        r@ == extraction_user_prompt_spec(title@, abstract_text@, full_text@),
{
    let mut out = to_string("Title: ");
    push_str(&mut out, title);
    push_str(&mut out, "\n\nAbstract: ");
    push_str(&mut out, abstract_text);
    push_str(&mut out, "\n\nText excerpt:\n");
    if full_text.as_bytes().len() > EXCERPT_BYTES {
        let (head, _tail) = full_text.split_at(EXCERPT_BYTES);
        proof {
            vstd::utf8::encode_utf8_decode_utf8(head@);
            assert(head.spec_bytes() =~= encode_utf8(full_text@).take(8000));
        }
        push_str(&mut out, head);
    } else {
        push_str(&mut out, full_text);
    }
    out
}

/// The extraction used when the model's answer cannot be had or read.
pub fn empty_extraction() -> (r: PaperExtraction)
    ensures
        r@.concepts.len() == 0,
        r@.citations.len() == 0,
        r@.key_findings.len() == 0,
        r@.methods.len() == 0,
        r@.topics.len() == 0,
{
    PaperExtraction {
        concepts: Vec::new(),
        citations: Vec::new(),
        key_findings: Vec::new(),
        methods: Vec::new(),
        topics: Vec::new(),
    }
}

/// Words per embedded chunk of a paper's body.
pub const CHUNK_WORDS: usize = 300;

/// Words shared by consecutive chunks.
pub const CHUNK_OVERLAP: usize = 50;

/// The most body chunks embedded per paper.
pub const MAX_EMBEDDED_CHUNKS: usize = 20;

/// How many of a paper's chunks are embedded.
pub fn embedded_chunk_count(chunks: usize) -> (r: usize)
    ensures
        r == if chunks < MAX_EMBEDDED_CHUNKS { chunks } else { MAX_EMBEDDED_CHUNKS },
{
    if chunks < MAX_EMBEDDED_CHUNKS { chunks } else { MAX_EMBEDDED_CHUNKS }
}

} // verus!
