//! Domain types of the knowledge graph and the vector store, with the views
//! that contracts speak of.

use vstd::prelude::*;

verus! {

/// The characters of an optional string.
pub open spec fn opt_view(o: Option<String>) -> Option<Seq<char>> {
    match o {
        Some(s) => Some(s@),
        None => None,
    }
}

/// The kind of a concept extracted from a paper.
#[derive(Debug, Clone, Copy, PartialEq, Eq, Structural)]
pub enum ConceptCategory {
    Method,
    Finding,
    Topic,
    Citation,
    TechnicalConcept,
}

/// A concept of a paper: a method, finding, topic, citation or technical term.
#[derive(Debug, Clone)]
pub struct Concept {
    pub name: String,
    pub category: ConceptCategory,
    pub description: Option<String>,
}

/// A `Concept` by its characters.
pub struct ConceptView {
    pub name: Seq<char>,
    pub category: ConceptCategory,
    pub description: Option<Seq<char>>,
}

impl View for Concept {
    type V = ConceptView;

    open spec fn view(&self) -> ConceptView {
        ConceptView { name: self.name@, category: self.category, description: opt_view(self.description) }
    }
}

/// A work cited by a paper.
#[derive(Debug, Clone)]
pub struct CitationRef {
    pub title: String,
    pub authors: Vec<String>,
    pub year: Option<i32>,
}

/// A `CitationRef` by its characters.
pub struct CitationView {
    pub title: Seq<char>,
    pub authors: Seq<Seq<char>>,
    pub year: Option<i32>,
}

impl View for CitationRef {
    type V = CitationView;

    open spec fn view(&self) -> CitationView {
        CitationView {
            title: self.title@,
            authors: crate::text::string_views(self.authors@),
            year: self.year,
        }
    }
}

/// The structured knowledge extracted from a paper.
#[derive(Debug, Clone)]
pub struct PaperExtraction {
    pub concepts: Vec<Concept>,
    pub citations: Vec<CitationRef>,
    pub key_findings: Vec<String>,
    pub methods: Vec<String>,
    pub topics: Vec<String>,
}

/// A `PaperExtraction` by its characters.
pub struct ExtractionView {
    pub concepts: Seq<ConceptView>,
    pub citations: Seq<CitationView>,
    pub key_findings: Seq<Seq<char>>,
    pub methods: Seq<Seq<char>>,
    pub topics: Seq<Seq<char>>,
}

impl View for PaperExtraction {
    type V = ExtractionView;

    open spec fn view(&self) -> ExtractionView {
        ExtractionView {
            concepts: Seq::new(self.concepts@.len(), |i: int| self.concepts@[i]@),
            citations: Seq::new(self.citations@.len(), |i: int| self.citations@[i]@),
            key_findings: crate::text::string_views(self.key_findings@),
            methods: crate::text::string_views(self.methods@),
            topics: crate::text::string_views(self.topics@),
        }
    }
}

/// The metadata stored beside each vector: which paper a passage comes from,
/// what kind of passage it is, its text, and who wrote it when an expert did.
#[derive(Debug, Clone)]
pub struct VectorMetadata {
    pub paper_id: String,
    pub paper_title: String,
    pub chunk_type: String,
    pub text: String,
    pub expert_email: Option<String>,
}

/// A `VectorMetadata` by its characters.
pub struct MetadataView {
    pub paper_id: Seq<char>,
    pub paper_title: Seq<char>,
    pub chunk_type: Seq<char>,
    pub text: Seq<char>,
    pub expert_email: Option<Seq<char>>,
}

impl View for VectorMetadata {
    type V = MetadataView;

    open spec fn view(&self) -> MetadataView {
        MetadataView {
            paper_id: self.paper_id@,
            paper_title: self.paper_title@,
            chunk_type: self.chunk_type@,
            text: self.text@,
            expert_email: opt_view(self.expert_email),
        }
    }
}

/// The views of a sequence of metadata records.
pub open spec fn metadata_views(v: Seq<VectorMetadata>) -> Seq<MetadataView> {
    Seq::new(v.len(), |i: int| v[i]@)
}

/// One turn of a conversation, as sent to the language model.
#[derive(Debug, Clone)]
pub struct ChatMessage {
    pub role: String,
    pub content: String,
}

} // verus!
