//! The service's errors: what each means, the HTTP status it is answered
//! with, and what the client is told.

use vstd::prelude::*;
use crate::text::{push_str, to_string};

verus! {

/// An error of the service.
#[derive(Debug, Clone)]
pub enum AppError {
    NotFound(String),
    Unauthorized(String),
    Forbidden(String),
    Validation(String),
    Database(String),
    Neo4j(String),
    Pinecone(String),
    Llm(String),
    Email(String),
    PdfProcessing(String),
    Internal(String),
}

/// The HTTP status of each error: the client's mistakes are 4xx, failures
/// of the service's own stores and services are 500.
pub open spec fn status_spec(e: AppError) -> u16 {
    match e {
        AppError::NotFound(_) => 404,
        AppError::Unauthorized(_) => 401,
        AppError::Forbidden(_) => 403,
        AppError::Validation(_) => 422,
        AppError::PdfProcessing(_) => 422,
        AppError::Database(_) => 500,
        AppError::Neo4j(_) => 500,
        AppError::Pinecone(_) => 500,
        AppError::Llm(_) => 500,
        AppError::Email(_) => 500,
        AppError::Internal(_) => 500,
    }
}

/// What the client is told: the message itself for the client's mistakes,
/// a fixed description for internal failures, whose details stay in the log.
pub open spec fn client_message_spec(e: AppError) -> Seq<char> {
    match e {
        AppError::NotFound(m) => m@,
        AppError::Unauthorized(m) => m@,
        AppError::Forbidden(m) => m@,
        AppError::Validation(m) => m@,
        AppError::Database(_) => "Database error"@,
        AppError::Neo4j(_) => "Graph database error"@,
        AppError::Pinecone(_) => "Vector database error"@,
        AppError::Llm(_) => "AI service error"@,
        AppError::Email(_) => "Email service error"@,
        AppError::PdfProcessing(m) => "PDF error: "@ + m@,
        AppError::Internal(_) => "Internal server error"@,
    }
}

/// The full description of an error, as logs show it.
pub open spec fn describe_spec(e: AppError) -> Seq<char> {
    match e {
        AppError::NotFound(m) => "Not found: "@ + m@,
        AppError::Unauthorized(m) => "Unauthorized: "@ + m@,
        AppError::Forbidden(m) => "Forbidden: "@ + m@,
        AppError::Validation(m) => "Validation error: "@ + m@,
        AppError::Database(m) => "Database error: "@ + m@,
        AppError::Neo4j(m) => "Neo4j error: "@ + m@,
        AppError::Pinecone(m) => "Pinecone error: "@ + m@,
        AppError::Llm(m) => "LLM error: "@ + m@,
        AppError::Email(m) => "Email error: "@ + m@,
        AppError::PdfProcessing(m) => "PDF processing error: "@ + m@,
        AppError::Internal(m) => "Internal error: "@ + m@,
    }
}

/// The error is a failure of the service rather than a mistake of the client.
pub open spec fn is_internal_spec(e: AppError) -> bool {
    status_spec(e) == 500
}

fn prefixed(prefix: &str, m: &String) -> (r: String)
    ensures
        r@ == prefix@ + m@,
{
    let mut s = to_string(prefix);
    push_str(&mut s, m.as_str());
    s
}

impl AppError {
    /// The HTTP status the error is answered with.
    pub fn status_code(&self) -> (r: u16)
        ensures
            r == status_spec(*self),
    {
        match self {
            AppError::NotFound(_) => 404,
            AppError::Unauthorized(_) => 401,
            AppError::Forbidden(_) => 403,
            AppError::Validation(_) => 422,
            AppError::PdfProcessing(_) => 422,
            AppError::Database(_) => 500,
            AppError::Neo4j(_) => 500,
            AppError::Pinecone(_) => 500,
            AppError::Llm(_) => 500,
            AppError::Email(_) => 500,
            AppError::Internal(_) => 500,
        }
    }

    /// What the client is told.
    pub fn client_message(&self) -> (r: String)
        ensures
            r@ == client_message_spec(*self),
    {
        match self {
            AppError::NotFound(m) => m.clone(),
            AppError::Unauthorized(m) => m.clone(),
            AppError::Forbidden(m) => m.clone(),
            AppError::Validation(m) => m.clone(),
            AppError::Database(_) => to_string("Database error"),
            AppError::Neo4j(_) => to_string("Graph database error"),
            AppError::Pinecone(_) => to_string("Vector database error"),
            AppError::Llm(_) => to_string("AI service error"),
            AppError::Email(_) => to_string("Email service error"),
            AppError::PdfProcessing(m) => prefixed("PDF error: ", m),
            AppError::Internal(_) => to_string("Internal server error"),
        }
    }

    /// The full description of the error.
    pub fn describe(&self) -> (r: String)
        ensures
            r@ == describe_spec(*self),
    {
        match self {
            AppError::NotFound(m) => prefixed("Not found: ", m),
            AppError::Unauthorized(m) => prefixed("Unauthorized: ", m),
            AppError::Forbidden(m) => prefixed("Forbidden: ", m),
            AppError::Validation(m) => prefixed("Validation error: ", m),
            AppError::Database(m) => prefixed("Database error: ", m),
            AppError::Neo4j(m) => prefixed("Neo4j error: ", m),
            AppError::Pinecone(m) => prefixed("Pinecone error: ", m),
            AppError::Llm(m) => prefixed("LLM error: ", m),
            AppError::Email(m) => prefixed("Email error: ", m),
            AppError::PdfProcessing(m) => prefixed("PDF processing error: ", m),
            AppError::Internal(m) => prefixed("Internal error: ", m),
        }
    }

    /// Whether the error is a failure of the service, logged in full and
    /// hidden from the client.
    pub fn is_internal(&self) -> (r: bool)
        ensures
            r == is_internal_spec(*self),
    {
        self.status_code() == 500
    }
}

/// An internal failure never shows its details to the client: the client
/// gets a fixed description that does not depend on them.
pub proof fn lemma_internal_details_hidden(e: AppError, f: AppError)
    requires
        is_internal_spec(e),
        e is Database <==> f is Database,
        e is Neo4j <==> f is Neo4j,
        e is Pinecone <==> f is Pinecone,
        e is Llm <==> f is Llm,
        e is Email <==> f is Email,
        e is Internal <==> f is Internal,
    ensures
        client_message_spec(e) == client_message_spec(f),
{
}

} // verus!
