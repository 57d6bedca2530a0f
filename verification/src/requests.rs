//! The bodies of the service's requests, and the checks made on them before
//! any work is done.

use vstd::prelude::*;
use crate::errors::AppError;
use crate::text::{push_str, to_string, trim_spec, trim_str};

verus! {

/// An author named when a paper is created.
#[derive(Debug, Clone)]
pub struct AuthorInput {
    pub name: String,
    pub email: String,
}

/// The body of a request that creates a paper.
#[derive(Debug, Clone)]
pub struct CreatePaperRequest {
    pub title: String,
    pub abstract_text: String,
    pub paper_url: String,
    pub pdf_url: Option<String>,
    pub authors: Vec<AuthorInput>,
}

/// The body of a request that updates a paper; absent fields are kept.
#[derive(Debug, Clone)]
pub struct UpdatePaperRequest {
    pub title: Option<String>,
    pub abstract_text: Option<String>,
    pub paper_url: Option<String>,
    pub pdf_url: Option<String>,
}

/// A text that is empty once trimmed.
pub open spec fn blank(s: Seq<char>) -> bool {
    trim_spec(s).len() == 0
}

/// Whether a text is empty once trimmed.
pub fn is_blank(s: &str) -> (r: bool)
    ensures
        r == blank(s@),
{
    let t = trim_str(s);
    t.as_str().is_empty()
}

/// A validation error carrying `message`.
pub open spec fn validation_error(e: AppError, message: Seq<char>) -> bool {
    e matches AppError::Validation(m) && m@ == message
}

/// A chat message must not be blank.
pub fn validate_chat_message(message: &str) -> (r: Result<(), AppError>)
    ensures
        r is Ok <==> !blank(message@),
        r matches Err(e) ==> validation_error(e, "Message cannot be empty"@),
{
    if is_blank(message) {
        Err(AppError::Validation(to_string("Message cannot be empty")))
    } else {
        Ok(())
    }
}

/// A paper must have a title that is not blank.
pub fn validate_create_paper(req: &CreatePaperRequest) -> (r: Result<(), AppError>)
    ensures
        r is Ok <==> !blank(req.title@),
        r matches Err(e) ==> validation_error(e, "title is required"@),
{
    if is_blank(req.title.as_str()) {
        Err(AppError::Validation(to_string("title is required")))
    } else {
        Ok(())
    }
}

/// An invited expert must have an email and a name that are not blank.
pub fn validate_invite(email: &str, name: &str) -> (r: Result<(), AppError>)
    ensures
        r is Ok <==> !blank(email@) && !blank(name@),
        r matches Err(e) ==> validation_error(e, "email and name are required"@),
{
    if is_blank(email) || is_blank(name) {
        Err(AppError::Validation(to_string("email and name are required")))
    } else {
        Ok(())
    }
}

/// An expert's response must not be blank.
pub fn validate_expert_response(response: &str) -> (r: Result<(), AppError>)
    ensures
        r is Ok <==> !blank(response@),
        r matches Err(e) ==> validation_error(e, "response cannot be empty"@),
{
    if is_blank(response) {
        Err(AppError::Validation(to_string("response cannot be empty")))
    } else {
        Ok(())
    }
}

/// Only the user who added a paper may change it or invite experts to it;
/// users are compared by their ids as 128-bit numbers.
pub fn check_paper_owner(owner_id: u128, user_id: u128) -> (r: Result<(), AppError>)
    ensures
        r is Ok <==> owner_id == user_id,
        r matches Err(e) ==> e matches AppError::Forbidden(m) && m@ == "Not your paper"@,
{
    if owner_id != user_id {
        Err(AppError::Forbidden(to_string("Not your paper")))
    } else {
        Ok(())
    }
}

/// The error for a paper that does not exist, naming its id.
pub fn paper_not_found(paper_id: &str) -> (e: AppError)
    ensures
        e matches AppError::NotFound(m) && m@ == "Paper "@ + paper_id@ + " not found"@,
{
    let mut m = to_string("Paper ");
    push_str(&mut m, paper_id);
    push_str(&mut m, " not found");
    AppError::NotFound(m)
}

/// The error for an expert who is not registered, naming their email.
pub fn expert_not_found(email: &str) -> (e: AppError)
    ensures
        e matches AppError::NotFound(m) && m@ == "Expert "@ + email@ + " not found"@,
{
    let mut m = to_string("Expert ");
    push_str(&mut m, email);
    push_str(&mut m, " not found");
    AppError::NotFound(m)
}

/// An escalation is recorded when the turn was escalated and someone was
/// actually notified.
pub fn should_record_escalation(escalated: bool, notified: &Vec<String>) -> (r: bool)
    ensures
        r == (escalated && notified@.len() > 0),
{
    escalated && notified.len() > 0
}

} // verus!
