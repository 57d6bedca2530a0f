//! The results the agents' tools report.

use vstd::prelude::*;
use crate::graph::{Contact, contact_views};
use crate::text::{clone_strings, string_views, to_string};

verus! {

/// What the email tool reports: to whom it sent, and whether it did.
#[derive(Debug, Clone)]
pub struct EmailToolResult {
    pub sent_to: Vec<String>,
    pub success: bool,
}

/// The email tool's report: the recipient and success when the email went
/// out, nobody and failure when it did not.
pub fn email_tool_result(to_email: &str, sent: bool) -> (r: EmailToolResult)
    ensures
        r.success == sent,
        sent ==> string_views(r.sent_to@) == seq![to_email@],
        !sent ==> r.sent_to@.len() == 0,
{
    let mut sent_to: Vec<String> = Vec::new();
    if sent {
        sent_to.push(to_string(to_email));
        assert(string_views(sent_to@) =~= seq![to_email@]);
    }
    EmailToolResult { sent_to, success: sent }
}

/// What the graph tool reports: the experts and authors found for the
/// concepts, and the concepts asked about.
#[derive(Debug, Clone)]
pub struct GraphQueryResult {
    pub experts: Vec<Contact>,
    pub authors: Vec<Contact>,
    pub concepts: Vec<String>,
}

/// The graph tool's report.
pub fn graph_query_result(experts: Vec<Contact>, authors: Vec<Contact>, concepts: &Vec<String>) -> (r: GraphQueryResult)
    ensures
        contact_views(r.experts@) == contact_views(experts@),
        contact_views(r.authors@) == contact_views(authors@),
        string_views(r.concepts@) == string_views(concepts@),
{
    GraphQueryResult { experts, authors, concepts: clone_strings(concepts) }
}

} // verus!
