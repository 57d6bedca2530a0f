//! Decisions around the knowledge-graph queries: which concepts are looked up,
//! how the rows of expert and author lookups are merged into a contact list,
//! and how concept categories are labelled in the graph.

use vstd::prelude::*;
use crate::models::ConceptCategory;
use crate::text::{push_str, str_equal};

verus! {

/// A person found in the graph, by name and email.
pub type Contact = (String, String);

/// A contact by its characters.
pub open spec fn contact_view(c: Contact) -> (Seq<char>, Seq<char>) {
    (c.0@, c.1@)
}

/// The views of a list of contacts.
pub open spec fn contact_views(v: Seq<Contact>) -> Seq<(Seq<char>, Seq<char>)> {
    Seq::new(v.len(), |i: int| contact_view(v[i]))
}

/// Some contact of `list` has this email.
pub open spec fn has_email(list: Seq<(Seq<char>, Seq<char>)>, email: Seq<char>) -> bool {
    exists|k: int| 0 <= k < list.len() && (#[trigger] list[k]).1 == email
}

/// The contact list after reading `rows`: a row is added when its email is
/// not empty and not yet on the list.
pub open spec fn merge_contacts_spec(list: Seq<(Seq<char>, Seq<char>)>, rows: Seq<(Seq<char>, Seq<char>)>) -> Seq<(Seq<char>, Seq<char>)>
    decreases rows.len(),
{
    if rows.len() == 0 {
        list
    } else {
        let r = merge_contacts_spec(list, rows.drop_last());
        let row = rows.last();
        if row.1.len() > 0 && !has_email(r, row.1) {
            r.push(row)
        } else {
            r
        }
    }
}

/// Every email on the list is non-empty and appears once.
pub open spec fn distinct_emails(list: Seq<(Seq<char>, Seq<char>)>) -> bool {
    &&& forall|k: int| 0 <= k < list.len() ==> (#[trigger] list[k]).1.len() > 0
    &&& forall|j: int, k: int| 0 <= j < k < list.len() ==> (#[trigger] list[j]).1 != (#[trigger] list[k]).1
}

/// Whether a list of contacts holds this email.
pub fn contains_email(list: &Vec<Contact>, email: &String) -> (r: bool)
    ensures
        r == has_email(contact_views(list@), email@),
{
    let mut k: usize = 0;
    while k < list.len()
        invariant
            k <= list.len(),
            forall|j: int| 0 <= j < k ==> list@[j].1@ != email@,
        decreases list.len() - k,
    {
        if str_equal(list[k].1.as_str(), email.as_str()) {
            assert(contact_views(list@)[k as int].1 == email@);
            return true;
        }
        k += 1;
    }
    assert forall|j: int| 0 <= j < contact_views(list@).len() implies #[trigger] contact_views(list@)[j].1 != email@ by {
        assert(contact_views(list@)[j].1 == list@[j].1@);
    }
    false
}

/// Adds the rows of one graph lookup to a contact list, skipping rows
/// without an email and emails already listed.
pub fn merge_contacts(list: &mut Vec<Contact>, rows: &Vec<Contact>)
    ensures
        contact_views(final(list)@) == merge_contacts_spec(contact_views(old(list)@), contact_views(rows@)),
{
    let ghost start = contact_views(list@);
    let mut i: usize = 0;
    while i < rows.len()
        invariant
            i <= rows.len(),
            contact_views(list@) == merge_contacts_spec(start, contact_views(rows@).take(i as int)),
        decreases rows.len() - i,
    {
        assert(contact_views(rows@).take(i + 1).drop_last() =~= contact_views(rows@).take(i as int));
        assert(contact_views(rows@).take(i + 1).last() == contact_view(rows@[i as int]));
        let name = &rows[i].0;
        let email = &rows[i].1;
        if !email.as_str().is_empty() && !contains_email(list, email) {
            let ghost before = contact_views(list@);
            list.push((name.clone(), email.clone()));
            assert(contact_views(list@) =~= before.push(contact_view(rows@[i as int])));
        }
        i += 1;
    }
    assert(contact_views(rows@).take(rows.len() as int) =~= contact_views(rows@));
}

/// Merging keeps every email non-empty and distinct.
pub proof fn lemma_merge_keeps_distinct(list: Seq<(Seq<char>, Seq<char>)>, rows: Seq<(Seq<char>, Seq<char>)>)
    requires
        distinct_emails(list),
    ensures
        distinct_emails(merge_contacts_spec(list, rows)),
    decreases rows.len(),
{
    if rows.len() > 0 {
        lemma_merge_keeps_distinct(list, rows.drop_last());
        let r = merge_contacts_spec(list, rows.drop_last());
        let row = rows.last();
        if row.1.len() > 0 && !has_email(r, row.1) {
            let r2 = r.push(row);
            assert forall|j: int, k: int| 0 <= j < k < r2.len() implies (#[trigger] r2[j]).1 != (#[trigger] r2[k]).1 by {
                if k == r.len() {
                    assert(r[j] == r2[j]);
                }
            }
        }
    }
}

/// The concepts that the graph is asked about: the first five.
pub open spec fn query_concepts_spec(concepts: Seq<String>) -> Seq<String> {
    if concepts.len() < 5 { concepts } else { concepts.take(5) }
}

/// The number of concepts that the graph is asked about.
pub fn query_concept_count(concepts: &Vec<String>) -> (n: usize)
    ensures
        n as nat == query_concepts_spec(concepts@).len(),
        n <= 5,
{
    if concepts.len() < 5 { concepts.len() } else { 5 }
}

/// The name under which the graph stores a concept's category.
pub open spec fn category_label_spec(c: ConceptCategory) -> Seq<char> {
    match c {
        ConceptCategory::Method => "Method"@,
        ConceptCategory::Finding => "Finding"@,
        ConceptCategory::Topic => "Topic"@,
        ConceptCategory::Citation => "Citation"@,
        ConceptCategory::TechnicalConcept => "TechnicalConcept"@,
    }
}

/// The name under which the graph stores a concept's category: the
/// category's own name, as `{:?}` writes it.
pub fn category_label(c: ConceptCategory) -> (r: String)
    ensures
        r@ == category_label_spec(c),
{
    let mut s = String::new();
    match c {
        ConceptCategory::Method => push_str(&mut s, "Method"),
        ConceptCategory::Finding => push_str(&mut s, "Finding"),
        ConceptCategory::Topic => push_str(&mut s, "Topic"),
        ConceptCategory::Citation => push_str(&mut s, "Citation"),
        ConceptCategory::TechnicalConcept => push_str(&mut s, "TechnicalConcept"),
    }
    s
}

/// The year a citation is stored with: its year, or 0 when unknown.
pub fn citation_year(year: Option<i32>) -> (r: i64)
    ensures
        r == match year {
            Some(y) => y as i64,
            None => 0,
        },
{
    match year {
        Some(y) => y as i64,
        None => 0,
    }
}

/// Whether the graph is asked at all: a lookup by concept with no concepts
/// returns nothing without a query.
pub fn graph_lookup_needed(concepts: &Vec<String>) -> (r: bool)
    ensures
        r == (concepts@.len() > 0),
{
    concepts.len() > 0
}

} // verus!
