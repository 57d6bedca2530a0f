//! Retrieval: the metadata stored with each vector and read back from the
//! vector store, the vector ids, the distinct papers behind a set of matches,
//! and the knowledge-base context handed to the language model.

use vstd::prelude::*;
use crate::json::{JsonValue, json_index, json_str_field, str_view};
use crate::models::{MetadataView, VectorMetadata, metadata_views};
use crate::numeral::{decimal_spec, usize_to_decimal};
use crate::text::{join_spec, join_strings, push_str, str_equal, string_views, to_string};

verus! {

// ---------------------------------------------------------------------------
// Vector metadata
// ---------------------------------------------------------------------------

/// A JSON string value holding a copy of `s`.
pub fn json_string(s: &str) -> (v: JsonValue)
    ensures
        str_view(v) == Some(s@),
{
    let mut t = String::new();
    push_str(&mut t, s);
    JsonValue::Str(t)
}

/// The JSON object with the given string members, in order.
pub open spec fn string_object(v: JsonValue, keys: Seq<Seq<char>>, values: Seq<Seq<char>>) -> bool {
    match v {
        JsonValue::Object(members) => {
            &&& members@.len() == keys.len() == values.len()
            &&& forall|i: int| 0 <= i < keys.len() ==> (#[trigger] members@[i]).0@ == keys[i] && str_view(
                members@[i].1,
            ) == Some(values[i])
        },
        _ => false,
    }
}

/// The metadata stored with a vector of a paper's own text. It has no
/// `expert_email` member: the vector store refuses null metadata values.
pub fn paper_chunk_metadata(paper_id: &str, paper_title: &str, chunk_type: &str, text: &str) -> (v: JsonValue)
    ensures
        string_object(
            v,
            seq!["paper_id"@, "paper_title"@, "chunk_type"@, "text"@],
            seq![paper_id@, paper_title@, chunk_type@, text@],
        ),
{
    let mut members: Vec<(String, JsonValue)> = Vec::new();
    members.push((to_string("paper_id"), json_string(paper_id)));
    members.push((to_string("paper_title"), json_string(paper_title)));
    members.push((to_string("chunk_type"), json_string(chunk_type)));
    members.push((to_string("text"), json_string(text)));
    JsonValue::Object(members)
}

/// The metadata stored with the vector of an expert's response: attributed
/// to the paper and to the expert.
pub fn expert_response_metadata(paper_id: &str, paper_title: &str, text: &str, expert_email: &str) -> (v: JsonValue)
    ensures
        string_object(
            v,
            seq!["paper_id"@, "paper_title"@, "chunk_type"@, "text"@, "expert_email"@],
            seq![paper_id@, paper_title@, "expert_response"@, text@, expert_email@],
        ),
{
    let mut members: Vec<(String, JsonValue)> = Vec::new();
    members.push((to_string("paper_id"), json_string(paper_id)));
    members.push((to_string("paper_title"), json_string(paper_title)));
    members.push((to_string("chunk_type"), json_string("expert_response")));
    members.push((to_string("text"), json_string(text)));
    members.push((to_string("expert_email"), json_string(expert_email)));
    JsonValue::Object(members)
}

/// A string member of stored metadata, empty when missing or not a string.
pub open spec fn meta_string(meta: JsonValue, key: Seq<char>) -> Seq<char> {
    match str_view(json_index(meta, key)) {
        Some(s) => s,
        None => seq![],
    }
}

/// The metadata read back from the vector store: each member when it is a
/// string, the empty string in its place otherwise, and the expert's email
/// only when it is a string.
pub open spec fn metadata_spec(meta: JsonValue) -> MetadataView {
    MetadataView {
        paper_id: meta_string(meta, "paper_id"@),
        paper_title: meta_string(meta, "paper_title"@),
        chunk_type: meta_string(meta, "chunk_type"@),
        text: meta_string(meta, "text"@),
        expert_email: str_view(json_index(meta, "expert_email"@)),
    }
}

fn string_field_or_empty(meta: &JsonValue, key: &str) -> (r: String)
    ensures
        r@ == meta_string(*meta, key@),
{
    match json_str_field(meta, key) {
        Some(s) => s.clone(),
        None => String::new(),
    }
}

/// Reads the metadata of a match returned by the vector store; a match
/// without metadata is read from `JsonValue::Null`.
pub fn metadata_from_json(meta: &JsonValue) -> (r: VectorMetadata)
    ensures
        r@ == metadata_spec(*meta),
{
    VectorMetadata {
        paper_id: string_field_or_empty(meta, "paper_id"),
        paper_title: string_field_or_empty(meta, "paper_title"),
        chunk_type: string_field_or_empty(meta, "chunk_type"),
        text: string_field_or_empty(meta, "text"),
        expert_email: match json_str_field(meta, "expert_email") {
            Some(e) => Some(e.clone()),
            None => None,
        },
    }
}

// ---------------------------------------------------------------------------
// Vector ids
// ---------------------------------------------------------------------------

/// The id of a paper's abstract vector.
pub fn abstract_vector_id(paper_id: &str) -> (r: String)
    ensures
        r@ == paper_id@ + "_abstract"@,
{
    let mut s = String::new();
    push_str(&mut s, paper_id);
    push_str(&mut s, "_abstract");
    s
}

/// The id of the vector of a paper's `index`-th body chunk.
pub fn chunk_vector_id(paper_id: &str, index: usize) -> (r: String)
    ensures
        r@ == paper_id@ + "_chunk_"@ + decimal_spec(index as nat),
{
    let mut s = String::new();
    push_str(&mut s, paper_id);
    push_str(&mut s, "_chunk_");
    push_str(&mut s, usize_to_decimal(index).as_str());
    s
}

/// The id of the vector of an expert's response.
pub fn expert_response_vector_id(response_id: &str) -> (r: String)
    ensures
        r@ == "expert_resp_"@ + response_id@,
{
    let mut s = String::new();
    push_str(&mut s, "expert_resp_");
    push_str(&mut s, response_id);
    s
}

// ---------------------------------------------------------------------------
// Papers behind a set of matches
// ---------------------------------------------------------------------------

/// The non-empty ids of `ids`, each once, in order of first appearance.
pub open spec fn distinct_nonempty(ids: Seq<Seq<char>>) -> Seq<Seq<char>>
    decreases ids.len(),
{
    if ids.len() == 0 {
        seq![]
    } else {
        let rest = distinct_nonempty(ids.drop_last());
        if ids.last().len() == 0 || rest.contains(ids.last()) {
            rest
        } else {
            rest.push(ids.last())
        }
    }
}

/// The paper ids of a list of matches.
pub open spec fn paper_ids_of(matches: Seq<MetadataView>) -> Seq<Seq<char>> {
    Seq::new(matches.len(), |i: int| matches[i].paper_id)
}

/// The distinct, non-empty paper ids of the matches, in order of first
/// appearance.
pub fn distinct_paper_ids(matches: &Vec<VectorMetadata>) -> (r: Vec<String>)
    ensures
        string_views(r@) == distinct_nonempty(paper_ids_of(metadata_views(matches@))),
{
    let ghost ids = paper_ids_of(metadata_views(matches@));
    let mut out: Vec<String> = Vec::new();
    let mut i: usize = 0;
    while i < matches.len()
        invariant
            i <= matches.len(),
            ids == paper_ids_of(metadata_views(matches@)),
            string_views(out@) == distinct_nonempty(ids.take(i as int)),
        decreases matches.len() - i,
    {
        assert(ids.take(i + 1).drop_last() =~= ids.take(i as int));
        assert(ids.take(i + 1).last() == matches@[i as int].paper_id@);
        let id = &matches[i].paper_id;
        let mut seen = false;
        let mut k: usize = 0;
        while k < out.len()
            invariant
                k <= out.len(),
                seen == exists|j: int| 0 <= j < k && out@[j]@ == id@,
            decreases out.len() - k,
        {
            if str_equal(out[k].as_str(), id.as_str()) {
                seen = true;
            }
            k += 1;
        }
        let ghost sv = string_views(out@);
        assert(seen == sv.contains(id@)) by {
            if seen {
                let j = choose|j: int| 0 <= j < out.len() && out@[j]@ == id@;
                assert(sv[j] == id@);
            }
            if sv.contains(id@) {
                let j = choose|j: int| 0 <= j < sv.len() && sv[j] == id@;
                assert(out@[j]@ == id@);
            }
        }
        if !id.as_str().is_empty() && !seen {
            out.push(id.clone());
            assert(string_views(out@) =~= sv.push(id@));
        }
        i += 1;
    }
    assert(ids.take(matches.len() as int) =~= ids);
    out
}

// ---------------------------------------------------------------------------
// Knowledge-base context
// ---------------------------------------------------------------------------

/// What the knowledge graph holds about one matched paper.
#[derive(Debug, Clone)]
pub struct GraphPaper {
    pub paper_id: String,
    pub title: String,
    pub concepts: Vec<String>,
    pub topics: Vec<String>,
    pub authors: Vec<String>,
    pub citations: Vec<String>,
}

/// The knowledge-graph context of a set of matches: one entry per paper.
#[derive(Debug, Clone)]
pub struct GraphContext {
    pub papers: Vec<GraphPaper>,
}

/// How a passage names its source: the expert for an expert's response, the
/// paper otherwise.
pub open spec fn source_label(m: MetadataView) -> Seq<char> {
    if m.chunk_type == "expert_response"@ {
        "Expert Response ("@ + (match m.expert_email {
            Some(e) => e,
            None => "unknown"@,
        }) + ")"@
    } else {
        "Paper: "@ + m.paper_title
    }
}

/// The context block of the `i`-th passage (counting from one).
pub open spec fn source_block(i: nat, m: MetadataView) -> Seq<char> {
    "[Source "@ + decimal_spec(i) + "] "@ + source_label(m) + "\n"@ + m.text
}

/// The blocks of the first five passages.
pub open spec fn source_blocks(matches: Seq<MetadataView>) -> Seq<Seq<char>> {
    let n: nat = if matches.len() < 5 { matches.len() } else { 5 };
    Seq::new(n, |i: int| source_block((i + 1) as nat, matches[i]))
}

/// The graph block of a paper, if the joined list of its concepts is not
/// empty.
pub open spec fn graph_block(p: GraphPaper) -> Option<Seq<char>> {
    let concepts = join_spec(string_views(p.concepts@), ", "@);
    let authors = join_spec(string_views(p.authors@), ", "@);
    if concepts.len() > 0 {
        Some("[Graph] '"@ + p.title@ + "' by "@ + authors + " — concepts: "@ + concepts)
    } else {
        None
    }
}

/// The graph blocks of the given papers, in order.
pub open spec fn graph_blocks(papers: Seq<GraphPaper>) -> Seq<Seq<char>>
    decreases papers.len(),
{
    if papers.len() == 0 {
        seq![]
    } else {
        let rest = graph_blocks(papers.drop_last());
        match graph_block(papers.last()) {
            Some(b) => rest.push(b),
            None => rest,
        }
    }
}

/// The knowledge-base context: blocks for the first five passages, then
/// blocks for the first three papers of the graph context that have
/// concepts, separated by blank lines.
pub open spec fn context_spec(matches: Seq<MetadataView>, papers: Seq<GraphPaper>) -> Seq<char> {
    let p: int = if papers.len() < 3 { papers.len() as int } else { 3 };
    join_spec(source_blocks(matches) + graph_blocks(papers.take(p)), "\n\n"@)
}

fn source_block_of(i: usize, m: &VectorMetadata) -> (r: String)
    ensures
        r@ == source_block(i as nat, m@),
{
    let mut s = String::new();
    push_str(&mut s, "[Source ");
    push_str(&mut s, usize_to_decimal(i).as_str());
    push_str(&mut s, "] ");
    if str_equal(m.chunk_type.as_str(), "expert_response") {
        push_str(&mut s, "Expert Response (");
        match &m.expert_email {
            Some(e) => push_str(&mut s, e.as_str()),
            None => push_str(&mut s, "unknown"),
        }
        push_str(&mut s, ")");
    } else {
        push_str(&mut s, "Paper: ");
        push_str(&mut s, m.paper_title.as_str());
    }
    push_str(&mut s, "\n");
    push_str(&mut s, m.text.as_str());
    s
}

fn graph_block_of(p: &GraphPaper) -> (r: Option<String>)
    ensures
        r matches Some(s) ==> graph_block(*p) == Some(s@),
        r is None ==> graph_block(*p) is None,
{
    let concepts = join_strings(&p.concepts, ", ");
    let authors = join_strings(&p.authors, ", ");
    if !concepts.as_str().is_empty() {
        let mut s = String::new();
        push_str(&mut s, "[Graph] '");
        push_str(&mut s, p.title.as_str());
        push_str(&mut s, "' by ");
        push_str(&mut s, authors.as_str());
        push_str(&mut s, " — concepts: ");
        push_str(&mut s, concepts.as_str());
        Some(s)
    } else {
        None
    }
}

/// Builds the knowledge-base context handed to the language model.
pub fn build_context_string(matches: &Vec<VectorMetadata>, graph_ctx: &GraphContext) -> (r: String)
    ensures
        r@ == context_spec(metadata_views(matches@), graph_ctx.papers@),
{
    let ghost mv = metadata_views(matches@);
    let mut parts: Vec<String> = Vec::new();
    let n: usize = if matches.len() < 5 { matches.len() } else { 5 };
    let mut i: usize = 0;
    while i < n
        invariant
            n <= matches.len(),
            n == (if matches.len() < 5 { matches.len() } else { 5 }),
            i <= n,
            mv == metadata_views(matches@),
            string_views(parts@) == source_blocks(mv).take(i as int),
        decreases n - i,
    {
        let b = source_block_of(i + 1, &matches[i]);
        let ghost before = parts@;
        parts.push(b);
        assert(mv[i as int] == matches@[i as int]@);
        assert(source_blocks(mv)[i as int] == b@);
        assert(string_views(parts@) =~= string_views(before).push(b@));
        assert(string_views(parts@) =~= source_blocks(mv).take(i + 1));
        i += 1;
    }
    assert(source_blocks(mv).take(n as int) =~= source_blocks(mv));
    let papers = &graph_ctx.papers;
    let p: usize = if papers.len() < 3 { papers.len() } else { 3 };
    let ghost pv = papers@.take(p as int);
    let mut k: usize = 0;
    while k < p
        invariant
            p <= papers.len(),
            pv == papers@.take(p as int),
            k <= p,
            string_views(parts@) == source_blocks(mv) + graph_blocks(pv.take(k as int)),
        decreases p - k,
    {
        assert(pv.take(k + 1).drop_last() =~= pv.take(k as int));
        assert(pv.take(k + 1).last() == papers@[k as int]);
        match graph_block_of(&papers[k]) {
            Some(b) => {
                let ghost before = parts@;
                parts.push(b);
                assert(string_views(parts@) =~= string_views(before).push(b@));
                assert(source_blocks(mv) + graph_blocks(pv.take(k + 1)) =~= source_blocks(mv) + graph_blocks(
                    pv.take(k as int),
                ).push(b@));
            },
            None => {},
        }
        k += 1;
    }
    assert(pv.take(p as int) =~= pv);
    join_strings(&parts, "\n\n")
}

} // verus!

verus! {

/// A key found at position `i`, and at no earlier position, is looked up there.
pub proof fn lemma_lookup_at(members: Seq<(String, JsonValue)>, key: Seq<char>, i: int)
    requires
        0 <= i < members.len(),
        members[i].0@ == key,
        forall|j: int| 0 <= j < i ==> (#[trigger] members[j]).0@ != key,
    ensures
        crate::json::member_lookup(members, key) == Some(members[i].1),
    decreases i,
{
    if i > 0 {
        assert(members[0].0@ != key);
        let rest = members.drop_first();
        assert forall|j: int| 0 <= j < i - 1 implies (#[trigger] rest[j]).0@ != key by {
            assert(rest[j] == members[j + 1]);
        }
        lemma_lookup_at(rest, key, i - 1);
    }
}

/// A key at no position is not found.
pub proof fn lemma_lookup_absent(members: Seq<(String, JsonValue)>, key: Seq<char>)
    requires
        forall|j: int| 0 <= j < members.len() ==> (#[trigger] members[j]).0@ != key,
    ensures
        crate::json::member_lookup(members, key) is None,
    decreases members.len(),
{
    if members.len() > 0 {
        let rest = members.drop_first();
        assert forall|j: int| 0 <= j < rest.len() implies (#[trigger] rest[j]).0@ != key by {
            assert(rest[j] == members[j + 1]);
        }
        lemma_lookup_absent(rest, key);
    }
}

/// An expert's response, stored with `expert_response_metadata` and read back
/// with `metadata_from_json`, keeps its paper, text and author, and is read
/// as an expert response.
pub proof fn lemma_expert_response_round_trip(
    v: JsonValue,
    paper_id: Seq<char>,
    paper_title: Seq<char>,
    text: Seq<char>,
    expert_email: Seq<char>,
)
    requires
        string_object(
            v,
            seq!["paper_id"@, "paper_title"@, "chunk_type"@, "text"@, "expert_email"@],
            seq![paper_id, paper_title, "expert_response"@, text, expert_email],
        ),
    ensures
        metadata_spec(v) == (MetadataView {
            paper_id,
            paper_title,
            chunk_type: "expert_response"@,
            text,
            expert_email: Some(expert_email),
        }),
        source_label(metadata_spec(v)) == "Expert Response ("@ + expert_email + ")"@,
{
    reveal_strlit("paper_id");
    reveal_strlit("paper_title");
    reveal_strlit("chunk_type");
    reveal_strlit("text");
    reveal_strlit("expert_email");
    let keys = seq!["paper_id"@, "paper_title"@, "chunk_type"@, "text"@, "expert_email"@];
    let vals = seq![paper_id, paper_title, "expert_response"@, text, expert_email];
    let members = match v {
        JsonValue::Object(m) => m@,
        _ => seq![],
    };
    assert forall|i: int| 0 <= i < 5 implies (#[trigger] members[i]).0@ == keys[i] && str_view(members[i].1) == Some(vals[i]) by {}
    assert forall|i: int, j: int| 0 <= i < 5 && 0 <= j < 5 && i != j implies keys[i] != keys[j] by {
        assert(keys[i].len() != keys[j].len());
    }
    assert forall|i: int| 0 <= i < 5 implies crate::json::member_lookup(members, #[trigger] keys[i]) == Some(members[i].1) by {
        assert forall|j: int| 0 <= j < i implies (#[trigger] members[j]).0@ != keys[i] by {
            assert(members[j].0@ == keys[j]);
        }
        lemma_lookup_at(members, keys[i], i);
    }
    assert(crate::json::member_lookup(members, keys[0]) == Some(members[0].1));
    assert(crate::json::member_lookup(members, keys[1]) == Some(members[1].1));
    assert(crate::json::member_lookup(members, keys[2]) == Some(members[2].1));
    assert(crate::json::member_lookup(members, keys[3]) == Some(members[3].1));
    assert(crate::json::member_lookup(members, keys[4]) == Some(members[4].1));
}

/// A passage of a paper, stored with `paper_chunk_metadata` and read back with
/// `metadata_from_json`, keeps its paper, kind and text, and has no author.
pub proof fn lemma_paper_chunk_round_trip(
    v: JsonValue,
    paper_id: Seq<char>,
    paper_title: Seq<char>,
    chunk_type: Seq<char>,
    text: Seq<char>,
)
    requires
        string_object(
            v,
            seq!["paper_id"@, "paper_title"@, "chunk_type"@, "text"@],
            seq![paper_id, paper_title, chunk_type, text],
        ),
    ensures
        metadata_spec(v) == (MetadataView { paper_id, paper_title, chunk_type, text, expert_email: None }),
{
    reveal_strlit("paper_id");
    reveal_strlit("paper_title");
    reveal_strlit("chunk_type");
    reveal_strlit("text");
    reveal_strlit("expert_email");
    let keys = seq!["paper_id"@, "paper_title"@, "chunk_type"@, "text"@];
    let vals = seq![paper_id, paper_title, chunk_type, text];
    let members = match v {
        JsonValue::Object(m) => m@,
        _ => seq![],
    };
    assert forall|i: int| 0 <= i < 4 implies (#[trigger] members[i]).0@ == keys[i] && str_view(members[i].1) == Some(vals[i]) by {}
    assert forall|i: int, j: int| 0 <= i < 4 && 0 <= j < 4 && i != j implies keys[i] != keys[j] by {
        assert(keys[i].len() != keys[j].len());
    }
    assert forall|i: int| 0 <= i < 4 implies crate::json::member_lookup(members, #[trigger] keys[i]) == Some(members[i].1) by {
        assert forall|j: int| 0 <= j < i implies (#[trigger] members[j]).0@ != keys[i] by {
            assert(members[j].0@ == keys[j]);
        }
        lemma_lookup_at(members, keys[i], i);
    }
    assert forall|j: int| 0 <= j < members.len() implies (#[trigger] members[j]).0@ != "expert_email"@ by {
        assert(members[j].0@ == keys[j]);
        assert(keys[j].len() != "expert_email"@.len());
    }
    lemma_lookup_absent(members, "expert_email"@);
    assert(crate::json::member_lookup(members, keys[0]) == Some(members[0].1));
    assert(crate::json::member_lookup(members, keys[1]) == Some(members[1].1));
    assert(crate::json::member_lookup(members, keys[2]) == Some(members[2].1));
    assert(crate::json::member_lookup(members, keys[3]) == Some(members[3].1));
}

/// The distinct paper ids hold no empty id and no id twice.
pub proof fn lemma_distinct_nonempty(ids: Seq<Seq<char>>)
    ensures
        forall|k: int| 0 <= k < distinct_nonempty(ids).len() ==> (#[trigger] distinct_nonempty(ids)[k]).len() > 0,
        forall|j: int, k: int| 0 <= j < k < distinct_nonempty(ids).len() ==> (#[trigger] distinct_nonempty(ids)[j])
            != (#[trigger] distinct_nonempty(ids)[k]),
        forall|x: Seq<char>| x.len() > 0 ==> (ids.contains(x) <==> distinct_nonempty(ids).contains(x)),
    decreases ids.len(),
{
    if ids.len() > 0 {
        lemma_distinct_nonempty(ids.drop_last());
        let rest = distinct_nonempty(ids.drop_last());
        let r = distinct_nonempty(ids);
        assert forall|x: Seq<char>| x.len() > 0 implies (ids.contains(x) <==> r.contains(x)) by {
            if ids.contains(x) {
                let k = choose|k: int| 0 <= k < ids.len() && ids[k] == x;
                if k < ids.len() - 1 {
                    assert(ids.drop_last()[k] == x);
                    assert(ids.drop_last().contains(x));
                    assert(rest.contains(x));
                    let m = choose|m: int| 0 <= m < rest.len() && rest[m] == x;
                    assert(r[m] == x);
                } else if !rest.contains(x) {
                    assert(r[r.len() - 1] == x);
                }
            }
            if r.contains(x) {
                let m = choose|m: int| 0 <= m < r.len() && r[m] == x;
                if m < rest.len() {
                    assert(rest[m] == x);
                    assert(rest.contains(x));
                    assert(ids.drop_last().contains(x));
                    let k = choose|k: int| 0 <= k < ids.drop_last().len() && ids.drop_last()[k] == x;
                    assert(ids[k] == x);
                } else {
                    assert(ids[ids.len() - 1] == x);
                }
            }
        }
        if !(ids.last().len() == 0 || rest.contains(ids.last())) {
            assert forall|j: int, k: int| 0 <= j < k < r.len() implies (#[trigger] r[j]) != (#[trigger] r[k]) by {
                if k == rest.len() {
                    assert(r[j] == rest[j]);
                    assert(rest.contains(rest[j]));
                }
            }
        }
    }
}

} // verus!
