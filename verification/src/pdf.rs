//! Turning a paper's PDF into clean text, and cutting text into overlapping
//! chunks for embedding.

use vstd::prelude::*;
use crate::text::{
    char_is_ascii, char_vec_views, chars_of, is_alphabetic, is_ascii_char, join_chars, join_spec,
    push_char, split_chars, split_spec, split_state, split_words, string_of, trim_chars, trim_spec,
    unicode_alphabetic, words_spec,
};

verus! {

// ---------------------------------------------------------------------------
// Lines
// ---------------------------------------------------------------------------

/// A line without the `'\r'` of a `"\r\n"` ending.
pub open spec fn strip_cr(p: Seq<char>) -> Seq<char> {
    if p.len() > 0 && p.last() == '\r' {
        p.drop_last()
    } else {
        p
    }
}

/// The lines of `s` as `str::lines` yields them: split at `'\n'`, each line
/// that a `'\n'` ends loses one `'\r'` before it, and a final empty line (after
/// a last `'\n'`, or of an empty text) is not a line.
pub open spec fn lines_spec(s: Seq<char>) -> Seq<Seq<char>> {
    let parts = split_spec(s, '\n');
    let body = Seq::new((parts.len() - 1) as nat, |i: int| strip_cr(parts[i]));
    if parts.last().len() == 0 {
        body
    } else {
        body.push(parts.last())
    }
}

/// `split_spec` always yields at least one piece.
pub proof fn lemma_split_nonempty(s: Seq<char>, sep: char)
    ensures
        split_spec(s, sep).len() >= 1,
{
}

/// The lines of a text.
pub fn lines_of(v: &Vec<char>) -> (r: Vec<Vec<char>>)
    ensures
        char_vec_views(r@) == lines_spec(v@),
{
    let parts = split_chars(v, '\n');
    proof {
        lemma_split_nonempty(v@, '\n');
    }
    let ghost pv = split_spec(v@, '\n');
    assert(char_vec_views(parts@) == pv);
    let n = parts.len();
    let mut out: Vec<Vec<char>> = Vec::new();
    let mut i: usize = 0;
    while i + 1 < n
        invariant
            n == parts.len(),
            n >= 1,
            char_vec_views(parts@) == pv,
            i < n,
            char_vec_views(out@) == Seq::new(i as nat, |k: int| strip_cr(pv[k])),
        decreases n - i,
    {
        let p = &parts[i];
        let mut line: Vec<char> = Vec::new();
        let len = if p.len() > 0 && p[p.len() - 1] == '\r' { p.len() - 1 } else { p.len() };
        let mut k: usize = 0;
        while k < len
            invariant
                len <= p.len(),
                k <= len,
                line@ == p@.take(k as int),
            decreases len - k,
        {
            line.push(p[k]);
            assert(p@.take(k as int).push(p@[k as int]) =~= p@.take(k + 1));
            k += 1;
        }
        assert(pv[i as int] == p@);
        assert(line@ =~= strip_cr(pv[i as int]));
        let ghost before = out@;
        out.push(line);
        assert(char_vec_views(out@) =~= char_vec_views(before).push(strip_cr(pv[i as int])));
        assert(char_vec_views(out@) =~= Seq::new((i + 1) as nat, |k: int| strip_cr(pv[k])));
        i += 1;
    }
    let last = &parts[n - 1];
    assert(pv.last() == last@);
    if last.len() > 0 {
        let copy = last.clone();
        assert(copy@ =~= last@);
        out.push(copy);
    }
    assert(char_vec_views(out@) =~= lines_spec(v@));
    out
}

// ---------------------------------------------------------------------------
// Cleaning extracted text
// ---------------------------------------------------------------------------

/// The trimmed lines that are not empty after trimming.
pub open spec fn trimmed_nonempty(lines: Seq<Seq<char>>) -> Seq<Seq<char>>
    decreases lines.len(),
{
    if lines.len() == 0 {
        seq![]
    } else {
        let rest = trimmed_nonempty(lines.drop_last());
        let t = trim_spec(lines.last());
        if t.len() > 0 {
            rest.push(t)
        } else {
            rest
        }
    }
}

/// The characters that cleaned PDF text keeps.
pub open spec fn keep_pdf_char(c: char) -> bool {
    is_ascii_char(c) || unicode_alphabetic(c) || c == ' ' || c == '.' || c == ',' || c == '\n'
}

/// The characters of `s` that cleaned PDF text keeps, in order.
pub open spec fn kept_chars(s: Seq<char>) -> Seq<char>
    decreases s.len(),
{
    if s.len() == 0 {
        seq![]
    } else if keep_pdf_char(s.last()) {
        kept_chars(s.drop_last()).push(s.last())
    } else {
        kept_chars(s.drop_last())
    }
}

/// Cleaned PDF text: the non-blank lines, trimmed and joined by single
/// spaces, keeping only ASCII and alphabetic characters.
pub open spec fn clean_pdf_spec(text: Seq<char>) -> Seq<char> {
    kept_chars(join_spec(trimmed_nonempty(lines_spec(text)), " "@))
}

/// Cleans text extracted from a PDF: each line is trimmed, blank lines are
/// dropped, the rest are joined with single spaces, and only ASCII and
/// alphabetic characters are kept.
pub fn clean_pdf_text(text: &str) -> (r: String)
    ensures
        r@ == clean_pdf_spec(text@),
{
    let v = chars_of(text);
    let lines = lines_of(&v);
    let ghost lv = char_vec_views(lines@);
    let mut kept: Vec<Vec<char>> = Vec::new();
    let mut i: usize = 0;
    while i < lines.len()
        invariant
            i <= lines.len(),
            lv == char_vec_views(lines@),
            char_vec_views(kept@) == trimmed_nonempty(lv.take(i as int)),
        decreases lines.len() - i,
    {
        assert(lv.take(i + 1).drop_last() =~= lv.take(i as int));
        assert(lv.take(i + 1).last() == lines@[i as int]@);
        let t = trim_chars(&lines[i]);
        if t.len() > 0 {
            let ghost before = kept@;
            kept.push(t);
            assert(char_vec_views(kept@) =~= char_vec_views(before).push(t@));
        }
        i += 1;
    }
    assert(lv.take(lines.len() as int) =~= lv);
    let joined = join_chars(&kept, " ");
    let jv = chars_of(joined.as_str());
    let mut out = String::new();
    let mut k: usize = 0;
    while k < jv.len()
        invariant
            k <= jv.len(),
            out@ == kept_chars(jv@.take(k as int)),
        decreases jv.len() - k,
    {
        let c = jv[k];
        assert(jv@.take(k + 1).drop_last() =~= jv@.take(k as int));
        let keep = char_is_ascii(c) || is_alphabetic(c) || c == ' ' || c == '.' || c == ',' || c == '\n';
        if keep {
            push_char(&mut out, c);
        }
        k += 1;
    }
    assert(jv@.take(jv.len() as int) =~= jv@);
    out
}

/// `s` holds no line break.
pub open spec fn single_line(s: Seq<char>) -> bool {
    forall|i: int| 0 <= i < s.len() ==> s[i] != '\n'
}

proof fn lemma_split_pieces_single_line(s: Seq<char>)
    ensures
        forall|k: int| 0 <= k < split_state(s, '\n').0.len() ==> single_line(#[trigger] split_state(s, '\n').0[k]),
        single_line(split_state(s, '\n').1),
    decreases s.len(),
{
    if s.len() > 0 {
        lemma_split_pieces_single_line(s.drop_last());
        let (done, cur) = split_state(s.drop_last(), '\n');
        if s.last() != '\n' {
            let c2 = cur.push(s.last());
            assert forall|i: int| 0 <= i < c2.len() implies c2[i] != '\n' by {
                if i < cur.len() {
                    assert(c2[i] == cur[i]);
                }
            }
        }
    }
}

proof fn lemma_lines_single_line(s: Seq<char>)
    ensures
        forall|k: int| 0 <= k < lines_spec(s).len() ==> single_line(#[trigger] lines_spec(s)[k]),
{
    lemma_split_pieces_single_line(s);
    let parts = split_spec(s, '\n');
    assert forall|k: int| 0 <= k < parts.len() implies single_line(#[trigger] parts[k]) by {}
    assert forall|k: int| 0 <= k < parts.len() implies single_line(strip_cr(#[trigger] parts[k])) by {
        let p = parts[k];
        let q = strip_cr(p);
        assert forall|i: int| 0 <= i < q.len() implies q[i] != '\n' by {
            assert(q[i] == p[i]);
        }
    }
}

proof fn lemma_trimmed_single_line(lines: Seq<Seq<char>>)
    requires
        forall|k: int| 0 <= k < lines.len() ==> single_line(#[trigger] lines[k]),
    ensures
        forall|k: int| 0 <= k < trimmed_nonempty(lines).len() ==> single_line(#[trigger] trimmed_nonempty(lines)[k]),
    decreases lines.len(),
{
    if lines.len() > 0 {
        let init = lines.drop_last();
        assert forall|k: int| 0 <= k < init.len() implies single_line(#[trigger] init[k]) by {
            assert(init[k] == lines[k]);
        }
        lemma_trimmed_single_line(init);
        let l = lines.last();
        let t = trim_spec(l);
        assert(single_line(l));
        let a = crate::text::trim_start_index(l, 0);
        let b = crate::text::trim_end_index(l, a, l.len() as int);
        lemma_trim_bounds(l);
        assert forall|i: int| 0 <= i < t.len() implies t[i] != '\n' by {
            assert(t[i] == l[a + i]);
        }
        let rest = trimmed_nonempty(init);
        if t.len() > 0 {
            let r = rest.push(t);
            assert forall|k: int| 0 <= k < r.len() implies single_line(#[trigger] r[k]) by {
                if k < rest.len() {
                    assert(r[k] == rest[k]);
                }
            }
        }
    }
}

proof fn lemma_trim_start_bounds(s: Seq<char>, i: int)
    requires
        0 <= i <= s.len(),
    ensures
        i <= crate::text::trim_start_index(s, i) <= s.len(),
    decreases s.len() - i,
{
    if i < s.len() && crate::text::unicode_white_space(s[i]) {
        lemma_trim_start_bounds(s, i + 1);
    }
}

proof fn lemma_trim_end_bounds(s: Seq<char>, lo: int, j: int)
    requires
        0 <= lo <= j <= s.len(),
    ensures
        lo <= crate::text::trim_end_index(s, lo, j) <= j,
    decreases j - lo,
{
    if lo < j && crate::text::unicode_white_space(s[j - 1]) {
        lemma_trim_end_bounds(s, lo, j - 1);
    }
}

proof fn lemma_trim_bounds(s: Seq<char>)
    ensures
        0 <= crate::text::trim_start_index(s, 0) <= crate::text::trim_end_index(
            s,
            crate::text::trim_start_index(s, 0),
            s.len() as int,
        ) <= s.len(),
{
    lemma_trim_start_bounds(s, 0);
    lemma_trim_end_bounds(s, crate::text::trim_start_index(s, 0), s.len() as int);
}

proof fn lemma_join_single_line(list: Seq<Seq<char>>)
    requires
        forall|k: int| 0 <= k < list.len() ==> single_line(#[trigger] list[k]),
    ensures
        single_line(join_spec(list, " "@)),
    decreases list.len(),
{
    reveal_strlit(" ");
    if list.len() > 1 {
        let init = list.drop_last();
        assert forall|k: int| 0 <= k < init.len() implies single_line(#[trigger] init[k]) by {
            assert(init[k] == list[k]);
        }
        lemma_join_single_line(init);
        let a = join_spec(init, " "@);
        let b = a + " "@;
        let c = b + list.last();
        assert(single_line(list.last()));
        assert forall|i: int| 0 <= i < c.len() implies c[i] != '\n' by {
            if i < a.len() {
                assert(c[i] == a[i]);
            } else if i < b.len() {
                assert(c[i] == ' ');
            } else {
                assert(c[i] == list.last()[i - b.len()]);
            }
        }
    } else if list.len() == 1 {
        assert(single_line(list[0]));
    }
}

proof fn lemma_kept_single_line(s: Seq<char>)
    requires
        single_line(s),
    ensures
        single_line(kept_chars(s)),
    decreases s.len(),
{
    if s.len() > 0 {
        let init = s.drop_last();
        assert forall|i: int| 0 <= i < init.len() implies init[i] != '\n' by {
            assert(init[i] == s[i]);
        }
        lemma_kept_single_line(init);
        let k = kept_chars(init);
        if keep_pdf_char(s.last()) {
            let k2 = k.push(s.last());
            assert(s.last() == s[s.len() - 1]);
            assert forall|i: int| 0 <= i < k2.len() implies k2[i] != '\n' by {
                if i < k.len() {
                    assert(k2[i] == k[i]);
                }
            }
        }
    }
}

/// Cleaned PDF text is a single line: its line breaks all became spaces.
pub proof fn lemma_clean_text_is_one_line(text: Seq<char>)
    ensures
        single_line(clean_pdf_spec(text)),
{
    lemma_lines_single_line(text);
    lemma_trimmed_single_line(lines_spec(text));
    lemma_join_single_line(trimmed_nonempty(lines_spec(text)));
    lemma_kept_single_line(join_spec(trimmed_nonempty(lines_spec(text)), " "@));
}

/// Every character of `s` satisfies `p`.
pub open spec fn all_chars(s: Seq<char>, p: spec_fn(char) -> bool) -> bool {
    forall|i: int| 0 <= i < s.len() ==> p(#[trigger] s[i])
}

proof fn lemma_split_pieces_all(s: Seq<char>, p: spec_fn(char) -> bool)
    requires
        all_chars(s, p),
    ensures
        forall|k: int| 0 <= k < split_state(s, '\n').0.len() ==> all_chars(#[trigger] split_state(s, '\n').0[k], p),
        all_chars(split_state(s, '\n').1, p),
    decreases s.len(),
{
    if s.len() > 0 {
        let init = s.drop_last();
        assert forall|i: int| 0 <= i < init.len() implies p(#[trigger] init[i]) by {
            assert(init[i] == s[i]);
        }
        lemma_split_pieces_all(init, p);
        let (done, cur) = split_state(init, '\n');
        assert(p(s[s.len() - 1]));
        if s.last() != '\n' {
            let c2 = cur.push(s.last());
            assert forall|i: int| 0 <= i < c2.len() implies p(#[trigger] c2[i]) by {
                if i < cur.len() {
                    assert(c2[i] == cur[i]);
                }
            }
        } else {
            let d2 = done.push(cur);
            assert forall|k: int| 0 <= k < d2.len() implies all_chars(#[trigger] d2[k], p) by {
                if k < done.len() {
                    assert(d2[k] == done[k]);
                }
            }
        }
    }
}

proof fn lemma_lines_all(s: Seq<char>, p: spec_fn(char) -> bool)
    requires
        all_chars(s, p),
    ensures
        forall|k: int| 0 <= k < lines_spec(s).len() ==> all_chars(#[trigger] lines_spec(s)[k], p),
{
    lemma_split_pieces_all(s, p);
    let parts = split_spec(s, '\n');
    assert forall|k: int| 0 <= k < parts.len() implies all_chars(#[trigger] parts[k], p) by {}
    assert forall|k: int| 0 <= k < parts.len() implies all_chars(strip_cr(#[trigger] parts[k]), p) by {
        let q = strip_cr(parts[k]);
        assert forall|i: int| 0 <= i < q.len() implies p(#[trigger] q[i]) by {
            assert(q[i] == parts[k][i]);
        }
    }
}

proof fn lemma_trim_start_found(s: Seq<char>, i: int)
    requires
        0 <= i <= s.len(),
    ensures
        crate::text::trim_start_index(s, i) < s.len() ==> !crate::text::unicode_white_space(
            s[crate::text::trim_start_index(s, i)],
        ),
    decreases s.len() - i,
{
    if i < s.len() && crate::text::unicode_white_space(s[i]) {
        lemma_trim_start_found(s, i + 1);
    }
}

proof fn lemma_trim_end_found(s: Seq<char>, lo: int, j: int)
    requires
        0 <= lo <= j <= s.len(),
    ensures
        crate::text::trim_end_index(s, lo, j) > lo ==> !crate::text::unicode_white_space(
            s[crate::text::trim_end_index(s, lo, j) - 1],
        ),
    decreases j - lo,
{
    if lo < j && crate::text::unicode_white_space(s[j - 1]) {
        lemma_trim_end_found(s, lo, j - 1);
    }
}

/// A text that begins and ends with a character that is not white space.
pub open spec fn tight(s: Seq<char>) -> bool {
    s.len() > 0 && !crate::text::unicode_white_space(s[0]) && !crate::text::unicode_white_space(s.last())
}

proof fn lemma_trim_tight(l: Seq<char>, p: spec_fn(char) -> bool)
    requires
        all_chars(l, p),
    ensures
        all_chars(trim_spec(l), p),
        trim_spec(l).len() > 0 ==> tight(trim_spec(l)),
{
    lemma_trim_bounds(l);
    let a = crate::text::trim_start_index(l, 0);
    let b = crate::text::trim_end_index(l, a, l.len() as int);
    lemma_trim_start_bounds(l, 0);
    lemma_trim_start_found(l, 0);
    lemma_trim_end_found(l, a, l.len() as int);
    let t = trim_spec(l);
    assert forall|i: int| 0 <= i < t.len() implies p(#[trigger] t[i]) by {
        assert(t[i] == l[a + i]);
    }
    if t.len() > 0 {
        assert(t[0] == l[a]);
        assert(t.last() == l[b - 1]);
    }
}

/// A tight text is its own trim.
proof fn lemma_trim_of_tight(s: Seq<char>)
    requires
        tight(s),
    ensures
        trim_spec(s) == s,
{
    assert(crate::text::trim_start_index(s, 0) == 0);
    assert(crate::text::trim_end_index(s, 0, s.len() as int) == s.len());
    assert(s.subrange(0, s.len() as int) =~= s);
}

proof fn lemma_trimmed_all(lines: Seq<Seq<char>>, p: spec_fn(char) -> bool)
    requires
        forall|k: int| 0 <= k < lines.len() ==> all_chars(#[trigger] lines[k], p),
    ensures
        forall|k: int| 0 <= k < trimmed_nonempty(lines).len() ==> all_chars(#[trigger] trimmed_nonempty(lines)[k], p)
            && tight(trimmed_nonempty(lines)[k]),
    decreases lines.len(),
{
    if lines.len() > 0 {
        let init = lines.drop_last();
        assert forall|k: int| 0 <= k < init.len() implies all_chars(#[trigger] init[k], p) by {
            assert(init[k] == lines[k]);
        }
        lemma_trimmed_all(init, p);
        assert(all_chars(lines[lines.len() - 1], p));
        lemma_trim_tight(lines.last(), p);
        let rest = trimmed_nonempty(init);
        let t = trim_spec(lines.last());
        if t.len() > 0 {
            let r = rest.push(t);
            assert forall|k: int| 0 <= k < r.len() implies all_chars(#[trigger] r[k], p) && tight(r[k]) by {
                if k < rest.len() {
                    assert(r[k] == rest[k]);
                }
            }
        }
    }
}

proof fn lemma_join_all(list: Seq<Seq<char>>, p: spec_fn(char) -> bool)
    requires
        p(' '),
        forall|k: int| 0 <= k < list.len() ==> all_chars(#[trigger] list[k], p) && tight(list[k]),
    ensures
        all_chars(join_spec(list, " "@), p),
        list.len() > 0 ==> tight(join_spec(list, " "@)),
    decreases list.len(),
{
    reveal_strlit(" ");
    if list.len() > 1 {
        let init = list.drop_last();
        assert forall|k: int| 0 <= k < init.len() implies all_chars(#[trigger] init[k], p) && tight(init[k]) by {
            assert(init[k] == list[k]);
        }
        lemma_join_all(init, p);
        let a = join_spec(init, " "@);
        let b = a + " "@;
        let l = list.last();
        assert(all_chars(list[list.len() - 1], p) && tight(list[list.len() - 1]));
        let c = b + l;
        assert forall|i: int| 0 <= i < c.len() implies p(#[trigger] c[i]) by {
            if i < a.len() {
                assert(c[i] == a[i]);
            } else if i < b.len() {
                assert(c[i] == ' ');
            } else {
                assert(c[i] == l[i - b.len()]);
            }
        }
        assert(c[0] == a[0]);
        assert(c.last() == l.last());
    } else if list.len() == 1 {
        assert(all_chars(list[0], p) && tight(list[0]));
    }
}

proof fn lemma_kept_all(s: Seq<char>)
    requires
        all_chars(s, |c: char| keep_pdf_char(c)),
    ensures
        kept_chars(s) == s,
    decreases s.len(),
{
    if s.len() > 0 {
        let init = s.drop_last();
        assert forall|i: int| 0 <= i < init.len() implies (|c: char| keep_pdf_char(c))(#[trigger] init[i]) by {
            assert(init[i] == s[i]);
        }
        lemma_kept_all(init);
        assert(keep_pdf_char(s[s.len() - 1]));
        assert(init.push(s.last()) =~= s);
    }
}

proof fn lemma_split_single_line(s: Seq<char>)
    requires
        single_line(s),
    ensures
        split_state(s, '\n') == (Seq::<Seq<char>>::empty(), s),
    decreases s.len(),
{
    if s.len() > 0 {
        let init = s.drop_last();
        assert forall|i: int| 0 <= i < init.len() implies init[i] != '\n' by {
            assert(init[i] == s[i]);
        }
        lemma_split_single_line(init);
        assert(s[s.len() - 1] != '\n');
        assert(init.push(s.last()) =~= s);
    }
}

/// Text that is already clean is left as it is: cleaning twice gives what
/// cleaning once gives, for text whose characters cleaning keeps.
pub proof fn lemma_clean_text_idempotent(text: Seq<char>)
    requires
        forall|i: int| 0 <= i < text.len() ==> is_ascii_char(#[trigger] text[i]) || unicode_alphabetic(text[i]),
    ensures
        clean_pdf_spec(clean_pdf_spec(text)) == clean_pdf_spec(text),
{
    let p = |c: char| keep_pdf_char(c);
    assert forall|i: int| 0 <= i < text.len() implies p(#[trigger] text[i]) by {}
    lemma_lines_all(text, p);
    let lines = lines_spec(text);
    lemma_trimmed_all(lines, p);
    let t = trimmed_nonempty(lines);
    assert(p(' '));
    lemma_join_all(t, p);
    let j = join_spec(t, " "@);
    lemma_kept_all(j);
    let c = clean_pdf_spec(text);
    assert(c == j);
    lemma_clean_text_is_one_line(text);
    lemma_split_single_line(c);
    let parts = split_spec(c, '\n');
    assert(parts =~= seq![c]);
    if c.len() == 0 {
        assert(lines_spec(c) =~= Seq::<Seq<char>>::empty());
        assert(trimmed_nonempty(lines_spec(c)) =~= Seq::<Seq<char>>::empty());
        reveal_strlit(" ");
        assert(kept_chars(Seq::<char>::empty()) == Seq::<char>::empty());
    } else {
        assert(t.len() > 0);
        assert(tight(c));
        assert(lines_spec(c) =~= seq![c]);
        lemma_trim_of_tight(c);
        let lc = lines_spec(c);
        assert(lc.len() == 1 && lc.last() == c);
        assert(lc.drop_last() =~= Seq::<Seq<char>>::empty());
        assert(trimmed_nonempty(lc.drop_last()) == Seq::<Seq<char>>::empty());
        assert(trim_spec(lc.last()) == c);
        assert(trimmed_nonempty(lc) =~= seq![c]);
        assert(join_spec(seq![c], " "@) == c);
    }
}

/// Every character of `s` is white space.
pub open spec fn all_white(s: Seq<char>) -> bool {
    forall|i: int| 0 <= i < s.len() ==> crate::text::unicode_white_space(#[trigger] s[i])
}

proof fn lemma_trim_start_skips_white(s: Seq<char>, i: int)
    requires
        0 <= i <= s.len(),
    ensures
        forall|k: int| i <= k < crate::text::trim_start_index(s, i) ==> crate::text::unicode_white_space(#[trigger] s[k]),
        all_white(s.subrange(i, s.len() as int)) ==> crate::text::trim_start_index(s, i) == s.len(),
    decreases s.len() - i,
{
    if i < s.len() && crate::text::unicode_white_space(s[i]) {
        lemma_trim_start_skips_white(s, i + 1);
        if all_white(s.subrange(i, s.len() as int)) {
            assert forall|k: int| 0 <= k < s.subrange(i + 1, s.len() as int).len() implies crate::text::unicode_white_space(
                #[trigger] s.subrange(i + 1, s.len() as int)[k],
            ) by {
                assert(s.subrange(i + 1, s.len() as int)[k] == s.subrange(i, s.len() as int)[k + 1]);
            }
        }
    } else if i < s.len() {
        if all_white(s.subrange(i, s.len() as int)) {
            assert(s.subrange(i, s.len() as int)[0] == s[i]);
        }
    }
}

proof fn lemma_trim_end_skips_white(s: Seq<char>, lo: int, j: int)
    requires
        0 <= lo <= j <= s.len(),
    ensures
        forall|k: int| crate::text::trim_end_index(s, lo, j) <= k < j ==> crate::text::unicode_white_space(#[trigger] s[k]),
    decreases j - lo,
{
    if lo < j && crate::text::unicode_white_space(s[j - 1]) {
        lemma_trim_end_skips_white(s, lo, j - 1);
    }
}

/// A trim is empty exactly when the text is all white space.
proof fn lemma_trim_empty_iff_white(l: Seq<char>)
    ensures
        trim_spec(l).len() == 0 <==> all_white(l),
{
    lemma_trim_bounds(l);
    let a = crate::text::trim_start_index(l, 0);
    let b = crate::text::trim_end_index(l, a, l.len() as int);
    lemma_trim_start_skips_white(l, 0);
    lemma_trim_end_skips_white(l, a, l.len() as int);
    assert(l.subrange(0, l.len() as int) =~= l);
    if trim_spec(l).len() == 0 {
        assert(b == a);
        assert forall|k: int| 0 <= k < l.len() implies crate::text::unicode_white_space(#[trigger] l[k]) by {
            if k < a {
            } else {
            }
        }
    }
}

/// The stripped pieces of a text split at line breaks: each without the
/// `'\r'` of a `"\r\n"` ending.
pub open spec fn stripped(parts: Seq<Seq<char>>) -> Seq<Seq<char>> {
    Seq::new(parts.len(), |i: int| strip_cr(parts[i]))
}

proof fn lemma_trim_strip_cr(l: Seq<char>)
    ensures
        trim_spec(strip_cr(l)) == trim_spec(l),
{
    if l.len() > 0 && l.last() == '\r' {
        let m = l.drop_last();
        assert(m.push('\r') =~= l);
        lemma_trim_push_white(m, '\r');
    }
}

proof fn lemma_trim_end_same_prefix(s: Seq<char>, w: char, lo: int, j: int)
    requires
        0 <= lo <= j <= s.len(),
    ensures
        crate::text::trim_end_index(s.push(w), lo, j) == crate::text::trim_end_index(s, lo, j),
    decreases j - lo,
{
    if lo < j {
        assert(s.push(w)[j - 1] == s[j - 1]);
        lemma_trim_end_same_prefix(s, w, lo, j - 1);
    }
}

proof fn lemma_trim_start_push_white(s: Seq<char>, w: char, i: int)
    requires
        0 <= i <= s.len(),
        crate::text::unicode_white_space(w),
    ensures
        crate::text::trim_start_index(s, i) < s.len() ==> crate::text::trim_start_index(s.push(w), i)
            == crate::text::trim_start_index(s, i),
        crate::text::trim_start_index(s, i) >= s.len() ==> crate::text::trim_start_index(s.push(w), i) == s.len()
            + 1,
    decreases s.len() - i,
{
    lemma_trim_start_bounds(s, i);
    if i < s.len() {
        assert(s.push(w)[i] == s[i]);
        if crate::text::unicode_white_space(s[i]) {
            lemma_trim_start_push_white(s, w, i + 1);
        }
    } else {
        assert(s.push(w)[i] == w);
        assert(crate::text::trim_start_index(s.push(w), i + 1) == s.len() + 1);
    }
}

/// A white-space character at the end does not change the trim.
proof fn lemma_trim_push_white(s: Seq<char>, w: char)
    requires
        crate::text::unicode_white_space(w),
    ensures
        trim_spec(s.push(w)) == trim_spec(s),
{
    let x = s.push(w);
    lemma_trim_start_push_white(s, w, 0);
    lemma_trim_bounds(s);
    let a = crate::text::trim_start_index(s, 0);
    if a < s.len() {
        assert(x[s.len() as int] == w);
        assert(crate::text::trim_end_index(x, a, x.len() as int) == crate::text::trim_end_index(x, a, s.len() as int));
        lemma_trim_end_same_prefix(s, w, a, s.len() as int);
        let b = crate::text::trim_end_index(s, a, s.len() as int);
        assert(x.subrange(a, b) =~= s.subrange(a, b));
    } else {
        assert(trim_spec(x) =~= Seq::<char>::empty());
        assert(crate::text::trim_end_index(s, a, s.len() as int) == s.len());
        assert(trim_spec(s) =~= Seq::<char>::empty());
    }
}

proof fn lemma_split_state_concat(a: Seq<char>, b: Seq<char>)
    ensures
        split_state(a + seq!['\n'] + b, '\n') == (split_spec(a, '\n') + split_state(b, '\n').0, split_state(b, '\n').1),
    decreases b.len(),
{
    let x = a + seq!['\n'] + b;
    if b.len() == 0 {
        assert(x.drop_last() =~= a);
        assert(x.last() == '\n');
        assert(split_spec(a, '\n') + Seq::<Seq<char>>::empty() =~= split_spec(a, '\n'));
    } else {
        lemma_split_state_concat(a, b.drop_last());
        assert(x.drop_last() =~= a + seq!['\n'] + b.drop_last());
        assert(x.last() == b.last());
        let (d, c) = split_state(b.drop_last(), '\n');
        assert((split_spec(a, '\n') + d).push(c) =~= split_spec(a, '\n') + d.push(c));
    }
}

proof fn lemma_trimmed_concat(u: Seq<Seq<char>>, v: Seq<Seq<char>>)
    ensures
        trimmed_nonempty(u + v) == trimmed_nonempty(u) + trimmed_nonempty(v),
    decreases v.len(),
{
    if v.len() == 0 {
        assert(u + v =~= u);
        assert(trimmed_nonempty(u) + Seq::<Seq<char>>::empty() =~= trimmed_nonempty(u));
    } else {
        lemma_trimmed_concat(u, v.drop_last());
        assert((u + v).drop_last() =~= u + v.drop_last());
        assert((u + v).last() == v.last());
        let t = trim_spec(v.last());
        if t.len() > 0 {
            assert((trimmed_nonempty(u) + trimmed_nonempty(v.drop_last())).push(t) =~= trimmed_nonempty(u)
                + trimmed_nonempty(v.drop_last()).push(t));
        }
    }
}

/// The cleaned lines of a text are the trimmed, non-blank stripped pieces.
proof fn lemma_cleaned_lines_from_pieces(x: Seq<char>)
    ensures
        trimmed_nonempty(lines_spec(x)) == trimmed_nonempty(stripped(split_spec(x, '\n'))),
{
    lemma_split_nonempty(x, '\n');
    let parts = split_spec(x, '\n');
    let body = Seq::new((parts.len() - 1) as nat, |i: int| strip_cr(parts[i]));
    let sp = stripped(parts);
    assert(sp.drop_last() =~= body);
    assert(sp.last() == strip_cr(parts.last()));
    lemma_trim_strip_cr(parts.last());
    if parts.last().len() == 0 {
        assert(trim_spec(parts.last()) =~= Seq::<char>::empty());
    } else {
        assert(lines_spec(x).drop_last() =~= body);
        assert(lines_spec(x).last() == parts.last());
    }
}

/// The cleaned lines of a text are empty exactly when it is all white space.
proof fn lemma_cleaned_lines_empty(x: Seq<char>)
    ensures
        trimmed_nonempty(stripped(split_state(x, '\n').0)).len() == 0 && all_white(split_state(x, '\n').1)
            <==> all_white(x),
    decreases x.len(),
{
    reveal_strlit("\n");
    if x.len() == 0 {
        assert(stripped(Seq::<Seq<char>>::empty()) =~= Seq::<Seq<char>>::empty());
    } else {
        let y = x.drop_last();
        let c = x.last();
        lemma_cleaned_lines_empty(y);
        let (d, cur) = split_state(y, '\n');
        assert(all_white(x) <==> all_white(y) && crate::text::unicode_white_space(c)) by {
            if all_white(y) && crate::text::unicode_white_space(c) {
                assert forall|i: int| 0 <= i < x.len() implies crate::text::unicode_white_space(#[trigger] x[i]) by {
                    if i < y.len() {
                        assert(x[i] == y[i]);
                    }
                }
            }
            if all_white(x) {
                assert forall|i: int| 0 <= i < y.len() implies crate::text::unicode_white_space(#[trigger] y[i]) by {
                    assert(x[i] == y[i]);
                }
                assert(x[x.len() - 1] == c);
            }
        }
        if c == '\n' {
            assert(('\n' as u32) == 10);
            assert(crate::text::unicode_white_space(c));
            assert(stripped(d.push(cur)) =~= stripped(d) + seq![strip_cr(cur)]);
            lemma_trimmed_concat(stripped(d), seq![strip_cr(cur)]);
            assert(seq![strip_cr(cur)].drop_last() =~= Seq::<Seq<char>>::empty());
            lemma_trim_strip_cr(cur);
            lemma_trim_empty_iff_white(cur);
            assert(all_white(Seq::<char>::empty()));
            assert(split_state(x, '\n') == (d.push(cur), Seq::<char>::empty()));
            let one = seq![strip_cr(cur)];
            assert(trimmed_nonempty(one.drop_last()) == Seq::<Seq<char>>::empty());
            assert(one.last() == strip_cr(cur));
            assert(trimmed_nonempty(one).len() == 0 <==> trim_spec(strip_cr(cur)).len() == 0);
            assert(trimmed_nonempty(stripped(d.push(cur))).len() == trimmed_nonempty(stripped(d)).len()
                + trimmed_nonempty(one).len());
        } else {
            assert(split_state(x, '\n') == (d, cur.push(c)));
            let cur2 = cur.push(c);
            assert(all_white(cur2) <==> all_white(cur) && crate::text::unicode_white_space(c)) by {
                if all_white(cur) && crate::text::unicode_white_space(c) {
                    assert forall|i: int| 0 <= i < cur2.len() implies crate::text::unicode_white_space(#[trigger] cur2[i]) by {
                        if i < cur.len() {
                            assert(cur2[i] == cur[i]);
                        }
                    }
                }
                if all_white(cur2) {
                    assert forall|i: int| 0 <= i < cur.len() implies crate::text::unicode_white_space(#[trigger] cur[i]) by {
                        assert(cur2[i] == cur[i]);
                    }
                    assert(cur2[cur.len() as int] == c);
                }
            }
        }
    }
}

proof fn lemma_join_concat(u: Seq<Seq<char>>, v: Seq<Seq<char>>)
    requires
        u.len() > 0,
        v.len() > 0,
    ensures
        join_spec(u + v, " "@) == join_spec(u, " "@) + " "@ + join_spec(v, " "@),
    decreases v.len(),
{
    let x = u + v;
    if v.len() == 1 {
        assert(x.drop_last() =~= u);
        assert(x.last() == v[0]);
    } else {
        lemma_join_concat(u, v.drop_last());
        assert(x.drop_last() =~= u + v.drop_last());
        assert(x.last() == v.last());
    }
}

proof fn lemma_kept_concat(u: Seq<char>, v: Seq<char>)
    ensures
        kept_chars(u + v) == kept_chars(u) + kept_chars(v),
    decreases v.len(),
{
    if v.len() == 0 {
        assert(u + v =~= u);
        assert(kept_chars(u) + Seq::<char>::empty() =~= kept_chars(u));
    } else {
        lemma_kept_concat(u, v.drop_last());
        assert((u + v).drop_last() =~= u + v.drop_last());
        assert((u + v).last() == v.last());
        if keep_pdf_char(v.last()) {
            assert((kept_chars(u) + kept_chars(v.drop_last())).push(v.last()) =~= kept_chars(u) + kept_chars(
                v.drop_last(),
            ).push(v.last()));
        }
    }
}

/// Joining two texts at a line break joins their cleaned texts with a space,
/// when each holds something that is not white space.
pub proof fn lemma_clean_text_line_join(a: Seq<char>, b: Seq<char>)
    requires
        exists|i: int| 0 <= i < a.len() && !crate::text::unicode_white_space(#[trigger] a[i]),
        exists|i: int| 0 <= i < b.len() && !crate::text::unicode_white_space(#[trigger] b[i]),
    ensures
        clean_pdf_spec(a + seq!['\n'] + b) == clean_pdf_spec(a) + " "@ + clean_pdf_spec(b),
{
    reveal_strlit(" ");
    let x = a + seq!['\n'] + b;
    lemma_split_state_concat(a, b);
    let pa = split_spec(a, '\n');
    let pb = split_spec(b, '\n');
    assert(split_spec(x, '\n') =~= pa + pb);
    assert(stripped(pa + pb) =~= stripped(pa) + stripped(pb));
    lemma_cleaned_lines_from_pieces(x);
    lemma_cleaned_lines_from_pieces(a);
    lemma_cleaned_lines_from_pieces(b);
    lemma_trimmed_concat(stripped(pa), stripped(pb));
    let ta = trimmed_nonempty(lines_spec(a));
    let tb = trimmed_nonempty(lines_spec(b));
    assert(trimmed_nonempty(lines_spec(x)) == ta + tb);
    // Each side holds a cleaned line.
    lemma_cleaned_lines_empty(a);
    lemma_cleaned_lines_empty(b);
    assert(!all_white(a));
    assert(!all_white(b));
    let (da, ca) = split_state(a, '\n');
    let (db, cb) = split_state(b, '\n');
    assert(stripped(pa) =~= stripped(da) + seq![strip_cr(ca)]);
    lemma_trimmed_concat(stripped(da), seq![strip_cr(ca)]);
    assert(seq![strip_cr(ca)].drop_last() =~= Seq::<Seq<char>>::empty());
    lemma_trim_strip_cr(ca);
    lemma_trim_empty_iff_white(ca);
    assert(stripped(pb) =~= stripped(db) + seq![strip_cr(cb)]);
    lemma_trimmed_concat(stripped(db), seq![strip_cr(cb)]);
    assert(seq![strip_cr(cb)].drop_last() =~= Seq::<Seq<char>>::empty());
    lemma_trim_strip_cr(cb);
    lemma_trim_empty_iff_white(cb);
    assert(ta.len() > 0);
    assert(tb.len() > 0);
    lemma_join_concat(ta, tb);
    let ja = join_spec(ta, " "@);
    let jb = join_spec(tb, " "@);
    lemma_kept_concat(ja + " "@, jb);
    lemma_kept_concat(ja, " "@);
    assert(" "@.drop_last() =~= Seq::<char>::empty());
    assert(" "@.last() == ' ');
    assert(keep_pdf_char(' '));
    assert(kept_chars(Seq::<char>::empty()) == Seq::<char>::empty());
    assert(kept_chars(" "@) =~= seq![' ']);
}

// ---------------------------------------------------------------------------
// Chunking
// ---------------------------------------------------------------------------

/// The window of at most `size` words that starts at word `i`, joined by
/// single spaces.
pub open spec fn window(w: Seq<Seq<char>>, i: nat, size: nat) -> Seq<char> {
    let end: nat = if i + size < w.len() { i + size } else { w.len() };
    join_spec(w.subrange(i as int, end as int), " "@)
}

/// The windows from word `i` on: one at `i`, then one every `step` words,
/// up to the first window that reaches the last word. (A step is never 0 or
/// larger than a window when there is more than one window.)
pub open spec fn chunks_from(w: Seq<Seq<char>>, i: nat, size: nat, step: nat) -> Seq<Seq<char>>
    decreases w.len() - i,
{
    if i >= w.len() {
        seq![]
    } else if i + size >= w.len() || step == 0 || step > size {
        seq![window(w, i, size)]
    } else {
        seq![window(w, i, size)] + chunks_from(w, i + step, size, step)
    }
}

/// How far apart consecutive chunks start: `chunk_size - overlap` words.
/// (With no smaller overlap there is no second chunk, so the step is moot.)
pub open spec fn chunk_step(chunk_size: nat, overlap: nat) -> nat {
    if overlap < chunk_size { (chunk_size - overlap) as nat } else { 0 }
}

/// The chunks of a text: overlapping windows of `chunk_size` words, each
/// starting `chunk_size - overlap` words after the previous one, the last
/// one ending at the last word.
pub open spec fn chunk_text_spec(text: Seq<char>, chunk_size: nat, overlap: nat) -> Seq<Seq<char>> {
    chunks_from(words_spec(text), 0, chunk_size, chunk_step(chunk_size, overlap))
}

proof fn lemma_chunks_from_are_windows(w: Seq<Seq<char>>, i: nat, size: nat, step: nat)
    ensures
        forall|k: int|
            0 <= k < chunks_from(w, i, size, step).len() ==> #[trigger] chunks_from(w, i, size, step)[k] == window(
                w,
                (i + k * step) as nat,
                size,
            ),
    decreases w.len() - i,
{
    assert(i + 0 * step == i) by (nonlinear_arith);
    if i < w.len() && !(i + size >= w.len() || step == 0 || step > size) {
        lemma_chunks_from_are_windows(w, i + step, size, step);
        let rest = chunks_from(w, i + step, size, step);
        let all = chunks_from(w, i, size, step);
        assert forall|k: int| 0 <= k < all.len() implies #[trigger] all[k] == window(w, (i + k * step) as nat, size) by {
            if k > 0 {
                assert(all[k] == rest[k - 1]);
                assert(i + step + (k - 1) * step == i + k * step) by (nonlinear_arith);
            } else {
                assert(all[0] == window(w, i, size));
            }
        }
    }
}

/// The `k`-th chunk is the window of `chunk_size` words that starts at word
/// `k * (chunk_size - overlap)`.
pub proof fn lemma_chunks_are_windows(text: Seq<char>, chunk_size: nat, overlap: nat)
    ensures
        forall|k: int|
            0 <= k < chunk_text_spec(text, chunk_size, overlap).len() ==> #[trigger] chunk_text_spec(
                text,
                chunk_size,
                overlap,
            )[k] == window(words_spec(text), (k * chunk_step(chunk_size, overlap)) as nat, chunk_size),
{
    lemma_chunks_from_are_windows(words_spec(text), 0, chunk_size, chunk_step(chunk_size, overlap));
}

/// Cuts text into overlapping chunks of `chunk_size` words; consecutive chunks
/// share `overlap` words, and the last chunk ends at the last word. With an
/// overlap as large as the chunk, only a text of at most `chunk_size` words
/// can be cut (into one chunk): a longer one would never be done.
pub fn chunk_text(text: &str, chunk_size: usize, overlap: usize) -> (r: Vec<String>)
    requires
        overlap < chunk_size || words_spec(text@).len() <= chunk_size,
    ensures
        crate::text::string_views(r@) == chunk_text_spec(text@, chunk_size as nat, overlap as nat),
{
    let v = chars_of(text);
    let words = split_words(&v);
    let ghost w = char_vec_views(words@);
    let step: usize = if overlap < chunk_size { chunk_size - overlap } else { 0 };
    let ghost all = chunks_from(w, 0, chunk_size as nat, step as nat);
    let mut chunks: Vec<String> = Vec::new();
    let mut i: usize = 0;
    assert(crate::text::string_views(chunks@) =~= Seq::<Seq<char>>::empty());
    while i < words.len()
        invariant_except_break
            w == char_vec_views(words@),
            w == words_spec(text@),
            step as nat == chunk_step(chunk_size as nat, overlap as nat),
            all == chunks_from(w, 0, chunk_size as nat, step as nat),
            overlap < chunk_size || words.len() <= chunk_size,
            crate::text::string_views(chunks@) + chunks_from(w, i as nat, chunk_size as nat, step as nat) == all,
        ensures
            crate::text::string_views(chunks@) == all,
        decreases words.len() - i,
    {
        let end: usize = if chunk_size < words.len() - i { i + chunk_size } else { words.len() };
        let mut win: Vec<Vec<char>> = Vec::new();
        let mut k: usize = i;
        while k < end
            invariant
                i <= k <= end <= words.len(),
                w == char_vec_views(words@),
                char_vec_views(win@) == w.subrange(i as int, k as int),
            decreases end - k,
        {
            let wk = words[k].clone();
            assert(wk@ =~= words@[k as int]@);
            let ghost before = win@;
            win.push(wk);
            assert(char_vec_views(win@) =~= char_vec_views(before).push(w[k as int]));
            assert(char_vec_views(win@) =~= w.subrange(i as int, k + 1));
            k += 1;
        }
        let chunk = join_chars(&win, " ");
        assert(chunk@ == window(w, i as nat, chunk_size as nat));
        let ghost prev = crate::text::string_views(chunks@);
        chunks.push(chunk);
        assert(crate::text::string_views(chunks@) =~= prev.push(chunk@));
        if end == words.len() {
            assert(crate::text::string_views(chunks@) =~= all);
            break;
        }
        assert(step > 0);
        assert(prev + (seq![chunk@] + chunks_from(w, (i + step) as nat, chunk_size as nat, step as nat))
            =~= prev.push(chunk@) + chunks_from(w, (i + step) as nat, chunk_size as nat, step as nat));
        i = i + step;
    }
    chunks
}

} // verus!
