//! Character-level text primitives shared by the rest of the library:
//! character classes, prefixes, trimming, splitting at a character or at
//! white space, and joining.
//!
//! Every function works on the characters of its input (`Seq<char>` in
//! specifications) and states its result as a spec function of them.

use vstd::prelude::*;

verus! {

// ---------------------------------------------------------------------------
// Character classes
// ---------------------------------------------------------------------------

/// Whether a character has the Unicode `White_Space` property, as decided by
/// `char::is_whitespace`: the 25 code points U+0009 to U+000D, U+0020,
/// U+0085, U+00A0, U+1680, U+2000 to U+200A, U+2028, U+2029, U+202F, U+205F
/// and U+3000.
pub open spec fn unicode_white_space(c: char) -> bool {
    let u = c as u32;
    ||| 0x09 <= u <= 0x0D
    ||| u == 0x20
    ||| u == 0x85
    ||| u == 0xA0
    ||| u == 0x1680
    ||| 0x2000 <= u <= 0x200A
    ||| u == 0x2028
    ||| u == 0x2029
    ||| u == 0x202F
    ||| u == 0x205F
    ||| u == 0x3000
}

/// Whether a character has the Unicode `Alphabetic` property, as decided by
/// `char::is_alphabetic`.
pub uninterp spec fn unicode_alphabetic(c: char) -> bool;

/// Decides `unicode_white_space`: what `char::is_whitespace` decides, which
/// its documentation defines as the Unicode `White_Space` property.
pub(crate) fn is_whitespace(c: char) -> (b: bool)
    ensures
        b == unicode_white_space(c),
{
    let u = c as u32;
    (0x09 <= u && u <= 0x0D) || u == 0x20 || u == 0x85 || u == 0xA0 || u == 0x1680 || (0x2000 <= u && u
        <= 0x200A) || u == 0x2028 || u == 0x2029 || u == 0x202F || u == 0x205F || u == 0x3000
}

/// Trusted: `char::is_alphabetic`. Its documentation defines it as the Unicode
/// `Alphabetic` property and gives no table, so the result is named.
#[verifier::external_body]
pub(crate) fn is_alphabetic(c: char) -> (b: bool)
    ensures
        b == unicode_alphabetic(c),
{
    c.is_alphabetic()
}

/// Trusted: `String::push`, which appends one character.
#[verifier::external_body]
pub(crate) fn push_char(s: &mut String, c: char)
    ensures
        final(s)@ == old(s)@.push(c),
{
    s.push(c)
}

/// A character in the ASCII range.
pub open spec fn is_ascii_char(c: char) -> bool {
    (c as u32) < 128
}

/// Decides `is_ascii_char`.
pub fn char_is_ascii(c: char) -> (b: bool)
    ensures
        b == is_ascii_char(c),
{
    (c as u32) < 128
}

// ---------------------------------------------------------------------------
// Conversions between strings and character vectors
// ---------------------------------------------------------------------------

/// The character views of a sequence of strings.
pub open spec fn string_views(v: Seq<String>) -> Seq<Seq<char>> {
    Seq::new(v.len(), |i: int| v[i]@)
}

/// The character views of a sequence of character vectors.
pub open spec fn char_vec_views(v: Seq<Vec<char>>) -> Seq<Seq<char>> {
    Seq::new(v.len(), |i: int| v[i]@)
}

/// The characters of a string slice, in order.
pub fn chars_of(s: &str) -> (v: Vec<char>)
    ensures
        v@ == s@,
{
    let mut v: Vec<char> = Vec::new();
    for c in it: s.chars()
        invariant
            v@ == it.seq().take(it.index() as int),
            it.seq() == s@,
    {
        v.push(c);
    }
    v
}

/// Appends characters to a string.
pub fn push_chars(s: &mut String, v: &Vec<char>)
    ensures
        final(s)@ == old(s)@ + v@,
{
    let mut i: usize = 0;
    while i < v.len()
        invariant
            i <= v.len(),
            s@ == old(s)@ + v@.take(i as int),
        decreases v.len() - i,
    {
        push_char(s, v[i]);
        assert(old(s)@ + v@.take(i + 1) =~= old(s)@ + v@.take(i as int) + seq![v@[i as int]]);
        i += 1;
    }
    assert(v@.take(v.len() as int) =~= v@);
}

/// Builds a string from characters.
pub fn string_of(v: &Vec<char>) -> (s: String)
    ensures
        s@ == v@,
{
    let mut s = String::new();
    push_chars(&mut s, v);
    s
}

/// Appends a string slice to a string.
pub fn push_str(s: &mut String, t: &str)
    ensures
        final(s)@ == old(s)@ + t@,
{
    let v = chars_of(t);
    push_chars(s, &v);
}

/// Character-wise equality of two string slices.
pub fn str_equal(a: &str, b: &str) -> (r: bool)
    ensures
        r == (a@ == b@),
{
    let x = chars_of(a);
    let y = chars_of(b);
    if x.len() != y.len() {
        return false;
    }
    let mut i: usize = 0;
    while i < x.len()
        invariant
            x@ == a@,
            y@ == b@,
            x.len() == y.len(),
            i <= x.len(),
            forall|k: int| 0 <= k < i ==> x@[k] == y@[k],
        decreases x.len() - i,
    {
        if x[i] != y[i] {
            return false;
        }
        i += 1;
    }
    assert(x@ =~= y@);
    true
}

// ---------------------------------------------------------------------------
// Prefixes
// ---------------------------------------------------------------------------

/// `s` begins with `p`.
pub open spec fn starts_with_spec(s: Seq<char>, p: Seq<char>) -> bool {
    p.len() <= s.len() && s.take(p.len() as int) == p
}

/// Decides `starts_with_spec`.
pub fn starts_with_chars(s: &Vec<char>, p: &Vec<char>) -> (r: bool)
    ensures
        r == starts_with_spec(s@, p@),
{
    if p.len() > s.len() {
        return false;
    }
    let mut i: usize = 0;
    while i < p.len()
        invariant
            p.len() <= s.len(),
            i <= p.len(),
            forall|k: int| 0 <= k < i ==> s@[k] == p@[k],
        decreases p.len() - i,
    {
        if s[i] != p[i] {
            assert(s@.take(p.len() as int)[i as int] != p@[i as int]);
            return false;
        }
        i += 1;
    }
    assert(s@.take(p.len() as int) =~= p@);
    true
}

/// The first `n` characters of `s` (all of them when `s` is shorter), as
/// `s.chars().take(n).collect::<String>()` gives them.
pub open spec fn take_chars_spec(s: Seq<char>, n: nat) -> Seq<char> {
    if n < s.len() { s.take(n as int) } else { s }
}

/// The first `n` characters of `s`.
pub fn take_chars(s: &str, n: usize) -> (r: String)
    ensures
        r@ == take_chars_spec(s@, n as nat),
{
    let v = chars_of(s);
    let mut out: Vec<char> = Vec::new();
    let mut i: usize = 0;
    while i < v.len() && i < n
        invariant
            v@ == s@,
            i <= v.len(),
            i <= n,
            out@ == v@.take(i as int),
        decreases v.len() - i,
    {
        out.push(v[i]);
        assert(v@.take(i as int).push(v@[i as int]) =~= v@.take(i + 1));
        i += 1;
    }
    if n >= v.len() {
        assert(v@.take(v.len() as int) =~= v@);
    }
    string_of(&out)
}

// ---------------------------------------------------------------------------
// Trimming
// ---------------------------------------------------------------------------

/// The first index at or after `i` that holds no white space (or the length).
pub open spec fn trim_start_index(s: Seq<char>, i: int) -> int
    decreases s.len() - i,
{
    if 0 <= i < s.len() && unicode_white_space(s[i]) {
        trim_start_index(s, i + 1)
    } else {
        i
    }
}

/// The end of the last character at or before `j` (and after `lo`) that holds
/// no white space.
pub open spec fn trim_end_index(s: Seq<char>, lo: int, j: int) -> int
    decreases j - lo,
{
    if lo < j <= s.len() && unicode_white_space(s[j - 1]) {
        trim_end_index(s, lo, j - 1)
    } else {
        j
    }
}

/// `s` without leading and trailing white space, as `str::trim` gives it.
pub open spec fn trim_spec(s: Seq<char>) -> Seq<char> {
    let a = trim_start_index(s, 0);
    s.subrange(a, trim_end_index(s, a, s.len() as int))
}

/// Removes leading and trailing white space.
pub fn trim_chars(v: &Vec<char>) -> (r: Vec<char>)
    ensures
        r@ == trim_spec(v@),
{
    let mut i: usize = 0;
    loop
        invariant
            i <= v.len(),
            trim_start_index(v@, 0) == trim_start_index(v@, i as int),
        ensures
            i <= v.len(),
            trim_start_index(v@, 0) == i,
        decreases v.len() - i,
    {
        if i >= v.len() {
            break;
        }
        if !is_whitespace(v[i]) {
            break;
        }
        i += 1;
    }
    let mut j: usize = v.len();
    loop
        invariant
            i <= j <= v.len(),
            trim_start_index(v@, 0) == i,
            trim_end_index(v@, i as int, v.len() as int) == trim_end_index(v@, i as int, j as int),
        ensures
            i <= j <= v.len(),
            trim_start_index(v@, 0) == i,
            trim_end_index(v@, i as int, v.len() as int) == j,
        decreases j - i,
    {
        if j <= i {
            break;
        }
        if !is_whitespace(v[j - 1]) {
            break;
        }
        j -= 1;
    }
    let mut out: Vec<char> = Vec::new();
    let mut k: usize = i;
    while k < j
        invariant
            i <= k <= j <= v.len(),
            out@ == v@.subrange(i as int, k as int),
        decreases j - k,
    {
        out.push(v[k]);
        assert(v@.subrange(i as int, k as int).push(v@[k as int]) =~= v@.subrange(i as int, k + 1));
        k += 1;
    }
    out
}

/// `str::trim`, on a string slice.
pub fn trim_str(s: &str) -> (r: String)
    ensures
        r@ == trim_spec(s@),
{
    let v = chars_of(s);
    let t = trim_chars(&v);
    string_of(&t)
}

// ---------------------------------------------------------------------------
// Splitting and joining
// ---------------------------------------------------------------------------

/// The finished pieces and the open piece after splitting `s` at `sep`.
pub open spec fn split_state(s: Seq<char>, sep: char) -> (Seq<Seq<char>>, Seq<char>)
    decreases s.len(),
{
    if s.len() == 0 {
        (seq![], seq![])
    } else {
        let (done, cur) = split_state(s.drop_last(), sep);
        if s.last() == sep {
            (done.push(cur), seq![])
        } else {
            (done, cur.push(s.last()))
        }
    }
}

/// The pieces of `s` between occurrences of `sep`, as `str::split` yields
/// them: always at least one piece, empty pieces included.
pub open spec fn split_spec(s: Seq<char>, sep: char) -> Seq<Seq<char>> {
    split_state(s, sep).0.push(split_state(s, sep).1)
}

/// Splits characters at every occurrence of `sep`.
pub fn split_chars(v: &Vec<char>, sep: char) -> (r: Vec<Vec<char>>)
    ensures
        char_vec_views(r@) == split_spec(v@, sep),
{
    let mut done: Vec<Vec<char>> = Vec::new();
    let mut cur: Vec<char> = Vec::new();
    let mut i: usize = 0;
    while i < v.len()
        invariant
            i <= v.len(),
            split_state(v@.take(i as int), sep) == (char_vec_views(done@), cur@),
        decreases v.len() - i,
    {
        let c = v[i];
        assert(v@.take(i + 1).drop_last() =~= v@.take(i as int));
        if c == sep {
            let piece = cur;
            done.push(piece);
            cur = Vec::new();
            assert(char_vec_views(done@) =~= char_vec_views(without_last(done@)).push(piece@));
        } else {
            cur.push(c);
        }
        i += 1;
    }
    assert(v@.take(v.len() as int) =~= v@);
    let last = cur;
    done.push(last);
    assert(char_vec_views(done@) =~= char_vec_views(without_last(done@)).push(last@));
    done
}

/// All but the last element of a vector's view.
pub open spec fn without_last(v: Seq<Vec<char>>) -> Seq<Vec<char>> {
    v.drop_last()
}

/// The finished words and the open word after reading `s` as
/// `str::split_whitespace` does.
pub open spec fn words_state(s: Seq<char>) -> (Seq<Seq<char>>, Seq<char>)
    decreases s.len(),
{
    if s.len() == 0 {
        (seq![], seq![])
    } else {
        let (done, cur) = words_state(s.drop_last());
        if unicode_white_space(s.last()) {
            if cur.len() > 0 {
                (done.push(cur), seq![])
            } else {
                (done, cur)
            }
        } else {
            (done, cur.push(s.last()))
        }
    }
}

/// The maximal runs of non-white-space characters of `s`, in order, as
/// `str::split_whitespace` yields them.
pub open spec fn words_spec(s: Seq<char>) -> Seq<Seq<char>> {
    let (done, cur) = words_state(s);
    if cur.len() > 0 {
        done.push(cur)
    } else {
        done
    }
}

/// Splits characters into white-space separated words.
pub fn split_words(v: &Vec<char>) -> (r: Vec<Vec<char>>)
    ensures
        char_vec_views(r@) == words_spec(v@),
{
    let mut done: Vec<Vec<char>> = Vec::new();
    let mut cur: Vec<char> = Vec::new();
    let mut i: usize = 0;
    while i < v.len()
        invariant
            i <= v.len(),
            words_state(v@.take(i as int)) == (char_vec_views(done@), cur@),
        decreases v.len() - i,
    {
        let c = v[i];
        assert(v@.take(i + 1).drop_last() =~= v@.take(i as int));
        if is_whitespace(c) {
            if cur.len() > 0 {
                let piece = cur;
                done.push(piece);
                cur = Vec::new();
                assert(char_vec_views(done@) =~= char_vec_views(without_last(done@)).push(piece@));
            }
        } else {
            cur.push(c);
        }
        i += 1;
    }
    assert(v@.take(v.len() as int) =~= v@);
    if cur.len() > 0 {
        let last = cur;
        done.push(last);
        assert(char_vec_views(done@) =~= char_vec_views(without_last(done@)).push(last@));
    }
    done
}

/// The elements of `list` with `sep` between consecutive ones.
pub open spec fn join_spec(list: Seq<Seq<char>>, sep: Seq<char>) -> Seq<char>
    decreases list.len(),
{
    if list.len() == 0 {
        seq![]
    } else if list.len() == 1 {
        list[0]
    } else {
        join_spec(list.drop_last(), sep) + sep + list.last()
    }
}

/// Joins character vectors with a separator, into a string.
pub fn join_chars(list: &Vec<Vec<char>>, sep: &str) -> (r: String)
    ensures
        r@ == join_spec(char_vec_views(list@), sep@),
{
    let mut out = String::new();
    let mut i: usize = 0;
    while i < list.len()
        invariant
            i <= list.len(),
            out@ == join_spec(char_vec_views(list@).take(i as int), sep@),
        decreases list.len() - i,
    {
        assert(char_vec_views(list@).take(i + 1).drop_last() =~= char_vec_views(list@).take(i as int));
        if i > 0 {
            push_str(&mut out, sep);
        }
        push_chars(&mut out, &list[i]);
        i += 1;
    }
    assert(char_vec_views(list@).take(list.len() as int) =~= char_vec_views(list@));
    out
}

/// Joins strings with a separator.
pub fn join_strings(list: &Vec<String>, sep: &str) -> (r: String)
    ensures
        r@ == join_spec(string_views(list@), sep@),
{
    let mut out = String::new();
    let mut i: usize = 0;
    while i < list.len()
        invariant
            i <= list.len(),
            out@ == join_spec(string_views(list@).take(i as int), sep@),
        decreases list.len() - i,
    {
        assert(string_views(list@).take(i + 1).drop_last() =~= string_views(list@).take(i as int));
        if i > 0 {
            push_str(&mut out, sep);
        }
        push_str(&mut out, list[i].as_str());
        i += 1;
    }
    assert(string_views(list@).take(list.len() as int) =~= string_views(list@));
    out
}

} // verus!

verus! {

/// A copy of a list of strings.
pub fn clone_strings(v: &Vec<String>) -> (r: Vec<String>)
    ensures
        string_views(r@) == string_views(v@),
{
    let mut out: Vec<String> = Vec::new();
    let mut i: usize = 0;
    while i < v.len()
        invariant
            i <= v.len(),
            string_views(out@) == string_views(v@).take(i as int),
        decreases v.len() - i,
    {
        let ghost before = out@;
        let c = v[i].clone();
        assert(c@ == v@[i as int]@);
        out.push(c);
        assert(string_views(out@) =~= string_views(before).push(c@));
        assert(string_views(out@) =~= string_views(v@).take(i + 1));
        i += 1;
    }
    assert(string_views(v@).take(v.len() as int) =~= string_views(v@));
    out
}

/// A string holding the characters of a string slice.
pub fn to_string(s: &str) -> (r: String)
    ensures
        r@ == s@,
{
    let mut out = String::new();
    push_str(&mut out, s);
    out
}

/// Appends copies of strings to a list.
pub fn append_strings(dst: &mut Vec<String>, src: &Vec<String>)
    ensures
        string_views(final(dst)@) == string_views(old(dst)@) + string_views(src@),
{
    let ghost start = string_views(dst@);
    let mut i: usize = 0;
    while i < src.len()
        invariant
            i <= src.len(),
            string_views(dst@) == start + string_views(src@).take(i as int),
        decreases src.len() - i,
    {
        let ghost before = dst@;
        let c = src[i].clone();
        assert(c@ == src@[i as int]@);
        dst.push(c);
        assert(string_views(dst@) =~= string_views(before).push(c@));
        assert(string_views(dst@) =~= start + string_views(src@).take(i + 1));
        i += 1;
    }
    assert(string_views(src@).take(src.len() as int) =~= string_views(src@));
}

} // verus!
