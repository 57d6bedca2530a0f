//! The emails sent to experts: percent-encoding and HTML escaping of the
//! values they carry, the link to the response portal, and the subject, HTML
//! body and plain-text body of each email.

use vstd::prelude::*;
use vstd::utf8::encode_utf8;
use crate::text::{chars_of, push_char, push_str, starts_with_spec};

verus! {

// ---------------------------------------------------------------------------
// Percent-encoding
// ---------------------------------------------------------------------------

/// A byte that a URL query value carries as itself: ASCII letters, digits,
/// `-`, `_`, `.` and `~`.
pub open spec fn unreserved_byte(b: u8) -> bool {
    (65 <= b <= 90) || (97 <= b <= 122) || (48 <= b <= 57) || b == 45 || b == 95 || b == 46 || b
        == 126
}

/// The upper-case hexadecimal digit of `d < 16`.
pub open spec fn hex_upper(d: nat) -> char {
    if d < 10 {
        (48 + d) as char
    } else {
        (55 + d) as char
    }
}

/// How one byte is written: itself when unreserved, `%XY` otherwise.
pub open spec fn encode_byte(b: u8) -> Seq<char> {
    if unreserved_byte(b) {
        seq![b as char]
    } else {
        seq!['%', hex_upper((b / 16) as nat), hex_upper((b % 16) as nat)]
    }
}

/// The percent-encoding of a byte string.
pub open spec fn url_encode_bytes(bs: Seq<u8>) -> Seq<char>
    decreases bs.len(),
{
    if bs.len() == 0 {
        seq![]
    } else {
        url_encode_bytes(bs.drop_last()) + encode_byte(bs.last())
    }
}

/// The percent-encoding of a string: of its UTF-8 bytes.
pub open spec fn url_encode_spec(s: Seq<char>) -> Seq<char> {
    url_encode_bytes(encode_utf8(s))
}

fn hex_digit(d: u8) -> (c: char)
    requires
        d < 16,
    ensures
        c == hex_upper(d as nat),
{
    if d < 10 {
        (48u8 + d) as char
    } else {
        (55u8 + d) as char
    }
}

/// Percent-encodes a string for safe inclusion in a URL query parameter:
/// every UTF-8 byte except ASCII letters, digits, `-`, `_`, `.` and `~` is
/// written as `%` and two upper-case hexadecimal digits.
pub fn url_encode(s: &str) -> (r: String)
    ensures
        r@ == url_encode_spec(s@),
{
    let bytes = s.as_bytes();
    let mut out = String::new();
    let mut i: usize = 0;
    while i < bytes.len()
        invariant
            i <= bytes.len(),
            bytes@ == encode_utf8(s@),
            out@ == url_encode_bytes(bytes@.take(i as int)),
        decreases bytes.len() - i,
    {
        let b = bytes[i];
        assert(bytes@.take(i + 1).drop_last() =~= bytes@.take(i as int));
        let keep = (65 <= b && b <= 90) || (97 <= b && b <= 122) || (48 <= b && b <= 57) || b == 45
            || b == 95 || b == 46 || b == 126;
        if keep {
            push_char(&mut out, b as char);
        } else {
            push_char(&mut out, '%');
            push_char(&mut out, hex_digit(b / 16));
            push_char(&mut out, hex_digit(b % 16));
        }
        i += 1;
    }
    assert(bytes@.take(bytes.len() as int) =~= bytes@);
    out
}

// ---------------------------------------------------------------------------
// HTML escaping
// ---------------------------------------------------------------------------

/// How one character is written in HTML text.
pub open spec fn escape_char(c: char) -> Seq<char> {
    if c == '&' {
        "&amp;"@
    } else if c == '<' {
        "&lt;"@
    } else if c == '>' {
        "&gt;"@
    } else if c == '"' {
        "&quot;"@
    } else if c == '\'' {
        "&#39;"@
    } else {
        seq![c]
    }
}

/// The HTML escape of a string, character by character.
pub open spec fn escape_html_spec(s: Seq<char>) -> Seq<char>
    decreases s.len(),
{
    if s.len() == 0 {
        seq![]
    } else {
        escape_html_spec(s.drop_last()) + escape_char(s.last())
    }
}

/// Escapes HTML special characters: `&`, `<`, `>`, `"` and `'` become
/// `&amp;`, `&lt;`, `&gt;`, `&quot;` and `&#39;`. Replacing them one kind
/// after another, `&` first, gives the same text, since no replacement holds
/// a character that a later one replaces.
pub fn escape_html(s: &str) -> (r: String)
    ensures
        r@ == escape_html_spec(s@),
{
    let v = chars_of(s);
    let mut out = String::new();
    let mut i: usize = 0;
    while i < v.len()
        invariant
            i <= v.len(),
            v@ == s@,
            out@ == escape_html_spec(v@.take(i as int)),
        decreases v.len() - i,
    {
        let c = v[i];
        assert(v@.take(i + 1).drop_last() =~= v@.take(i as int));
        if c == '&' {
            push_str(&mut out, "&amp;");
        } else if c == '<' {
            push_str(&mut out, "&lt;");
        } else if c == '>' {
            push_str(&mut out, "&gt;");
        } else if c == '"' {
            push_str(&mut out, "&quot;");
        } else if c == '\'' {
            push_str(&mut out, "&#39;");
        } else {
            push_char(&mut out, c);
        }
        i += 1;
    }
    assert(v@.take(v.len() as int) =~= v@);
    out
}

/// A character that a URL query value may hold as it is: an ASCII letter or
/// digit, `-`, `_`, `.`, `~`, or the `%` that starts an escape.
pub open spec fn query_safe_char(c: char) -> bool {
    ('A' <= c <= 'Z') || ('a' <= c <= 'z') || ('0' <= c <= '9') || c == '-' || c == '_' || c == '.' || c
        == '~' || c == '%'
}

/// A percent-encoded value can stand in a URL query as it is: it holds no
/// character that ends or splits a parameter (`&`, `=`, `#`, a space, ...).
pub proof fn lemma_url_encoded_is_query_safe(s: Seq<char>)
    ensures
        forall|i: int| 0 <= i < url_encode_spec(s).len() ==> query_safe_char(#[trigger] url_encode_spec(s)[i]),
{
    lemma_url_encoded_bytes_safe(encode_utf8(s));
}

proof fn lemma_url_encoded_bytes_safe(bs: Seq<u8>)
    ensures
        forall|i: int| 0 <= i < url_encode_bytes(bs).len() ==> query_safe_char(#[trigger] url_encode_bytes(bs)[i]),
    decreases bs.len(),
{
    if bs.len() > 0 {
        lemma_url_encoded_bytes_safe(bs.drop_last());
        let head = url_encode_bytes(bs.drop_last());
        let tail = encode_byte(bs.last());
        let b = bs.last();
        assert forall|i: int| 0 <= i < tail.len() implies query_safe_char(#[trigger] tail[i]) by {
            if unreserved_byte(b) {
                assert(tail[i] == b as char);
            } else {
                let hi = (b / 16) as nat;
                let lo = (b % 16) as nat;
                assert(hi < 16 && lo < 16);
            }
        }
        assert forall|i: int| 0 <= i < url_encode_bytes(bs).len() implies query_safe_char(
            #[trigger] url_encode_bytes(bs)[i],
        ) by {
            if i < head.len() {
                assert(url_encode_bytes(bs)[i] == head[i]);
            } else {
                assert(url_encode_bytes(bs)[i] == tail[i - head.len()]);
            }
        }
    }
}

/// The value of an upper-case hexadecimal digit.
pub open spec fn hex_value(c: char) -> nat {
    if '0' <= c <= '9' {
        ((c as u32) - 48) as nat
    } else {
        ((c as u32) - 55) as nat
    }
}

/// Percent-decoding: each `%` and the two hexadecimal digits after it give
/// the byte they write; every other character gives its own code as a byte.
pub open spec fn pct_decode(s: Seq<char>) -> Seq<u8>
    decreases s.len(),
{
    if s.len() == 0 {
        seq![]
    } else if s[0] == '%' && s.len() >= 3 {
        seq![(hex_value(s[1]) * 16 + hex_value(s[2])) as u8] + pct_decode(s.skip(3))
    } else {
        seq![(s[0] as u32) as u8] + pct_decode(s.skip(1))
    }
}

proof fn lemma_url_encode_bytes_append(a: Seq<u8>, b: Seq<u8>)
    ensures
        url_encode_bytes(a + b) == url_encode_bytes(a) + url_encode_bytes(b),
    decreases b.len(),
{
    if b.len() == 0 {
        assert(a + b =~= a);
    } else {
        lemma_url_encode_bytes_append(a, b.drop_last());
        assert((a + b).drop_last() =~= a + b.drop_last());
        assert((a + b).last() == b.last());
    }
}

proof fn lemma_decode_encoded_byte(b: u8, rest: Seq<char>)
    ensures
        pct_decode(encode_byte(b) + rest) == seq![b] + pct_decode(rest),
{
    let e = encode_byte(b) + rest;
    if unreserved_byte(b) {
        assert(e[0] == b as char);
        assert(((b as char) as u32) as u8 == b);
        assert(e.skip(1) =~= rest);
    } else {
        let hi = (b / 16) as nat;
        let lo = (b % 16) as nat;
        assert(hex_value(hex_upper(hi)) == hi);
        assert(hex_value(hex_upper(lo)) == lo);
        assert(e[0] == '%' && e[1] == hex_upper(hi) && e[2] == hex_upper(lo));
        assert(hi * 16 + lo == b);
        assert(e.skip(3) =~= rest);
    }
}

proof fn lemma_decode_url_encode_bytes(bs: Seq<u8>)
    ensures
        pct_decode(url_encode_bytes(bs)) == bs,
    decreases bs.len(),
{
    if bs.len() > 0 {
        let first = seq![bs[0]];
        let rest = bs.drop_first();
        assert(bs =~= first + rest);
        lemma_url_encode_bytes_append(first, rest);
        assert(first.drop_last() =~= Seq::<u8>::empty());
        assert(url_encode_bytes(first.drop_last()) == Seq::<char>::empty());
        assert(first.last() == bs[0]);
        assert(url_encode_bytes(first) =~= Seq::<char>::empty() + encode_byte(bs[0]));
        assert(url_encode_bytes(first) =~= encode_byte(bs[0]));
        lemma_decode_encoded_byte(bs[0], url_encode_bytes(rest));
        lemma_decode_url_encode_bytes(rest);
        assert(seq![bs[0]] + rest =~= bs);
    }
}

/// Percent-decoding an encoded value gives back the UTF-8 bytes of the
/// text, so the encoding loses nothing.
pub proof fn lemma_url_encode_round_trip(s: Seq<char>)
    ensures
        pct_decode(url_encode_spec(s)) == encode_utf8(s),
{
    lemma_decode_url_encode_bytes(encode_utf8(s));
}

/// Different texts are encoded differently.
pub proof fn lemma_url_encode_injective(s1: Seq<char>, s2: Seq<char>)
    requires
        url_encode_spec(s1) == url_encode_spec(s2),
    ensures
        s1 == s2,
{
    lemma_url_encode_round_trip(s1);
    lemma_url_encode_round_trip(s2);
    vstd::utf8::encode_utf8_decode_utf8(s1);
    vstd::utf8::encode_utf8_decode_utf8(s2);
}

/// A character that ends or changes HTML text where it stands.
pub open spec fn html_special(c: char) -> bool {
    c == '<' || c == '>' || c == '"' || c == '\''
}

/// Escaped text holds no markup: no `<`, `>`, `"` or `'` is left in it, so a
/// value placed in the email cannot open a tag or close an attribute.
pub proof fn lemma_escaped_html_has_no_markup(s: Seq<char>)
    ensures
        forall|i: int| 0 <= i < escape_html_spec(s).len() ==> !html_special(#[trigger] escape_html_spec(s)[i]),
    decreases s.len(),
{
    if s.len() > 0 {
        lemma_escaped_html_has_no_markup(s.drop_last());
        let head = escape_html_spec(s.drop_last());
        let tail = escape_char(s.last());
        reveal_strlit("&amp;");
        reveal_strlit("&lt;");
        reveal_strlit("&gt;");
        reveal_strlit("&quot;");
        reveal_strlit("&#39;");
        assert forall|i: int| 0 <= i < tail.len() implies !html_special(#[trigger] tail[i]) by {}
        assert forall|i: int| 0 <= i < escape_html_spec(s).len() implies !html_special(
            #[trigger] escape_html_spec(s)[i],
        ) by {
            if i < head.len() {
                assert(escape_html_spec(s)[i] == head[i]);
            } else {
                assert(escape_html_spec(s)[i] == tail[i - head.len()]);
            }
        }
    }
}

/// Text without special characters is left as it is.
pub proof fn lemma_plain_text_unescaped(s: Seq<char>)
    requires
        forall|i: int| 0 <= i < s.len() ==> !html_special(#[trigger] s[i]) && s[i] != '&',
    ensures
        escape_html_spec(s) == s,
    decreases s.len(),
{
    if s.len() > 0 {
        lemma_plain_text_unescaped(s.drop_last());
        assert(s.drop_last().push(s.last()) =~= s);
    }
}

/// Undoing HTML escaping in one left-to-right pass: `&amp;`, `&lt;`, `&gt;`,
/// `&quot;` and `&#39;` become `&`, `<`, `>`, `"` and `'`; every other
/// character stays.
pub open spec fn html_unescape(s: Seq<char>) -> Seq<char>
    decreases s.len(),
{
    proof {
        reveal_strlit("&amp;");
        reveal_strlit("&lt;");
        reveal_strlit("&gt;");
        reveal_strlit("&quot;");
        reveal_strlit("&#39;");
    }
    if s.len() == 0 {
        seq![]
    } else if starts_with_spec(s, "&amp;"@) {
        seq!['&'] + html_unescape(s.skip(5))
    } else if starts_with_spec(s, "&lt;"@) {
        seq!['<'] + html_unescape(s.skip(4))
    } else if starts_with_spec(s, "&gt;"@) {
        seq!['>'] + html_unescape(s.skip(4))
    } else if starts_with_spec(s, "&quot;"@) {
        seq!['"'] + html_unescape(s.skip(6))
    } else if starts_with_spec(s, "&#39;"@) {
        seq!['\''] + html_unescape(s.skip(5))
    } else {
        seq![s[0]] + html_unescape(s.skip(1))
    }
}

proof fn lemma_escape_html_append(a: Seq<char>, b: Seq<char>)
    ensures
        escape_html_spec(a + b) == escape_html_spec(a) + escape_html_spec(b),
    decreases b.len(),
{
    if b.len() == 0 {
        assert(a + b =~= a);
    } else {
        lemma_escape_html_append(a, b.drop_last());
        assert((a + b).drop_last() =~= a + b.drop_last());
        assert((a + b).last() == b.last());
    }
}

proof fn lemma_unescape_escaped_char(c: char, rest: Seq<char>)
    ensures
        html_unescape(escape_char(c) + rest) == seq![c] + html_unescape(rest),
{
    reveal_strlit("&amp;");
    reveal_strlit("&lt;");
    reveal_strlit("&gt;");
    reveal_strlit("&quot;");
    reveal_strlit("&#39;");
    let e = escape_char(c) + rest;
    let n = escape_char(c).len();
    assert(e.skip(n as int) =~= rest);
    assert(e.take(n as int) =~= escape_char(c));
    if c == '&' {
    } else if c == '<' {
        assert(e[1] == 'l');
        assert(!starts_with_spec(e, "&amp;"@));
    } else if c == '>' {
        assert(e[1] == 'g');
        assert(!starts_with_spec(e, "&amp;"@));
        assert(!starts_with_spec(e, "&lt;"@));
    } else if c == '"' {
        assert(e[1] == 'q');
        assert(!starts_with_spec(e, "&amp;"@));
        assert(!starts_with_spec(e, "&lt;"@));
        assert(!starts_with_spec(e, "&gt;"@));
    } else if c == '\'' {
        assert(e[1] == '#');
        assert(!starts_with_spec(e, "&amp;"@));
        assert(!starts_with_spec(e, "&lt;"@));
        assert(!starts_with_spec(e, "&gt;"@));
        assert(!starts_with_spec(e, "&quot;"@));
    } else {
        assert(e[0] == c);
        assert(!starts_with_spec(e, "&amp;"@) && "&amp;"@[0] == '&');
        assert(!starts_with_spec(e, "&lt;"@));
        assert(!starts_with_spec(e, "&gt;"@));
        assert(!starts_with_spec(e, "&quot;"@));
        assert(!starts_with_spec(e, "&#39;"@));
    }
}

/// Unescaping escaped text gives the text back, so escaping loses nothing.
pub proof fn lemma_escape_html_round_trip(s: Seq<char>)
    ensures
        html_unescape(escape_html_spec(s)) == s,
    decreases s.len(),
{
    if s.len() > 0 {
        let first = seq![s[0]];
        let rest = s.drop_first();
        assert(first + rest =~= s);
        lemma_escape_html_append(first, rest);
        assert(first.drop_last() =~= Seq::<char>::empty());
        assert(escape_html_spec(first.drop_last()) == Seq::<char>::empty());
        assert(first.last() == s[0]);
        assert(escape_html_spec(first) =~= Seq::<char>::empty() + escape_char(s[0]));
        assert(escape_html_spec(first) =~= escape_char(s[0]));
        lemma_unescape_escaped_char(s[0], escape_html_spec(rest));
        lemma_escape_html_round_trip(rest);
    }
}

// ---------------------------------------------------------------------------
// The response portal link
// ---------------------------------------------------------------------------

/// `s` without trailing `/` characters, as `trim_end_matches('/')` gives it.
pub open spec fn trim_end_slashes(s: Seq<char>) -> Seq<char>
    decreases s.len(),
{
    if s.len() > 0 && s.last() == '/' {
        trim_end_slashes(s.drop_last())
    } else {
        s
    }
}

/// Removes trailing `/` characters.
pub fn trim_trailing_slashes(s: &str) -> (r: String)
    ensures
        r@ == trim_end_slashes(s@),
{
    let v = chars_of(s);
    let mut n: usize = v.len();
    assert(v@.take(n as int) =~= v@);
    while n > 0 && v[n - 1] == '/'
        invariant
            n <= v.len(),
            trim_end_slashes(v@) == trim_end_slashes(v@.take(n as int)),
        decreases n,
    {
        assert(v@.take(n as int).drop_last() =~= v@.take(n - 1));
        n -= 1;
    }
    if n > 0 {
        assert(v@.take(n as int).last() == v@[n - 1]);
    }
    assert(trim_end_slashes(v@.take(n as int)) == v@.take(n as int));
    let mut t: Vec<char> = Vec::new();
    let mut k: usize = 0;
    while k < n
        invariant
            n <= v.len(),
            k <= n,
            t@ == v@.take(k as int),
        decreases n - k,
    {
        t.push(v[k]);
        assert(v@.take(k as int).push(v@[k as int]) =~= v@.take(k + 1));
        k += 1;
    }
    assert(v@ =~= s@);
    crate::text::string_of(&t)
}

/// The link an expert follows to answer a question: the application's base
/// URL without trailing slashes, then the portal path with the paper id, the
/// expert's email and the question, each percent-encoded.
pub open spec fn portal_link_spec(base: Seq<char>, paper_id: Seq<char>, email: Seq<char>, question: Seq<char>) -> Seq<char> {
    trim_end_slashes(base) + "/expert-response?paper_id="@ + url_encode_spec(paper_id)
        + "&expert_email="@ + url_encode_spec(email) + "&question="@ + url_encode_spec(question)
}

/// Builds the response portal link.
pub fn portal_link(base: &str, paper_id: &str, email: &str, question: &str) -> (r: String)
    ensures
        r@ == portal_link_spec(base@, paper_id@, email@, question@),
{
    let mut out = trim_trailing_slashes(base);
    push_str(&mut out, "/expert-response?paper_id=");
    push_str(&mut out, url_encode(paper_id).as_str());
    push_str(&mut out, "&expert_email=");
    push_str(&mut out, url_encode(email).as_str());
    push_str(&mut out, "&question=");
    push_str(&mut out, url_encode(question).as_str());
    out
}

// ---------------------------------------------------------------------------
// Email contents
// ---------------------------------------------------------------------------

/// The subject, HTML body and plain-text body of an email.
pub struct EmailContent {
    pub subject: String,
    pub html: String,
    pub plain: String,
}

/// The subject line of both expert emails.
pub open spec fn subject_spec(paper_title: Seq<char>) -> Seq<char> {
    "Expert Opinion Requested: "@ + paper_title
}

/// Welcome email markup up to the expert's name.
pub const ADDED_HTML_OPEN: &'static str = r#"<!DOCTYPE html>
<html lang="en">
<head><meta charset="UTF-8"><meta name="viewport" content="width=device-width,initial-scale=1"></head>
<body style="margin:0;padding:0;background:#f5f0eb;font-family:Georgia,'Times New Roman',serif;">
  <table width="100%" cellpadding="0" cellspacing="0" style="background:#f5f0eb;padding:40px 0;">
    <tr><td align="center">
      <table width="600" cellpadding="0" cellspacing="0" style="background:#ffffff;border-radius:16px;border:1px solid #e0d8cf;overflow:hidden;max-width:600px;width:100%;">

        <tr>
          <td style="background:#6b1f2a;padding:24px 32px;">
            <p style="margin:0;color:#ffffff;font-size:18px;font-weight:bold;">📄 LivePaper</p>
          </td>
        </tr>

        <tr>
          <td style="padding:32px;">
            <p style="margin:0 0 16px;font-size:15px;color:#2c2217;line-height:1.6;">
              Dear <strong>"#;

/// Welcome email markup between the name and the paper title.
pub const ADDED_HTML_AFTER_NAME: &'static str = r#"</strong>,
            </p>
            <p style="margin:0 0 24px;font-size:15px;color:#5a4535;line-height:1.6;">
              You have been added as an expert for a paper on LivePaper. Unanswered questions from researchers on related topic will
              be shared with you. We invite you to share your expertise by answering these questions — your insights will help future researchers get accurate answers instantly.   
            </p>

            <table width="100%" cellpadding="0" cellspacing="0" style="margin-bottom:24px;">
              <tr>
                <td style="background:#faf7f4;border:1px solid #e0d8cf;border-radius:12px;padding:20px;">
                  <p style="margin:0 0 6px;font-size:11px;font-weight:bold;color:#8a7060;text-transform:uppercase;letter-spacing:0.08em;font-family:system-ui,sans-serif;">Paper</p>
                  <p style="margin:0;font-size:15px;font-weight:bold;color:#2c2217;line-height:1.4;">"#;

/// Welcome email markup after the paper title.
pub const ADDED_HTML_CLOSE: &'static str = r#"</p>
                </td>
              </tr>
            </table>


            <p style="margin:0;font-size:13px;color:#8a7060;line-height:1.6;font-family:system-ui,sans-serif;">
              Your responses will be attributed to you and added to our knowledge base,
              helping future researchers get accurate answers instantly.
            </p>
          </td>
        </tr>

        <tr>
          <td style="background:#faf7f4;border-top:1px solid #e0d8cf;padding:20px 32px;">
            <p style="margin:0;font-size:12px;color:#b0a090;font-family:system-ui,sans-serif;">
              You received this because you are listed as an expert for the paper above.
              If this was sent in error, you can safely ignore it.
            </p>
          </td>
        </tr>

      </table>
    </td></tr>
  </table>
</body>
</html>"#;

/// Question email markup up to the expert's name.
pub const QUESTION_HTML_OPEN: &'static str = r#"<!DOCTYPE html>
<html lang="en">
<head><meta charset="UTF-8"><meta name="viewport" content="width=device-width,initial-scale=1"></head>
<body style="margin:0;padding:0;background:#f5f0eb;font-family:Georgia,'Times New Roman',serif;">
  <table width="100%" cellpadding="0" cellspacing="0" style="background:#f5f0eb;padding:40px 0;">
    <tr><td align="center">
      <table width="600" cellpadding="0" cellspacing="0" style="background:#ffffff;border-radius:16px;border:1px solid #e0d8cf;overflow:hidden;max-width:600px;width:100%;">

        <tr>
          <td style="background:#6b1f2a;padding:24px 32px;">
            <p style="margin:0;color:#ffffff;font-size:18px;font-weight:bold;">📄 LivePaper</p>
          </td>
        </tr>

        <tr>
          <td style="padding:32px;">
            <p style="margin:0 0 16px;font-size:15px;color:#2c2217;line-height:1.6;">
              Dear <strong>"#;

/// Question email markup between the name and the paper title.
pub const QUESTION_HTML_AFTER_NAME: &'static str = r#"</strong>,
            </p>
            <p style="margin:0 0 24px;font-size:15px;color:#5a4535;line-height:1.6;">
              A researcher using LivePaper has a question about a paper you are associated with
              and we believe you are best placed to answer it.
            </p>

            <table width="100%" cellpadding="0" cellspacing="0" style="margin-bottom:24px;">
              <tr>
                <td style="background:#faf7f4;border:1px solid #e0d8cf;border-radius:12px;padding:20px;">
                  <p style="margin:0 0 6px;font-size:11px;font-weight:bold;color:#8a7060;text-transform:uppercase;letter-spacing:0.08em;font-family:system-ui,sans-serif;">Paper</p>
                  <p style="margin:0;font-size:15px;font-weight:bold;color:#2c2217;line-height:1.4;">"#;

/// Question email markup between the paper title and the question.
pub const QUESTION_HTML_AFTER_TITLE: &'static str = r#"</p>
                </td>
              </tr>
            </table>

            <table width="100%" cellpadding="0" cellspacing="0" style="margin-bottom:32px;">
              <tr>
                <td style="background:#fdf6f0;border:1px solid #f0e4d8;border-left:3px solid #6b1f2a;border-radius:0 12px 12px 0;padding:20px;">
                  <p style="margin:0 0 6px;font-size:11px;font-weight:bold;color:#8a7060;text-transform:uppercase;letter-spacing:0.08em;font-family:system-ui,sans-serif;">Question from researcher</p>
                  <p style="margin:0;font-size:15px;color:#2c2217;line-height:1.6;">"#;

/// Question email markup between the question and the link of the button.
pub const QUESTION_HTML_AFTER_QUESTION: &'static str = r#"</p>
                </td>
              </tr>
            </table>

            <table width="100%" cellpadding="0" cellspacing="0" style="margin-bottom:24px;">
              <tr>
                <td align="center">
                  <a href=""#;

/// Question email markup between the button and the link written out.
pub const QUESTION_HTML_AFTER_LINK: &'static str = r#"" style="display:inline-block;background:#6b1f2a;color:#ffffff;text-decoration:none;font-family:system-ui,sans-serif;font-size:15px;font-weight:600;padding:14px 32px;border-radius:10px;">
                    Submit Your Expert Response
                  </a>
                </td>
              </tr>
            </table>

            <p style="margin:0 0 8px;font-size:13px;color:#8a7060;font-family:system-ui,sans-serif;">Or paste this link into your browser:</p>
            <p style="margin:0 0 24px;font-size:12px;color:#6b1f2a;word-break:break-all;font-family:system-ui,sans-serif;">"#;

/// Question email markup after the link written out.
pub const QUESTION_HTML_CLOSE: &'static str = r#"</p>

            <p style="margin:0;font-size:13px;color:#8a7060;line-height:1.6;font-family:system-ui,sans-serif;">
              Your response will be attributed to you and added to our knowledge base,
              helping future researchers get accurate answers instantly.
            </p>
          </td>
        </tr>

        <tr>
          <td style="background:#faf7f4;border-top:1px solid #e0d8cf;padding:20px 32px;">
            <p style="margin:0;font-size:12px;color:#b0a090;font-family:system-ui,sans-serif;">
              You received this because you are listed as an author or expert for the paper above.
              If this was sent in error, you can safely ignore it.
            </p>
          </td>
        </tr>

      </table>
    </td></tr>
  </table>
</body>
</html>"#;

/// Plain-text welcome email between the expert's name and the paper title.
pub const ADDED_PLAIN_AFTER_NAME: &'static str = ",\n\nYou have been added as an expert for a paper on LivePaper: ";

/// Plain-text welcome email after the paper title.
pub const ADDED_PLAIN_CLOSE: &'static str = ".\n Unanswered questions from researchers on related topic will be shared with you. We invite you to share your expertise by answering these questions — your insights will help future researchers get accurate answers instantly.\n\nBest regards,\nThe LivePaper Team";

/// Plain-text question email between the expert's name and the paper title.
pub const QUESTION_PLAIN_AFTER_NAME: &'static str = ",\n\nA researcher has a question about the paper: ";

/// Plain-text question email between the paper title and the question.
pub const QUESTION_PLAIN_AFTER_TITLE: &'static str = "\n\nQuestion:\n";

/// Plain-text question email between the question and the link.
pub const QUESTION_PLAIN_AFTER_QUESTION: &'static str = "\n\nSubmit your response here:\n";

/// Plain-text question email after the link.
pub const QUESTION_PLAIN_CLOSE: &'static str = "\n\nBest regards,\nThe LivePaper Team";

/// The email telling an expert that they were added to a paper. The HTML
/// body carries the name and title escaped; the plain body carries them as
/// they are.
pub open spec fn expert_added_spec(to_name: Seq<char>, paper_title: Seq<char>) -> (Seq<char>, Seq<char>, Seq<char>) {
    (
        subject_spec(paper_title),
        ADDED_HTML_OPEN@ + escape_html_spec(to_name) + ADDED_HTML_AFTER_NAME@ + escape_html_spec(paper_title)
            + ADDED_HTML_CLOSE@,
        "Dear "@ + to_name + ADDED_PLAIN_AFTER_NAME@ + paper_title + ADDED_PLAIN_CLOSE@,
    )
}

/// Writes the email telling an expert that they were added to a paper.
pub fn expert_added_email(to_name: &str, paper_title: &str) -> (r: EmailContent)
    ensures
        (r.subject@, r.html@, r.plain@) == expert_added_spec(to_name@, paper_title@),
{
    let mut subject = String::new();
    push_str(&mut subject, "Expert Opinion Requested: ");
    push_str(&mut subject, paper_title);
    let mut html = String::new();
    push_str(&mut html, ADDED_HTML_OPEN);
    push_str(&mut html, escape_html(to_name).as_str());
    push_str(&mut html, ADDED_HTML_AFTER_NAME);
    push_str(&mut html, escape_html(paper_title).as_str());
    push_str(&mut html, ADDED_HTML_CLOSE);
    let mut plain = String::new();
    push_str(&mut plain, "Dear ");
    push_str(&mut plain, to_name);
    push_str(&mut plain, ADDED_PLAIN_AFTER_NAME);
    push_str(&mut plain, paper_title);
    push_str(&mut plain, ADDED_PLAIN_CLOSE);
    EmailContent { subject, html, plain }
}

/// The email asking an expert a researcher's question. The HTML body carries
/// the name, title and question escaped and the portal link twice; the plain
/// body carries them as they are.
pub open spec fn expert_question_spec(
    to_name: Seq<char>,
    paper_title: Seq<char>,
    question: Seq<char>,
    link: Seq<char>,
) -> (Seq<char>, Seq<char>, Seq<char>) {
    (
        subject_spec(paper_title),
        QUESTION_HTML_OPEN@ + escape_html_spec(to_name) + QUESTION_HTML_AFTER_NAME@ + escape_html_spec(
            paper_title,
        ) + QUESTION_HTML_AFTER_TITLE@ + escape_html_spec(question) + QUESTION_HTML_AFTER_QUESTION@
            + link + QUESTION_HTML_AFTER_LINK@ + link + QUESTION_HTML_CLOSE@,
        "Dear "@ + to_name + QUESTION_PLAIN_AFTER_NAME@ + paper_title + QUESTION_PLAIN_AFTER_TITLE@
            + question + QUESTION_PLAIN_AFTER_QUESTION@ + link + QUESTION_PLAIN_CLOSE@,
    )
}

/// Writes the email asking an expert a question, with a link to the portal
/// where they answer it.
pub fn expert_question_email(
    app_base_url: &str,
    to_name: &str,
    to_email: &str,
    paper_title: &str,
    question: &str,
    paper_id: &str,
) -> (r: EmailContent)
    ensures
        (r.subject@, r.html@, r.plain@) == expert_question_spec(
            to_name@,
            paper_title@,
            question@,
            portal_link_spec(app_base_url@, paper_id@, to_email@, question@),
        ),
{
    let link = portal_link(app_base_url, paper_id, to_email, question);
    let mut subject = String::new();
    push_str(&mut subject, "Expert Opinion Requested: ");
    push_str(&mut subject, paper_title);
    let mut html = String::new();
    push_str(&mut html, QUESTION_HTML_OPEN);
    push_str(&mut html, escape_html(to_name).as_str());
    push_str(&mut html, QUESTION_HTML_AFTER_NAME);
    push_str(&mut html, escape_html(paper_title).as_str());
    push_str(&mut html, QUESTION_HTML_AFTER_TITLE);
    push_str(&mut html, escape_html(question).as_str());
    push_str(&mut html, QUESTION_HTML_AFTER_QUESTION);
    push_str(&mut html, link.as_str());
    push_str(&mut html, QUESTION_HTML_AFTER_LINK);
    push_str(&mut html, link.as_str());
    push_str(&mut html, QUESTION_HTML_CLOSE);
    let mut plain = String::new();
    push_str(&mut plain, "Dear ");
    push_str(&mut plain, to_name);
    push_str(&mut plain, QUESTION_PLAIN_AFTER_NAME);
    push_str(&mut plain, paper_title);
    push_str(&mut plain, QUESTION_PLAIN_AFTER_TITLE);
    push_str(&mut plain, question);
    push_str(&mut plain, QUESTION_PLAIN_AFTER_QUESTION);
    push_str(&mut plain, link.as_str());
    push_str(&mut plain, QUESTION_PLAIN_CLOSE);
    EmailContent { subject, html, plain }
}

} // verus!
