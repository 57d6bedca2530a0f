use livepaper::email::{escape_html, expert_added_email, expert_question_email, portal_link, trim_trailing_slashes, url_encode};

fn expected_added_html(to_name: &str, paper_title: &str) -> String {
    format!(
        r#"<!DOCTYPE html>
<html lang="en">
<head><meta charset="UTF-8"><meta name="viewport" content="width=device-width,initial-scale=1"></head>
<body style="margin:0;padding:0;background:#f5f0eb;font-family:Georgia,'Times New Roman',serif;">
  <table width="100%" cellpadding="0" cellspacing="0" style="background:#f5f0eb;padding:40px 0;">
    <tr><td align="center">
      <table width="600" cellpadding="0" cellspacing="0" style="background:#ffffff;border-radius:16px;border:1px solid #e0d8cf;overflow:hidden;max-width:600px;width:100%;">

        <tr>
          <td style="background:#6b1f2a;padding:24px 32px;">
            <p style="margin:0;color:#ffffff;font-size:18px;font-weight:bold;">📄 LivePaper</p>
          </td>
        </tr>

        <tr>
          <td style="padding:32px;">
            <p style="margin:0 0 16px;font-size:15px;color:#2c2217;line-height:1.6;">
              Dear <strong>{to_name}</strong>,
            </p>
            <p style="margin:0 0 24px;font-size:15px;color:#5a4535;line-height:1.6;">
              You have been added as an expert for a paper on LivePaper. Unanswered questions from researchers on related topic will
              be shared with you. We invite you to share your expertise by answering these questions — your insights will help future researchers get accurate answers instantly.   
            </p>

            <table width="100%" cellpadding="0" cellspacing="0" style="margin-bottom:24px;">
              <tr>
                <td style="background:#faf7f4;border:1px solid #e0d8cf;border-radius:12px;padding:20px;">
                  <p style="margin:0 0 6px;font-size:11px;font-weight:bold;color:#8a7060;text-transform:uppercase;letter-spacing:0.08em;font-family:system-ui,sans-serif;">Paper</p>
                  <p style="margin:0;font-size:15px;font-weight:bold;color:#2c2217;line-height:1.4;">{paper_title}</p>
                </td>
              </tr>
            </table>


            <p style="margin:0;font-size:13px;color:#8a7060;line-height:1.6;font-family:system-ui,sans-serif;">
              Your responses will be attributed to you and added to our knowledge base,
              helping future researchers get accurate answers instantly.
            </p>
          </td>
        </tr>

        <tr>
          <td style="background:#faf7f4;border-top:1px solid #e0d8cf;padding:20px 32px;">
            <p style="margin:0;font-size:12px;color:#b0a090;font-family:system-ui,sans-serif;">
              You received this because you are listed as an expert for the paper above.
              If this was sent in error, you can safely ignore it.
            </p>
          </td>
        </tr>

      </table>
    </td></tr>
  </table>
</body>
</html>"#,
        to_name = escape_html(to_name),
        paper_title = escape_html(paper_title),
    )
}

fn expected_question_html(to_name: &str, paper_title: &str, question: &str, portal_link: &str) -> String {
    format!(
        r#"<!DOCTYPE html>
<html lang="en">
<head><meta charset="UTF-8"><meta name="viewport" content="width=device-width,initial-scale=1"></head>
<body style="margin:0;padding:0;background:#f5f0eb;font-family:Georgia,'Times New Roman',serif;">
  <table width="100%" cellpadding="0" cellspacing="0" style="background:#f5f0eb;padding:40px 0;">
    <tr><td align="center">
      <table width="600" cellpadding="0" cellspacing="0" style="background:#ffffff;border-radius:16px;border:1px solid #e0d8cf;overflow:hidden;max-width:600px;width:100%;">

        <tr>
          <td style="background:#6b1f2a;padding:24px 32px;">
            <p style="margin:0;color:#ffffff;font-size:18px;font-weight:bold;">📄 LivePaper</p>
          </td>
        </tr>

        <tr>
          <td style="padding:32px;">
            <p style="margin:0 0 16px;font-size:15px;color:#2c2217;line-height:1.6;">
              Dear <strong>{to_name}</strong>,
            </p>
            <p style="margin:0 0 24px;font-size:15px;color:#5a4535;line-height:1.6;">
              A researcher using LivePaper has a question about a paper you are associated with
              and we believe you are best placed to answer it.
            </p>

            <table width="100%" cellpadding="0" cellspacing="0" style="margin-bottom:24px;">
              <tr>
                <td style="background:#faf7f4;border:1px solid #e0d8cf;border-radius:12px;padding:20px;">
                  <p style="margin:0 0 6px;font-size:11px;font-weight:bold;color:#8a7060;text-transform:uppercase;letter-spacing:0.08em;font-family:system-ui,sans-serif;">Paper</p>
                  <p style="margin:0;font-size:15px;font-weight:bold;color:#2c2217;line-height:1.4;">{paper_title}</p>
                </td>
              </tr>
            </table>

            <table width="100%" cellpadding="0" cellspacing="0" style="margin-bottom:32px;">
              <tr>
                <td style="background:#fdf6f0;border:1px solid #f0e4d8;border-left:3px solid #6b1f2a;border-radius:0 12px 12px 0;padding:20px;">
                  <p style="margin:0 0 6px;font-size:11px;font-weight:bold;color:#8a7060;text-transform:uppercase;letter-spacing:0.08em;font-family:system-ui,sans-serif;">Question from researcher</p>
                  <p style="margin:0;font-size:15px;color:#2c2217;line-height:1.6;">{question}</p>
                </td>
              </tr>
            </table>

            <table width="100%" cellpadding="0" cellspacing="0" style="margin-bottom:24px;">
              <tr>
                <td align="center">
                  <a href="{portal_link}" style="display:inline-block;background:#6b1f2a;color:#ffffff;text-decoration:none;font-family:system-ui,sans-serif;font-size:15px;font-weight:600;padding:14px 32px;border-radius:10px;">
                    Submit Your Expert Response
                  </a>
                </td>
              </tr>
            </table>

            <p style="margin:0 0 8px;font-size:13px;color:#8a7060;font-family:system-ui,sans-serif;">Or paste this link into your browser:</p>
            <p style="margin:0 0 24px;font-size:12px;color:#6b1f2a;word-break:break-all;font-family:system-ui,sans-serif;">{portal_link}</p>

            <p style="margin:0;font-size:13px;color:#8a7060;line-height:1.6;font-family:system-ui,sans-serif;">
              Your response will be attributed to you and added to our knowledge base,
              helping future researchers get accurate answers instantly.
            </p>
          </td>
        </tr>

        <tr>
          <td style="background:#faf7f4;border-top:1px solid #e0d8cf;padding:20px 32px;">
            <p style="margin:0;font-size:12px;color:#b0a090;font-family:system-ui,sans-serif;">
              You received this because you are listed as an author or expert for the paper above.
              If this was sent in error, you can safely ignore it.
            </p>
          </td>
        </tr>

      </table>
    </td></tr>
  </table>
</body>
</html>"#,
        to_name = escape_html(to_name),
        paper_title = escape_html(paper_title),
        question = escape_html(question),
        portal_link = portal_link,
    )
}

#[test]
fn url_encode_keeps_unreserved_characters() {
    assert_eq!(url_encode("AZaz09-_.~"), "AZaz09-_.~");
}

#[test]
fn url_encode_escapes_reserved_bytes() {
    assert_eq!(url_encode("a b&c=d/e?"), "a%20b%26c%3Dd%2Fe%3F");
    assert_eq!(url_encode("jane@uni.edu"), "jane%40uni.edu");
    assert_eq!(url_encode(""), "");
}

#[test]
fn url_encode_escapes_each_utf8_byte() {
    assert_eq!(url_encode("é"), "%C3%A9");
    assert_eq!(url_encode("—"), "%E2%80%94");
}

#[test]
fn escape_html_replaces_the_five_specials() {
    assert_eq!(escape_html("<a href=\"x\">Tom & Jerry's</a>"), "&lt;a href=&quot;x&quot;&gt;Tom &amp; Jerry&#39;s&lt;/a&gt;");
    assert_eq!(escape_html("plain text"), "plain text");
}

#[test]
fn escape_html_does_not_escape_twice() {
    assert_eq!(escape_html("&amp;"), "&amp;amp;");
}

#[test]
fn trailing_slashes_are_removed() {
    assert_eq!(trim_trailing_slashes("https://livepaper.ai///"), "https://livepaper.ai");
    assert_eq!(trim_trailing_slashes("https://livepaper.ai"), "https://livepaper.ai");
    assert_eq!(trim_trailing_slashes("///"), "");
}

#[test]
fn portal_link_encodes_each_parameter() {
    let link = portal_link("https://livepaper.ai/", "p-1", "jane@uni.edu", "Why so slow?");
    assert_eq!(
        link,
        "https://livepaper.ai/expert-response?paper_id=p-1&expert_email=jane%40uni.edu&question=Why%20so%20slow%3F"
    );
}

#[test]
fn expert_added_email_matches_template() {
    let e = expert_added_email("Ada <Lovelace>", "Notes & Analysis");
    assert_eq!(e.subject, "Expert Opinion Requested: Notes & Analysis");
    assert_eq!(e.html, expected_added_html("Ada <Lovelace>", "Notes & Analysis"));
    assert_eq!(
        e.plain,
        format!(
            "Dear {to_name},\n\nYou have been added as an expert for a paper on LivePaper: {paper_title}.\n Unanswered questions from researchers on related topic will be shared with you. We invite you to share your expertise by answering these questions — your insights will help future researchers get accurate answers instantly.\n\nBest regards,\nThe LivePaper Team",
            to_name = "Ada <Lovelace>",
            paper_title = "Notes & Analysis",
        )
    );
}

#[test]
fn expert_question_email_matches_template() {
    let base = "https://livepaper.ai/";
    let e = expert_question_email(base, "Grace", "grace@navy.mil", "Compilers \"101\"", "What is a <loop>?", "42");
    let link = format!(
        "{}/expert-response?paper_id={}&expert_email={}&question={}",
        base.trim_end_matches('/'),
        url_encode("42"),
        url_encode("grace@navy.mil"),
        url_encode("What is a <loop>?"),
    );
    assert_eq!(e.subject, "Expert Opinion Requested: Compilers \"101\"");
    assert_eq!(e.html, expected_question_html("Grace", "Compilers \"101\"", "What is a <loop>?", &link));
    assert_eq!(
        e.plain,
        format!(
            "Dear {to_name},\n\nA researcher has a question about the paper: {paper_title}\n\nQuestion:\n{question}\n\nSubmit your response here:\n{portal_link}\n\nBest regards,\nThe LivePaper Team",
            to_name = "Grace",
            paper_title = "Compilers \"101\"",
            question = "What is a <loop>?",
            portal_link = link,
        )
    );
    assert!(e.html.contains("What is a &lt;loop&gt;?"));
}

#[test]
fn url_encoded_values_hold_only_query_safe_characters() {
    let e = url_encode("a&b=c#d e?f/g+h%i—j");
    assert!(e.chars().all(|c| c.is_ascii_alphanumeric() || "-_.~%".contains(c)), "{e}");
    assert_eq!(e, "a%26b%3Dc%23d%20e%3Ff%2Fg%2Bh%25i%E2%80%94j");
}

#[test]
fn escaped_html_holds_no_markup_characters() {
    let e = escape_html("<script>alert(\"x\" + 'y')</script>");
    assert!(!e.contains('<') && !e.contains('>') && !e.contains('"') && !e.contains('\''), "{e}");
    assert_eq!(escape_html("no specials here"), "no specials here");
}

fn pct_decode(s: &str) -> Vec<u8> {
    let b = s.as_bytes();
    let mut out = Vec::new();
    let mut i = 0;
    while i < b.len() {
        if b[i] == b'%' && i + 2 < b.len() + 0 && i + 2 <= b.len() - 1 {
            out.push(u8::from_str_radix(&s[i + 1..i + 3], 16).unwrap());
            i += 3;
        } else {
            out.push(b[i]);
            i += 1;
        }
    }
    out
}

fn html_unescape(s: &str) -> String {
    let mut out = String::new();
    let mut rest = s;
    while !rest.is_empty() {
        let mut done = false;
        for (e, c) in [("&amp;", '&'), ("&lt;", '<'), ("&gt;", '>'), ("&quot;", '"'), ("&#39;", '\'')] {
            if rest.starts_with(e) {
                out.push(c);
                rest = &rest[e.len()..];
                done = true;
                break;
            }
        }
        if !done {
            let c = rest.chars().next().unwrap();
            out.push(c);
            rest = &rest[c.len_utf8()..];
        }
    }
    out
}

#[test]
fn url_encoding_decodes_back_to_the_bytes() {
    for s in ["", "plain", "a b&c=d", "%41", "é—✓", "100% sure?"] {
        assert_eq!(pct_decode(&url_encode(s)), s.as_bytes());
    }
    assert_ne!(url_encode("%41"), url_encode("A"));
}

#[test]
fn html_escaping_unescapes_back_to_the_text() {
    for s in ["", "plain", "<a href=\"x\">'&'</a>", "&amp;", "&lt;tag&gt;"] {
        assert_eq!(html_unescape(&escape_html(s)), s);
    }
}
