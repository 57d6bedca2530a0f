use livepaper::text::trim_str;

#[test]
fn white_space_is_what_std_calls_white_space() {
    let mut count = 0;
    for u in 0u32..=0x10FFFF {
        if let Some(c) = char::from_u32(u) {
            let s = format!("a{c}");
            let trimmed = trim_str(&s);
            assert_eq!(trimmed == "a", c.is_whitespace(), "U+{u:04X}");
            if c.is_whitespace() {
                count += 1;
            }
        }
    }
    assert_eq!(count, 25);
}
