use xeonitte::markup::{push_decimal, push_escaped};

fn decimal(n: u64) -> String {
    let mut out = String::new();
    push_decimal(&mut out, n);
    out
}

fn escaped(s: &str) -> String {
    let mut out = String::new();
    push_escaped(&mut out, s);
    out
}

#[test]
fn decimal_of_zero_is_one_digit() {
    assert_eq!(decimal(0), "0");
}

#[test]
fn decimal_of_single_digits() {
    assert_eq!(decimal(7), "7");
    assert_eq!(decimal(9), "9");
}

#[test]
fn decimal_keeps_inner_and_trailing_zeros() {
    assert_eq!(decimal(10), "10");
    assert_eq!(decimal(120), "120");
    assert_eq!(decimal(1_000_005), "1000005");
}

#[test]
fn decimal_of_largest_number() {
    assert_eq!(decimal(u64::MAX), "18446744073709551615");
}

#[test]
fn decimal_is_appended_to_what_is_there() {
    let mut out = String::from("id=");
    push_decimal(&mut out, 5128000011);
    assert_eq!(out, "id=5128000011");
}

#[test]
fn escape_replaces_the_three_reserved_characters() {
    assert_eq!(escaped("<"), "&lt;");
    assert_eq!(escaped(">"), "&gt;");
    assert_eq!(escaped("&"), "&amp;");
}

#[test]
fn escape_keeps_other_text() {
    assert_eq!(escaped(""), "");
    assert_eq!(escaped("Ali Valiyev"), "Ali Valiyev");
    assert_eq!(escaped("\"quoted\" 'name'"), "\"quoted\" 'name'");
}

#[test]
fn escape_keeps_characters_beyond_ascii() {
    assert_eq!(escaped("Жасур 😉 <b>"), "Жасур 😉 &lt;b&gt;");
}

#[test]
fn escape_works_character_by_character() {
    assert_eq!(escaped("a<b>&c"), "a&lt;b&gt;&amp;c");
    assert_eq!(escaped("&amp;"), "&amp;amp;");
    assert_eq!(escaped("</a><script>"), "&lt;/a&gt;&lt;script&gt;");
}

#[test]
fn escape_is_appended_to_what_is_there() {
    let mut out = String::from("<b>");
    push_escaped(&mut out, "x<y");
    assert_eq!(out, "<b>x&lt;y");
}

#[test]
fn escaped_text_holds_no_angle_bracket() {
    let out = escaped("<<a>>&&<b a=\"1\">");
    assert!(!out.contains('<'));
    assert!(!out.contains('>'));
    for (at, _) in out.match_indices('&') {
        let rest = &out[at..];
        assert!(rest.starts_with("&amp;") || rest.starts_with("&lt;") || rest.starts_with("&gt;"));
    }
}
