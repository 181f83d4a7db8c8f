use capscan_leaderboard::escape::html_escape;

#[test]
fn html_escape_escapes_special_characters() {
    assert_eq!(
        html_escape(r#"<script>alert("hi") & "bye"</script>"#),
        "&lt;script&gt;alert(&quot;hi&quot;) &amp; &quot;bye&quot;&lt;/script&gt;"
    );
}

#[test]
fn escaping_keeps_plain_text() {
    assert_eq!(html_escape(""), "");
    assert_eq!(html_escape("serde_json 1.0.0 - caf\u{e9}"), "serde_json 1.0.0 - caf\u{e9}");
    assert_eq!(html_escape("it's"), "it's");
}

#[test]
fn escaping_escapes_entities_again() {
    assert_eq!(html_escape("&amp;"), "&amp;amp;");
    assert_ne!(html_escape("<"), html_escape("&lt;"));
}

#[test]
fn escaping_is_four_replacements() {
    let texts = ["a&b<c>d\"e", "&&<<>>\"\"", "&lt;", "", "plain"];
    for text in texts {
        let replaced = text
            .replace('&', "&amp;")
            .replace('<', "&lt;")
            .replace('>', "&gt;")
            .replace('"', "&quot;");
        assert_eq!(html_escape(text), replaced);
    }
}

#[test]
fn escaping_concatenates() {
    let whole = html_escape("<a>\"&");
    assert_eq!(whole, html_escape("<a") + &html_escape(">\"&"));
}

#[test]
fn escaped_text_holds_no_markup() {
    let out = html_escape("<x y=\"z\">&</x>");
    assert!(!out.contains('<'));
    assert!(!out.contains('>'));
    assert!(!out.contains('"'));
}
