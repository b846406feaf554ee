use site_compiler::markdown::compile;

#[test]
fn a_heading_becomes_a_heading() {
    assert_eq!(compile("# Hello"), Some("<h1>Hello</h1>".to_string()));
}

#[test]
fn nothing_becomes_nothing() {
    assert_eq!(compile(""), Some(String::new()));
}

#[test]
fn the_dialect_is_that_of_github() {
    assert_eq!(compile("~Venus~Mars!"), Some("<p><del>Venus</del>Mars!</p>".to_string()));
    assert_eq!(
        compile("| a |\n| - |\n| b |"),
        Some(
            "<table>\n<thead>\n<tr>\n<th>a</th>\n</tr>\n</thead>\n<tbody>\n<tr>\n<td>b</td>\n</tr>\n</tbody>\n</table>"
                .to_string()
        )
    );
    assert_eq!(
        compile("www.example.com"),
        Some("<p><a href=\"http://www.example.com\">www.example.com</a></p>".to_string())
    );
}

#[test]
fn raw_html_passes_through() {
    assert_eq!(
        compile("<div>\n\n# Hi Jupiter!\n\n</div>"),
        Some("<div>\n<h1>Hi Jupiter!</h1>\n</div>".to_string())
    );
    assert_eq!(
        compile("a <b class=\"x\">bold</b> move"),
        Some("<p>a <b class=\"x\">bold</b> move</p>".to_string())
    );
}

#[test]
fn no_tag_is_filtered() {
    assert_eq!(
        compile("<script>alert(1)</script>"),
        Some("<script>alert(1)</script>".to_string())
    );
}

#[test]
fn a_dangerous_protocol_is_still_dropped() {
    assert_eq!(compile("[a](javascript:b)"), Some("<p><a href=\"\">a</a></p>".to_string()));
}

#[test]
fn footnotes_keep_the_usual_label() {
    let html = compile("a[^1]\n\n[^1]: note").unwrap();
    assert!(html.contains("<h2 id=\"footnote-label\" class=\"sr-only\">Footnotes</h2>"));
    assert!(html.contains("note"));
}
