use adr_gen::generate_adr_html;

#[test]
fn generate_adr_html_heading_first_level_should_return_h1() {
    let result = generate_adr_html(&String::from("# Test"));
    assert!(!result.is_err());
    assert_eq!(result.unwrap(), String::from("<h1>Test</h1>"))
}

#[test]
fn generate_adr_html_heading_second_level_should_return_h2() {
    let result = generate_adr_html(&String::from("## Test"));
    assert!(!result.is_err());
    assert_eq!(result.unwrap(), String::from("<h2>Test</h2>"))
}

#[test]
fn generate_adr_html_heading_third_level_should_return_h3() {
    let result = generate_adr_html(&String::from("### Test"));
    assert!(!result.is_err());
    assert_eq!(result.unwrap(), String::from("<h3>Test</h3>"))
}

#[test]
fn generate_adr_html_heading_fourth_level_should_return_h4() {
    let result = generate_adr_html(&String::from("#### Test"));
    assert!(!result.is_err());
    assert_eq!(result.unwrap(), String::from("<h4>Test</h4>"))
}

#[test]
fn generate_adr_html_heading_fifth_level_should_return_h5() {
    let result = generate_adr_html(&String::from("##### Test"));
    assert!(!result.is_err());
    assert_eq!(result.unwrap(), String::from("<h5>Test</h5>"))
}

#[test]
fn generate_adr_html_heading_sixth_level_should_return_h6() {
    let result = generate_adr_html(&String::from("###### Test"));
    assert!(!result.is_err());
    assert_eq!(result.unwrap(), String::from("<h6>Test</h6>"))
}

#[test]
fn generate_adr_html_link_should_return_anchor_tagged_text() {
    let result = generate_adr_html(&String::from("[Test](https://test.com)"));
    assert!(!result.is_err());
    assert_eq!(
        result.unwrap(),
        String::from("<p><a href=\"https://test.com\">Test</a></p>")
    )
}

#[test]
fn generate_adr_html_code_example_should_return_code() {
    let result = generate_adr_html(&String::from(
        "```rust\nfn main() {\n    println!(\"Hello, world!\");\n}\n```",
    ));
    assert!(!result.is_err());
    assert_eq!(
        result.unwrap(),
        String::from("<code>fn main() {\n    println!(\"Hello, world!\");\n}</code>")
    )
}

#[test]
fn generate_adr_html_list_should_return_bullet_list() {
    let result = generate_adr_html(&String::from(
        "- Item1
        - Item2",
    ));
    assert!(!result.is_err());
    assert_eq!(
        result.unwrap(),
        String::from("<ul><li><p>Item1\n- Item2</p></li></ul>")
    )
}

#[test]
fn generate_adr_html_paragraphs_should_return_paragraph_tag() {
    let result = generate_adr_html(&String::from("First Paragraph\n\nSecond Paragraph"));
    assert!(!result.is_err());
    assert_eq!(
        result.unwrap(),
        String::from("<p>First Paragraph</p><p>Second Paragraph</p>")
    )
}

#[test]
fn generate_adr_html_italic_should_return_italic() {
    let result = generate_adr_html(&String::from("*italic*"));
    assert!(!result.is_err());
    assert_eq!(
        result.unwrap(),
        String::from("<p><span class=\"fst-italic\">italic</span></p>")
    )
}

#[test]
fn generate_adr_html_italic_should_return_bold() {
    let result = generate_adr_html(&String::from("**bold**"));
    assert!(!result.is_err());
    assert_eq!(result.unwrap(), String::from("<p><strong>bold</strong></p>"))
}

#[test]
fn generate_adr_html_italic_bold_should_return_bold_italic_span() {
    let result = generate_adr_html(&String::from("***bold***"));
    assert!(!result.is_err());
    assert_eq!(
        result.unwrap(),
        String::from("<p><span class=\"fst-italic\"><strong>bold</strong></span></p>")
    )
}

#[test]
fn generate_adr_html_blockquote_should_return_blockquote() {
    let result = generate_adr_html(&String::from("> the quote"));
    assert!(!result.is_err());
    assert_eq!(
        result.unwrap(),
        String::from("<blockquote class=\"blockquote\"><p>the quote</p></blockquote>")
    )
}

#[test]
fn generate_adr_html_three_underscores_should_return_hr_tag() {
    let result = generate_adr_html(&String::from("___"));
    assert!(!result.is_err());
    assert_eq!(result.unwrap(), String::from("<hr>"))
}

#[test]
fn generate_adr_html_three_dashes_should_return_hr_tag() {
    let result = generate_adr_html(&String::from("---"));
    assert!(!result.is_err());
    assert_eq!(result.unwrap(), String::from("<hr>"))
}

#[test]
fn generate_adr_html_three_asteriks_should_return_hr_tag() {
    let result = generate_adr_html(&String::from("***"));
    assert!(!result.is_err());
    assert_eq!(result.unwrap(), String::from("<hr>"))
}

#[test]
fn generate_adr_html_empty_body_renders_empty_fragment() {
    let result = generate_adr_html("");
    assert!(!result.is_err());
    assert_eq!(result.unwrap(), String::from(""));
}
