use adr_gen::{extract_date_from_adr_content, extract_status_from_adr_content};

#[test]
fn extract_status_from_content() {
    let content = "some values status:     Accepted";
    let (status, modified_content) = extract_status_from_adr_content(content);
    assert_eq!(status, Some(String::from("Accepted")));
    assert_eq!(modified_content, "some values");
}

#[test]
fn extract_status_from_content_case_insensitive() {
    let content = "some values StaTus:     Accepted";
    let (status, modified_content) = extract_status_from_adr_content(content);
    assert_eq!(status, Some(String::from("Accepted")));
    assert_eq!(modified_content, "some values");
}

#[test]
fn extract_status_from_content_expect_escape_characters() {
    let content = "some values Status: superseded by [0015-slo-as-code-usage-revised](0015-slo-as-code-usage-revised)";
    let (status, modified_content) = extract_status_from_adr_content(content);
    assert_eq!(
        status,
        Some(String::from(
            "superseded by [0015-slo-as-code-usage-revised](0015-slo-as-code-usage-revised)"
        ))
    );
    assert_eq!(modified_content, "some values");
}

#[test]
fn extract_date_from_content() {
    let content = "some values date: 26-03-2024";
    let (status, modified_content) = extract_date_from_adr_content(content);
    assert_eq!(status, Some(String::from("26-03-2024")));
    assert_eq!(modified_content, "some values");
}

#[test]
fn extract_date_from_content_case_insensitive() {
    let content = "some values Date:     26-03-2024";
    let (status, modified_content) = extract_date_from_adr_content(content);
    assert_eq!(status, Some(String::from("26-03-2024")));
    assert_eq!(modified_content, "some values");
}

#[test]
fn extract_status_absent_leaves_text_unchanged() {
    let content = "no declarations anywhere in this text";
    let (status, modified_content) = extract_status_from_adr_content(content);
    assert_eq!(status, None);
    assert_eq!(modified_content, content);
}

#[test]
fn extract_date_absent_leaves_text_unchanged() {
    let content = "status: Accepted but no day given";
    let (date, modified_content) = extract_date_from_adr_content(content);
    assert_eq!(date, None);
    assert_eq!(modified_content, content);
}

#[test]
fn extract_status_empty_value_at_end_of_text() {
    let content = "the line above\nstatus:   ";
    let (status, modified_content) = extract_status_from_adr_content(content);
    assert_eq!(status, Some(String::from("")));
    assert_eq!(modified_content, "the line above");
}

#[test]
fn extract_status_stops_at_end_of_line() {
    let content = "status: Accepted\nbody stays";
    let (status, modified_content) = extract_status_from_adr_content(content);
    assert_eq!(status, Some(String::from("Accepted")));
    assert_eq!(modified_content, "body stays");
}

#[test]
fn extract_status_strips_only_first_occurrence() {
    let content = "status: One\nlater status: Two";
    let (status, modified_content) = extract_status_from_adr_content(content);
    assert_eq!(status, Some(String::from("One")));
    assert_eq!(modified_content, "later status: Two");
}

#[test]
fn extract_from_empty_text() {
    let (status, modified_content) = extract_status_from_adr_content("");
    assert_eq!(status, None);
    assert_eq!(modified_content, "");
}

#[test]
fn extract_both_fields_in_either_order() {
    let content = "date: 26-03-2024\nstatus: Accepted\nbody";
    let (status, rest) = extract_status_from_adr_content(content);
    let (date, rest) = extract_date_from_adr_content(&rest);
    assert_eq!(status, Some(String::from("Accepted")));
    assert_eq!(date, Some(String::from("26-03-2024")));
    assert_eq!(rest, "body");
}
