use adr_gen::{generate_list_adrs, parse_files, File, ParsedFile};

#[test]
fn generate_list_adrs_should_return_ul_list() {
    let files = vec![ParsedFile {
        name: String::from("test.md"),
        content: String::from(""),
        status: String::from("Accepted"),
        date: String::from("26-03-2024"),
    }];
    let result = generate_list_adrs(&files);
    assert_eq!(
        result,
        String::from("<ul><li><a href=\"test.html\">[Accepted]test</a></li></ul>")
    )
}

#[test]
fn generate_list_adrs_should_return_ul_list_sorted_by_name() {
    let files = vec![
        ParsedFile {
            name: String::from("a.md"),
            content: String::from(""),
            status: String::from("Accepted"),
            date: String::from("26-03-2024"),
        },
        ParsedFile {
            name: String::from("b.md"),
            content: String::from(""),
            status: String::from("Superseded"),
            date: String::from("26-03-2024"),
        },
        ParsedFile {
            name: String::from("c.md"),
            content: String::from(""),
            status: String::from("Rejected"),
            date: String::from("26-03-2024"),
        },
    ];
    let result = generate_list_adrs(&files);
    assert_eq!(result, String::from("<ul><li><a href=\"a.html\">[Accepted]a</a></li><li><a href=\"b.html\">[Superseded]b</a></li><li><a href=\"c.html\">[Rejected]c</a></li></ul>"))
}

#[test]
fn generate_list_adrs_should_ignore_index_md() {
    let files = vec![
        ParsedFile {
            name: String::from("index.md"),
            content: String::from(""),
            status: String::from("Accepted"),
            date: String::from("26-03-2024"),
        },
        ParsedFile {
            name: String::from("test.md"),
            content: String::from(""),
            status: String::from("Accepted"),
            date: String::from("26-03-2024"),
        },
    ];
    let result = generate_list_adrs(&files);
    assert_eq!(
        result,
        String::from("<ul><li><a href=\"test.html\">[Accepted]test</a></li></ul>")
    )
}

#[test]
fn generate_list_adrs_ignores_index_md_in_any_position() {
    let files = vec![
        ParsedFile {
            name: String::from("a.md"),
            content: String::from(""),
            status: String::from("Accepted"),
            date: String::from(""),
        },
        ParsedFile {
            name: String::from("index.md"),
            content: String::from(""),
            status: String::from("Draft"),
            date: String::from(""),
        },
        ParsedFile {
            name: String::from("z.md"),
            content: String::from(""),
            status: String::from("Rejected"),
            date: String::from(""),
        },
    ];
    let result = generate_list_adrs(&files);
    assert_eq!(
        result,
        String::from(
            "<ul><li><a href=\"a.html\">[Accepted]a</a></li><li><a href=\"z.html\">[Rejected]z</a></li></ul>"
        )
    )
}

#[test]
fn parse_files_sorts_documents_by_name() {
    let files = vec![
        File {
            name: String::from("b.md"),
            content: String::from("status: Superseded"),
        },
        File {
            name: String::from("a.md"),
            content: String::from("status: Accepted"),
        },
        File {
            name: String::from("c.md"),
            content: String::from("status: Rejected"),
        },
    ];
    let parsed = parse_files(&files);
    let result = generate_list_adrs(&parsed);
    assert_eq!(result, String::from("<ul><li><a href=\"a.html\">[Accepted]a</a></li><li><a href=\"b.html\">[Superseded]b</a></li><li><a href=\"c.html\">[Rejected]c</a></li></ul>"))
}

#[test]
fn parse_files_extracts_status_and_date_and_trims_body() {
    let files = vec![File {
        name: String::from("one.md"),
        content: String::from("# Title\nstatus: Accepted\ndate: 26-03-2024\nbody text"),
    }];
    let parsed = parse_files(&files);
    assert_eq!(parsed.len(), 1);
    assert_eq!(parsed[0].name, String::from("one.md"));
    assert_eq!(parsed[0].status, String::from("Accepted"));
    assert_eq!(parsed[0].date, String::from("26-03-2024"));
    assert_eq!(parsed[0].content, String::from("# Title\n\n\nbody text"));
}

#[test]
fn parse_files_absent_fields_become_empty_strings() {
    let files = vec![File {
        name: String::from("bare.md"),
        content: String::from("just a body"),
    }];
    let parsed = parse_files(&files);
    assert_eq!(parsed.len(), 1);
    assert_eq!(parsed[0].status, String::from(""));
    assert_eq!(parsed[0].date, String::from(""));
    assert_eq!(parsed[0].content, String::from("just a body"));
}
