use adr_gen::{process_files, process_node, substitute_template, File, Node};

#[test]
fn substitute_template_fills_both_placeholders() {
    let out = substitute_template(
        "<html>{{ADR_CONTENT}}<nav>{{LIST_ADRS}}</nav></html>",
        "<h1>Doc</h1>",
        "<ul></ul>",
    );
    assert_eq!(
        out,
        String::from("<html><h1>Doc</h1><nav><ul></ul></nav></html>")
    );
}

#[test]
fn substitute_template_tolerates_missing_placeholder() {
    let out = substitute_template("no tokens here", "<h1>Doc</h1>", "<ul></ul>");
    assert_eq!(out, String::from("no tokens here"));
    let out2 = substitute_template("only {{LIST_ADRS}} stands", "<h1>Doc</h1>", "LIST");
    assert_eq!(out2, String::from("only LIST stands"));
}

#[test]
fn substitute_template_never_rescans_substituted_fragments() {
    let out = substitute_template(
        "A{{ADR_CONTENT}}B",
        "x{{LIST_ADRS}}y",
        "should-not-appear",
    );
    assert_eq!(out, String::from("Ax{{LIST_ADRS}}yB"));
}

#[test]
fn process_node_renders_empty_wrappers_for_childless_kinds() {
    let mut s = String::new();
    process_node(
        &mut s,
        &Node::Other {
            children: vec![
                Node::List { children: vec![] },
                Node::Paragraph { children: vec![] },
                Node::Strong { children: vec![] },
            ],
        },
    );
    assert_eq!(s, String::from("<ul></ul><p></p><strong></strong>"));
}

#[test]
fn process_node_wraps_unlisted_kinds_in_pre() {
    let mut s = String::new();
    process_node(
        &mut s,
        &Node::Other {
            children: vec![
                Node::Table {
                    children: vec![Node::Text {
                        value: String::from("cell"),
                    }],
                },
                Node::FootnoteReference,
                Node::RawHtml {
                    value: String::from("<div>"),
                },
            ],
        },
    );
    assert_eq!(s, String::from("<pre>cell</pre><pre></pre><pre></pre>"));
}

#[test]
fn process_node_renders_image_as_self_closing_tag() {
    let mut s = String::new();
    process_node(
        &mut s,
        &Node::Other {
            children: vec![Node::Image {
                url: String::from("pic.png"),
            }],
        },
    );
    assert_eq!(s, String::from("<img src=\"pic.png\">"));
}

#[test]
fn process_files_builds_one_output_per_input_with_shared_index() {
    let files = vec![
        File {
            name: String::from("index.md"),
            content: String::from("# Home"),
        },
        File {
            name: String::from("a.md"),
            content: String::from("# A\nstatus: Accepted"),
        },
        File {
            name: String::from("b.md"),
            content: String::from("# B\nstatus: Superseded"),
        },
    ];
    let template = "[{{ADR_CONTENT}}|{{LIST_ADRS}}]";
    let out = process_files(&files, template);
    assert_eq!(out.len(), 3);
    let index = "<ul><li><a href=\"a.html\">[Accepted]a</a></li><li><a href=\"b.html\">[Superseded]b</a></li></ul>";
    assert_eq!(out[0].name, String::from("a.html"));
    assert_eq!(out[0].content, format!("[<h1>A</h1>|{}]", index));
    assert_eq!(out[1].name, String::from("b.html"));
    assert_eq!(out[1].content, format!("[<h1>B</h1>|{}]", index));
    assert_eq!(out[2].name, String::from("index.html"));
    assert_eq!(out[2].content, format!("[<h1>Home</h1>|{}]", index));
}

#[test]
fn process_files_keeps_names_without_source_extension() {
    let files = vec![File {
        name: String::from("notes.txt"),
        content: String::from("plain"),
    }];
    let out = process_files(&files, "{{ADR_CONTENT}}");
    assert_eq!(out.len(), 1);
    assert_eq!(out[0].name, String::from("notes.txt"));
    assert_eq!(out[0].content, String::from("<p>plain</p>"));
}
