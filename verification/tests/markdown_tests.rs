use mdblog::bootstrap_parser::{bootstrap_mapper, MdCodeBlockKind, MdEvent, MdTag};
use mdblog::md::{MarkDownRouteHandler, PostSource};

fn handler_with_body(body: &str) -> MarkDownRouteHandler {
    let entries = vec![PostSource {
        dir_path: "content/post".to_string(),
        metadata: Some(
            "title = \"t\"\npublish_dt = \"2023-01-01 00:00:00+0000\"\n".to_string(),
        ),
        body: Some(body.to_string()),
    }];
    MarkDownRouteHandler::new("content".to_string(), entries)
}

fn rendered(body: &str) -> String {
    let handler = handler_with_body(body);
    handler.resolve("/blog/post").unwrap().current_post.body
}

#[test]
fn paragraph_start_is_substituted() {
    assert_eq!(
        bootstrap_mapper(MdEvent::Start(MdTag::Paragraph)),
        MdEvent::Html("<p class=\"text-white\">".to_string())
    );
}

#[test]
fn fenced_block_without_language_gets_plain_tag() {
    assert_eq!(
        bootstrap_mapper(MdEvent::Start(MdTag::CodeBlock(MdCodeBlockKind::Fenced(
            String::new()
        )))),
        MdEvent::Html("<pre><code class=\"text-white\">".to_string())
    );
}

#[test]
fn fenced_block_with_leading_space_counts_as_no_language() {
    assert_eq!(
        bootstrap_mapper(MdEvent::Start(MdTag::CodeBlock(MdCodeBlockKind::Fenced(
            " python".to_string()
        )))),
        MdEvent::Html("<pre><code class=\"text-white\">".to_string())
    );
}

#[test]
fn fenced_block_with_any_language_gets_fixed_python_tag() {
    for info in ["python", "rust", "c linenos"] {
        assert_eq!(
            bootstrap_mapper(MdEvent::Start(MdTag::CodeBlock(MdCodeBlockKind::Fenced(
                info.to_string()
            )))),
            MdEvent::Html("<pre><code class='language-python text-white'>".to_string())
        );
    }
}

#[test]
fn indented_block_gets_plain_tag() {
    assert_eq!(
        bootstrap_mapper(MdEvent::Start(MdTag::CodeBlock(MdCodeBlockKind::Indented))),
        MdEvent::Html("<pre><code class=\"text-white\">".to_string())
    );
}

#[test]
fn other_events_pass_through() {
    assert_eq!(bootstrap_mapper(MdEvent::Other), MdEvent::Other);
    assert_eq!(
        bootstrap_mapper(MdEvent::Html("<hr>".to_string())),
        MdEvent::Html("<hr>".to_string())
    );
}

#[test]
fn plain_paragraph_renders_with_text_white_class() {
    assert_eq!(rendered("hello"), "<p class=\"text-white\">hello</p>\n");
}

#[test]
fn fenced_code_without_language_renders_plain_opening_tag() {
    let html = rendered("```\ncode\n```\n");
    assert!(html.starts_with("<pre><code class=\"text-white\">"), "got: {}", html);
    assert_eq!(html, "<pre><code class=\"text-white\">code\n</code></pre>\n");
}

#[test]
fn fenced_code_with_language_renders_fixed_language_tag() {
    for lang in ["python", "rust"] {
        let html = rendered(&format!("```{}\ncode\n```\n", lang));
        assert!(
            html.starts_with("<pre><code class='language-python text-white'>"),
            "got: {}",
            html
        );
    }
}

#[test]
fn indented_code_renders_plain_opening_tag() {
    let html = rendered("    code\n");
    assert!(html.starts_with("<pre><code class=\"text-white\">"), "got: {}", html);
}

#[test]
fn markdown_body_is_not_handed_back_unchanged() {
    let html = rendered("*emphasis* here");
    assert_ne!(html, "*emphasis* here");
    assert!(html.contains("<em>emphasis</em>"), "got: {}", html);
}
