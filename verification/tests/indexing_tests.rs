use mdblog::md::{route_path, MarkDownRouteHandler, PostSource};

fn meta_doc(title: &str, date: &str) -> String {
    format!("title = \"{}\"\npublish_dt = \"{} 00:00:00+0000\"\n", title, date)
}

fn entry(dir_path: &str, title: &str, date: &str) -> PostSource {
    PostSource {
        dir_path: dir_path.to_string(),
        metadata: Some(meta_doc(title, date)),
        body: Some(format!("body of {}", title)),
    }
}

fn sample_handler() -> MarkDownRouteHandler {
    // Walk order deliberately differs from chronological order, and the walk
    // starts with the root directory itself, which holds no documents.
    let entries = vec![
        PostSource { dir_path: "content".to_string(), metadata: None, body: None },
        entry("content/b", "B", "2023-06-01"),
        entry("content/a", "A", "2023-01-01"),
        entry("content/c", "C", "2023-03-01"),
    ];
    MarkDownRouteHandler::new("content".to_string(), entries)
}

#[test]
fn route_path_strips_root_and_prefixes_namespace() {
    assert_eq!(route_path("content", "content/2023/post").unwrap(), "/blog/2023/post");
    assert_eq!(route_path("content", "content").unwrap(), "/blog");
}

#[test]
fn route_path_rejects_directory_outside_root() {
    assert!(route_path("content", "elsewhere/post").is_none());
}

#[test]
fn posts_are_sorted_ascending_by_publish_date() {
    let handler = sample_handler();
    let feed = handler.feed_posts();
    let titles: Vec<&str> = feed.iter().rev().map(|p| p.meta.title.as_str()).collect();
    assert_eq!(titles, ["A", "C", "B"]);
}

#[test]
fn feed_is_exactly_the_reverse_of_the_ordered_posts() {
    let handler = sample_handler();
    let feed = handler.feed_posts();
    let titles: Vec<&str> = feed.iter().map(|p| p.meta.title.as_str()).collect();
    assert_eq!(titles, ["B", "C", "A"]);
}

#[test]
fn directory_missing_metadata_is_skipped_without_aborting() {
    let mut entries = vec![entry("content/a", "A", "2023-01-01")];
    entries.push(PostSource {
        dir_path: "content/broken".to_string(),
        metadata: None,
        body: Some("body".to_string()),
    });
    entries.push(entry("content/b", "B", "2023-02-01"));
    let handler = MarkDownRouteHandler::new("content".to_string(), entries);
    assert_eq!(handler.feed_posts().len(), 2);
    assert!(handler.resolve("/blog/broken").is_none());
}

#[test]
fn directory_missing_body_is_skipped_without_aborting() {
    let entries = vec![
        entry("content/a", "A", "2023-01-01"),
        PostSource {
            dir_path: "content/broken".to_string(),
            metadata: Some(meta_doc("X", "2023-02-01")),
            body: None,
        },
    ];
    let handler = MarkDownRouteHandler::new("content".to_string(), entries);
    assert_eq!(handler.feed_posts().len(), 1);
    assert!(handler.resolve("/blog/broken").is_none());
}

#[test]
fn directory_with_rejected_metadata_is_skipped() {
    let entries = vec![
        entry("content/a", "A", "2023-01-01"),
        PostSource {
            dir_path: "content/broken".to_string(),
            metadata: Some("title = \"X\"\npublish_dt = \"not a date\"\n".to_string()),
            body: Some("body".to_string()),
        },
    ];
    let handler = MarkDownRouteHandler::new("content".to_string(), entries);
    assert_eq!(handler.feed_posts().len(), 1);
}

#[test]
fn earliest_post_has_no_previous_neighbor() {
    let handler = sample_handler();
    let wrapper = handler.resolve("/blog/a").unwrap();
    assert!(wrapper.prev_meta.is_none());
    assert_eq!(wrapper.next_meta.unwrap().title, "C");
}

#[test]
fn interior_post_has_both_neighbors() {
    let handler = sample_handler();
    let wrapper = handler.resolve("/blog/c").unwrap();
    assert_eq!(wrapper.prev_meta.unwrap().title, "A");
    assert_eq!(wrapper.next_meta.unwrap().title, "B");
}

#[test]
fn latest_post_has_no_next_neighbor() {
    let handler = sample_handler();
    let wrapper = handler.resolve("/blog/b").unwrap();
    assert_eq!(wrapper.prev_meta.unwrap().title, "C");
    assert!(wrapper.next_meta.is_none());
}

#[test]
fn unindexed_path_returns_not_found() {
    let handler = sample_handler();
    assert!(handler.resolve("/blog/missing").is_none());
    let (status, body) = handler.get_html("/blog/missing");
    assert_eq!(status, 404);
    assert_eq!(body, "No route for /blog/missing");
}

#[test]
fn colliding_route_paths_keep_the_later_post() {
    // Two walked directories derive the same route path; the one at the later
    // position after sorting wins the lookup.
    let entries = vec![
        entry("content/same", "Older", "2023-01-01"),
        entry("content/same", "Newer", "2023-05-01"),
    ];
    let handler = MarkDownRouteHandler::new("content".to_string(), entries);
    assert_eq!(handler.feed_posts().len(), 2);
    let wrapper = handler.resolve("/blog/same").unwrap();
    assert_eq!(wrapper.current_post.meta.title, "Newer");
}

#[test]
fn every_post_path_resolves_to_its_own_post() {
    let handler = sample_handler();
    for title in ["A", "B", "C"] {
        let path = format!("/blog/{}", title.to_lowercase());
        let wrapper = handler.resolve(&path).unwrap();
        assert_eq!(wrapper.current_post.meta.title, title);
        assert_eq!(wrapper.current_post.meta.path_from_root, path);
    }
}

#[test]
fn end_to_end_two_posts() {
    let entries = vec![
        entry("content/2023-01-01", "A", "2023-01-01"),
        entry("content/2023-06-01", "B", "2023-06-01"),
    ];
    let handler = MarkDownRouteHandler::new("content".to_string(), entries);

    let (status, page) = handler.get_html("/blog/2023-06-01");
    assert_eq!(status, 200);
    assert!(page.contains("<a class=\"prev\" href=\"/blog/2023-01-01\">A</a>"), "got: {}", page);
    assert!(!page.contains("class=\"next\""), "got: {}", page);
    assert!(page.contains("body of B"), "got: {}", page);

    let feed = handler.get_feed();
    let b_at = feed.find(">B</a>").unwrap();
    let a_at = feed.find(">A</a>").unwrap();
    assert!(b_at < a_at, "feed must list B before A: {}", feed);
}

#[test]
fn feed_includes_posts_with_show_in_feed_false() {
    // The final design variant accepts the flag but does not filter on it.
    let entries = vec![
        PostSource {
            dir_path: "content/hidden".to_string(),
            metadata: Some(
                "title = \"H\"\npublish_dt = \"2023-01-01 00:00:00+0000\"\nshow_in_feed = false\n"
                    .to_string(),
            ),
            body: Some("body".to_string()),
        },
        entry("content/shown", "S", "2023-02-01"),
    ];
    let handler = MarkDownRouteHandler::new("content".to_string(), entries);
    let feed = handler.get_feed();
    assert!(feed.contains(">H</a>"), "got: {}", feed);
    assert!(feed.contains(">S</a>"), "got: {}", feed);
}

#[test]
fn equal_publish_dates_keep_walk_order() {
    let entries = vec![
        entry("content/x", "X", "2023-01-01"),
        entry("content/y", "Y", "2023-01-01"),
        entry("content/z", "Z", "2023-01-01"),
    ];
    let handler = MarkDownRouteHandler::new("content".to_string(), entries);
    let feed = handler.feed_posts();
    let titles: Vec<&str> = feed.iter().rev().map(|p| p.meta.title.as_str()).collect();
    assert_eq!(titles, ["X", "Y", "Z"]);
}

#[test]
fn feed_document_has_the_exact_expected_form() {
    let entries = vec![PostSource {
        dir_path: "content/only".to_string(),
        metadata: Some(
            "title = \"Only\"\npublish_dt = \"2023-01-01 00:00:00+0000\"\nfeed_summary = \"short\"\n"
                .to_string(),
        ),
        body: Some("hello".to_string()),
    }];
    let handler = MarkDownRouteHandler::new("content".to_string(), entries);
    assert_eq!(
        handler.get_feed(),
        "<!DOCTYPE html><html><body><h1>Posts</h1>\
         <section><h2><a href=\"/blog/only\">Only</a></h2>\
         <p class=\"summary\">short</p></section></body></html>"
    );
}

#[test]
fn detail_page_embeds_title_body_and_summary_links() {
    let entries = vec![PostSource {
        dir_path: "content/only".to_string(),
        metadata: Some(
            "title = \"Only\"\npublish_dt = \"2023-01-01 00:00:00+0000\"\nfeed_summary = \"short\"\n"
                .to_string(),
        ),
        body: Some("hello".to_string()),
    }];
    let handler = MarkDownRouteHandler::new("content".to_string(), entries);
    let (status, page) = handler.get_html("/blog/only");
    assert_eq!(status, 200);
    assert!(page.contains("<title>Only</title>"), "got: {}", page);
    assert!(page.contains("<p class=\"text-white\">hello</p>"), "got: {}", page);
    let feed = handler.get_feed();
    assert!(feed.contains("<p class=\"summary\">short</p>"), "got: {}", feed);
}
