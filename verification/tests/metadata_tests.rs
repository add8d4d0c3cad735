use mdblog::metadata::{parse_metadata, MetadataParseError};

#[test]
fn parses_full_document() {
    let text = "title = \"First post\"\npublish_dt = \"2023-01-01 00:00:00+0000\"\nshow_in_feed = false\nfeed_summary = \"a summary\"\n";
    let meta = parse_metadata(text).unwrap();
    assert_eq!(meta.title, "First post");
    assert_eq!(meta.publish_dt, 1672531200);
    assert!(!meta.show_in_feed);
    assert_eq!(meta.feed_summary, "a summary");
    assert_eq!(meta.path_from_root, "");
}

#[test]
fn show_in_feed_defaults_to_true() {
    let text = "title = \"t\"\npublish_dt = \"2023-01-01 00:00:00+0000\"\n";
    let meta = parse_metadata(text).unwrap();
    assert!(meta.show_in_feed);
}

#[test]
fn feed_summary_defaults_to_empty() {
    let text = "title = \"t\"\npublish_dt = \"2023-01-01 00:00:00+0000\"\n";
    let meta = parse_metadata(text).unwrap();
    assert_eq!(meta.feed_summary, "");
}

#[test]
fn missing_title_is_rejected() {
    let text = "publish_dt = \"2023-01-01 00:00:00+0000\"\n";
    assert_eq!(parse_metadata(text).unwrap_err(), MetadataParseError::MissingTitle);
}

#[test]
fn non_string_title_is_rejected() {
    let text = "title = 3\npublish_dt = \"2023-01-01 00:00:00+0000\"\n";
    assert_eq!(parse_metadata(text).unwrap_err(), MetadataParseError::MissingTitle);
}

#[test]
fn empty_title_is_rejected() {
    let text = "title = \"\"\npublish_dt = \"2023-01-01 00:00:00+0000\"\n";
    assert_eq!(parse_metadata(text).unwrap_err(), MetadataParseError::EmptyTitle);
}

#[test]
fn missing_publish_dt_is_rejected() {
    let text = "title = \"t\"\n";
    assert_eq!(parse_metadata(text).unwrap_err(), MetadataParseError::MissingPublishDate);
}

#[test]
fn date_without_time_is_rejected() {
    let text = "title = \"t\"\npublish_dt = \"2023-01-01\"\n";
    assert_eq!(parse_metadata(text).unwrap_err(), MetadataParseError::InvalidPublishDate);
}

#[test]
fn garbled_date_is_rejected() {
    let text = "title = \"t\"\npublish_dt = \"soon\"\n";
    assert_eq!(parse_metadata(text).unwrap_err(), MetadataParseError::InvalidPublishDate);
}

#[test]
fn malformed_document_is_rejected() {
    let text = "= this is not toml";
    assert_eq!(parse_metadata(text).unwrap_err(), MetadataParseError::MissingTitle);
}

#[test]
fn later_date_parses_to_larger_timestamp() {
    let early = parse_metadata("title = \"a\"\npublish_dt = \"2023-01-01 00:00:00+0000\"\n")
        .unwrap();
    let late = parse_metadata("title = \"b\"\npublish_dt = \"2023-06-01 12:30:00+0000\"\n")
        .unwrap();
    assert!(early.publish_dt < late.publish_dt);
}

#[test]
fn clock_time_is_part_of_the_timestamp() {
    let midnight = parse_metadata("title = \"a\"\npublish_dt = \"2023-01-01 00:00:00+0000\"\n")
        .unwrap();
    let one_second_in = parse_metadata(
        "title = \"a\"\npublish_dt = \"2023-01-01 00:00:01+0000\"\n",
    )
    .unwrap();
    assert_eq!(one_second_in.publish_dt, midnight.publish_dt + 1);
}
