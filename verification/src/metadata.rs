//! Per-post metadata: a TOML document with a required `title`, a required
//! `publish_dt` in a fixed textual format, an optional `show_in_feed`
//! (default true) and an optional `feed_summary` (default empty).
//!
//! A failure here is per-post: the caller skips the post and goes on.

use vstd::prelude::*;

verus! {

/// Why a metadata document was rejected. A rejected document costs only its
/// own post: indexing of the other posts goes on.
#[derive(Clone, Copy, Debug, PartialEq, Eq, Structural)]
pub enum MetadataParseError {
    /// The document does not hold a string value under `title` (it is
    /// malformed, the key is absent, or the value is not a string).
    MissingTitle,
    /// The document holds a `title`, but it is the empty string.
    EmptyTitle,
    /// The document does not hold a string value under `publish_dt`.
    MissingPublishDate,
    /// The `publish_dt` text does not match the expected date-time pattern.
    InvalidPublishDate,
}

/// The typed record a metadata document parses to. `path_from_root` is never
/// taken from the document: the indexer derives it from the post's directory
/// and fills it in after parsing.
#[derive(Debug)]
pub struct PostMetadata {
    pub title: String,
    pub show_in_feed: bool,
    /// The publish instant as a UTC timestamp in seconds; posts are ordered
    /// by this value.
    pub publish_dt: i64,
    pub feed_summary: String,
    pub path_from_root: String,
}

pub ghost struct PostMetadataGhost {
    pub title: Seq<char>,
    pub show_in_feed: bool,
    pub publish_dt: int,
    pub feed_summary: Seq<char>,
    pub path_from_root: Seq<char>,
}

impl View for PostMetadata {
    type V = PostMetadataGhost;

    open spec fn view(&self) -> PostMetadataGhost {
        PostMetadataGhost {
            title: self.title@,
            show_in_feed: self.show_in_feed,
            publish_dt: self.publish_dt as int,
            feed_summary: self.feed_summary@,
            path_from_root: self.path_from_root@,
        }
    }
}

impl Clone for PostMetadata {
    fn clone(&self) -> (res: Self)
        ensures
            res == *self,
    {
        PostMetadata {
            title: self.title.clone(),
            show_in_feed: self.show_in_feed,
            publish_dt: self.publish_dt,
            feed_summary: self.feed_summary.clone(),
            path_from_root: self.path_from_root.clone(),
        }
    }
}

/// The string value under a top-level key of a TOML document: `None` when the
/// document does not parse, the key is absent, or the value is not a string.
pub uninterp spec fn toml_str_of(text: Seq<char>, key: Seq<char>) -> Option<Seq<char>>;

/// The boolean value under a top-level key of a TOML document, `None` in the
/// same cases.
pub uninterp spec fn toml_bool_of(text: Seq<char>, key: Seq<char>) -> Option<bool>;

/// The UTC timestamp, in seconds, denoted by a text that matches the given
/// date-time format; `None` when the text does not match it.
pub uninterp spec fn parsed_datetime_of(text: Seq<char>, fmt: Seq<char>) -> Option<i64>;

/// Relies on toml::from_str and toml::Value::as_str: parsing a TOML document
/// and reading the string under one of its top-level keys depend on the
/// document and the key alone.
#[verifier::external_body]
fn toml_str_value(text: &str, key: &str) -> (r: Option<String>)
    ensures
        match r {
            Some(s) => toml_str_of(text@, key@) == Some(s@),
            None => toml_str_of(text@, key@) is None,
        },
{
    match toml::from_str::<toml::Table>(text) {
        Ok(table) => match table.get(key) {
            Some(value) => value.as_str().map(|s| s.to_owned()),
            None => None,
        },
        Err(_) => None,
    }
}

/// Relies on toml::from_str and toml::Value::as_bool: parsing a TOML document
/// and reading the boolean under one of its top-level keys depend on the
/// document and the key alone.
#[verifier::external_body]
fn toml_bool_value(text: &str, key: &str) -> (r: Option<bool>)
    ensures
        r == toml_bool_of(text@, key@),
{
    match toml::from_str::<toml::Table>(text) {
        Ok(table) => match table.get(key) {
            Some(value) => value.as_bool(),
            None => None,
        },
        Err(_) => None,
    }
}

/// Relies on chrono::NaiveDateTime::parse_from_str and
/// chrono::DateTime::timestamp: whether a text matches a date-time format,
/// and the UTC timestamp it then denotes, depend on the text and the format
/// alone.
#[verifier::external_body]
fn parse_datetime(text: &str, fmt: &str) -> (r: Option<i64>)
    ensures
        r == parsed_datetime_of(text@, fmt@),
{
    match chrono::NaiveDateTime::parse_from_str(text, fmt) {
        Ok(dt) => Some(dt.and_utc().timestamp()),
        Err(_) => None,
    }
}

pub open spec fn spec_datetime_format() -> Seq<char> {
    "%Y-%m-%d %H:%M:%S%z"@
}

/// The pattern a `publish_dt` text must match: date, time, and a numeric
/// time-zone offset.
pub fn datetime_format() -> (r: &'static str)
    ensures
        r@ == spec_datetime_format(),
{
    "%Y-%m-%d %H:%M:%S%z"
}

/// What parsing a metadata document yields: the typed record, with defaults
/// filled in and an empty `path_from_root`, or the error that rejects it.
pub open spec fn spec_parse_metadata(text: Seq<char>) -> Result<
    PostMetadataGhost,
    MetadataParseError,
> {
    match toml_str_of(text, "title"@) {
        None => Err(MetadataParseError::MissingTitle),
        Some(title) => if title.len() == 0 {
            Err(MetadataParseError::EmptyTitle)
        } else {
            match toml_str_of(text, "publish_dt"@) {
                None => Err(MetadataParseError::MissingPublishDate),
                Some(dt_text) => match parsed_datetime_of(dt_text, spec_datetime_format()) {
                    None => Err(MetadataParseError::InvalidPublishDate),
                    Some(ts) => Ok(
                        PostMetadataGhost {
                            title: title,
                            show_in_feed: match toml_bool_of(text, "show_in_feed"@) {
                                Some(b) => b,
                                None => true,
                            },
                            publish_dt: ts as int,
                            feed_summary: match toml_str_of(text, "feed_summary"@) {
                                Some(s) => s,
                                None => Seq::empty(),
                            },
                            path_from_root: Seq::empty(),
                        },
                    ),
                },
            }
        },
    }
}

/// Parses one metadata document. `title` must be present, a string, and
/// non-empty; `publish_dt` must be present, a string, and match the fixed
/// date-time pattern; `show_in_feed` defaults to true and `feed_summary` to
/// the empty string. The returned record carries an empty `path_from_root`
/// for the indexer to fill in.
pub fn parse_metadata(text: &str) -> (r: Result<PostMetadata, MetadataParseError>)
    ensures
        match r {
            Ok(m) => spec_parse_metadata(text@) == Ok::<PostMetadataGhost, MetadataParseError>(m@),
            Err(e) => spec_parse_metadata(text@) == Err::<PostMetadataGhost, MetadataParseError>(e),
        },
{
    let title = match toml_str_value(text, "title") {
        Some(t) => t,
        None => {
            return Err(MetadataParseError::MissingTitle);
        },
    };
    if title.as_str().unicode_len() == 0 {
        return Err(MetadataParseError::EmptyTitle);
    }
    let dt_text = match toml_str_value(text, "publish_dt") {
        Some(t) => t,
        None => {
            return Err(MetadataParseError::MissingPublishDate);
        },
    };
    let publish_dt = match parse_datetime(dt_text.as_str(), datetime_format()) {
        Some(ts) => ts,
        None => {
            return Err(MetadataParseError::InvalidPublishDate);
        },
    };
    let show_in_feed = match toml_bool_value(text, "show_in_feed") {
        Some(b) => b,
        None => true,
    };
    let feed_summary = match toml_str_value(text, "feed_summary") {
        Some(s) => s,
        None => String::new(),
    };
    Ok(
        PostMetadata {
            title,
            show_in_feed,
            publish_dt,
            feed_summary,
            path_from_root: String::new(),
        },
    )
}

} // verus!
