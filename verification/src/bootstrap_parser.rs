//! Markdown rendering with custom block-level substitutions.
//!
//! A markdown document is consumed as a stream of events; before the stream
//! is serialized to HTML, a few block-start events are replaced by literal
//! HTML open tags carrying the site's styling classes. All other events pass
//! through unmodified.

use vstd::prelude::*;

use pulldown_cmark::{html, CodeBlockKind, Event, Parser, Tag};

verus! {

/// How a code block was introduced in the source: by a fence (whose info
/// string may carry a language annotation) or by indentation.
#[derive(Debug, PartialEq, Eq)]
pub enum MdCodeBlockKind {
    Fenced(String),
    Indented,
}

/// The start tags whose events the mapper may substitute.
#[derive(Debug, PartialEq, Eq)]
pub enum MdTag {
    Paragraph,
    CodeBlock(MdCodeBlockKind),
}

/// One event of a markdown event stream, reduced to what the substitution
/// logic reads: a block start that may be substituted, a literal HTML event,
/// or any other event (left untouched and so not further distinguished).
#[derive(Debug, PartialEq, Eq)]
pub enum MdEvent {
    Start(MdTag),
    Html(String),
    Other,
}

pub ghost enum MdCodeBlockKindGhost {
    Fenced(Seq<char>),
    Indented,
}

pub ghost enum MdTagGhost {
    Paragraph,
    CodeBlock(MdCodeBlockKindGhost),
}

pub ghost enum MdEventGhost {
    Start(MdTagGhost),
    Html(Seq<char>),
    Other,
}

impl View for MdCodeBlockKind {
    type V = MdCodeBlockKindGhost;

    open spec fn view(&self) -> MdCodeBlockKindGhost {
        match self {
            MdCodeBlockKind::Fenced(info) => MdCodeBlockKindGhost::Fenced(info@),
            MdCodeBlockKind::Indented => MdCodeBlockKindGhost::Indented,
        }
    }
}

impl View for MdTag {
    type V = MdTagGhost;

    open spec fn view(&self) -> MdTagGhost {
        match self {
            MdTag::Paragraph => MdTagGhost::Paragraph,
            MdTag::CodeBlock(kind) => MdTagGhost::CodeBlock(kind@),
        }
    }
}

impl View for MdEvent {
    type V = MdEventGhost;

    open spec fn view(&self) -> MdEventGhost {
        match self {
            MdEvent::Start(tag) => MdEventGhost::Start(tag@),
            MdEvent::Html(text) => MdEventGhost::Html(text@),
            MdEvent::Other => MdEventGhost::Other,
        }
    }
}

/// A fence's info string carries no language annotation when its first
/// space-separated token is empty: the string is empty or opens with a space.
pub open spec fn fenced_lang_absent(info: Seq<char>) -> bool {
    info.len() == 0 || info[0] == ' '
}

pub open spec fn spec_paragraph_open() -> Seq<char> {
    "<p class=\"text-white\">"@
}

pub open spec fn spec_code_open_plain() -> Seq<char> {
    "<pre><code class=\"text-white\">"@
}

pub open spec fn spec_code_open_lang() -> Seq<char> {
    "<pre><code class='language-python text-white'>"@
}

pub open spec fn spec_fenced_open(info: Seq<char>) -> Seq<char> {
    if fenced_lang_absent(info) {
        spec_code_open_plain()
    } else {
        spec_code_open_lang()
    }
}

/// The substitution applied to one event: a paragraph start and a code-block
/// start become literal HTML open tags; every other event is unchanged. The
/// language token of an annotated fence is discarded: the substitution is the
/// same fixed tag for every annotation.
pub open spec fn spec_bootstrap_mapper(event: MdEventGhost) -> MdEventGhost {
    match event {
        MdEventGhost::Start(MdTagGhost::Paragraph) => MdEventGhost::Html(spec_paragraph_open()),
        MdEventGhost::Start(MdTagGhost::CodeBlock(MdCodeBlockKindGhost::Fenced(info))) => MdEventGhost::Html(
            spec_fenced_open(info),
        ),
        MdEventGhost::Start(MdTagGhost::CodeBlock(MdCodeBlockKindGhost::Indented)) => MdEventGhost::Html(
            spec_code_open_plain(),
        ),
        _ => event,
    }
}

/// The opening tag substituted for a paragraph start.
pub fn paragraph_open() -> (r: &'static str)
    ensures
        r@ == spec_paragraph_open(),
{
    "<p class=\"text-white\">"
}

/// The opening tag substituted for an indented code block, and for a fenced
/// one without a language annotation.
pub fn code_open_plain() -> (r: &'static str)
    ensures
        r@ == spec_code_open_plain(),
{
    "<pre><code class=\"text-white\">"
}

/// The opening tag substituted for a fenced code block, given the fence's
/// info string.
pub fn fenced_open(info: &str) -> (r: &'static str)
    ensures
        r@ == spec_fenced_open(info@),
{
    let absent = info.unicode_len() == 0 || info.get_char(0) == ' ';
    if absent {
        "<pre><code class=\"text-white\">"
    } else {
        "<pre><code class='language-python text-white'>"
    }
}

/// Substitutes the custom HTML open tags for the block-start events they
/// replace, leaving every other event as it was.
pub fn bootstrap_mapper(event: MdEvent) -> (r: MdEvent)
    ensures
        r@ == spec_bootstrap_mapper(event@),
{
    match event {
        MdEvent::Start(MdTag::Paragraph) => MdEvent::Html(paragraph_open().to_owned()),
        MdEvent::Start(MdTag::CodeBlock(MdCodeBlockKind::Fenced(info))) => MdEvent::Html(
            fenced_open(info.as_str()).to_owned(),
        ),
        MdEvent::Start(MdTag::CodeBlock(MdCodeBlockKind::Indented)) => MdEvent::Html(
            code_open_plain().to_owned(),
        ),
        other => other,
    }
}

/// The HTML that the markdown pipeline emits for a source document, after the
/// substitutions above: it depends on the document alone.
pub uninterp spec fn rendered_html_of(source: Seq<char>) -> Seq<char>;

/// Relies on pulldown_cmark::Parser::new and pulldown_cmark::html::push_html:
/// both are pure functions of the markdown text, so the HTML they emit — with
/// the event substitutions applied by the closure, each through a verified
/// function of this module — depends on the text alone.
#[verifier::external_body]
pub(crate) fn render_markdown(source: &str) -> (r: String)
    ensures
        r@ == rendered_html_of(source@),
{
    let parser = Parser::new(source).map(|event| match event {
        Event::Start(Tag::Paragraph) => Event::Html(paragraph_open().into()),
        Event::Start(Tag::CodeBlock(CodeBlockKind::Fenced(info))) => Event::Html(
            fenced_open(&info).into(),
        ),
        Event::Start(Tag::CodeBlock(CodeBlockKind::Indented)) => Event::Html(
            code_open_plain().into(),
        ),
        other => other,
    });
    let mut out = String::new();
    html::push_html(&mut out, parser);
    out
}

} // verus!
