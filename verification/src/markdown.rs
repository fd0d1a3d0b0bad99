//! The boundary to the Markdown parser and to the HTML serializer.
//!
//! Nothing in this file is proved. Each function here calls into
//! `pulldown_cmark` and is believed to return what its contract names; the
//! rest of the crate is proved against these contracts.

use pulldown_cmark::{Event, Options, Parser, Tag, TagEnd};
use vstd::prelude::*;

use crate::event::{CodeBlockKind, MarkdownEvent, MarkdownEventView};
use crate::report::{EventSpan, EventSpanView};

verus! {

/// The parser's set of enabled extensions. The value is opaque here: it is
/// handed on to the parser, never looked into.
#[verifier::external_type_specification]
#[verifier::external_body]
pub struct ExOptions(pulldown_cmark::Options);

/// The events that `pulldown_cmark::Parser::new_ext(input, options)` yields
/// when it is run to its end, each one sorted into the variant of
/// [`MarkdownEvent`] that it belongs to.
pub uninterp spec fn parsed(input: Seq<char>, options: Options) -> Seq<MarkdownEventView<'static>>;

/// The events that `pulldown_cmark::Parser::into_offset_iter` yields for
/// `input` under `options`, each with its byte range in `input` and in the
/// notation of its `Debug` impl.
pub uninterp spec fn parsed_spans(input: Seq<char>, options: Options) -> Seq<EventSpanView>;

/// The HTML that `pulldown_cmark::html::push_html` appends to an empty string
/// for `events`.
pub uninterp spec fn html_of(events: Seq<MarkdownEventView<'static>>) -> Seq<char>;

/// Parses `input` into events.
///
/// Runs `pulldown_cmark::Parser::new_ext` to its end. The start and end of a
/// code block, text and block-level raw HTML are moved into the variants of
/// their own; every other event is kept whole. The contract only names the
/// resulting sequence.
#[verifier::external_body]
pub(crate) fn parse<'a>(input: &'a str, options: Options) -> (events: Vec<MarkdownEvent<'a>>)
    ensures
        events.deep_view() == parsed(input@, options),
{
    Parser::new_ext(input, options).map(|event| match event {
        Event::Start(Tag::CodeBlock(pulldown_cmark::CodeBlockKind::Fenced(info))) => {
            MarkdownEvent::CodeBlockStart(CodeBlockKind::Fenced(info.into_string()))
        },
        Event::Start(Tag::CodeBlock(pulldown_cmark::CodeBlockKind::Indented)) => {
            MarkdownEvent::CodeBlockStart(CodeBlockKind::Indented)
        },
        Event::End(TagEnd::CodeBlock) => MarkdownEvent::CodeBlockEnd,
        Event::Text(text) => MarkdownEvent::Text(text.into_string()),
        Event::Html(raw) => MarkdownEvent::Html(raw.into_string()),
        other => MarkdownEvent::Other(other),
    }).collect()
}

/// Parses `input` into events for the event dump.
///
/// Runs `pulldown_cmark::Parser::into_offset_iter` to its end and keeps, for
/// each event, the two ends of its range and its `Debug` notation. The
/// contract only names the resulting sequence.
#[verifier::external_body]
pub(crate) fn parse_spans(input: &str, options: Options) -> (spans: Vec<EventSpan>)
    ensures
        spans.deep_view() == parsed_spans(input@, options),
{
    Parser::new_ext(input, options).into_offset_iter().map(|(event, range)| EventSpan {
        start: range.start,
        end: range.end,
        event: format!("{:?}", event),
    }).collect()
}

/// Serializes `events` as HTML.
///
/// Hands the events to `pulldown_cmark::html::push_html`, each one back in
/// the parser's own type, and returns the string it filled. The contract only
/// names that string.
#[verifier::external_body]
pub(crate) fn push_html<'a>(events: Vec<MarkdownEvent<'a>>) -> (html: String)
    ensures
        html@ == html_of(events.deep_view()),
{
    let mut html = String::new();
    pulldown_cmark::html::push_html(&mut html, events.into_iter().map(|event| match event {
        MarkdownEvent::CodeBlockStart(CodeBlockKind::Fenced(info)) => {
            Event::Start(Tag::CodeBlock(pulldown_cmark::CodeBlockKind::Fenced(info.into())))
        },
        MarkdownEvent::CodeBlockStart(CodeBlockKind::Indented) => {
            Event::Start(Tag::CodeBlock(pulldown_cmark::CodeBlockKind::Indented))
        },
        MarkdownEvent::CodeBlockEnd => Event::End(TagEnd::CodeBlock),
        MarkdownEvent::Text(text) => Event::Text(text.into()),
        MarkdownEvent::Html(raw) => Event::Html(raw.into()),
        MarkdownEvent::Other(other) => other,
    }));
    html
}

} // verus!
