//! The events that flow through the rewriter.
//!
//! The rewriter looks at three kinds of event only: the start of a code block,
//! the end of one, and a run of text. It produces text and raw HTML. Every
//! other event is carried through untouched, as the parser made it.

use vstd::prelude::*;

verus! {

/// A Markdown event as the parser hands it out. The value is opaque here: it
/// is carried through, never looked into.
#[verifier::external_type_specification]
#[verifier::external_body]
pub struct ExParserEvent<'a>(pulldown_cmark::Event<'a>);

/// How a code block was written in the source.
#[derive(Debug, PartialEq)]
pub enum CodeBlockKind {
    /// Indented; such a block names no language.
    Indented,
    /// Fenced; the payload is the fence's info string, which may be empty.
    Fenced(String),
}

/// The mathematical value of a [`CodeBlockKind`].
pub ghost enum CodeBlockKindView {
    Indented,
    Fenced(Seq<char>),
}

impl View for CodeBlockKind {
    type V = CodeBlockKindView;

    open spec fn view(&self) -> CodeBlockKindView {
        match self {
            CodeBlockKind::Indented => CodeBlockKindView::Indented,
            CodeBlockKind::Fenced(info) => CodeBlockKindView::Fenced(info@),
        }
    }
}

impl CodeBlockKindView {
    /// The language a block of this kind is tagged with: the whole info string
    /// of a fence, nothing for an indented block.
    pub open spec fn language(self) -> Seq<char> {
        match self {
            CodeBlockKindView::Indented => Seq::empty(),
            CodeBlockKindView::Fenced(info) => info,
        }
    }
}

/// One event of a Markdown document.
#[derive(Debug, PartialEq)]
pub enum MarkdownEvent<'a> {
    /// A code block opens.
    CodeBlockStart(CodeBlockKind),
    /// A code block closes.
    CodeBlockEnd,
    /// A run of text.
    Text(String),
    /// Raw HTML, written to the output as it stands.
    Html(String),
    /// Any other event, exactly as the parser produced it.
    Other(pulldown_cmark::Event<'a>),
}

/// The mathematical value of a [`MarkdownEvent`].
pub ghost enum MarkdownEventView<'a> {
    CodeBlockStart(CodeBlockKindView),
    CodeBlockEnd,
    Text(Seq<char>),
    Html(Seq<char>),
    Other(pulldown_cmark::Event<'a>),
}

impl<'a> View for MarkdownEvent<'a> {
    type V = MarkdownEventView<'a>;

    open spec fn view(&self) -> MarkdownEventView<'a> {
        match self {
            MarkdownEvent::CodeBlockStart(kind) => MarkdownEventView::CodeBlockStart(kind@),
            MarkdownEvent::CodeBlockEnd => MarkdownEventView::CodeBlockEnd,
            MarkdownEvent::Text(text) => MarkdownEventView::Text(text@),
            MarkdownEvent::Html(html) => MarkdownEventView::Html(html@),
            MarkdownEvent::Other(event) => MarkdownEventView::Other(*event),
        }
    }
}

impl<'a> DeepView for MarkdownEvent<'a> {
    type V = MarkdownEventView<'a>;

    open spec fn deep_view(&self) -> MarkdownEventView<'a> {
        self@
    }
}

} // verus!
