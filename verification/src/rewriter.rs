//! The event rewriter: code blocks collapse into one raw-HTML event each, text
//! outside of them has its emoji shortcodes replaced, everything else passes.

use vstd::prelude::*;
use vstd::string::*;

use crate::emoji::{emoji_replaced, replace_emoji};
use crate::event::{CodeBlockKind, MarkdownEvent, MarkdownEventView};

verus! {

/// The HTML that stands for a code block tagged `language` whose body is
/// `body`. Neither part is escaped.
pub open spec fn code_block_html(language: Seq<char>, body: Seq<char>) -> Seq<char> {
    "<pre><code class=\"language-"@ + language + "\">"@ + body + "</code></pre>"@
}

/// Renders a code block as raw HTML.
pub fn render_code_block(language: &str, body: &str) -> (html: String)
    ensures
        html@ == code_block_html(language@, body@),
{
    let mut html = String::from_str("<pre><code class=\"language-");
    html.append(language);
    html.append("\">");
    html.append(body);
    html.append("</code></pre>");
    html
}

/// Where the rewriter stands between two events.
#[derive(Debug, PartialEq)]
pub enum Rewriter {
    /// Not inside a code block.
    Outside,
    /// Inside a code block: the language it was opened with, and the text seen
    /// so far.
    InCodeBlock { language: String, buffer: String },
}

/// The mathematical value of a [`Rewriter`].
pub ghost enum RewriterView {
    Outside,
    InCodeBlock { language: Seq<char>, buffer: Seq<char> },
}

impl View for Rewriter {
    type V = RewriterView;

    open spec fn view(&self) -> RewriterView {
        match self {
            Rewriter::Outside => RewriterView::Outside,
            Rewriter::InCodeBlock { language, buffer } => RewriterView::InCodeBlock {
                language: language@,
                buffer: buffer@,
            },
        }
    }
}

impl RewriterView {
    /// The language of the open code block; empty outside of one.
    pub open spec fn language(self) -> Seq<char> {
        match self {
            RewriterView::Outside => Seq::empty(),
            RewriterView::InCodeBlock { language, buffer } => language,
        }
    }

    /// The text gathered in the open code block; empty outside of one.
    pub open spec fn buffer(self) -> Seq<char> {
        match self {
            RewriterView::Outside => Seq::empty(),
            RewriterView::InCodeBlock { language, buffer } => buffer,
        }
    }

    /// The state after `event` has been seen in state `self`.
    pub open spec fn next(self, event: MarkdownEventView) -> RewriterView {
        match event {
            MarkdownEventView::CodeBlockStart(kind) => RewriterView::InCodeBlock {
                language: kind.language(),
                buffer: self.buffer(),
            },
            MarkdownEventView::Text(text) => match self {
                RewriterView::Outside => RewriterView::Outside,
                RewriterView::InCodeBlock { language, buffer } => RewriterView::InCodeBlock {
                    language,
                    buffer: buffer + text,
                },
            },
            MarkdownEventView::CodeBlockEnd => RewriterView::Outside,
            _ => self,
        }
    }

    /// What is emitted when `event` is seen in state `self`.
    pub open spec fn emitted<'a>(self, event: MarkdownEventView<'a>) -> Option<
        MarkdownEventView<'a>,
    > {
        match event {
            MarkdownEventView::CodeBlockStart(kind) => None,
            MarkdownEventView::Text(text) => match self {
                RewriterView::Outside => Some(MarkdownEventView::Text(emoji_replaced(text))),
                RewriterView::InCodeBlock { language, buffer } => None,
            },
            MarkdownEventView::CodeBlockEnd => Some(
                MarkdownEventView::Html(code_block_html(self.language(), self.buffer())),
            ),
            _ => Some(event),
        }
    }

    /// The state after all of `events` have been seen, one after the other,
    /// starting in state `self`.
    pub open spec fn after(self, events: Seq<MarkdownEventView>) -> RewriterView
        decreases events.len(),
    {
        if events.len() == 0 {
            self
        } else {
            self.after(events.drop_last()).next(events.last())
        }
    }

    /// Everything emitted while `events` are seen, one after the other,
    /// starting in state `self`.
    pub open spec fn output<'a>(self, events: Seq<MarkdownEventView<'a>>) -> Seq<
        MarkdownEventView<'a>,
    >
        decreases events.len(),
    {
        if events.len() == 0 {
            Seq::empty()
        } else {
            let before = events.drop_last();
            let rest = self.output(before);
            match self.after(before).emitted(events.last()) {
                Some(event) => rest.push(event),
                None => rest,
            }
        }
    }
}

/// The rewritten form of a whole document's events.
pub open spec fn rewritten<'a>(events: Seq<MarkdownEventView<'a>>) -> Seq<MarkdownEventView<'a>> {
    RewriterView::Outside.output(events)
}

impl Rewriter {
    /// A rewriter at the start of a document.
    pub fn new() -> (rewriter: Rewriter)
        ensures
            rewriter@ == RewriterView::Outside,
    {
        Rewriter::Outside
    }

    /// Takes one event: returns the state that follows and the event to emit,
    /// if there is one.
    pub fn step<'a>(self, event: MarkdownEvent<'a>) -> (result: (
        Rewriter,
        Option<MarkdownEvent<'a>>,
    ))
        ensures
            result.0@ == self@.next(event@),
            result.1.deep_view() == self@.emitted(event@),
    {
        match event {
            MarkdownEvent::CodeBlockStart(kind) => {
                let language = match kind {
                    CodeBlockKind::Indented => String::new(),
                    CodeBlockKind::Fenced(info) => info,
                };
                let buffer = match self {
                    Rewriter::Outside => String::new(),
                    Rewriter::InCodeBlock { language: _, buffer } => buffer,
                };
                (Rewriter::InCodeBlock { language, buffer }, None)
            },
            MarkdownEvent::Text(text) => match self {
                Rewriter::Outside => {
                    let replaced = replace_emoji(text.as_str());
                    (Rewriter::Outside, Some(MarkdownEvent::Text(replaced)))
                },
                Rewriter::InCodeBlock { language, buffer } => {
                    let mut buffer = buffer;
                    buffer.append(text.as_str());
                    (Rewriter::InCodeBlock { language, buffer }, None)
                },
            },
            MarkdownEvent::CodeBlockEnd => {
                let html = match self {
                    Rewriter::Outside => {
                        proof {
                            reveal_strlit("");
                            assert(""@ =~= Seq::<char>::empty());
                        }
                        render_code_block("", "")
                    },
                    Rewriter::InCodeBlock { language, buffer } => render_code_block(
                        language.as_str(),
                        buffer.as_str(),
                    ),
                };
                (Rewriter::Outside, Some(MarkdownEvent::Html(html)))
            },
            other => (self, Some(other)),
        }
    }
}

/// Rewrites the events of one document.
pub fn rewrite<'a>(events: Vec<MarkdownEvent<'a>>) -> (out: Vec<MarkdownEvent<'a>>)
    ensures
        out.deep_view() == rewritten(events.deep_view()),
{
    let ghost all = events.deep_view();
    let mut state = Rewriter::new();
    let mut out: Vec<MarkdownEvent<'a>> = Vec::new();
    for event in it: events
        invariant
            it.seq() == events@,
            all == events.deep_view(),
            state@ == RewriterView::Outside.after(all.take(it.index() as int)),
            out.deep_view() == rewritten(all.take(it.index() as int)),
    {
        let ghost seen = all.take(it.index() as int);
        let ghost before = out.deep_view();
        proof {
            let upto = all.take(it.index() as int + 1);
            assert(upto.drop_last() =~= seen);
            assert(upto.last() == event@);
        }
        let (next, emitted) = state.step(event);
        state = next;
        match emitted {
            Some(e) => {
                out.push(e);
                assert(out.deep_view() =~= before.push(e@));
            },
            None => {},
        }
    }
    assert(all.take(events@.len() as int) =~= all);
    out
}

} // verus!
