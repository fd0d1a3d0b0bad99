//! What holds of the rewriter on every input, stated over its spec functions
//! and proved from their definitions.

use vstd::prelude::*;

use crate::emoji::emoji_replaced;
use crate::event::{CodeBlockKindView, MarkdownEventView};
use crate::rewriter::{code_block_html, rewritten, RewriterView};

verus! {

/// No event of `events` opens or closes a code block.
pub open spec fn no_code_blocks(events: Seq<MarkdownEventView>) -> bool {
    forall|i: int|
        0 <= i < events.len() ==> !(#[trigger] events[i] is CodeBlockStart)
            && !(events[i] is CodeBlockEnd)
}

/// The event with its emoji shortcodes replaced, if it is text; the event
/// itself otherwise.
pub open spec fn text_replaced<'a>(event: MarkdownEventView<'a>) -> MarkdownEventView<'a> {
    match event {
        MarkdownEventView::Text(text) => MarkdownEventView::Text(emoji_replaced(text)),
        _ => event,
    }
}

/// Every text of `events` is one that the emoji replacement leaves as it is.
pub open spec fn emoji_free(events: Seq<MarkdownEventView>) -> bool {
    forall|i: int| 0 <= i < events.len() ==> text_replaced(#[trigger] events[i]) == events[i]
}

/// One text event for each of `texts`, in order.
pub open spec fn text_events<'a>(texts: Seq<Seq<char>>) -> Seq<MarkdownEventView<'a>> {
    Seq::new(texts.len(), |i: int| MarkdownEventView::Text(texts[i]))
}

/// A whole code block: its start, its body as text events, its end.
pub open spec fn code_block<'a>(kind: CodeBlockKindView, texts: Seq<Seq<char>>) -> Seq<
    MarkdownEventView<'a>,
> {
    seq![MarkdownEventView::CodeBlockStart(kind)] + text_events(texts)
        + seq![MarkdownEventView::CodeBlockEnd]
}

/// Every code block that `events` opens is closed again within `events`.
pub open spec fn code_blocks_closed(events: Seq<MarkdownEventView>) -> bool {
    RewriterView::Outside.after(events) is Outside
}

/// Rewriting runs left to right: what is emitted for `first + second` is what
/// is emitted for `first`, followed by what is emitted for `second` from the
/// state that `first` leaves behind.
pub proof fn lemma_output_of_concat<'a>(
    state: RewriterView,
    first: Seq<MarkdownEventView<'a>>,
    second: Seq<MarkdownEventView<'a>>,
)
    ensures
        state.after(first + second) == state.after(first).after(second),
        state.output(first + second) == state.output(first) + state.after(first).output(second),
    decreases second.len(),
{
    if second.len() == 0 {
        assert(first + second =~= first);
        assert(state.output(first) + state.after(first).output(second) =~= state.output(first));
    } else {
        let whole = first + second;
        assert(whole.drop_last() =~= first + second.drop_last());
        assert(whole.last() == second.last());
        lemma_output_of_concat(state, first, second.drop_last());
        let middle = state.after(first);
        match middle.after(second.drop_last()).emitted(second.last()) {
            Some(event) => {
                assert(state.output(whole) =~= state.output(first) + middle.output(second));
            },
            None => {},
        }
    }
}

/// In any state, a single event gives the state's own next state and emits the
/// state's own emission.
pub proof fn lemma_output_of_one<'a>(state: RewriterView, event: MarkdownEventView<'a>)
    ensures
        state.after(seq![event]) == state.next(event),
        state.output(seq![event]) == match state.emitted(event) {
            Some(e) => seq![e],
            None => Seq::empty(),
        },
{
    let one = seq![event];
    assert(one.drop_last() =~= Seq::empty());
    assert(one.last() == event);
    assert(state.after(one.drop_last()) == state);
    assert(state.output(one.drop_last()) =~= Seq::empty());
    match state.emitted(event) {
        Some(e) => {
            assert(state.output(one) =~= seq![e]);
        },
        None => {},
    }
}

/// Without code blocks the rewriter never leaves the outside state.
pub proof fn lemma_stays_outside(events: Seq<MarkdownEventView>)
    requires
        no_code_blocks(events),
    ensures
        RewriterView::Outside.after(events) == RewriterView::Outside,
    decreases events.len(),
{
    if events.len() > 0 {
        let before = events.drop_last();
        assert(no_code_blocks(before)) by {
            assert forall|i: int| 0 <= i < before.len() implies !(#[trigger] before[i]
                is CodeBlockStart) && !(before[i] is CodeBlockEnd) by {
                assert(before[i] == events[i]);
            }
        }
        lemma_stays_outside(before);
        assert(events.last() == events[events.len() - 1]);
    }
}

/// A document without code blocks is rewritten event by event: each text has
/// its emoji shortcodes replaced, each other event stays exactly as it was,
/// and nothing is added, dropped or moved.
pub proof fn law_without_code_blocks<'a>(events: Seq<MarkdownEventView<'a>>)
    requires
        no_code_blocks(events),
    ensures
        rewritten(events) == events.map_values(|e: MarkdownEventView<'a>| text_replaced(e)),
    decreases events.len(),
{
    let replace = |e: MarkdownEventView<'a>| text_replaced(e);
    if events.len() == 0 {
        assert(rewritten(events) =~= events.map_values(replace));
    } else {
        let before = events.drop_last();
        let last = events.last();
        assert(no_code_blocks(before)) by {
            assert forall|i: int| 0 <= i < before.len() implies !(#[trigger] before[i]
                is CodeBlockStart) && !(before[i] is CodeBlockEnd) by {
                assert(before[i] == events[i]);
            }
        }
        law_without_code_blocks(before);
        lemma_stays_outside(before);
        assert(last == events[events.len() - 1]);
        assert(RewriterView::Outside.emitted(last) == Some(text_replaced(last)));
        assert(rewritten(events) == rewritten(before).push(text_replaced(last)));
        assert(rewritten(before).push(text_replaced(last)) =~= events.map_values(replace));
    }
}

/// A document without code blocks and without anything for the emoji
/// replacement to change comes out of the rewriter exactly as it went in.
pub proof fn law_emoji_free_is_unchanged<'a>(events: Seq<MarkdownEventView<'a>>)
    requires
        no_code_blocks(events),
        emoji_free(events),
    ensures
        rewritten(events) == events,
{
    law_without_code_blocks(events);
    assert(events.map_values(|e: MarkdownEventView<'a>| text_replaced(e)) =~= events);
}

/// While a code block is open, text is gathered and nothing is emitted.
pub proof fn lemma_texts_in_code_block(
    language: Seq<char>,
    buffer: Seq<char>,
    texts: Seq<Seq<char>>,
)
    ensures
        (RewriterView::InCodeBlock { language, buffer }).after(text_events(texts))
            == (RewriterView::InCodeBlock { language, buffer: buffer + texts.flatten() }),
        (RewriterView::InCodeBlock { language, buffer }).output(text_events(texts))
            == Seq::<MarkdownEventView>::empty(),
    decreases texts.len(),
{
    let state = RewriterView::InCodeBlock { language, buffer };
    let events = text_events(texts);
    if texts.len() == 0 {
        assert(texts.flatten() =~= Seq::<char>::empty());
        assert(buffer + texts.flatten() =~= buffer);
    } else {
        let before = texts.drop_last();
        lemma_texts_in_code_block(language, buffer, before);
        assert(events.drop_last() =~= text_events(before));
        assert(events.last() == MarkdownEventView::Text(texts.last()));
        assert(texts.flatten() =~= before.flatten() + texts.last()) by {
            texts.lemma_flatten_and_flatten_alt_are_equivalent();
            before.lemma_flatten_and_flatten_alt_are_equivalent();
        }
        assert(buffer + before.flatten() + texts.last() =~= buffer + texts.flatten());
    }
}

/// From any state, a whole code block emits exactly one raw-HTML event and
/// leaves the rewriter outside. The HTML carries the block's language and,
/// unescaped, whatever text was pending followed by the block's texts joined
/// without a separator.
pub proof fn lemma_code_block_from(
    state: RewriterView,
    kind: CodeBlockKindView,
    texts: Seq<Seq<char>>,
)
    ensures
        state.after(code_block(kind, texts)) == RewriterView::Outside,
        state.output(code_block(kind, texts)) == seq![
            MarkdownEventView::Html(
                code_block_html(kind.language(), state.buffer() + texts.flatten()),
            ),
        ],
{
    let start = seq![MarkdownEventView::CodeBlockStart(kind)];
    let body = text_events(texts);
    let end = seq![MarkdownEventView::CodeBlockEnd];
    let language = kind.language();
    let opened = RewriterView::InCodeBlock { language, buffer: state.buffer() };
    let filled = RewriterView::InCodeBlock { language, buffer: state.buffer() + texts.flatten() };
    lemma_output_of_one(state, MarkdownEventView::CodeBlockStart(kind));
    lemma_texts_in_code_block(language, state.buffer(), texts);
    lemma_output_of_one(filled, MarkdownEventView::CodeBlockEnd);
    lemma_output_of_concat(state, start, body);
    lemma_output_of_concat(state, start + body, end);
    assert(state.output(start) + opened.output(body) + filled.output(end) =~= seq![
        MarkdownEventView::Html(code_block_html(language, state.buffer() + texts.flatten())),
    ]);
}

/// Each code block becomes exactly one raw-HTML event, which stands where the
/// block stood; none of the block's own events comes through. What precedes
/// the block and what follows it are rewritten as if the block were not there.
pub proof fn law_code_block_collapses<'a>(
    before: Seq<MarkdownEventView<'a>>,
    kind: CodeBlockKindView,
    texts: Seq<Seq<char>>,
    after: Seq<MarkdownEventView<'a>>,
)
    requires
        code_blocks_closed(before),
    ensures
        rewritten(before + code_block(kind, texts) + after) == rewritten(before) + seq![
            MarkdownEventView::Html(code_block_html(kind.language(), texts.flatten())),
        ] + rewritten(after),
{
    let outside = RewriterView::Outside;
    let block = code_block(kind, texts);
    lemma_output_of_concat(outside, before, block);
    lemma_output_of_concat(outside, before + block, after);
    lemma_code_block_from(outside, kind, texts);
    assert(outside.buffer() + texts.flatten() =~= texts.flatten());
}

/// A code block whose body arrives as two texts carries them joined, the
/// first directly followed by the second.
pub proof fn law_code_block_body_is_concatenation(
    kind: CodeBlockKindView,
    first: Seq<char>,
    second: Seq<char>,
)
    ensures
        rewritten(
            seq![
                MarkdownEventView::CodeBlockStart(kind),
                MarkdownEventView::Text(first),
                MarkdownEventView::Text(second),
                MarkdownEventView::CodeBlockEnd,
            ],
        ) == seq![MarkdownEventView::Html(code_block_html(kind.language(), first + second))],
{
    let texts = seq![first, second];
    lemma_code_block_from(RewriterView::Outside, kind, texts);
    assert(code_block(kind, texts) =~= seq![
        MarkdownEventView::CodeBlockStart(kind),
        MarkdownEventView::Text(first),
        MarkdownEventView::Text(second),
        MarkdownEventView::CodeBlockEnd,
    ]);
    assert(texts.flatten() =~= first + second) by {
        let rest = texts.drop_first();
        assert(rest =~= seq![second]);
        assert(rest.drop_first() =~= Seq::<Seq<char>>::empty());
        assert(rest.drop_first().flatten() =~= Seq::<char>::empty());
        assert(rest.flatten() =~= second);
    }
    assert(RewriterView::Outside.buffer() + texts.flatten() =~= first + second);
}

/// A fenced code block with an empty info string is emitted with the class
/// `language-` and nothing after the hyphen.
pub proof fn law_empty_fence_language(texts: Seq<Seq<char>>)
    ensures
        rewritten(code_block(CodeBlockKindView::Fenced(Seq::empty()), texts)) == seq![
            MarkdownEventView::Html(
                "<pre><code class=\"language-\">"@ + texts.flatten() + "</code></pre>"@,
            ),
        ],
{
    let kind = CodeBlockKindView::Fenced(Seq::empty());
    lemma_code_block_from(RewriterView::Outside, kind, texts);
    assert(RewriterView::Outside.buffer() + texts.flatten() =~= texts.flatten());
    reveal_strlit("<pre><code class=\"language-");
    reveal_strlit("\">");
    reveal_strlit("<pre><code class=\"language-\">");
    assert("<pre><code class=\"language-"@ + Seq::<char>::empty() + "\">"@
        =~= "<pre><code class=\"language-\">"@);
}

/// One piece of a document in which every code block is whole: either a
/// single event that neither opens nor closes a code block, or a code block
/// from its start to its end.
pub ghost enum Piece<'a> {
    Single(MarkdownEventView<'a>),
    CodeBlock { kind: CodeBlockKindView, texts: Seq<Seq<char>> },
}

impl<'a> Piece<'a> {
    /// A single event is none of the two that delimit a code block.
    pub open spec fn well_formed(self) -> bool {
        match self {
            Piece::Single(event) => !(event is CodeBlockStart) && !(event is CodeBlockEnd),
            Piece::CodeBlock { kind, texts } => true,
        }
    }

    /// The events that make up the piece.
    pub open spec fn events(self) -> Seq<MarkdownEventView<'a>> {
        match self {
            Piece::Single(event) => seq![event],
            Piece::CodeBlock { kind, texts } => code_block(kind, texts),
        }
    }

    /// The one event that the piece is rewritten to.
    pub open spec fn rewritten(self) -> MarkdownEventView<'a> {
        match self {
            Piece::Single(event) => text_replaced(event),
            Piece::CodeBlock { kind, texts } => MarkdownEventView::Html(
                code_block_html(kind.language(), texts.flatten()),
            ),
        }
    }
}

/// The events of a document made of `pieces`.
pub open spec fn document<'a>(pieces: Seq<Piece<'a>>) -> Seq<MarkdownEventView<'a>> {
    pieces.map_values(|piece: Piece<'a>| piece.events()).flatten()
}

/// Every piece of `pieces` is well formed.
pub open spec fn well_formed<'a>(pieces: Seq<Piece<'a>>) -> bool {
    forall|i: int| 0 <= i < pieces.len() ==> (#[trigger] pieces[i]).well_formed()
}

/// A document in which every code block is whole leaves the rewriter outside.
pub proof fn lemma_document_is_closed<'a>(pieces: Seq<Piece<'a>>)
    requires
        well_formed(pieces),
    ensures
        code_blocks_closed(document(pieces)),
    decreases pieces.len(),
{
    let outside = RewriterView::Outside;
    let events = |piece: Piece<'a>| piece.events();
    if pieces.len() == 0 {
        assert(document(pieces) =~= Seq::empty());
    } else {
        let before = pieces.drop_last();
        let last = pieces.last();
        assert(well_formed(before)) by {
            assert forall|i: int| 0 <= i < before.len() implies (#[trigger] before[i]).well_formed() by {
                assert(before[i] == pieces[i]);
            }
        }
        assert(last == pieces[pieces.len() - 1]);
        lemma_document_is_closed(before);
        assert(document(pieces) == document(before) + last.events()) by {
            assert(pieces.map_values(events) =~= before.map_values(events).push(last.events()));
            before.map_values(events).lemma_flatten_push(last.events());
        }
        lemma_output_of_concat(outside, document(before), last.events());
        match last {
            Piece::Single(event) => {
                lemma_output_of_one(outside, event);
            },
            Piece::CodeBlock { kind, texts } => {
                lemma_code_block_from(outside, kind, texts);
            },
        }
    }
}

/// A document in which every code block is whole is rewritten piece by piece:
/// the output holds exactly one event for each piece, in the order of the
/// pieces. A code block gives its raw HTML, a text gives the text with its
/// emoji shortcodes replaced, and any other event gives itself.
pub proof fn law_piece_by_piece<'a>(pieces: Seq<Piece<'a>>)
    requires
        well_formed(pieces),
    ensures
        rewritten(document(pieces)) == pieces.map_values(|piece: Piece<'a>| piece.rewritten()),
    decreases pieces.len(),
{
    let outside = RewriterView::Outside;
    let events = |piece: Piece<'a>| piece.events();
    let rewrite = |piece: Piece<'a>| piece.rewritten();
    if pieces.len() == 0 {
        assert(document(pieces) =~= Seq::empty());
        assert(rewritten(document(pieces)) =~= pieces.map_values(rewrite));
    } else {
        let before = pieces.drop_last();
        let last = pieces.last();
        assert(well_formed(before)) by {
            assert forall|i: int| 0 <= i < before.len() implies (#[trigger] before[i]).well_formed() by {
                assert(before[i] == pieces[i]);
            }
        }
        assert(last == pieces[pieces.len() - 1]);
        law_piece_by_piece(before);
        lemma_document_is_closed(before);
        assert(document(pieces) == document(before) + last.events()) by {
            assert(pieces.map_values(events) =~= before.map_values(events).push(last.events()));
            before.map_values(events).lemma_flatten_push(last.events());
        }
        lemma_output_of_concat(outside, document(before), last.events());
        match last {
            Piece::Single(event) => {
                lemma_output_of_one(outside, event);
            },
            Piece::CodeBlock { kind, texts } => {
                lemma_code_block_from(outside, kind, texts);
                assert(outside.buffer() + texts.flatten() =~= texts.flatten());
            },
        }
        assert(outside.output(last.events()) =~= seq![last.rewritten()]);
        assert(before.map_values(rewrite) + seq![last.rewritten()] =~= pieces.map_values(rewrite));
    }
}

} // verus!
