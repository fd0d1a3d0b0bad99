use emoji_cmark::{render_code_block, rewrite, CodeBlockKind, MarkdownEvent, Rewriter};
use pulldown_cmark::{Event, HeadingLevel, Tag, TagEnd};

fn text(s: &str) -> MarkdownEvent<'static> {
    MarkdownEvent::Text(s.to_string())
}

fn html(s: &str) -> MarkdownEvent<'static> {
    MarkdownEvent::Html(s.to_string())
}

fn fenced(info: &str) -> MarkdownEvent<'static> {
    MarkdownEvent::CodeBlockStart(CodeBlockKind::Fenced(info.to_string()))
}

#[test]
fn empty_document_rewrites_to_nothing() {
    assert_eq!(rewrite(Vec::new()), Vec::new());
}

#[test]
fn text_outside_code_has_emoji_replaced() {
    let out = rewrite(vec![text("Hi :smile:")]);
    assert_eq!(out, vec![text("Hi \u{1F604}")]);
}

#[test]
fn unknown_shortcode_is_left_alone() {
    let out = rewrite(vec![text("hello :not_emoji_404: world")]);
    assert_eq!(out, vec![text("hello :not_emoji_404: world")]);
}

#[test]
fn heading_with_shortcode() {
    let start = || {
        MarkdownEvent::Other(Event::Start(Tag::Heading {
            level: HeadingLevel::H1,
            id: None,
            classes: Vec::new(),
            attrs: Vec::new(),
        }))
    };
    let end = || MarkdownEvent::Other(Event::End(TagEnd::Heading(HeadingLevel::H1)));
    let out = rewrite(vec![start(), text("Hi :smile:"), end()]);
    assert_eq!(out, vec![start(), text("Hi \u{1F604}"), end()]);
}

#[test]
fn fenced_block_becomes_one_html_event() {
    let out = rewrite(vec![fenced("rust"), text("fn main() {}"), MarkdownEvent::CodeBlockEnd]);
    assert_eq!(
        out,
        vec![html("<pre><code class=\"language-rust\">fn main() {}</code></pre>")]
    );
}

#[test]
fn code_block_texts_are_joined_without_separator() {
    let out = rewrite(vec![fenced("x"), text("foo"), text("bar"), MarkdownEvent::CodeBlockEnd]);
    assert_eq!(out, vec![html("<pre><code class=\"language-x\">foobar</code></pre>")]);
}

#[test]
fn empty_fence_info_gives_empty_language() {
    let out = rewrite(vec![fenced(""), text("a"), MarkdownEvent::CodeBlockEnd]);
    assert_eq!(out, vec![html("<pre><code class=\"language-\">a</code></pre>")]);
}

#[test]
fn indented_block_has_empty_language() {
    let out = rewrite(vec![
        MarkdownEvent::CodeBlockStart(CodeBlockKind::Indented),
        text("a\n"),
        MarkdownEvent::CodeBlockEnd,
    ]);
    assert_eq!(out, vec![html("<pre><code class=\"language-\">a\n</code></pre>")]);
}

#[test]
fn empty_code_block_body() {
    let out = rewrite(vec![fenced("X"), MarkdownEvent::CodeBlockEnd]);
    assert_eq!(out, vec![html("<pre><code class=\"language-X\"></code></pre>")]);
}

#[test]
fn code_body_is_not_escaped_and_not_substituted() {
    let out = rewrite(vec![fenced("html"), text("<b>:smile:</b> & co"), MarkdownEvent::CodeBlockEnd]);
    assert_eq!(
        out,
        vec![html("<pre><code class=\"language-html\"><b>:smile:</b> & co</code></pre>")]
    );
}

#[test]
fn full_info_string_is_the_language() {
    let out = rewrite(vec![fenced("rust,ignore no_run"), text("x"), MarkdownEvent::CodeBlockEnd]);
    assert_eq!(
        out,
        vec![html("<pre><code class=\"language-rust,ignore no_run\">x</code></pre>")]
    );
}

#[test]
fn language_does_not_leak_into_the_next_block() {
    let out = rewrite(vec![
        fenced("rust"),
        text("a"),
        MarkdownEvent::CodeBlockEnd,
        MarkdownEvent::CodeBlockStart(CodeBlockKind::Indented),
        text("b"),
        MarkdownEvent::CodeBlockEnd,
    ]);
    assert_eq!(
        out,
        vec![
            html("<pre><code class=\"language-rust\">a</code></pre>"),
            html("<pre><code class=\"language-\">b</code></pre>"),
        ]
    );
}

#[test]
fn second_start_overwrites_the_language() {
    let out = rewrite(vec![
        fenced("first"),
        text("a"),
        fenced("second"),
        text("b"),
        MarkdownEvent::CodeBlockEnd,
    ]);
    assert_eq!(out, vec![html("<pre><code class=\"language-second\">ab</code></pre>")]);
}

#[test]
fn end_without_start_emits_an_empty_block() {
    let out = rewrite(vec![MarkdownEvent::CodeBlockEnd]);
    assert_eq!(out, vec![html("<pre><code class=\"language-\"></code></pre>")]);
}

#[test]
fn shortcode_split_over_two_texts_is_not_replaced() {
    let out = rewrite(vec![text(":smi"), text("le:")]);
    assert_eq!(out, vec![text(":smi"), text("le:")]);
}

#[test]
fn other_events_pass_through_in_order() {
    let rule = || MarkdownEvent::Other(Event::Rule);
    let soft = || MarkdownEvent::Other(Event::SoftBreak);
    let code = || MarkdownEvent::Other(Event::Code(":smile:".into()));
    let out = rewrite(vec![rule(), html("<hr>"), soft(), code(), text("a")]);
    assert_eq!(out, vec![rule(), html("<hr>"), soft(), code(), text("a")]);
}

#[test]
fn block_stands_where_it_stood() {
    let para = || MarkdownEvent::Other(Event::Start(Tag::Paragraph));
    let para_end = || MarkdownEvent::Other(Event::End(TagEnd::Paragraph));
    let out = rewrite(vec![
        para(),
        text("before :cat:"),
        para_end(),
        fenced("c"),
        text("int x;\n"),
        MarkdownEvent::CodeBlockEnd,
        para(),
        text("after"),
        para_end(),
    ]);
    assert_eq!(
        out,
        vec![
            para(),
            text("before \u{1F431}"),
            para_end(),
            html("<pre><code class=\"language-c\">int x;\n</code></pre>"),
            para(),
            text("after"),
            para_end(),
        ]
    );
}

#[test]
fn text_without_shortcodes_round_trips() {
    let para = || MarkdownEvent::Other(Event::Start(Tag::Paragraph));
    let para_end = || MarkdownEvent::Other(Event::End(TagEnd::Paragraph));
    let out = rewrite(vec![para(), text("plain text, 10:30 : ok"), para_end()]);
    assert_eq!(out, vec![para(), text("plain text, 10:30 : ok"), para_end()]);
}

#[test]
fn step_by_step() {
    let state = Rewriter::new();
    assert_eq!(state, Rewriter::Outside);
    let (state, out) = state.step(fenced("py"));
    assert_eq!(out, None);
    assert_eq!(
        state,
        Rewriter::InCodeBlock { language: "py".to_string(), buffer: String::new() }
    );
    let (state, out) = state.step(text("print(1)\n"));
    assert_eq!(out, None);
    assert_eq!(
        state,
        Rewriter::InCodeBlock { language: "py".to_string(), buffer: "print(1)\n".to_string() }
    );
    let (state, out) = state.step(MarkdownEvent::Other(Event::HardBreak));
    assert_eq!(out, Some(MarkdownEvent::Other(Event::HardBreak)));
    let (state, out) = state.step(MarkdownEvent::CodeBlockEnd);
    assert_eq!(out, Some(html("<pre><code class=\"language-py\">print(1)\n</code></pre>")));
    assert_eq!(state, Rewriter::Outside);
    let (state, out) = state.step(text(":+1:"));
    assert_eq!(out, Some(text("\u{1F44D}")));
    assert_eq!(state, Rewriter::Outside);
}

#[test]
fn code_block_template_is_exact() {
    assert_eq!(render_code_block("", ""), "<pre><code class=\"language-\"></code></pre>");
    assert_eq!(
        render_code_block("rust", "a < b && \"c\""),
        "<pre><code class=\"language-rust\">a < b && \"c\"</code></pre>"
    );
}
