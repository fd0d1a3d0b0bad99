//! From Markdown source to the text that a run writes out.

use pulldown_cmark::Options;
use vstd::prelude::*;

use crate::event::MarkdownEvent;
use crate::markdown::{html_of, parse, parse_spans, parsed, parsed_spans, push_html};
use crate::report::{dry_run_report, dump_events, event_dump, report_dry_run};
use crate::rewriter::{rewrite, rewritten};

verus! {

/// Rewrites `events` and serializes the result as HTML.
pub fn render<'a>(events: Vec<MarkdownEvent<'a>>) -> (html: String)
    ensures
        html@ == html_of(rewritten(events.deep_view())),
{
    push_html(rewrite(events))
}

/// Renders Markdown source as HTML: the source is parsed under `opts`, the
/// events are rewritten, and the rewritten events are serialized.
pub fn pulldown_cmark(input: &str, opts: Options) -> (html: String)
    ensures
        html@ == html_of(rewritten(parsed(input@, opts))),
{
    render(parse(input, opts))
}

/// Reports how many events the parser produces for `text` under `opts`. The
/// events are counted as the parser yields them, before any rewriting.
pub fn perform_dry_run(text: &str, opts: Options) -> (report: String)
    ensures
        report@ == dry_run_report(parsed(text@, opts).len()),
{
    let events = parse(text, opts);
    assert(events.deep_view().len() == events.len());
    report_dry_run(events.len())
}

/// Lists the events the parser produces for `text` under `opts`, one line
/// each with the event's range in the source, and `EOF` on a last line. The
/// events are listed as the parser yields them, before any rewriting.
pub fn print_events(text: &str, opts: Options) -> (dump: String)
    ensures
        dump@ == event_dump(parsed_spans(text@, opts)),
{
    let spans = parse_spans(text, opts);
    dump_events(&spans)
}

/// What a run writes out for `input`: the event dump when `events` is set,
/// else the dry-run report when `dry_run` is set, else the rendered HTML.
pub open spec fn processed(input: Seq<char>, dry_run: bool, events: bool, opts: Options) -> Seq<
    char,
> {
    if events {
        event_dump(parsed_spans(input, opts))
    } else if dry_run {
        dry_run_report(parsed(input, opts).len())
    } else {
        html_of(rewritten(parsed(input, opts)))
    }
}

/// Processes one document in the mode that the two flags select and returns
/// the text to write out.
pub fn process_input(input: &str, dry_run: bool, events: bool, opts: Options) -> (output: String)
    ensures
        output@ == processed(input@, dry_run, events, opts),
{
    if events {
        print_events(input, opts)
    } else if dry_run {
        perform_dry_run(input, opts)
    } else {
        pulldown_cmark(input, opts)
    }
}

} // verus!
