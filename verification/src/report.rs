//! The two diagnostic reports: the event count of a dry run, and the event
//! dump. Both are plain text, built here character for character.

use vstd::prelude::*;
use vstd::string::*;

verus! {

/// The character for a single decimal digit.
pub open spec fn digit(d: nat) -> char
    recommends
        d < 10,
{
    if d == 0 {
        '0'
    } else if d == 1 {
        '1'
    } else if d == 2 {
        '2'
    } else if d == 3 {
        '3'
    } else if d == 4 {
        '4'
    } else if d == 5 {
        '5'
    } else if d == 6 {
        '6'
    } else if d == 7 {
        '7'
    } else if d == 8 {
        '8'
    } else {
        '9'
    }
}

/// A number in decimal, without sign, padding or leading zeros.
pub open spec fn decimal(n: nat) -> Seq<char>
    decreases n,
{
    if n < 10 {
        seq![digit(n)]
    } else {
        decimal(n / 10).push(digit(n % 10))
    }
}

/// The text of one decimal digit.
fn digit_text(d: usize) -> (text: &'static str)
    requires
        d < 10,
    ensures
        text@ == seq![digit(d as nat)],
{
    proof {
        reveal_strlit("0");
        reveal_strlit("1");
        reveal_strlit("2");
        reveal_strlit("3");
        reveal_strlit("4");
        reveal_strlit("5");
        reveal_strlit("6");
        reveal_strlit("7");
        reveal_strlit("8");
        reveal_strlit("9");
    }
    let text = if d == 0 {
        "0"
    } else if d == 1 {
        "1"
    } else if d == 2 {
        "2"
    } else if d == 3 {
        "3"
    } else if d == 4 {
        "4"
    } else if d == 5 {
        "5"
    } else if d == 6 {
        "6"
    } else if d == 7 {
        "7"
    } else if d == 8 {
        "8"
    } else {
        "9"
    };
    assert(text@ =~= seq![digit(d as nat)]);
    text
}

/// Writes a number in decimal.
pub fn to_decimal(n: usize) -> (text: String)
    ensures
        text@ == decimal(n as nat),
    decreases n,
{
    if n < 10 {
        String::from_str(digit_text(n))
    } else {
        let mut text = to_decimal(n / 10);
        text.append(digit_text(n % 10));
        assert(text@ =~= decimal(n as nat));
        text
    }
}

/// What a dry run reports for a document of `count` events: the count and the
/// word `events`, on a line of its own.
pub open spec fn dry_run_report(count: nat) -> Seq<char> {
    decimal(count) + " events\n"@
}

/// Writes the report of a dry run.
pub fn report_dry_run(count: usize) -> (report: String)
    ensures
        report@ == dry_run_report(count as nat),
{
    let mut report = to_decimal(count);
    report.append(" events\n");
    report
}

/// An event as the event dump shows it.
#[derive(Debug, PartialEq, Eq)]
pub struct EventSpan {
    /// The byte offset in the source at which the event starts.
    pub start: usize,
    /// The byte offset in the source at which the event ends.
    pub end: usize,
    /// The event in the parser's debug notation.
    pub event: String,
}

/// The mathematical value of an [`EventSpan`].
pub ghost struct EventSpanView {
    pub start: nat,
    pub end: nat,
    pub event: Seq<char>,
}

impl View for EventSpan {
    type V = EventSpanView;

    open spec fn view(&self) -> EventSpanView {
        EventSpanView { start: self.start as nat, end: self.end as nat, event: self.event@ }
    }
}

impl DeepView for EventSpan {
    type V = EventSpanView;

    open spec fn deep_view(&self) -> EventSpanView {
        self@
    }
}

/// The line of the event dump for one event: its range as `start..end`, a
/// colon and a space, the event, and a line feed.
pub open spec fn dump_line(span: EventSpanView) -> Seq<char> {
    decimal(span.start) + ".."@ + decimal(span.end) + ": "@ + span.event + "\n"@
}

/// The lines of the event dump for `spans`, in order.
pub open spec fn dump_lines(spans: Seq<EventSpanView>) -> Seq<char>
    decreases spans.len(),
{
    if spans.len() == 0 {
        Seq::empty()
    } else {
        dump_lines(spans.drop_last()) + dump_line(spans.last())
    }
}

/// The whole event dump: one line for each event, then the line `EOF`.
pub open spec fn event_dump(spans: Seq<EventSpanView>) -> Seq<char> {
    dump_lines(spans) + "EOF\n"@
}

/// Writes the event dump.
pub fn dump_events(spans: &Vec<EventSpan>) -> (dump: String)
    ensures
        dump@ == event_dump(spans.deep_view()),
{
    let ghost all = spans.deep_view();
    let mut dump = String::new();
    let mut i: usize = 0;
    while i < spans.len()
        invariant
            i <= spans.len(),
            all == spans.deep_view(),
            dump@ == dump_lines(all.take(i as int)),
        decreases spans.len() - i,
    {
        let ghost before = dump@;
        let span = &spans[i];
        let start = to_decimal(span.start);
        let end = to_decimal(span.end);
        dump.append(start.as_str());
        dump.append("..");
        dump.append(end.as_str());
        dump.append(": ");
        dump.append(span.event.as_str());
        dump.append("\n");
        proof {
            let upto = all.take(i as int + 1);
            assert(upto.drop_last() =~= all.take(i as int));
            assert(upto.last() == span@);
            assert(dump@ =~= before + dump_line(span@));
        }
        i += 1;
    }
    assert(all.take(spans.len() as int) =~= all);
    dump.append("EOF\n");
    dump
}

} // verus!
