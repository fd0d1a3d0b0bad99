use emoji_cmark::{dump_events, report_dry_run, to_decimal, EventSpan};

#[test]
fn decimal_of_small_numbers() {
    assert_eq!(to_decimal(0), "0");
    assert_eq!(to_decimal(7), "7");
    assert_eq!(to_decimal(9), "9");
    assert_eq!(to_decimal(10), "10");
    assert_eq!(to_decimal(1234567890), "1234567890");
}

#[test]
fn decimal_of_the_largest_number() {
    assert_eq!(to_decimal(usize::MAX), usize::MAX.to_string());
}

#[test]
fn decimal_agrees_with_std() {
    let mut n: usize = 0;
    while n < 2000 {
        assert_eq!(to_decimal(n), n.to_string());
        n += 1;
    }
}

#[test]
fn dry_run_report_line() {
    assert_eq!(report_dry_run(0), "0 events\n");
    assert_eq!(report_dry_run(42), "42 events\n");
}

#[test]
fn dump_of_no_events() {
    assert_eq!(dump_events(&Vec::new()), "EOF\n");
}

#[test]
fn dump_of_two_events() {
    let spans = vec![
        EventSpan { start: 0, end: 12, event: "Start(Paragraph)".to_string() },
        EventSpan { start: 3, end: 5, event: "Rule".to_string() },
    ];
    assert_eq!(dump_events(&spans), "0..12: Start(Paragraph)\n3..5: Rule\nEOF\n");
}
