use rangescan::{
    range, take_until_range, take_while, take_while1, IsDecimalDigit, ParseError, ParseMode,
    ParseOutcome, Parser, Stream,
};

fn chars(s: &str) -> Vec<char> {
    s.chars().collect()
}

fn run<P: Parser>(p: &P, input: &str) -> (ParseOutcome<P::Output>, Stream) {
    let mut s = Stream::new(chars(input), false);
    let mut st = p.fresh_state();
    let r = p.parse(&mut s, ParseMode::First, &mut st);
    (r, s)
}

fn expect_span(r: ParseOutcome<rangescan::Span>, s: &Stream, span: &str, rest: &str) {
    match r {
        ParseOutcome::ConsumedOk(sp) | ParseOutcome::EmptyOk(sp) => {
            assert_eq!(s.span_items(&sp), chars(span));
            assert_eq!(s.remaining_items(), chars(rest));
        }
        _ => panic!("expected a successful parse"),
    }
}

#[test]
fn take_while_test() {
    let p = take_while(IsDecimalDigit);
    let (r, s) = run(&p, "123abc");
    assert!(matches!(r, ParseOutcome::ConsumedOk(_)));
    expect_span(r, &s, "123", "abc");
    let (r, s) = run(&p, "abc");
    assert!(matches!(r, ParseOutcome::EmptyOk(_)));
    expect_span(r, &s, "", "abc");
}

#[test]
fn take_while1_test() {
    let p = take_while1(IsDecimalDigit);
    let (r, s) = run(&p, "123abc");
    assert!(matches!(r, ParseOutcome::ConsumedOk(_)));
    expect_span(r, &s, "123", "abc");
    let (r, s) = run(&p, "abc");
    assert!(matches!(
        r,
        ParseOutcome::EmptyErr(ParseError::PredicateNotSatisfied { at: 0 })
    ));
    assert_eq!(s.remaining_items(), chars("abc"));
}

#[test]
fn range_string_no_char_boundary_error() {
    let p = range(chars("hello"));
    let (r, s) = run(&p, "hell\u{00EE} world");
    assert!(matches!(
        r,
        ParseOutcome::EmptyErr(ParseError::RangeMismatch { at: 0 })
    ));
    assert_eq!(s.remaining_items(), chars("hell\u{00EE} world"));
}

#[test]
fn take_until_range_1() {
    let p = take_until_range(chars("\""));
    let (r, s) = run(&p, "Foo baz bar quux\"");
    expect_span(r, &s, "Foo baz bar quux", "\"");
}

#[test]
fn take_until_range_2() {
    let p = take_until_range(chars("==="));
    let (r, s) = run(&p, "if ((pointless_comparison == 3) === true) {");
    expect_span(r, &s, "if ((pointless_comparison == 3) ", "=== true) {");
}

#[test]
fn take_until_range_unicode_1() {
    let p = take_until_range(chars("\u{1F980}"));
    let (r, s) = run(
        &p,
        "\u{1F603} Ferris the friendly rustacean \u{1F980} and his snake friend \u{1F40D}",
    );
    expect_span(
        r,
        &s,
        "\u{1F603} Ferris the friendly rustacean ",
        "\u{1F980} and his snake friend \u{1F40D}",
    );
}

#[test]
fn take_until_range_unicode_2() {
    let p = take_until_range(chars("\u{2058}\u{2059}/\u{2058}"));
    let (r, s) = run(
        &p,
        "\u{2699}\u{FE0F}\u{1F6E0}\u{FE0F}\u{1F980}=\u{1F3CE}\u{FE0F}\u{2058}\u{2059}\u{2058}\u{2058}\u{2059}/\u{2058}\u{2058}\u{2059}/\u{2058}",
    );
    expect_span(
        r,
        &s,
        "\u{2699}\u{FE0F}\u{1F6E0}\u{FE0F}\u{1F980}=\u{1F3CE}\u{FE0F}\u{2058}\u{2059}\u{2058}",
        "\u{2058}\u{2059}/\u{2058}\u{2058}\u{2059}/\u{2058}",
    );
}
