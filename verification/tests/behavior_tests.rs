use rangescan::{
    range, recognize, recognize_with_value, take, take_until_range, take_while, take_while1,
    IsAsciiLetter, IsDecimalDigit, ParseError, ParseMode, ParseOutcome, Parser, Span, Stream,
};

fn chars(s: &str) -> Vec<char> {
    s.chars().collect()
}

fn run<P: Parser>(p: &P, input: &str) -> (ParseOutcome<P::Output>, Stream) {
    let mut s = Stream::new(chars(input), false);
    let mut st = p.fresh_state();
    let r = p.parse(&mut s, ParseMode::First, &mut st);
    (r, s)
}

fn span_of<T>(r: &ParseOutcome<T>, pick: fn(&T) -> Span) -> Span {
    match r {
        ParseOutcome::ConsumedOk(v) | ParseOutcome::EmptyOk(v) => pick(v),
        _ => panic!("expected a successful parse"),
    }
}

#[test]
fn take_exact_prefix_and_remainder() {
    let p = take(4);
    let (r, s) = run(&p, "123abc");
    let sp = span_of(&r, |sp| *sp);
    assert!(matches!(r, ParseOutcome::ConsumedOk(_)));
    assert_eq!(sp.len(), 4);
    assert_eq!(s.span_items(&sp), chars("123a"));
    assert_eq!(s.remaining_items(), chars("bc"));
}

#[test]
fn take_short_input_leaves_cursor() {
    let p = take(4);
    let (r, s) = run(&p, "abc");
    assert!(matches!(
        r,
        ParseOutcome::EmptyErr(ParseError::InsufficientInput { at: 0 })
    ));
    assert_eq!(s.remaining_items(), chars("abc"));
}

#[test]
fn take_zero_is_empty_success() {
    let p = take(0);
    let (r, s) = run(&p, "abc");
    let sp = span_of(&r, |sp| *sp);
    assert!(matches!(r, ParseOutcome::EmptyOk(_)));
    assert_eq!(sp.len(), 0);
    assert_eq!(s.remaining_items(), chars("abc"));
}

#[test]
fn take_while_leftover_never_matches_more() {
    let p = take_while(IsDecimalDigit);
    let mut s = Stream::new(chars("123abc"), false);
    let mut st = p.fresh_state();
    let r1 = p.parse(&mut s, ParseMode::First, &mut st);
    assert!(matches!(r1, ParseOutcome::ConsumedOk(_)));
    // re-run on the untouched leftover: must match nothing
    let mut st2 = p.fresh_state();
    let r2 = p.parse(&mut s, ParseMode::First, &mut st2);
    match r2 {
        ParseOutcome::EmptyOk(sp) => assert_eq!(sp.len(), 0),
        _ => panic!("expected an empty success"),
    }
    assert_eq!(s.remaining_items(), chars("abc"));
}

#[test]
fn take_while_whole_input() {
    let p = take_while(IsDecimalDigit);
    let (r, s) = run(&p, "1234");
    let sp = span_of(&r, |sp| *sp);
    assert_eq!(s.span_items(&sp), chars("1234"));
    assert_eq!(s.remaining_items(), chars(""));
}

#[test]
fn take_while_empty_input() {
    let p = take_while(IsDecimalDigit);
    let (r, _s) = run(&p, "");
    assert!(matches!(r, ParseOutcome::EmptyOk(_)));
}

#[test]
fn range_matches_exact_prefix() {
    let p = range(chars("hello"));
    let (r, s) = run(&p, "hello world");
    let sp = span_of(&r, |sp| *sp);
    assert!(matches!(r, ParseOutcome::ConsumedOk(_)));
    assert_eq!(s.span_items(&sp), chars("hello"));
    assert_eq!(s.remaining_items(), chars(" world"));
}

#[test]
fn range_short_input_is_insufficient() {
    let p = range(chars("hello"));
    let (r, s) = run(&p, "hel");
    assert!(matches!(
        r,
        ParseOutcome::EmptyErr(ParseError::InsufficientInput { at: 0 })
    ));
    assert_eq!(s.remaining_items(), chars("hel"));
}

#[test]
fn recognize_letters_scenario() {
    let p = recognize(take_while1(IsAsciiLetter));
    let (r, s) = run(&p, "hello world");
    let sp = span_of(&r, |sp| *sp);
    assert!(matches!(r, ParseOutcome::ConsumedOk(_)));
    assert_eq!(s.span_items(&sp), chars("hello"));
    assert_eq!(s.remaining_items(), chars(" world"));
    let (r, s) = run(&p, "!");
    assert!(matches!(r, ParseOutcome::EmptyErr(_)));
    assert_eq!(s.remaining_items(), chars("!"));
}

#[test]
fn recognize_with_value_keeps_inner_output() {
    let p = recognize_with_value(take(3));
    let (r, s) = run(&p, "abcdef");
    match r {
        ParseOutcome::ConsumedOk((sp, inner)) => {
            assert_eq!(s.span_items(&sp), chars("abc"));
            assert_eq!(s.span_items(&inner), chars("abc"));
            assert_eq!(s.remaining_items(), chars("def"));
        }
        _ => panic!("expected a consumed success"),
    }
}

#[test]
fn take_until_crlf_scenario() {
    let p = take_until_range(chars("\r\n"));
    let (r, s) = run(&p, "To: a@b.com\r\n");
    let sp = span_of(&r, |sp| *sp);
    assert_eq!(s.span_items(&sp), chars("To: a@b.com"));
    assert_eq!(s.remaining_items(), chars("\r\n"));
}

#[test]
fn take_until_equals_scenario() {
    let p = take_until_range(chars("==="));
    let (r, s) = run(&p, "if ((x == 3) === true) {");
    let sp = span_of(&r, |sp| *sp);
    assert_eq!(s.span_items(&sp), chars("if ((x == 3) "));
    assert_eq!(s.remaining_items(), chars("=== true) {"));
}

#[test]
fn take_until_stops_at_first_of_several() {
    let p = take_until_range(chars("--"));
    let (r, s) = run(&p, "a--b--c");
    let sp = span_of(&r, |sp| *sp);
    assert_eq!(s.span_items(&sp), chars("a"));
    assert_eq!(s.remaining_items(), chars("--b--c"));
}

#[test]
fn take_until_absent_target_not_found() {
    let p = take_until_range(chars("\r\n"));
    let (r, s) = run(&p, "Hello, world\n");
    assert!(matches!(
        r,
        ParseOutcome::EmptyErr(ParseError::TargetNotFound { at: 12 })
    ));
    assert_eq!(s.remaining_items(), chars("Hello, world\n"));
}

#[test]
fn take_until_target_at_start_is_empty_success() {
    let p = take_until_range(chars("ab"));
    let (r, s) = run(&p, "abcd");
    match r {
        ParseOutcome::EmptyOk(sp) => assert_eq!(sp.len(), 0),
        _ => panic!("expected an empty success"),
    }
    assert_eq!(s.remaining_items(), chars("abcd"));
}

#[test]
fn take_suspends_and_resumes_on_chunks() {
    let p = take(5);
    let mut s = Stream::new(chars("ab"), true);
    let mut st = p.fresh_state();
    let r1 = p.parse(&mut s, ParseMode::First, &mut st);
    assert!(matches!(
        r1,
        ParseOutcome::ConsumedErr(ParseError::InsufficientInput { at: 0 })
    ));
    assert_eq!(s.remaining_items(), chars("ab"));
    s.extend_with(chars("cde"));
    let r2 = p.parse(&mut s, ParseMode::Resume, &mut st);
    match r2 {
        ParseOutcome::ConsumedOk(sp) => assert_eq!(s.span_items(&sp), chars("abcde")),
        _ => panic!("expected a consumed success"),
    }
}

#[test]
fn take_while_chunked_agrees_with_whole() {
    let p = take_while(IsDecimalDigit);
    // whole input at once
    let (rw, sw) = run(&p, "123a");
    let whole = s_items(&rw, &sw);
    // the same input in two chunks
    let mut s = Stream::new(chars("12"), true);
    let mut st = p.fresh_state();
    let r1 = p.parse(&mut s, ParseMode::First, &mut st);
    assert!(matches!(r1, ParseOutcome::ConsumedErr(_)));
    assert_eq!(st, 2);
    assert_eq!(s.remaining_items(), chars("12"));
    s.extend_with(chars("3a"));
    let r2 = p.parse(&mut s, ParseMode::Resume, &mut st);
    let chunked = s_items(&r2, &s);
    assert_eq!(whole, chunked);
    assert_eq!(chunked, chars("123"));
    assert_eq!(s.remaining_items(), chars("a"));
    // a resumed success clears the stored distance
    assert_eq!(st, 0);
}

#[test]
fn take_while_resume_after_completion() {
    // when the stream is declared complete before the resumed call, the
    // scan runs directly and no resumption bookkeeping is touched
    let p = take_while(IsDecimalDigit);
    let mut s = Stream::new(chars("12"), true);
    let mut st = p.fresh_state();
    let r1 = p.parse(&mut s, ParseMode::First, &mut st);
    assert!(matches!(r1, ParseOutcome::ConsumedErr(_)));
    s.extend_with(chars("3a"));
    s.complete();
    let r2 = p.parse(&mut s, ParseMode::Resume, &mut st);
    let chunked = s_items(&r2, &s);
    assert_eq!(chunked, chars("123"));
    assert_eq!(st, 2);
}

#[test]
fn take_while1_chunked_zero_then_more() {
    let p = take_while1(IsDecimalDigit);
    // nothing available yet: suspend without having matched anything
    let mut s = Stream::new(chars(""), true);
    let mut st = p.fresh_state();
    let r1 = p.parse(&mut s, ParseMode::First, &mut st);
    assert!(matches!(r1, ParseOutcome::ConsumedErr(_)));
    s.extend_with(chars("7x"));
    let r2 = p.parse(&mut s, ParseMode::Resume, &mut st);
    match r2 {
        ParseOutcome::ConsumedOk(sp) => assert_eq!(s.span_items(&sp), chars("7")),
        _ => panic!("expected a consumed success"),
    }
    assert_eq!(s.remaining_items(), chars("x"));
}

#[test]
fn take_until_target_straddles_chunk_boundary() {
    let p = take_until_range(chars("::"));
    let mut s = Stream::new(chars("ab:"), true);
    let mut st = p.fresh_state();
    let r1 = p.parse(&mut s, ParseMode::First, &mut st);
    // the lone ':' may be the start of the target: suspend, remembering
    // the earliest point a match could begin
    assert!(matches!(
        r1,
        ParseOutcome::ConsumedErr(ParseError::InsufficientInput { at: 2 })
    ));
    assert_eq!(s.remaining_items(), chars("ab:"));
    s.extend_with(chars(":cd"));
    let r2 = p.parse(&mut s, ParseMode::Resume, &mut st);
    match r2 {
        ParseOutcome::ConsumedOk(sp) => assert_eq!(s.span_items(&sp), chars("ab")),
        _ => panic!("expected a consumed success"),
    }
    assert_eq!(s.remaining_items(), chars("::cd"));
    assert_eq!(st, 0);
}

#[test]
fn recognize_chunked_spans_whole_match() {
    let p = recognize(take_while1(IsAsciiLetter));
    let mut s = Stream::new(chars("he"), true);
    let mut st = p.fresh_state();
    let r1 = p.parse(&mut s, ParseMode::First, &mut st);
    assert!(matches!(r1, ParseOutcome::ConsumedErr(_)));
    assert_eq!(s.remaining_items(), chars("he"));
    s.extend_with(chars("llo "));
    let r2 = p.parse(&mut s, ParseMode::Resume, &mut st);
    match r2 {
        ParseOutcome::ConsumedOk(sp) => assert_eq!(s.span_items(&sp), chars("hello")),
        _ => panic!("expected a consumed success"),
    }
    assert_eq!(s.remaining_items(), chars(" "));
    assert_eq!(st.0, 0);
}

fn s_items(r: &ParseOutcome<Span>, s: &Stream) -> Vec<char> {
    match r {
        ParseOutcome::ConsumedOk(sp) | ParseOutcome::EmptyOk(sp) => s.span_items(sp),
        _ => panic!("expected a successful parse"),
    }
}
