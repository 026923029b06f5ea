use linecolor::context::Context;

fn args(list: &[&str]) -> Vec<Vec<u8>> {
    list.iter().map(|s| s.as_bytes().to_vec()).collect()
}

fn chain(list: &[&str]) -> Context {
    Context::new(args(list)).unwrap()
}

fn eval(ctx: &mut Context, line: &str) -> Option<String> {
    ctx.evaluate(&line.as_bytes().to_vec()).map(|v| String::from_utf8(v).unwrap())
}

fn to_ansi(s: linecolor::style::Style) -> ansi_term::Style {
    let mut t = ansi_term::Style::new()
        .on(ansi_term::Colour::Fixed(s.bg))
        .fg(ansi_term::Colour::Fixed(s.fg));
    if s.reverse {
        t = t.reverse();
    }
    if s.bold {
        t = t.bold();
    }
    if s.underline {
        t = t.underline();
    }
    t
}

/// The style of the k-th (0-based) style-drawing command of a chain.
fn cmd_style(k: usize) -> ansi_term::Style {
    let mut g = linecolor::style::StyleGenerator::new(false, true, true);
    let mut s = g.next();
    for _ in 0..k {
        s = g.next();
    }
    to_ansi(s)
}

/// The style of the k-th (0-based) thread identifier seen in a run.
fn thread_style(k: usize) -> ansi_term::Style {
    let mut g = linecolor::style::StyleGenerator::new(true, true, false);
    let mut s = g.next();
    for _ in 0..k {
        s = g.next();
    }
    to_ansi(s)
}

#[test]
fn empty_chain_is_identity() {
    let mut ctx = Context::empty();
    assert_eq!(eval(&mut ctx, "hello world"), Some("hello world".to_string()));
    assert_eq!(eval(&mut ctx, ""), Some("".to_string()));
}

#[test]
fn single_filter_emits_iff_match() {
    let mut ctx = chain(&["fn:cat"]);
    assert_eq!(eval(&mut ctx, "a cat sat"), Some("a cat sat".to_string()));
    assert_eq!(eval(&mut ctx, "a dog sat"), None);
    // matching is case-insensitive
    assert_eq!(eval(&mut ctx, "a CAT sat"), Some("a CAT sat".to_string()));
}

#[test]
fn highlighting_filter_paints_matches() {
    let mut ctx = chain(&["cat"]);
    let painted = cmd_style(0).paint("cat").to_string();
    assert_eq!(eval(&mut ctx, "a cat sat"), Some(format!("a {} sat", painted)));
    assert_eq!(eval(&mut ctx, "cat and cat"), Some(format!("{} and {}", painted, painted)));
    assert_eq!(eval(&mut ctx, "no match"), None);
}

#[test]
fn two_positive_filters_act_as_alternatives() {
    let mut ctx = chain(&["fn:cat", "fn:dog"]);
    assert_eq!(eval(&mut ctx, "one cat"), Some("one cat".to_string()));
    assert_eq!(eval(&mut ctx, "one dog"), Some("one dog".to_string()));
    assert_eq!(eval(&mut ctx, "one bird"), None);
}

#[test]
fn negative_filter_vetoes() {
    let mut ctx = chain(&["fn:cat", "n:black"]);
    assert_eq!(eval(&mut ctx, "a black cat"), None);
    assert_eq!(eval(&mut ctx, "a white cat"), Some("a white cat".to_string()));
    assert_eq!(eval(&mut ctx, "a black dog"), None);
}

#[test]
fn substitution_rewrites_output() {
    let mut ctx = chain(&["s:#apple#strawberry"]);
    assert_eq!(eval(&mut ctx, "an apple pie"), Some("an strawberry pie".to_string()));
    assert_eq!(eval(&mut ctx, "no fruit"), Some("no fruit".to_string()));
}

#[test]
fn substitution_expands_named_captures() {
    let mut ctx = chain(&["s:/(?<w>big|small)/${w}ish"]);
    assert_eq!(eval(&mut ctx, "a big dog"), Some("a bigish dog".to_string()));
}

#[test]
fn substitution_with_empty_replacement_deletes() {
    let mut ctx = chain(&["s:#cat#"]);
    assert_eq!(eval(&mut ctx, "a cat"), Some("a ".to_string()));
}

#[test]
fn substitution_feeds_later_time_filter() {
    // The substitution turns the malformed timestamp into a well-formed
    // one, which the time filter then accepts.
    let mut ctx = chain(&["s:#T=#0:", "ft:0:00:05-"]);
    assert_eq!(eval(&mut ctx, "T=00:07 ok"), Some("0:00:07 ok".to_string()));
    // Without the substitution the same line never opens the range.
    let mut bare = chain(&["ft:0:00:05-"]);
    assert_eq!(eval(&mut bare, "T=00:07 ok"), None);
}

#[test]
fn time_range_boundaries() {
    let mut ctx = chain(&["ft:0:00:05-0:00:06"]);
    // before the range: excluded by the initial closed block
    assert_eq!(eval(&mut ctx, "0:00:04 before"), None);
    // the range opens
    assert_eq!(eval(&mut ctx, "0:00:05 begin"), Some("0:00:05 begin".to_string()));
    // a line without a timestamp stays inside the open block
    assert_eq!(eval(&mut ctx, "no timestamp here"), Some("no timestamp here".to_string()));
    // a line exactly at the end bound is still printed ...
    assert_eq!(eval(&mut ctx, "0:00:06 at end"), Some("0:00:06 at end".to_string()));
    // ... but the very next line is suppressed, whatever it holds
    assert_eq!(eval(&mut ctx, "0:00:05 too late"), None);
    assert_eq!(eval(&mut ctx, "anything"), None);
}

#[test]
fn time_past_end_is_suppressed_at_once() {
    let mut ctx = chain(&["ft:0:00:05-0:00:06"]);
    assert_eq!(eval(&mut ctx, "0:00:07 after"), None);
}

#[test]
fn open_ended_time_filter_keeps_everything() {
    let mut ctx = chain(&["ft:-"]);
    assert_eq!(eval(&mut ctx, "5 numbered"), Some("5 numbered".to_string()));
    assert_eq!(eval(&mut ctx, "plain"), Some("plain".to_string()));
}

#[test]
fn thread_highlighting_is_stable_and_ordered() {
    let mut ctx = chain(&["ht:"]);
    let first = thread_style(0).paint("0x1ee2320").to_string();
    let second = thread_style(1).paint("0x1f01598").to_string();
    assert_eq!(
        eval(&mut ctx, "0:00:01 739 0x1ee2320 DEBUG a"),
        Some(format!("0:00:01 739 {} DEBUG a", first))
    );
    // a different identifier receives a different style
    assert_eq!(
        eval(&mut ctx, "0:00:02 739 0x1f01598 INFO b"),
        Some(format!("0:00:02 739 {} INFO b", second))
    );
    assert_ne!(first, second);
    // the first identifier keeps its style on a later line
    assert_eq!(
        eval(&mut ctx, "0:00:03 739 0x1ee2320 WARN c"),
        Some(format!("0:00:03 739 {} WARN c", first))
    );
}

#[test]
fn thread_highlighting_ignores_other_tokens() {
    let mut ctx = chain(&["ht:"]);
    assert_eq!(eval(&mut ctx, "a b c d"), Some("a b c d".to_string()));
    assert_eq!(eval(&mut ctx, "too few"), Some("too few".to_string()));
}

#[test]
fn filter_only_chain_round_trips() {
    let mut first = chain(&["fn:cat", "n:dog"]);
    let out = eval(&mut first, "a cat here").unwrap();
    assert_eq!(out, "a cat here");
    let mut second = chain(&["fn:cat", "n:dog"]);
    assert_eq!(eval(&mut second, &out), Some(out.clone()));
    assert_eq!(eval(&mut first, "cat dog"), None);
}

#[test]
fn closed_block_skips_highlights_but_not_substitutions() {
    // The highlight stands before the time filter, so on the line that
    // opens the range it still sees the closed block and paints nothing.
    let mut ctx = chain(&["h:cat", "ft:0:00:05-"]);
    assert_eq!(eval(&mut ctx, "0:00:06 cat"), Some("0:00:06 cat".to_string()));
    // On the next line the block is open and the highlight runs.
    let painted = cmd_style(0).paint("cat").to_string();
    assert_eq!(eval(&mut ctx, "0:00:07 cat"), Some(format!("0:00:07 {}", painted)));
}

#[test]
fn veto_skips_filters_entirely() {
    // Inside a closed block even a matching filter cannot rescue the line.
    let mut ctx = chain(&["fn:cat", "ft:0:00:05-"]);
    assert_eq!(eval(&mut ctx, "cat without timestamp"), None);
}
