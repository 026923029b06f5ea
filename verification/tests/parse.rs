use linecolor::command::{Command, ParseError, RunOption};
use linecolor::command::LineSelection;
use linecolor::context::Context;

fn args(list: &[&str]) -> Vec<Vec<u8>> {
    list.iter().map(|s| s.as_bytes().to_vec()).collect()
}

#[test]
fn classifies_every_command_kind() {
    let ctx = Context::new(args(&[
        "one",
        "fc:two",
        "fn:three",
        "n:four",
        "h:five",
        "s:#a#b",
        "ft:1-2",
        "ht:",
    ]))
    .unwrap();
    assert_eq!(ctx.commands.len(), 8);
    match &ctx.commands[0] {
        Command::Filter(m, _, negative, highlight) => {
            assert_eq!(m.pattern(), b"one");
            assert!(!negative);
            assert!(highlight);
        },
        other => panic!("unexpected command: {:?}", other),
    }
    match &ctx.commands[1] {
        Command::Filter(m, _, negative, highlight) => {
            assert_eq!(m.pattern(), b"two");
            assert!(!negative);
            assert!(highlight);
        },
        other => panic!("unexpected command: {:?}", other),
    }
    match &ctx.commands[2] {
        Command::Filter(m, _, negative, highlight) => {
            assert_eq!(m.pattern(), b"three");
            assert!(!negative);
            assert!(!highlight);
        },
        other => panic!("unexpected command: {:?}", other),
    }
    match &ctx.commands[3] {
        Command::Filter(m, _, negative, highlight) => {
            assert_eq!(m.pattern(), b"four");
            assert!(negative);
            assert!(!highlight);
        },
        other => panic!("unexpected command: {:?}", other),
    }
    match &ctx.commands[4] {
        Command::Highlight(m, _) => {
            assert_eq!(m.pattern(), b"five");
        },
        other => panic!("unexpected command: {:?}", other),
    }
    match &ctx.commands[5] {
        Command::Substitution(m, replacement) => {
            assert_eq!(m.pattern(), b"a");
            assert_eq!(replacement, b"b");
        },
        other => panic!("unexpected command: {:?}", other),
    }
    match &ctx.commands[6] {
        Command::FilterTime(begin, end) => {
            assert_eq!(begin, b"1");
            assert_eq!(end, b"2");
        },
        other => panic!("unexpected command: {:?}", other),
    }
    assert!(matches!(ctx.commands[7], Command::HighlightThreads));
}

#[test]
fn distinct_styles_per_command() {
    let ctx = Context::new(args(&["one", "fc:two", "h:three"])).unwrap();
    let mut pairs = Vec::new();
    for c in &ctx.commands {
        match c {
            Command::Filter(_, s, _, _) => pairs.push((s.fg, s.bg)),
            Command::Highlight(_, s) => pairs.push((s.fg, s.bg)),
            _ => {},
        }
    }
    assert_eq!(pairs.len(), 3);
    assert_ne!(pairs[0], pairs[1]);
    assert_ne!(pairs[1], pairs[2]);
    assert_ne!(pairs[0], pairs[2]);
}

#[test]
fn invalid_option_is_reported() {
    let e = Context::new(args(&["-x"])).unwrap_err();
    assert_eq!(e, ParseError::InvalidOption(b"-x".to_vec()));
}

#[test]
fn malformed_pattern_is_reported() {
    let e = Context::new(args(&["fc:("])).unwrap_err();
    assert_eq!(e, ParseError::MalformedPattern(b"(".to_vec()));
}

#[test]
fn malformed_substitutions_are_reported() {
    let e = Context::new(args(&["s:"])).unwrap_err();
    assert_eq!(e, ParseError::MalformedCommand(b"s:".to_vec()));
    let e = Context::new(args(&["s:#onlyone"])).unwrap_err();
    assert_eq!(e, ParseError::MalformedCommand(b"s:#onlyone".to_vec()));
    let e = Context::new(args(&["s:#a#b#c"])).unwrap_err();
    assert_eq!(e, ParseError::MalformedCommand(b"s:#a#b#c".to_vec()));
}

#[test]
fn malformed_time_filters_are_reported() {
    let e = Context::new(args(&["ft:nodelimiter"])).unwrap_err();
    assert_eq!(e, ParseError::MalformedCommand(b"ft:nodelimiter".to_vec()));
    let e = Context::new(args(&["ft:1-2-3"])).unwrap_err();
    assert_eq!(e, ParseError::MalformedCommand(b"ft:1-2-3".to_vec()));
}

#[test]
fn help_stops_argument_processing() {
    let ctx = Context::new(args(&["cat", "-h", "-x", "fc:("])).unwrap();
    assert_eq!(ctx.options, vec![RunOption::Help]);
    assert_eq!(ctx.commands.len(), 1);
    let ctx = Context::new(args(&["--help"])).unwrap();
    assert_eq!(ctx.options, vec![RunOption::Help]);
}

#[test]
fn time_filter_with_begin_starts_forbidden() {
    let ctx = Context::new(args(&["ft:0:00:05-"])).unwrap();
    assert_eq!(
        ctx.multiline_selection_state.multiline_selection,
        LineSelection::ExplicitlyForbidden
    );
    assert!(!ctx.multiline_selection_state.forbid_next_line);
    let ctx = Context::new(args(&["ft:-0:00:06"])).unwrap();
    assert_eq!(ctx.multiline_selection_state.multiline_selection, LineSelection::Neutral);
}

#[test]
fn empty_context_has_nothing() {
    let ctx = Context::empty();
    assert!(ctx.options.is_empty());
    assert!(ctx.commands.is_empty());
    assert_eq!(ctx.multiline_selection_state.multiline_selection, LineSelection::Neutral);
}

#[test]
fn substitution_with_other_delimiter() {
    let ctx = Context::new(args(&["s:/x/y"])).unwrap();
    match &ctx.commands[0] {
        Command::Substitution(m, replacement) => {
            assert_eq!(m.pattern(), b"x");
            assert_eq!(replacement, b"y");
        },
        other => panic!("unexpected command: {:?}", other),
    }
}
