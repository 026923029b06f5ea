use linecolor::style::StyleGenerator;
use linecolor::threads::HighlightThreadsState;

#[test]
fn generator_starts_at_one_zero() {
    let mut g = StyleGenerator::new(false, true, true);
    let s = g.next();
    assert_eq!(s.fg, 1);
    assert_eq!(s.bg, 0);
    assert!(!s.reverse);
    assert!(s.bold);
    assert!(s.underline);
}

#[test]
fn generator_walks_foreground_first() {
    let mut g = StyleGenerator::new(false, false, false);
    let mut pairs = Vec::new();
    for _ in 0..17 {
        let s = g.next();
        pairs.push((s.fg, s.bg));
    }
    // foreground advances first ...
    assert_eq!(pairs[0], (1, 0));
    assert_eq!(pairs[1], (2, 0));
    assert_eq!(pairs[14], (15, 0));
    // ... wraps into the background ...
    assert_eq!(pairs[15], (0, 1));
    // ... and skips the equal pair (1, 1).
    assert_eq!(pairs[16], (2, 1));
}

#[test]
fn generator_never_repeats_a_pair_at_once() {
    let mut g = StyleGenerator::new(true, false, false);
    let mut last = (0u8, 0u8);
    for _ in 0..600 {
        let s = g.next();
        assert_ne!((s.fg, s.bg), last);
        assert_ne!(s.fg, s.bg);
        last = (s.fg, s.bg);
    }
}

#[test]
fn thread_state_uses_reversed_bold_styles() {
    let st = HighlightThreadsState::new();
    assert!(st.styles.reverse);
    assert!(st.styles.bold);
    assert!(!st.styles.underline);
    assert_eq!(st.ids.len(), 0);
}
