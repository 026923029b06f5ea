//! The boundary to terminal escape-sequence rendering.  The exact bytes of
//! a style's prefix and suffix are named by uninterpreted functions; the
//! wrappers below are trusted to return them, and everything built on top
//! (replacement templates, painted tokens) is verified concatenation.

use crate::style::Style;
use vstd::prelude::*;

verus! {

/// The escape bytes that switch the terminal to the style with the given
/// fields: what `ansi_term` writes in front of painted text.
pub uninterp spec fn ansi_prefix(fg: u8, bg: u8, reverse: bool, bold: bool, underline: bool) -> Seq<
    u8,
>;

/// The escape bytes that switch the terminal back to normal after text
/// painted in the style with the given fields.
pub uninterp spec fn ansi_suffix(fg: u8, bg: u8, reverse: bool, bold: bool, underline: bool) -> Seq<
    u8,
>;

pub open spec fn prefix_of(s: Style) -> Seq<u8> {
    ansi_prefix(s.fg, s.bg, s.reverse, s.bold, s.underline)
}

pub open spec fn suffix_of(s: Style) -> Seq<u8> {
    ansi_suffix(s.fg, s.bg, s.reverse, s.bold, s.underline)
}

/// `text` wrapped in the escape sequences of the style: painted for the
/// terminal.
pub open spec fn painted(s: Style, text: Seq<u8>) -> Seq<u8> {
    prefix_of(s) + text + suffix_of(s)
}

/// The replacement template that paints a whole regex match: `$0` wrapped
/// in the style's escape sequences.
pub open spec fn paint_template(s: Style) -> Seq<u8> {
    painted(s, seq![36u8, 48u8])
}

/// Relies on `ansi_term::Style::prefix` (and the `Display` rendering of the
/// returned `Prefix`): the escape bytes introducing the style, a pure
/// function of the style's fields.
#[verifier::external_body]
pub(crate) fn style_prefix(s: &Style) -> (r: Vec<u8>)
    ensures
        r@ == ansi_prefix(s.fg, s.bg, s.reverse, s.bold, s.underline),
{
    let mut t = ansi_term::Style::new().on(ansi_term::Colour::Fixed(s.bg)).fg(
        ansi_term::Colour::Fixed(s.fg),
    );
    if s.reverse {
        t = t.reverse();
    }
    if s.bold {
        t = t.bold();
    }
    if s.underline {
        t = t.underline();
    }
    t.prefix().to_string().into_bytes()
}

/// Relies on `ansi_term::Style::suffix` (and the `Display` rendering of the
/// returned `Suffix`): the escape bytes closing the style, a pure function
/// of the style's fields.
#[verifier::external_body]
pub(crate) fn style_suffix(s: &Style) -> (r: Vec<u8>)
    ensures
        r@ == ansi_suffix(s.fg, s.bg, s.reverse, s.bold, s.underline),
{
    let mut t = ansi_term::Style::new().on(ansi_term::Colour::Fixed(s.bg)).fg(
        ansi_term::Colour::Fixed(s.fg),
    );
    if s.reverse {
        t = t.reverse();
    }
    if s.bold {
        t = t.bold();
    }
    if s.underline {
        t = t.underline();
    }
    t.suffix().to_string().into_bytes()
}

/// Builds the `$0` replacement template for the style.
pub fn make_paint_template(s: &Style) -> (r: Vec<u8>)
    ensures
        r@ == paint_template(*s),
{
    let mut r = style_prefix(s);
    r.push(36);
    r.push(48);
    let suffix = style_suffix(s);
    crate::text::append_bytes(&mut r, &suffix);
    proof {
        assert(r@ =~= paint_template(*s));
    }
    r
}

/// `text` wrapped in the style's escape sequences.
pub fn paint_text(s: &Style, text: &Vec<u8>) -> (r: Vec<u8>)
    ensures
        r@ == painted(*s, text@),
{
    let mut r = style_prefix(s);
    crate::text::append_bytes(&mut r, text);
    let suffix = style_suffix(s);
    crate::text::append_bytes(&mut r, &suffix);
    proof {
        assert(r@ =~= painted(*s, text@));
    }
    r
}

} // verus!
