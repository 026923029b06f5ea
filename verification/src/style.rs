//! Display styles and their allocator: a deterministic cycle over
//! (foreground, background) color pairs that never hands out a pair whose
//! two colors coincide.

use vstd::prelude::*;

verus! {

/// A display style: a (foreground, background) pair of palette indices in
/// `0..16`, plus emphasis flags.  The engine only allocates and compares
/// these values; turning one into a terminal escape sequence is the job of
/// the `ansi` module.
#[derive(Clone, Copy, PartialEq, Eq, Structural, Debug)]
pub struct Style {
    pub fg: u8,
    pub bg: u8,
    pub reverse: bool,
    pub bold: bool,
    pub underline: bool,
}

/// Produces a deterministic cycle of visually distinct styles.
///
/// The cursor is the (foreground, background) pair.  Advancing increments
/// the foreground first, wrapping into the background on overflow, and skips
/// every pair whose foreground equals its background, so two consecutive
/// styles never share their color pair.
#[derive(Clone, Copy, Debug)]
pub struct StyleGenerator {
    pub fg: u8,
    pub bg: u8,
    pub reverse: bool,
    pub bold: bool,
    pub underline: bool,
}

/// The number of colors in the palette.
pub const PALETTE: u8 = 16;

impl StyleGenerator {
    /// The cursor stays inside the palette.
    pub open spec fn wf(self) -> bool {
        self.fg < PALETTE && self.bg < PALETTE
    }

    /// The cursor as a pair of mathematical integers.
    pub open spec fn pair(self) -> (int, int) {
        (self.fg as int, self.bg as int)
    }

    /// The style that the generator stamps out of a cursor pair.
    pub open spec fn style_at(self, p: (int, int)) -> Style {
        Style {
            fg: p.0 as u8,
            bg: p.1 as u8,
            reverse: self.reverse,
            bold: self.bold,
            underline: self.underline,
        }
    }

    pub fn new(reverse: bool, bold: bool, underline: bool) -> (g: StyleGenerator)
        ensures
            g == (StyleGenerator { fg: 0, bg: 0, reverse, bold, underline }),
    {
        StyleGenerator { fg: 0, bg: 0, reverse, bold, underline }
    }

    /// Advances the cursor to the next pair of distinct colors.
    pub fn forward(&mut self)
        requires
            old(self).wf(),
        ensures
            final(self).wf(),
            final(self).pair() == gen_advance(old(self).pair()),
            final(self).fg != final(self).bg,
            final(self).reverse == old(self).reverse,
            final(self).bold == old(self).bold,
            final(self).underline == old(self).underline,
    {
        let mut f: u8 = (self.fg + 1) % PALETTE;
        let mut b: u8 = if f == 0 { (self.bg + 1) % PALETTE } else { self.bg };
        if f == b {
            f = (f + 1) % PALETTE;
            if f == 0 {
                b = (b + 1) % PALETTE;
            }
            if f == b {
                f = (f + 1) % PALETTE;
                if f == 0 {
                    b = (b + 1) % PALETTE;
                }
            }
        }
        self.fg = f;
        self.bg = b;
    }

    /// Advances the cursor and returns the style sitting at its new position.
    pub fn next(&mut self) -> (s: Style)
        requires
            old(self).wf(),
        ensures
            final(self).wf(),
            final(self).pair() == gen_advance(old(self).pair()),
            final(self).reverse == old(self).reverse,
            final(self).bold == old(self).bold,
            final(self).underline == old(self).underline,
            s == old(self).style_at(gen_advance(old(self).pair())),
            s.fg != s.bg,
    {
        self.forward();
        Style {
            fg: self.fg,
            bg: self.bg,
            reverse: self.reverse,
            bold: self.bold,
            underline: self.underline,
        }
    }
}

/// The color pair of a style, as mathematical integers.
pub open spec fn style_pair(s: Style) -> (int, int) {
    (s.fg as int, s.bg as int)
}

/// The generator as it stands after one advance.
pub open spec fn advanced_gen(g: StyleGenerator) -> StyleGenerator {
    StyleGenerator {
        fg: gen_advance(g.pair()).0 as u8,
        bg: gen_advance(g.pair()).1 as u8,
        ..g
    }
}

/// One increment of the cursor: foreground first, wrapping into the
/// background when the foreground overflows the palette.
pub open spec fn gen_step(p: (int, int)) -> (int, int) {
    let f = (p.0 + 1) % (PALETTE as int);
    let b = if f == 0 {
        (p.1 + 1) % (PALETTE as int)
    } else {
        p.1
    };
    (f, b)
}

/// The full advance: step until the two components differ.  From any
/// in-palette pair at most three steps are needed, so the skip is written
/// out explicitly.
pub open spec fn gen_advance(p: (int, int)) -> (int, int) {
    let p1 = gen_step(p);
    if p1.0 != p1.1 {
        p1
    } else {
        let p2 = gen_step(p1);
        if p2.0 != p2.1 {
            p2
        } else {
            gen_step(p2)
        }
    }
}

/// The position of an in-palette pair within the generator's cycle: pair
/// ranks are `0` for the start pair `(0, 0)` and otherwise count the
/// distinct-color pairs visited so far, `1` for `(1, 0)` up to `240` for
/// `(14, 15)`.
pub open spec fn pair_rank(p: (int, int)) -> int {
    if p.0 > p.1 {
        15 * p.1 + p.0
    } else if p.0 < p.1 {
        15 * p.1 + p.0 + 1
    } else {
        16 * p.0
    }
}

/// Advancing moves to a new, in-palette, distinct-color pair.
pub proof fn lemma_advance_shape(p: (int, int))
    requires
        0 <= p.0 < PALETTE,
        0 <= p.1 < PALETTE,
    ensures
        0 <= gen_advance(p).0 < PALETTE,
        0 <= gen_advance(p).1 < PALETTE,
        gen_advance(p).0 != gen_advance(p).1,
        gen_advance(p) != p,
{
}

/// Until the cycle wraps (after rank `240`), each advance moves the cursor
/// exactly one position further along the cycle.
pub proof fn lemma_advance_rank(p: (int, int))
    requires
        0 <= p.0 < PALETTE,
        0 <= p.1 < PALETTE,
        pair_rank(p) <= 239,
    ensures
        pair_rank(gen_advance(p)) == pair_rank(p) + 1,
{
}

} // verus!
