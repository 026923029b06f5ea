//! The per-run registry that gives every thread identifier a stable style:
//! entries are created at first sight, in order, and never change.

use crate::style::{
    advanced_gen, gen_advance, lemma_advance_rank, lemma_advance_shape, pair_rank, style_pair,
    Style, StyleGenerator,
};
use crate::text::bytes_eq;
use vstd::prelude::*;

verus! {

/// The registry entry for one thread identifier: its exact text and the
/// style assigned to it.
#[derive(Debug)]
pub struct HighlightThreadsIdData {
    pub id: Vec<u8>,
    pub style: Style,
}

/// The mathematical shape of a registry entry.
pub ghost struct ThreadEntryV {
    pub id: Seq<u8>,
    pub style: Style,
}

impl View for HighlightThreadsIdData {
    type V = ThreadEntryV;

    open spec fn view(&self) -> ThreadEntryV {
        ThreadEntryV { id: self.id@, style: self.style }
    }
}

/// Is some entry of the registry for this identifier?
pub open spec fn reg_has(reg: Seq<ThreadEntryV>, tok: Seq<u8>) -> bool {
    exists|i: int| 0 <= i < reg.len() && reg[i].id == tok
}

/// The style registered for the identifier (meaningful when the registry
/// holds it and identifiers are distinct).
pub open spec fn reg_style_of(reg: Seq<ThreadEntryV>, tok: Seq<u8>) -> Style {
    reg[choose|i: int| 0 <= i < reg.len() && reg[i].id == tok].style
}

/// No identifier is registered twice.
pub open spec fn distinct_ids(reg: Seq<ThreadEntryV>) -> bool {
    forall|i: int, j: int| 0 <= i < j < reg.len() ==> reg[i].id != reg[j].id
}

/// `r2` extends `r1`: every entry of `r1` still sits at its place in `r2`.
pub open spec fn reg_extends(r1: Seq<ThreadEntryV>, r2: Seq<ThreadEntryV>) -> bool {
    r1.len() <= r2.len() && forall|k: int| 0 <= k < r1.len() ==> r2[k] == r1[k]
}

/// The per-run registry of thread identifiers and their styles, together
/// with the dedicated generator that stamps out those styles.
#[derive(Debug)]
pub struct HighlightThreadsState {
    pub ids: Vec<HighlightThreadsIdData>,
    pub styles: StyleGenerator,
}

impl View for HighlightThreadsState {
    type V = Seq<ThreadEntryV>;

    open spec fn view(&self) -> Seq<ThreadEntryV> {
        Seq::new(self.ids@.len(), |i: int| self.ids@[i]@)
    }
}

impl HighlightThreadsState {
    /// Entries are created once per identifier, in first-seen order, and
    /// never removed.  Their styles sit at consecutive positions of the
    /// generator's cycle, so within one pass of the cycle (240 styles) no
    /// two identifiers share a color pair.
    pub open spec fn wf(self) -> bool {
        &&& self.styles.wf()
        &&& distinct_ids(self@)
        &&& self@.len() <= 240 ==> {
            &&& pair_rank(self.styles.pair()) == self@.len()
            &&& forall|i: int|
                0 <= i < self@.len() ==> #[trigger] pair_rank(style_pair(self@[i].style)) == i + 1
        }
    }

    pub fn new() -> (st: HighlightThreadsState)
        ensures
            st@ =~= Seq::<ThreadEntryV>::empty(),
            st.styles == (StyleGenerator {
                fg: 0,
                bg: 0,
                reverse: true,
                bold: true,
                underline: false,
            }),
            st.wf(),
    {
        HighlightThreadsState { ids: Vec::new(), styles: StyleGenerator::new(true, true, false) }
    }

    /// The index of the identifier's entry, if it has one.
    pub fn lookup(&self, tok: &Vec<u8>) -> (r: Option<usize>)
        ensures
            r matches Some(i) ==> i < self@.len() && self@[i as int].id == tok@,
            (r is Some) == reg_has(self@, tok@),
    {
        let mut i: usize = 0;
        while i < self.ids.len()
            invariant
                i <= self.ids@.len(),
                forall|k: int| 0 <= k < i ==> self@[k].id != tok@,
            decreases self.ids.len() - i,
        {
            if bytes_eq(&self.ids[i].id, tok) {
                proof {
                    assert(self@[i as int].id == tok@);
                }
                return Some(i);
            }
            i = i + 1;
        }
        None
    }

    /// The style for the identifier: the registered one, or a fresh style
    /// from the generator, registered on the spot.
    pub fn style_for(&mut self, tok: &Vec<u8>) -> (s: Style)
        requires
            old(self).wf(),
        ensures
            final(self).wf(),
            reg_has(old(self)@, tok@) ==> {
                &&& final(self)@ == old(self)@
                &&& final(self).styles == old(self).styles
                &&& s == reg_style_of(old(self)@, tok@)
            },
            !reg_has(old(self)@, tok@) ==> {
                &&& s == old(self).styles.style_at(gen_advance(old(self).styles.pair()))
                &&& final(self)@ == old(self)@.push(ThreadEntryV { id: tok@, style: s })
                &&& final(self).styles == advanced_gen(old(self).styles)
            },
    {
        match self.lookup(tok) {
            Some(i) => {
                proof {
                    let w = choose|k: int| 0 <= k < self@.len() && self@[k].id == tok@;
                    assert(w == i as int);
                }
                self.ids[i].style
            },
            None => {
                let ghost g0 = self.styles;
                let ghost reg0 = self@;
                proof {
                    lemma_advance_shape(g0.pair());
                    if reg0.len() + 1 <= 240 {
                        lemma_advance_rank(g0.pair());
                    }
                }
                let style = self.styles.next();
                let entry = HighlightThreadsIdData { id: crate::text::subrange_vec(tok, 0, tok.len()), style };
                self.ids.push(entry);
                proof {
                    assert(tok@.subrange(0, tok@.len() as int) =~= tok@);
                    assert(self@ =~= reg0.push(ThreadEntryV { id: tok@, style }));
                    assert(self.styles == advanced_gen(g0));
                    assert forall|i: int, j: int| 0 <= i < j < self@.len() implies self@[i].id
                        != self@[j].id by {
                        if j < reg0.len() {
                        } else {
                            assert(self@[j].id == tok@);
                            assert(!reg_has(reg0, tok@));
                        }
                    }
                    if self@.len() <= 240 {
                        assert(style_pair(style) == gen_advance(g0.pair()));
                        assert forall|i: int|
                            0 <= i < self@.len() implies #[trigger] pair_rank(
                            style_pair(self@[i].style),
                        ) == i + 1 by {
                            if i < reg0.len() {
                                assert(self@[i] == reg0[i]);
                            } else {
                                assert(self@[i].style == style);
                            }
                        }
                    }
                }
                style
            },
        }
    }
}

/// Two identifiers registered within one pass of the style cycle wear
/// different color pairs.
pub proof fn lemma_thread_styles_distinct(st: HighlightThreadsState, i: int, j: int)
    requires
        st.wf(),
        st@.len() <= 240,
        0 <= i < j < st@.len(),
    ensures
        st@[i].style.fg != st@[j].style.fg || st@[i].style.bg != st@[j].style.bg,
{
    assert(pair_rank(style_pair(st@[i].style)) == i + 1);
    assert(pair_rank(style_pair(st@[j].style)) == j + 1);
}

/// A registered identifier keeps its style when the registry later grows.
pub proof fn lemma_registry_stable(r1: Seq<ThreadEntryV>, r2: Seq<ThreadEntryV>, tok: Seq<u8>)
    requires
        reg_extends(r1, r2),
        distinct_ids(r2),
        reg_has(r1, tok),
    ensures
        reg_has(r2, tok),
        reg_style_of(r2, tok) == reg_style_of(r1, tok),
{
    let i1 = choose|i: int| 0 <= i < r1.len() && r1[i].id == tok;
    assert(r2[i1].id == tok);
    let i2 = choose|i: int| 0 <= i < r2.len() && r2[i].id == tok;
    assert(r2[i2].id == tok);
    if i1 != i2 {
        assert(false);
    }
}

} // verus!
