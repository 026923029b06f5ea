//! The line evaluator: one pass over the command chain per line, with the
//! per-command effects written out as spec functions and the executable
//! evaluator proved to compute exactly their composition.

use crate::ansi::{make_paint_template, paint_template, paint_text, painted};
use crate::command::{
    is_positive_filter, is_positive_filter_spec, Command, CommandV, LineSelection,
    MultilineSelectionState,
};
use crate::context::Context;
use crate::matcher::{regex_match, regex_replace};
use crate::style::{advanced_gen, gen_advance, Style, StyleGenerator};
use crate::text::{
    bytes_eq, bytes_le, fields, lex_le, prefix_to, prefix_vec, replace_lit, replaced_lit,
    starts_with_digit, subrange_vec, third_field, timestamped,
};
use crate::threads::{reg_has, reg_style_of, ThreadEntryV};
use vstd::prelude::*;

verus! {

/// The state carried through one line's evaluation: the per-line selection
/// verdict and the two line buffers, plus the cross-line state (block
/// selection, thread registry and its style generator).
pub ghost struct EvalState {
    pub sel: LineSelection,
    pub in_l: Seq<u8>,
    pub out_l: Seq<u8>,
    pub ml: MultilineSelectionState,
    pub threads: Seq<ThreadEntryV>,
    pub gen: StyleGenerator,
}

/// The block veto: when the block selection is closed, every command except
/// substitutions and the time filter itself is skipped.
pub open spec fn vetoed(st: EvalState) -> bool {
    st.ml.multiline_selection == LineSelection::ExplicitlyForbidden
}

/// Does a positive filter follow at position `i + 1`?
pub open spec fn next_is_positive_filter(cmds: Seq<CommandV>, i: int) -> bool {
    i + 1 < cmds.len() && is_positive_filter_spec(cmds[i + 1])
}

/// A `Filter` command.  A negative filter vetoes the line on a match.  A
/// positive filter allows the line on a match; on a miss, only the last
/// filter of a consecutive run of positive filters may reject the line, so
/// that such a run acts as a disjunction.  A highlighting filter also
/// paints its matches into the output buffer.
pub open spec fn step_filter(
    cmds: Seq<CommandV>,
    i: int,
    st: EvalState,
    pattern: Seq<u8>,
    style: Style,
    negative: bool,
    highlight: bool,
) -> EvalState {
    if vetoed(st) {
        st
    } else {
        let sel = if negative {
            if regex_match(pattern, st.in_l) {
                LineSelection::ExplicitlyForbidden
            } else {
                st.sel
            }
        } else {
            if regex_match(pattern, st.in_l) && st.sel != LineSelection::ExplicitlyForbidden {
                LineSelection::ExplicitlyAllowed
            } else if !next_is_positive_filter(cmds, i) && st.sel
                != LineSelection::ExplicitlyAllowed {
                LineSelection::ExplicitlyForbidden
            } else {
                st.sel
            }
        };
        let out = if highlight {
            regex_replace(pattern, paint_template(style), st.out_l)
        } else {
            st.out_l
        };
        EvalState { sel, out_l: out, ..st }
    }
}

/// A `Highlight` command: paints its matches, never touches selection.
pub open spec fn step_highlight(st: EvalState, pattern: Seq<u8>, style: Style) -> EvalState {
    if vetoed(st) {
        st
    } else {
        EvalState { out_l: regex_replace(pattern, paint_template(style), st.out_l), ..st }
    }
}

/// A `Substitution` command rewrites both buffers.  It runs even under the
/// block veto, because it can repair the very timestamp a later time filter
/// looks at.
pub open spec fn step_substitution(st: EvalState, pattern: Seq<u8>, replacement: Seq<u8>) -> EvalState {
    EvalState {
        in_l: regex_replace(pattern, replacement, st.in_l),
        out_l: regex_replace(pattern, replacement, st.out_l),
        ..st
    }
}

/// A `FilterTime` command: drives the cross-line block state machine.
///
/// When the previous line armed the latch, the block closes now.  A line
/// with no leading timestamp leaves the state untouched.  Otherwise the
/// block opens when the line reaches a configured `begin` without passing
/// `end`; a line exactly at `end` stays in but arms the latch; a line past
/// `end` closes the block at once.
pub open spec fn step_filter_time(st: EvalState, begin: Seq<u8>, end: Seq<u8>) -> EvalState {
    if st.ml.forbid_next_line {
        EvalState {
            ml: MultilineSelectionState {
                multiline_selection: LineSelection::ExplicitlyForbidden,
                forbid_next_line: false,
            },
            ..st
        }
    } else if !timestamped(st.in_l) {
        st
    } else {
        let opened = st.ml.multiline_selection != LineSelection::ExplicitlyAllowed && begin.len()
            > 0 && lex_le(begin, st.in_l) && (end.len() == 0 || lex_le(
            prefix_to(st.in_l, end.len() as int),
            end,
        ));
        let ml1 = if opened {
            MultilineSelectionState { multiline_selection: LineSelection::ExplicitlyAllowed, ..st.ml }
        } else {
            st.ml
        };
        let ml2 = if ml1.multiline_selection != LineSelection::ExplicitlyForbidden && end.len()
            > 0 {
            if prefix_to(st.in_l, end.len() as int) == end {
                MultilineSelectionState { forbid_next_line: true, ..ml1 }
            } else if !lex_le(prefix_to(st.in_l, end.len() as int), end) {
                MultilineSelectionState { multiline_selection: LineSelection::ExplicitlyForbidden, ..ml1 }
            } else {
                ml1
            }
        } else {
            ml1
        };
        EvalState { ml: ml2, ..st }
    }
}

/// Is the token shaped like a thread identifier (`0x`-prefixed)?
pub open spec fn thread_shaped(tok: Seq<u8>) -> bool {
    tok.len() >= 2 && tok[0] == 48 && tok[1] == 120
}

/// A `HighlightThreads` command: when the third whitespace-delimited field
/// of the line is a `0x`-prefixed token, looks its style up in the registry
/// (registering a fresh style on first sight) and paints every occurrence
/// of the token in the output buffer.
pub open spec fn step_threads(st: EvalState) -> EvalState {
    if vetoed(st) {
        st
    } else {
        let fs = fields(st.in_l);
        if fs.len() < 3 {
            st
        } else {
            let tok = fs[2];
            if !thread_shaped(tok) {
                st
            } else if reg_has(st.threads, tok) {
                EvalState {
                    out_l: replaced_lit(tok, painted(reg_style_of(st.threads, tok), tok), st.out_l),
                    ..st
                }
            } else {
                let style = st.gen.style_at(gen_advance(st.gen.pair()));
                EvalState {
                    out_l: replaced_lit(tok, painted(style, tok), st.out_l),
                    threads: st.threads.push(ThreadEntryV { id: tok, style }),
                    gen: advanced_gen(st.gen),
                    ..st
                }
            }
        }
    }
}

/// The effect of the command at position `i` of the chain.
pub open spec fn step_at(cmds: Seq<CommandV>, i: int, st: EvalState) -> EvalState {
    match cmds[i] {
        CommandV::Filter { pattern, style, negative, highlight } => step_filter(
            cmds,
            i,
            st,
            pattern,
            style,
            negative,
            highlight,
        ),
        CommandV::Highlight { pattern, style } => step_highlight(st, pattern, style),
        CommandV::Substitution { pattern, replacement } => step_substitution(
            st,
            pattern,
            replacement,
        ),
        CommandV::FilterTime { begin, end } => step_filter_time(st, begin, end),
        CommandV::HighlightThreads => step_threads(st),
    }
}

/// The chain run from position `i` onward.
pub open spec fn eval_from(cmds: Seq<CommandV>, i: int, st: EvalState) -> EvalState
    decreases cmds.len() - i,
{
    if 0 <= i < cmds.len() {
        eval_from(cmds, i + 1, step_at(cmds, i, st))
    } else {
        st
    }
}

/// The whole chain run over the state.
pub open spec fn eval_chain(cmds: Seq<CommandV>, st: EvalState) -> EvalState {
    eval_from(cmds, 0, st)
}

/// The state a line's evaluation starts from: selection `Neutral`, both
/// buffers holding the line, and the carried-over cross-line state.
pub open spec fn init_state(
    line: Seq<u8>,
    ml: MultilineSelectionState,
    threads: Seq<ThreadEntryV>,
    gen: StyleGenerator,
) -> EvalState {
    EvalState { sel: LineSelection::Neutral, in_l: line, out_l: line, ml, threads, gen }
}

/// Is the line emitted once the chain has run?
pub open spec fn emits(st: EvalState) -> bool {
    st.sel != LineSelection::ExplicitlyForbidden && st.ml.multiline_selection
        != LineSelection::ExplicitlyForbidden
}

/// The evaluation state as it stands in the middle of `evaluate`.
pub open spec fn live_state(
    sel: LineSelection,
    in_l: Seq<u8>,
    out_l: Seq<u8>,
    ctx: Context,
) -> EvalState {
    EvalState {
        sel,
        in_l,
        out_l,
        ml: ctx.multiline_selection_state,
        threads: ctx.highlight_threads_state@,
        gen: ctx.highlight_threads_state.styles,
    }
}

impl Context {
    /// The state the next line will be evaluated from.
    pub open spec fn carried_state(&self, line: Seq<u8>) -> EvalState {
        init_state(
            line,
            self.multiline_selection_state,
            self.highlight_threads_state@,
            self.highlight_threads_state.styles,
        )
    }

    /// Runs the chain once over `line` (given without its trailing
    /// newline).  Returns the transformed, style-annotated line when it is
    /// selected, and nothing when it is suppressed; the cross-line state
    /// moves to what the chain's time filters and thread highlights leave
    /// behind.
    pub fn evaluate(&mut self, line: &Vec<u8>) -> (r: Option<Vec<u8>>)
        requires
            old(self).wf(),
        ensures
            ({
                let fin = eval_chain(old(self).chain_view(), old(self).carried_state(line@));
                &&& final(self).wf()
                &&& final(self).options == old(self).options
                &&& final(self).commands == old(self).commands
                &&& final(self).multiline_selection_state == fin.ml
                &&& final(self).highlight_threads_state@ == fin.threads
                &&& final(self).highlight_threads_state.styles == fin.gen
                &&& (r is Some) == emits(fin)
                &&& (r matches Some(out) ==> out@ == fin.out_l)
            }),
    {
        let ghost cmds = old(self).chain_view();
        let ghost st0 = old(self).carried_state(line@);
        let mut in_line = subrange_vec(line, 0, line.len());
        let mut out_line = subrange_vec(line, 0, line.len());
        proof {
            assert(line@.subrange(0, line@.len() as int) =~= line@);
        }
        let mut line_selection = LineSelection::Neutral;
        let mut idx: usize = 0;
        proof {
            assert(live_state(line_selection, in_line@, out_line@, *self) == st0);
        }
        while idx < self.commands.len()
            invariant
                self.wf(),
                self.options == old(self).options,
                self.commands == old(self).commands,
                cmds == self.chain_view(),
                cmds.len() == self.commands@.len(),
                idx <= self.commands@.len(),
                eval_from(cmds, idx as int, live_state(line_selection, in_line@, out_line@, *self))
                    == eval_chain(cmds, st0),
            decreases self.commands@.len() - idx,
        {
            let ghost pre = live_state(line_selection, in_line@, out_line@, *self);
            proof {
                assert(cmds[idx as int] == self.commands@[idx as int]@);
            }
            let cmd = &self.commands[idx];
            match cmd {
                Command::Filter(m, style, negative, highlight) => {
                    if self.multiline_selection_state.multiline_selection
                        != LineSelection::ExplicitlyForbidden {
                        if *negative {
                            if m.is_match(&in_line) {
                                line_selection = LineSelection::ExplicitlyForbidden;
                            }
                        } else {
                            if m.is_match(&in_line) && line_selection
                                != LineSelection::ExplicitlyForbidden {
                                line_selection = LineSelection::ExplicitlyAllowed;
                            } else {
                                let next_positive = idx + 1 < self.commands.len()
                                    && is_positive_filter(&self.commands[idx + 1]);
                                if !next_positive && line_selection
                                    != LineSelection::ExplicitlyAllowed {
                                    line_selection = LineSelection::ExplicitlyForbidden;
                                }
                            }
                        }
                        if *highlight {
                            let template = make_paint_template(style);
                            out_line = m.replace_all(&out_line, &template);
                        }
                    }
                },
                Command::Highlight(m, style) => {
                    if self.multiline_selection_state.multiline_selection
                        != LineSelection::ExplicitlyForbidden {
                        let template = make_paint_template(style);
                        out_line = m.replace_all(&out_line, &template);
                    }
                },
                Command::Substitution(m, replacement) => {
                    in_line = m.replace_all(&in_line, replacement);
                    out_line = m.replace_all(&out_line, replacement);
                },
                Command::FilterTime(begin, end) => {
                    if self.multiline_selection_state.forbid_next_line {
                        self.multiline_selection_state.forbid_next_line = false;
                        self.multiline_selection_state.multiline_selection =
                            LineSelection::ExplicitlyForbidden;
                    } else {
                        if starts_with_digit(&in_line) {
                            if self.multiline_selection_state.multiline_selection
                                != LineSelection::ExplicitlyAllowed && begin.len() > 0 {
                                let within_end = if end.len() == 0 {
                                    true
                                } else {
                                    let p = prefix_vec(&in_line, end.len());
                                    bytes_le(&p, end)
                                };
                                if bytes_le(begin, &in_line) && within_end {
                                    self.multiline_selection_state.multiline_selection =
                                        LineSelection::ExplicitlyAllowed;
                                }
                            }
                            if self.multiline_selection_state.multiline_selection
                                != LineSelection::ExplicitlyForbidden && end.len() > 0 {
                                let p = prefix_vec(&in_line, end.len());
                                if bytes_eq(&p, end) {
                                    self.multiline_selection_state.forbid_next_line = true;
                                } else if !bytes_le(&p, end) {
                                    self.multiline_selection_state.multiline_selection =
                                        LineSelection::ExplicitlyForbidden;
                                }
                            }
                        }
                    }
                },
                Command::HighlightThreads => {
                    if self.multiline_selection_state.multiline_selection
                        != LineSelection::ExplicitlyForbidden {
                        match third_field(&in_line) {
                            None => {},
                            Some(tok) => {
                                if tok.len() >= 2 && tok[0] == 48 && tok[1] == 120 {
                                    let style = self.highlight_threads_state.style_for(&tok);
                                    let painted_tok = paint_text(&style, &tok);
                                    out_line = replace_lit(&tok, &painted_tok, &out_line);
                                }
                            },
                        }
                    }
                },
            }
            proof {
                let post = live_state(line_selection, in_line@, out_line@, *self);
                assert(post == step_at(cmds, idx as int, pre));
                assert(eval_from(cmds, idx as int, pre) == eval_from(cmds, idx as int + 1, post));
            }
            idx = idx + 1;
        }
        if line_selection != LineSelection::ExplicitlyForbidden
            && self.multiline_selection_state.multiline_selection
            != LineSelection::ExplicitlyForbidden {
            Some(out_line)
        } else {
            None
        }
    }
}

} // verus!
