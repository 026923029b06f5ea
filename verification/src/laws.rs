//! The engine's cross-cutting guarantees, each proved once and for all over
//! the evaluation model of `eval`.

use crate::ansi::paint_template;
use crate::command::{CommandV, LineSelection, MultilineSelectionState};
use crate::eval::{
    emits, eval_chain, eval_from, init_state, step_at, EvalState,
};
use crate::matcher::{regex_match, regex_replace};
use crate::style::{Style, StyleGenerator};
use crate::text::{lemma_lex_le_refl, lex_le, prefix_to, timestamped};
use crate::threads::{reg_extends, ThreadEntryV};
use vstd::prelude::*;

verus! {

/// An empty chain changes nothing: every line is emitted exactly as it
/// came in, and the cross-line state stands still.
pub proof fn lemma_empty_chain_identity(
    line: Seq<u8>,
    ml: MultilineSelectionState,
    threads: Seq<ThreadEntryV>,
    gen: StyleGenerator,
)
    requires
        ml.multiline_selection != LineSelection::ExplicitlyForbidden,
    ensures
        ({
            let fin = eval_chain(Seq::empty(), init_state(line, ml, threads, gen));
            &&& fin == init_state(line, ml, threads, gen)
            &&& emits(fin)
            &&& fin.out_l == line
        }),
{
}

/// A chain of exactly one positive filter emits a line exactly when the
/// pattern matches; with highlighting on, the output is the line with every
/// match span painted in the filter's style.
pub proof fn lemma_single_positive_filter(
    pattern: Seq<u8>,
    style: Style,
    highlight: bool,
    line: Seq<u8>,
    ml: MultilineSelectionState,
    threads: Seq<ThreadEntryV>,
    gen: StyleGenerator,
)
    requires
        ml.multiline_selection != LineSelection::ExplicitlyForbidden,
    ensures
        ({
            let chain = seq![CommandV::Filter { pattern, style, negative: false, highlight }];
            let fin = eval_chain(chain, init_state(line, ml, threads, gen));
            &&& emits(fin) == regex_match(pattern, line)
            &&& fin.out_l == if highlight {
                regex_replace(pattern, paint_template(style), line)
            } else {
                line
            }
            &&& fin.ml == ml
        }),
{
    let chain = seq![CommandV::Filter { pattern, style, negative: false, highlight }];
    let st0 = init_state(line, ml, threads, gen);
    assert(eval_chain(chain, st0) == eval_from(chain, 1, step_at(chain, 0, st0)));
}

/// Consecutive positive filters act as alternatives: with two of them, a
/// line is emitted exactly when either pattern matches.
pub proof fn lemma_positive_filter_pair(
    p1: Seq<u8>,
    p2: Seq<u8>,
    s1: Style,
    s2: Style,
    h1: bool,
    h2: bool,
    line: Seq<u8>,
    ml: MultilineSelectionState,
    threads: Seq<ThreadEntryV>,
    gen: StyleGenerator,
)
    requires
        ml.multiline_selection != LineSelection::ExplicitlyForbidden,
    ensures
        ({
            let chain = seq![
                CommandV::Filter { pattern: p1, style: s1, negative: false, highlight: h1 },
                CommandV::Filter { pattern: p2, style: s2, negative: false, highlight: h2 },
            ];
            let fin = eval_chain(chain, init_state(line, ml, threads, gen));
            emits(fin) == (regex_match(p1, line) || regex_match(p2, line))
        }),
{
    let chain = seq![
        CommandV::Filter { pattern: p1, style: s1, negative: false, highlight: h1 },
        CommandV::Filter { pattern: p2, style: s2, negative: false, highlight: h2 },
    ];
    let st0 = init_state(line, ml, threads, gen);
    let st1 = step_at(chain, 0, st0);
    let st2 = step_at(chain, 1, st1);
    assert(eval_chain(chain, st0) == eval_from(chain, 1, st1));
    assert(eval_from(chain, 1, st1) == eval_from(chain, 2, st2));
}

/// A negative filter vetoes: after a positive filter for `p` and a negative
/// filter for `q`, a line is emitted exactly when `p` matches and `q` does
/// not--even when both match.
pub proof fn lemma_negative_filter_veto(
    p: Seq<u8>,
    q: Seq<u8>,
    s1: Style,
    s2: Style,
    h1: bool,
    line: Seq<u8>,
    ml: MultilineSelectionState,
    threads: Seq<ThreadEntryV>,
    gen: StyleGenerator,
)
    requires
        ml.multiline_selection != LineSelection::ExplicitlyForbidden,
    ensures
        ({
            let chain = seq![
                CommandV::Filter { pattern: p, style: s1, negative: false, highlight: h1 },
                CommandV::Filter { pattern: q, style: s2, negative: true, highlight: false },
            ];
            let fin = eval_chain(chain, init_state(line, ml, threads, gen));
            emits(fin) == (regex_match(p, line) && !regex_match(q, line))
        }),
{
    let chain = seq![
        CommandV::Filter { pattern: p, style: s1, negative: false, highlight: h1 },
        CommandV::Filter { pattern: q, style: s2, negative: true, highlight: false },
    ];
    let st0 = init_state(line, ml, threads, gen);
    let st1 = step_at(chain, 0, st0);
    let st2 = step_at(chain, 1, st1);
    assert(eval_chain(chain, st0) == eval_from(chain, 1, st1));
    assert(eval_from(chain, 1, st1) == eval_from(chain, 2, st2));
}

/// A substitution placed before a time filter feeds it the rewritten text:
/// the pair behaves exactly like the time filter alone run on the state
/// whose buffers already carry the substitution.
pub proof fn lemma_substitution_feeds_time_filter(
    pattern: Seq<u8>,
    replacement: Seq<u8>,
    begin: Seq<u8>,
    end: Seq<u8>,
    st: EvalState,
)
    ensures
        ({
            let chain = seq![
                CommandV::Substitution { pattern, replacement },
                CommandV::FilterTime { begin, end },
            ];
            let substituted = EvalState {
                in_l: regex_replace(pattern, replacement, st.in_l),
                out_l: regex_replace(pattern, replacement, st.out_l),
                ..st
            };
            eval_chain(chain, st) == eval_chain(
                seq![CommandV::FilterTime { begin, end }],
                substituted,
            )
        }),
{
    let chain = seq![
        CommandV::Substitution { pattern, replacement },
        CommandV::FilterTime { begin, end },
    ];
    let short = seq![CommandV::FilterTime { begin, end }];
    let st1 = step_at(chain, 0, st);
    assert(eval_chain(chain, st) == eval_from(chain, 1, st1));
    assert(eval_from(chain, 1, st1) == eval_from(chain, 2, step_at(chain, 1, st1)));
    assert(eval_chain(short, st1) == eval_from(short, 1, step_at(short, 0, st1)));
    assert(step_at(chain, 1, st1) == step_at(short, 0, st1));
}

/// The closing boundary of a time range: a line whose timestamp prefix is
/// exactly the `end` bound is still emitted, but it arms the latch, and the
/// line after it--whatever it says--is suppressed with the block closed.
pub proof fn lemma_time_range_end_boundary(
    begin: Seq<u8>,
    end: Seq<u8>,
    line1: Seq<u8>,
    line2: Seq<u8>,
    ml: MultilineSelectionState,
    threads: Seq<ThreadEntryV>,
    gen: StyleGenerator,
)
    requires
        end.len() > 0,
        begin.len() > 0,
        !ml.forbid_next_line,
        timestamped(line1),
        lex_le(begin, line1),
        prefix_to(line1, end.len() as int) == end,
    ensures
        ({
            let chain = seq![CommandV::FilterTime { begin, end }];
            let fin1 = eval_chain(chain, init_state(line1, ml, threads, gen));
            let fin2 = eval_chain(chain, init_state(line2, fin1.ml, fin1.threads, fin1.gen));
            &&& emits(fin1)
            &&& fin1.out_l == line1
            &&& fin1.ml == (MultilineSelectionState {
                multiline_selection: LineSelection::ExplicitlyAllowed,
                forbid_next_line: true,
            })
            &&& !emits(fin2)
            &&& fin2.ml == (MultilineSelectionState {
                multiline_selection: LineSelection::ExplicitlyForbidden,
                forbid_next_line: false,
            })
        }),
{
    lemma_lex_le_refl(end);
    let chain = seq![CommandV::FilterTime { begin, end }];
    let st0 = init_state(line1, ml, threads, gen);
    assert(eval_chain(chain, st0) == eval_from(chain, 1, step_at(chain, 0, st0)));
    let fin1 = eval_chain(chain, st0);
    let st2 = init_state(line2, fin1.ml, fin1.threads, fin1.gen);
    assert(eval_chain(chain, st2) == eval_from(chain, 1, step_at(chain, 0, st2)));
}

/// A line whose timestamp prefix lies strictly past the `end` bound is
/// itself suppressed, and it closes the block at once.
pub proof fn lemma_time_range_past_end(
    begin: Seq<u8>,
    end: Seq<u8>,
    line: Seq<u8>,
    ml: MultilineSelectionState,
    threads: Seq<ThreadEntryV>,
    gen: StyleGenerator,
)
    requires
        end.len() > 0,
        !ml.forbid_next_line,
        timestamped(line),
        !lex_le(prefix_to(line, end.len() as int), end),
    ensures
        ({
            let fin = eval_chain(
                seq![CommandV::FilterTime { begin, end }],
                init_state(line, ml, threads, gen),
            );
            &&& !emits(fin)
            &&& fin.ml.multiline_selection == LineSelection::ExplicitlyForbidden
        }),
{
    lemma_lex_le_refl(end);
    let chain = seq![CommandV::FilterTime { begin, end }];
    let st0 = init_state(line, ml, threads, gen);
    assert(eval_chain(chain, st0) == eval_from(chain, 1, step_at(chain, 0, st0)));
}

/// Chains only ever extend the thread registry: every registered
/// identifier keeps its entry, at its place, through any evaluation--so
/// identifiers are colored stably, in first-seen order.
pub proof fn lemma_chain_extends_registry(cmds: Seq<CommandV>, i: int, st: EvalState)
    ensures
        reg_extends(st.threads, eval_from(cmds, i, st).threads),
    decreases cmds.len() - i,
{
    if 0 <= i < cmds.len() {
        let st1 = step_at(cmds, i, st);
        assert(reg_extends(st.threads, st1.threads));
        lemma_chain_extends_registry(cmds, i + 1, st1);
    }
}

/// Are all commands of the chain non-highlighting filters?
pub open spec fn filter_only(cmds: Seq<CommandV>) -> bool {
    forall|i: int|
        0 <= i < cmds.len() ==> (#[trigger] cmds[i]) matches CommandV::Filter {
            highlight: false,
            ..
        }
}

/// Non-highlighting filters decide, but touch nothing: the buffers and the
/// whole cross-line state come through unchanged.
pub proof fn lemma_filter_only_preserves(cmds: Seq<CommandV>, i: int, st: EvalState)
    requires
        filter_only(cmds),
    ensures
        ({
            let fin = eval_from(cmds, i, st);
            &&& fin.in_l == st.in_l
            &&& fin.out_l == st.out_l
            &&& fin.ml == st.ml
            &&& fin.threads == st.threads
            &&& fin.gen == st.gen
        }),
    decreases cmds.len() - i,
{
    if 0 <= i < cmds.len() {
        let st1 = step_at(cmds, i, st);
        lemma_filter_only_preserves(cmds, i + 1, st1);
    }
}

/// Filtering without highlighting is idempotent: the chain's output is the
/// input line itself, and feeding that output back through the same chain
/// from the state the first pass left behind reproduces the run, selection
/// decision included.
pub proof fn lemma_filter_only_round_trip(
    cmds: Seq<CommandV>,
    line: Seq<u8>,
    ml: MultilineSelectionState,
    threads: Seq<ThreadEntryV>,
    gen: StyleGenerator,
)
    requires
        filter_only(cmds),
    ensures
        ({
            let fin = eval_chain(cmds, init_state(line, ml, threads, gen));
            let again = eval_chain(cmds, init_state(fin.out_l, fin.ml, fin.threads, fin.gen));
            &&& fin.out_l == line
            &&& again == fin
            &&& emits(again) == emits(fin)
        }),
{
    lemma_filter_only_preserves(cmds, 0, init_state(line, ml, threads, gen));
}

} // verus!
