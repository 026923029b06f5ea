//! Chain construction: classifying raw command-line arguments into the
//! command chain, validating patterns and delimited fields, and setting up
//! the cross-line state a run starts from.

use crate::command::{
    Command, CommandV, LineSelection, MultilineSelectionState, ParseError, ParseErrorV, RunOption,
};
use crate::matcher::{regex_pattern_ok, Matcher};
use crate::style::{advanced_gen, gen_advance, StyleGenerator};
use crate::text::{
    bytes_eq, has_prefix, split_by, split_once_exact, starts_with, subrange_vec,
};
use crate::threads::{HighlightThreadsState, ThreadEntryV};
use vstd::prelude::*;

verus! {

/// The command chain as the shapes of its commands.
pub open spec fn chain_of(commands: Seq<Command>) -> Seq<CommandV> {
    Seq::new(commands.len(), |i: int| commands[i]@)
}

/// The byte sequences of a list of byte vectors.
pub open spec fn views_of(args: Seq<Vec<u8>>) -> Seq<Seq<u8>> {
    Seq::new(args.len(), |i: int| args[i]@)
}

// The recognized argument forms, as their bytes.
pub open spec fn pfx_dash() -> Seq<u8> {
    seq![45u8]  // "-"
}

pub open spec fn opt_help_short() -> Seq<u8> {
    seq![45u8, 104u8]  // "-h"
}

pub open spec fn opt_help_long() -> Seq<u8> {
    seq![45u8, 45u8, 104u8, 101u8, 108u8, 112u8]  // "--help"
}

pub open spec fn pfx_filter() -> Seq<u8> {
    seq![102u8, 99u8, 58u8]  // "fc:"
}

pub open spec fn pfx_filter_no_highlight() -> Seq<u8> {
    seq![102u8, 110u8, 58u8]  // "fn:"
}

pub open spec fn pfx_highlight() -> Seq<u8> {
    seq![104u8, 58u8]  // "h:"
}

pub open spec fn pfx_negative_filter() -> Seq<u8> {
    seq![110u8, 58u8]  // "n:"
}

pub open spec fn pfx_substitution() -> Seq<u8> {
    seq![115u8, 58u8]  // "s:"
}

pub open spec fn pfx_filter_time() -> Seq<u8> {
    seq![102u8, 116u8, 58u8]  // "ft:"
}

pub open spec fn pfx_highlight_threads() -> Seq<u8> {
    seq![104u8, 116u8, 58u8]  // "ht:"
}

/// The state of chain construction after some arguments: the options and
/// command shapes gathered so far, the style generator's position, and
/// whether some time filter with a lower bound asks for the initial block
/// state to be closed.
pub ghost struct ParseStateV {
    pub options: Seq<RunOption>,
    pub commands: Seq<CommandV>,
    pub styles: StyleGenerator,
    pub initial_forbidden: bool,
}

/// Construction starts with nothing gathered and the command style
/// generator at its start, configured bold and underlined.
pub open spec fn init_parse_state() -> ParseStateV {
    ParseStateV {
        options: Seq::empty(),
        commands: Seq::empty(),
        styles: StyleGenerator { fg: 0, bg: 0, reverse: false, bold: true, underline: true },
        initial_forbidden: false,
    }
}

/// Appends a filter command for the pattern, drawing the next style.
pub open spec fn parse_filter(
    pattern: Seq<u8>,
    negative: bool,
    highlight: bool,
    st: ParseStateV,
) -> Result<(ParseStateV, bool), ParseErrorV> {
    if regex_pattern_ok(pattern) {
        Result::Ok(
            (
                ParseStateV {
                    commands: st.commands.push(
                        CommandV::Filter {
                            pattern,
                            style: st.styles.style_at(gen_advance(st.styles.pair())),
                            negative,
                            highlight,
                        },
                    ),
                    styles: advanced_gen(st.styles),
                    ..st
                },
                false,
            ),
        )
    } else {
        Result::Err(ParseErrorV::MalformedPattern { pattern })
    }
}

/// Classifies one argument and folds it into the construction state.  The
/// second component of the result says whether construction stops here
/// (after a help option the remaining arguments are not looked at).
pub open spec fn parse_one(arg: Seq<u8>, st: ParseStateV) -> Result<
    (ParseStateV, bool),
    ParseErrorV,
> {
    if starts_with(arg, pfx_dash()) {
        if arg == opt_help_short() || arg == opt_help_long() {
            Result::Ok((ParseStateV { options: st.options.push(RunOption::Help), ..st }, true))
        } else {
            Result::Err(ParseErrorV::InvalidOption { arg })
        }
    } else if starts_with(arg, pfx_filter_no_highlight()) {
        parse_filter(arg.skip(3), false, false, st)
    } else if starts_with(arg, pfx_highlight()) {
        let pattern = arg.skip(2);
        if regex_pattern_ok(pattern) {
            Result::Ok(
                (
                    ParseStateV {
                        commands: st.commands.push(
                            CommandV::Highlight {
                                pattern,
                                style: st.styles.style_at(gen_advance(st.styles.pair())),
                            },
                        ),
                        styles: advanced_gen(st.styles),
                        ..st
                    },
                    false,
                ),
            )
        } else {
            Result::Err(ParseErrorV::MalformedPattern { pattern })
        }
    } else if starts_with(arg, pfx_negative_filter()) {
        parse_filter(arg.skip(2), true, false, st)
    } else if starts_with(arg, pfx_substitution()) {
        let rest = arg.skip(2);
        if rest.len() == 0 {
            Result::Err(ParseErrorV::MalformedCommand { arg })
        } else {
            let body = rest.skip(1);
            let parts = split_by(body, rest[0]);
            if parts.len() != 2 {
                Result::Err(ParseErrorV::MalformedCommand { arg })
            } else if regex_pattern_ok(parts[0]) {
                Result::Ok(
                    (
                        ParseStateV {
                            commands: st.commands.push(
                                CommandV::Substitution {
                                    pattern: parts[0],
                                    replacement: parts[1],
                                },
                            ),
                            ..st
                        },
                        false,
                    ),
                )
            } else {
                Result::Err(ParseErrorV::MalformedPattern { pattern: parts[0] })
            }
        }
    } else if starts_with(arg, pfx_filter_time()) {
        let rest = arg.skip(3);
        let parts = split_by(rest, 45);
        if parts.len() != 2 {
            Result::Err(ParseErrorV::MalformedCommand { arg })
        } else {
            Result::Ok(
                (
                    ParseStateV {
                        commands: st.commands.push(
                            CommandV::FilterTime { begin: parts[0], end: parts[1] },
                        ),
                        initial_forbidden: st.initial_forbidden || parts[0].len() > 0,
                        ..st
                    },
                    false,
                ),
            )
        }
    } else if starts_with(arg, pfx_highlight_threads()) {
        Result::Ok(
            (ParseStateV { commands: st.commands.push(CommandV::HighlightThreads), ..st }, false),
        )
    } else {
        let pattern = if starts_with(arg, pfx_filter()) {
            arg.skip(3)
        } else {
            arg
        };
        parse_filter(pattern, false, true, st)
    }
}

/// Folds the arguments from position `i` onward into the construction
/// state, stopping at the first error or help option.
pub open spec fn parse_args(args: Seq<Seq<u8>>, i: int, st: ParseStateV) -> Result<
    ParseStateV,
    ParseErrorV,
>
    decreases args.len() - i,
{
    if 0 <= i < args.len() {
        match parse_one(args[i], st) {
            Result::Err(e) => Result::Err(e),
            Result::Ok(p) => if p.1 {
                Result::Ok(p.0)
            } else {
                parse_args(args, i + 1, p.0)
            },
        }
    } else {
        Result::Ok(st)
    }
}

/// Everything needed to process lines: the options, the command chain, and
/// the cross-line state that some commands maintain.
#[derive(Debug)]
pub struct Context {
    /// Command-line options other than line-processing commands.
    pub options: Vec<RunOption>,
    /// The chain: commands applied to every line, in declared order.
    pub commands: Vec<Command>,
    /// Cross-line state of the timestamp-range block selection.
    pub multiline_selection_state: MultilineSelectionState,
    /// Cross-line registry of thread identifiers and their styles.
    pub highlight_threads_state: HighlightThreadsState,
}

impl Context {
    /// The chain as a sequence of command shapes.
    pub open spec fn chain_view(&self) -> Seq<CommandV> {
        chain_of(self.commands@)
    }

    pub open spec fn wf(&self) -> bool {
        self.highlight_threads_state.wf()
    }

    /// Builds the context from the raw command-line arguments (each one as
    /// its bytes), classifying every argument by its prefix, compiling its
    /// pattern, and drawing a style for each filter or highlight.  Fails
    /// with the first argument that cannot be understood.
    pub fn new(args: Vec<Vec<u8>>) -> (r: Result<Context, ParseError>)
        ensures
            ({
                let p = parse_args(views_of(args@), 0, init_parse_state());
                match r {
                    Result::Ok(ctx) => {
                        &&& p is Ok
                        &&& ctx.options@ == p->Ok_0.options
                        &&& ctx.chain_view() == p->Ok_0.commands
                        &&& ctx.multiline_selection_state == (MultilineSelectionState {
                            multiline_selection: if p->Ok_0.initial_forbidden {
                                LineSelection::ExplicitlyForbidden
                            } else {
                                LineSelection::Neutral
                            },
                            forbid_next_line: false,
                        })
                        &&& ctx.highlight_threads_state@ == Seq::<ThreadEntryV>::empty()
                        &&& ctx.wf()
                    },
                    Result::Err(e) => p is Err && e@ == p->Err_0,
                }
            }),
    {
        let ghost argsv = views_of(args@);
        let p_dash: Vec<u8> = vec![45u8];
        let p_help_short: Vec<u8> = vec![45u8, 104u8];
        let p_help_long: Vec<u8> = vec![45u8, 45u8, 104u8, 101u8, 108u8, 112u8];
        let p_fc: Vec<u8> = vec![102u8, 99u8, 58u8];
        let p_fn: Vec<u8> = vec![102u8, 110u8, 58u8];
        let p_h: Vec<u8> = vec![104u8, 58u8];
        let p_n: Vec<u8> = vec![110u8, 58u8];
        let p_s: Vec<u8> = vec![115u8, 58u8];
        let p_ft: Vec<u8> = vec![102u8, 116u8, 58u8];
        let p_ht: Vec<u8> = vec![104u8, 116u8, 58u8];
        let mut options: Vec<RunOption> = Vec::new();
        let mut styles = StyleGenerator::new(false, true, true);
        let mut commands: Vec<Command> = Vec::new();
        let mut initial_forbidden = false;
        let mut stop = false;
        let mut i: usize = 0;
        proof {
            assert(chain_of(commands@) =~= Seq::<CommandV>::empty());
            assert((ParseStateV {
                options: options@,
                commands: chain_of(commands@),
                styles,
                initial_forbidden,
            }) == init_parse_state());
        }
        while i < args.len() && !stop
            invariant
                argsv == views_of(args@),
                argsv.len() == args@.len(),
                i <= args@.len(),
                styles.wf(),
                p_dash@ == pfx_dash(),
                p_help_short@ == opt_help_short(),
                p_help_long@ == opt_help_long(),
                p_fc@ == pfx_filter(),
                p_fn@ == pfx_filter_no_highlight(),
                p_h@ == pfx_highlight(),
                p_n@ == pfx_negative_filter(),
                p_s@ == pfx_substitution(),
                p_ft@ == pfx_filter_time(),
                p_ht@ == pfx_highlight_threads(),
                ({
                    let live = ParseStateV {
                        options: options@,
                        commands: chain_of(commands@),
                        styles,
                        initial_forbidden,
                    };
                    if stop {
                        parse_args(argsv, 0, init_parse_state()) == Result::<
                            ParseStateV,
                            ParseErrorV,
                        >::Ok(live)
                    } else {
                        parse_args(argsv, i as int, live) == parse_args(
                            argsv,
                            0,
                            init_parse_state(),
                        )
                    }
                }),
            decreases args@.len() - i,
        {
            let ghost pre = ParseStateV {
                options: options@,
                commands: chain_of(commands@),
                styles,
                initial_forbidden,
            };
            proof {
                assert(argsv[i as int] == args@[i as int]@);
            }
            let arg = &args[i];
            if has_prefix(arg, &p_dash) {
                if bytes_eq(arg, &p_help_short) || bytes_eq(arg, &p_help_long) {
                    options.push(RunOption::Help);
                    stop = true;
                } else {
                    let whole = subrange_vec(arg, 0, arg.len());
                    proof {
                        assert(whole@ =~= arg@);
                        assert(parse_args(argsv, i as int, pre) == Result::<
                            ParseStateV,
                            ParseErrorV,
                        >::Err(ParseErrorV::InvalidOption { arg: arg@ }));
                    }
                    return Result::Err(ParseError::InvalidOption(whole));
                }
            } else if has_prefix(arg, &p_fn) {
                let pattern = subrange_vec(arg, 3, arg.len());
                proof {
                    assert(pattern@ =~= arg@.skip(3));
                }
                match Matcher::compile_case_insensitive(&pattern) {
                    Option::None => {
                        return Result::Err(ParseError::MalformedPattern(pattern));
                    },
                    Option::Some(m) => {
                        let style = styles.next();
                        commands.push(Command::Filter(m, style, false, false));
                        proof {
                            assert(chain_of(commands@) =~= pre.commands.push(
                                commands@.last()@,
                            ));
                        }
                    },
                }
            } else if has_prefix(arg, &p_h) {
                let pattern = subrange_vec(arg, 2, arg.len());
                proof {
                    assert(pattern@ =~= arg@.skip(2));
                }
                match Matcher::compile_case_insensitive(&pattern) {
                    Option::None => {
                        return Result::Err(ParseError::MalformedPattern(pattern));
                    },
                    Option::Some(m) => {
                        let style = styles.next();
                        commands.push(Command::Highlight(m, style));
                        proof {
                            assert(chain_of(commands@) =~= pre.commands.push(
                                commands@.last()@,
                            ));
                        }
                    },
                }
            } else if has_prefix(arg, &p_n) {
                let pattern = subrange_vec(arg, 2, arg.len());
                proof {
                    assert(pattern@ =~= arg@.skip(2));
                }
                match Matcher::compile_case_insensitive(&pattern) {
                    Option::None => {
                        return Result::Err(ParseError::MalformedPattern(pattern));
                    },
                    Option::Some(m) => {
                        let style = styles.next();
                        commands.push(Command::Filter(m, style, true, false));
                        proof {
                            assert(chain_of(commands@) =~= pre.commands.push(
                                commands@.last()@,
                            ));
                        }
                    },
                }
            } else if has_prefix(arg, &p_s) {
                let rest = subrange_vec(arg, 2, arg.len());
                proof {
                    assert(rest@ =~= arg@.skip(2));
                }
                if rest.len() == 0 {
                    let whole = subrange_vec(arg, 0, arg.len());
                    proof {
                        assert(whole@ =~= arg@);
                    }
                    return Result::Err(ParseError::MalformedCommand(whole));
                }
                let d = rest[0];
                let body = subrange_vec(&rest, 1, rest.len());
                proof {
                    assert(body@ =~= arg@.skip(2).skip(1));
                }
                match split_once_exact(&body, d) {
                    Option::None => {
                        let whole = subrange_vec(arg, 0, arg.len());
                        proof {
                            assert(whole@ =~= arg@);
                        }
                        return Result::Err(ParseError::MalformedCommand(whole));
                    },
                    Option::Some(parts) => {
                        let (pat, rep) = parts;
                        match Matcher::compile_case_insensitive(&pat) {
                            Option::None => {
                                return Result::Err(ParseError::MalformedPattern(pat));
                            },
                            Option::Some(m) => {
                                commands.push(Command::Substitution(m, rep));
                                proof {
                                    assert(chain_of(commands@) =~= pre.commands.push(
                                        commands@.last()@,
                                    ));
                                }
                            },
                        }
                    },
                }
            } else if has_prefix(arg, &p_ft) {
                let rest = subrange_vec(arg, 3, arg.len());
                proof {
                    assert(rest@ =~= arg@.skip(3));
                }
                match split_once_exact(&rest, 45) {
                    Option::None => {
                        let whole = subrange_vec(arg, 0, arg.len());
                        proof {
                            assert(whole@ =~= arg@);
                        }
                        return Result::Err(ParseError::MalformedCommand(whole));
                    },
                    Option::Some(parts) => {
                        let (begin, end) = parts;
                        if begin.len() > 0 {
                            initial_forbidden = true;
                        }
                        commands.push(Command::FilterTime(begin, end));
                        proof {
                            assert(chain_of(commands@) =~= pre.commands.push(
                                commands@.last()@,
                            ));
                        }
                    },
                }
            } else if has_prefix(arg, &p_ht) {
                commands.push(Command::HighlightThreads);
                proof {
                    assert(chain_of(commands@) =~= pre.commands.push(commands@.last()@));
                }
            } else {
                let pattern = if has_prefix(arg, &p_fc) {
                    let q = subrange_vec(arg, 3, arg.len());
                    proof {
                        assert(q@ =~= arg@.skip(3));
                    }
                    q
                } else {
                    let q = subrange_vec(arg, 0, arg.len());
                    proof {
                        assert(q@ =~= arg@);
                    }
                    q
                };
                match Matcher::compile_case_insensitive(&pattern) {
                    Option::None => {
                        return Result::Err(ParseError::MalformedPattern(pattern));
                    },
                    Option::Some(m) => {
                        let style = styles.next();
                        commands.push(Command::Filter(m, style, false, true));
                        proof {
                            assert(chain_of(commands@) =~= pre.commands.push(
                                commands@.last()@,
                            ));
                        }
                    },
                }
            }
            proof {
                let post = ParseStateV {
                    options: options@,
                    commands: chain_of(commands@),
                    styles,
                    initial_forbidden,
                };
                assert(parse_one(argsv[i as int], pre) == Result::<
                    (ParseStateV, bool),
                    ParseErrorV,
                >::Ok((post, stop)));
            }
            i = i + 1;
        }
        let multiline_selection = if initial_forbidden {
            LineSelection::ExplicitlyForbidden
        } else {
            LineSelection::Neutral
        };
        let ctx = Context {
            options,
            commands,
            multiline_selection_state: MultilineSelectionState {
                multiline_selection,
                forbid_next_line: false,
            },
            highlight_threads_state: HighlightThreadsState::new(),
        };
        Result::Ok(ctx)
    }

    /// A context with no options and no commands.
    pub fn empty() -> (ctx: Context)
        ensures
            ctx.options@ =~= Seq::<RunOption>::empty(),
            ctx.chain_view() =~= Seq::<CommandV>::empty(),
            ctx.multiline_selection_state == (MultilineSelectionState {
                multiline_selection: LineSelection::Neutral,
                forbid_next_line: false,
            }),
            ctx.highlight_threads_state@ =~= Seq::<ThreadEntryV>::empty(),
            ctx.wf(),
    {
        Context {
            options: Vec::new(),
            commands: Vec::new(),
            multiline_selection_state: MultilineSelectionState {
                multiline_selection: LineSelection::Neutral,
                forbid_next_line: false,
            },
            highlight_threads_state: HighlightThreadsState::new(),
        }
    }
}

} // verus!
