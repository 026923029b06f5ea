//! The data model: the closed set of commands a chain is made of, the
//! tri-state selection value, the cross-line block-selection state, and the
//! errors of chain construction.

use crate::matcher::Matcher;
use crate::style::Style;
use vstd::prelude::*;

verus! {

/// Tri-state selection verdict.  Each line's evaluation starts from
/// `Neutral`; the same three states also drive the cross-line block
/// selection.
#[derive(Clone, Copy, PartialEq, Eq, Structural, Debug)]
pub enum LineSelection {
    Neutral,
    ExplicitlyAllowed,
    ExplicitlyForbidden,
}

/// Cross-line state of the timestamp-range block selection.
#[derive(Clone, Copy, PartialEq, Eq, Structural, Debug)]
pub struct MultilineSelectionState {
    /// Whether a multi-line selection block is currently open, closed, or
    /// not yet entered.
    pub multiline_selection: LineSelection,
    /// One-shot latch: the range closed on the previous line, so the block
    /// must be shut before this line is considered.
    pub forbid_next_line: bool,
}

/// A command-line option other than a line-processing command.
#[derive(Clone, Copy, PartialEq, Eq, Structural, Debug)]
pub enum RunOption {
    Help,
}

/// Why a chain could not be built from the given arguments.
#[derive(PartialEq, Eq, Debug)]
pub enum ParseError {
    /// A dash argument that is not a recognized option.
    InvalidOption(Vec<u8>),
    /// A regular expression that does not compile; carries the pattern.
    MalformedPattern(Vec<u8>),
    /// A substitution or time-filter argument that does not split into the
    /// required number of delimited fields; carries the argument.
    MalformedCommand(Vec<u8>),
}

/// The mathematical shape of a chain-construction error.
pub ghost enum ParseErrorV {
    InvalidOption { arg: Seq<u8> },
    MalformedPattern { pattern: Seq<u8> },
    MalformedCommand { arg: Seq<u8> },
}

impl View for ParseError {
    type V = ParseErrorV;

    open spec fn view(&self) -> ParseErrorV {
        match self {
            ParseError::InvalidOption(arg) => ParseErrorV::InvalidOption { arg: arg@ },
            ParseError::MalformedPattern(pattern) => ParseErrorV::MalformedPattern {
                pattern: pattern@,
            },
            ParseError::MalformedCommand(arg) => ParseErrorV::MalformedCommand { arg: arg@ },
        }
    }
}

/// One line-processing command of the chain.
#[derive(Debug)]
pub enum Command {
    /// Discards the line unless (or, negative, if) the pattern matches;
    /// optionally highlights the matched spans.
    Filter(Matcher, Style, /* negative */ bool, /* highlight */ bool),
    /// Highlights the matched spans; never affects selection.
    Highlight(Matcher, Style),
    /// Replaces every matched span, in the matching buffer and in the
    /// displayed buffer alike, by the replacement template.
    Substitution(Matcher, Vec<u8>),
    /// Keeps the block of lines whose leading timestamp lies between the
    /// two bounds; either bound may be empty and is then ignored.
    FilterTime(/* begin */ Vec<u8>, /* end */ Vec<u8>),
    /// Discovers `0x`-prefixed thread identifiers (the third field of a
    /// line) and paints each in its own stable style.
    HighlightThreads,
}

/// The mathematical shape of a command: patterns and bounds as byte
/// sequences.
pub ghost enum CommandV {
    Filter { pattern: Seq<u8>, style: Style, negative: bool, highlight: bool },
    Highlight { pattern: Seq<u8>, style: Style },
    Substitution { pattern: Seq<u8>, replacement: Seq<u8> },
    FilterTime { begin: Seq<u8>, end: Seq<u8> },
    HighlightThreads,
}

impl View for Command {
    type V = CommandV;

    open spec fn view(&self) -> CommandV {
        match self {
            Command::Filter(m, style, negative, highlight) => CommandV::Filter {
                pattern: m@,
                style: *style,
                negative: *negative,
                highlight: *highlight,
            },
            Command::Highlight(m, style) => CommandV::Highlight { pattern: m@, style: *style },
            Command::Substitution(m, replacement) => CommandV::Substitution {
                pattern: m@,
                replacement: replacement@,
            },
            Command::FilterTime(begin, end) => CommandV::FilterTime {
                begin: begin@,
                end: end@,
            },
            Command::HighlightThreads => CommandV::HighlightThreads,
        }
    }
}

/// A positive filter is a `Filter` command not marked negative; only those
/// take part in the look-ahead rule for chained filters.
pub open spec fn is_positive_filter_spec(c: CommandV) -> bool {
    c matches CommandV::Filter { negative: false, .. }
}

pub fn is_positive_filter(c: &Command) -> (r: bool)
    ensures
        r == is_positive_filter_spec(c@),
{
    match c {
        Command::Filter(_, _, negative, _) => !*negative,
        _ => false,
    }
}

} // verus!
