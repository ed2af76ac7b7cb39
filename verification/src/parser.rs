//! The parsing engine: composable recognizers that turn a byte slice into the
//! typed statement tree of `ast`.
//!
//! Every recognizer is a pure function from an input slice and a position to
//! either a value and the position of the unconsumed remainder, or a failure;
//! no partial value survives a failure. Each executable recognizer is proved
//! equal to its mathematical counterpart (`spec_*` over `Seq<u8>`), so the
//! whole grammar — alternative ordering, greedy scanning, whitespace and
//! boundary handling — is pinned down by the spec functions below.

use vstd::prelude::*;

use crate::ast::{
    Comment, CommentView, QuantifiedSymbol, QuantifiedSymbolView, Quantifier,
    SequentialExpression, SequentialExpressionView, Statement, StatementLhs, StatementLhsView,
    StatementRhs, StatementRhsView, StatementView, Statements, StatementsView, Symbol, SymbolView,
};

verus! {

/// Why a parse failed, at the engine boundary.
#[derive(Debug, PartialEq, Eq, Structural, Clone, Copy)]
pub enum ParseError {
    /// An identifier scan found zero alphabetic characters where a non-empty
    /// match was required.
    EmptyIdentifier,
    /// A symbol could not be built because no identifier could be scanned.
    InvalidSymbol,
    /// A `[` was opened but never closed, or the brackets held zero symbols.
    UnterminatedSequence,
    /// One of `(`, `|`, `)` was missing, or a nested expression failed.
    MalformedOptional,
    /// The `=` or the terminating `.` of a statement was missing.
    MalformedStatement,
    /// Not even one statement could be parsed from the start of the input.
    EmptyProgram,
}

// ---------------------------------------------------------------------------
// Character classes
// ---------------------------------------------------------------------------

/// An ASCII letter.
pub open spec fn is_alpha_char(c: u8) -> bool {
    (65 <= c && c <= 90) || (97 <= c && c <= 122)
}

/// A blank: space or horizontal tab.
pub open spec fn is_space_char(c: u8) -> bool {
    c == 32 || c == 9
}

/// Whitespace of any kind: blank or line break.
pub open spec fn is_multispace_char(c: u8) -> bool {
    is_space_char(c) || is_line_ending_char(c)
}

/// A line break character: line feed or carriage return.
pub open spec fn is_line_ending_char(c: u8) -> bool {
    c == 10 || c == 13
}

fn is_alpha(c: u8) -> (r: bool)
    ensures
        r == is_alpha_char(c),
{
    (65 <= c && c <= 90) || (97 <= c && c <= 122)
}

fn is_space(c: u8) -> (r: bool)
    ensures
        r == is_space_char(c),
{
    c == 32 || c == 9
}

fn is_multispace(c: u8) -> (r: bool)
    ensures
        r == is_multispace_char(c),
{
    c == 32 || c == 9 || c == 10 || c == 13
}

/// Whether `c` ends a comment line.
pub fn is_line_ending(c: u8) -> (r: bool)
    ensures
        r == is_line_ending_char(c),
{
    c == 10 || c == 13
}

// ---------------------------------------------------------------------------
// Scanners over the raw input
// ---------------------------------------------------------------------------

/// Position after the maximal run of blanks starting at `pos`.
pub open spec fn spec_skip_whitespace(s: Seq<u8>, pos: int) -> int
    decreases s.len() - pos,
{
    if 0 <= pos && pos < s.len() && is_space_char(s[pos]) {
        spec_skip_whitespace(s, pos + 1)
    } else {
        pos
    }
}

/// Position after the maximal run of whitespace (blanks and line breaks)
/// starting at `pos`.
pub open spec fn spec_skip_multispace(s: Seq<u8>, pos: int) -> int
    decreases s.len() - pos,
{
    if 0 <= pos && pos < s.len() && is_multispace_char(s[pos]) {
        spec_skip_multispace(s, pos + 1)
    } else {
        pos
    }
}

/// End of the maximal run of ASCII letters starting at `pos`.
pub open spec fn spec_scan_identifier_end(s: Seq<u8>, pos: int) -> int
    decreases s.len() - pos,
{
    if 0 <= pos && pos < s.len() && is_alpha_char(s[pos]) {
        spec_scan_identifier_end(s, pos + 1)
    } else {
        pos
    }
}

/// Position of the first line break at or after `pos` (or the end of input).
pub open spec fn spec_scan_line_end(s: Seq<u8>, pos: int) -> int
    decreases s.len() - pos,
{
    if 0 <= pos && pos < s.len() && !is_line_ending_char(s[pos]) {
        spec_scan_line_end(s, pos + 1)
    } else {
        pos
    }
}

/// Every scanner stays within the input and never moves backwards.
pub proof fn lemma_scanner_bounds(s: Seq<u8>, pos: int)
    ensures
        pos <= spec_skip_whitespace(s, pos),
        pos <= spec_skip_multispace(s, pos),
        pos <= spec_scan_identifier_end(s, pos),
        pos <= spec_scan_line_end(s, pos),
        0 <= pos && pos <= s.len() ==> spec_skip_whitespace(s, pos) <= s.len(),
        0 <= pos && pos <= s.len() ==> spec_skip_multispace(s, pos) <= s.len(),
        0 <= pos && pos <= s.len() ==> spec_scan_identifier_end(s, pos) <= s.len(),
        0 <= pos && pos <= s.len() ==> spec_scan_line_end(s, pos) <= s.len(),
    decreases s.len() - pos,
{
    if 0 <= pos && pos < s.len() {
        lemma_scanner_bounds(s, pos + 1);
    }
}

/// Consumes zero or more blanks; never fails.
pub fn skip_whitespace(s: &[u8], pos: usize) -> (r: usize)
    requires
        pos <= s@.len(),
    ensures
        r as int == spec_skip_whitespace(s@, pos as int),
        pos <= r <= s@.len(),
{
    let mut i = pos;
    while i < s.len() && is_space(s[i])
        invariant
            pos <= i <= s@.len(),
            spec_skip_whitespace(s@, pos as int) == spec_skip_whitespace(s@, i as int),
        decreases s@.len() - i,
    {
        i = i + 1;
    }
    i
}

/// Consumes zero or more whitespace characters of any kind; never fails.
pub fn skip_multispace(s: &[u8], pos: usize) -> (r: usize)
    requires
        pos <= s@.len(),
    ensures
        r as int == spec_skip_multispace(s@, pos as int),
        pos <= r <= s@.len(),
{
    let mut i = pos;
    while i < s.len() && is_multispace(s[i])
        invariant
            pos <= i <= s@.len(),
            spec_skip_multispace(s@, pos as int) == spec_skip_multispace(s@, i as int),
        decreases s@.len() - i,
    {
        i = i + 1;
    }
    i
}

/// Scans the maximal run of ASCII letters starting at `pos`.
fn scan_identifier_end(s: &[u8], pos: usize) -> (r: usize)
    requires
        pos <= s@.len(),
    ensures
        r as int == spec_scan_identifier_end(s@, pos as int),
        pos <= r <= s@.len(),
{
    let mut i = pos;
    while i < s.len() && is_alpha(s[i])
        invariant
            pos <= i <= s@.len(),
            spec_scan_identifier_end(s@, pos as int) == spec_scan_identifier_end(s@, i as int),
        decreases s@.len() - i,
    {
        i = i + 1;
    }
    i
}

/// Scans up to (not including) the next line break.
fn scan_line_end(s: &[u8], pos: usize) -> (r: usize)
    requires
        pos <= s@.len(),
    ensures
        r as int == spec_scan_line_end(s@, pos as int),
        pos <= r <= s@.len(),
{
    let mut i = pos;
    while i < s.len() && !is_line_ending(s[i])
        invariant
            pos <= i <= s@.len(),
            spec_scan_line_end(s@, pos as int) == spec_scan_line_end(s@, i as int),
        decreases s@.len() - i,
    {
        i = i + 1;
    }
    i
}

/// Copies `s[from..to]` into an owned buffer.
fn subrange_to_vec(s: &[u8], from: usize, to: usize) -> (r: Vec<u8>)
    requires
        from <= to <= s@.len(),
    ensures
        r@ == s@.subrange(from as int, to as int),
{
    let mut v: Vec<u8> = Vec::new();
    let mut i = from;
    while i < to
        invariant
            from <= i <= to <= s@.len(),
            v@ == s@.subrange(from as int, i as int),
        decreases to - i,
    {
        v.push(s[i]);
        proof {
            assert(s@.subrange(from as int, i + 1 as int) =~= s@.subrange(from as int, i as int)
                + seq![s@[i as int]]);
        }
        i = i + 1;
    }
    v
}

// ---------------------------------------------------------------------------
// Lexical rules: identifiers, symbols, quantifiers
// ---------------------------------------------------------------------------

/// An executable recognizer agrees with its model: same success or failure,
/// the same error kind, and on success the same value and remainder position.
pub open spec fn result_matches<T: DeepView>(
    r: Result<(T, usize), ParseError>,
    m: Result<(T::V, int), ParseError>,
) -> bool {
    match (r, m) {
        (Ok((v, p)), Ok((mv, mp))) => v.deep_view() == mv && p as int == mp,
        (Err(e), Err(me)) => e == me,
        _ => false,
    }
}

/// For a byte buffer the deep model and the plain view coincide.
proof fn lemma_bytes_deep_view(v: Vec<u8>)
    ensures
        v.deep_view() == v@,
{
    assert(v.deep_view() =~= v@);
}

/// The longest run of ASCII letters at `pos`; at least one is required.
pub open spec fn spec_identifier(s: Seq<u8>, pos: int) -> Result<(Seq<u8>, int), ParseError> {
    let end = spec_scan_identifier_end(s, pos);
    if end == pos {
        Err(ParseError::EmptyIdentifier)
    } else {
        Ok((s.subrange(pos, end), end))
    }
}

/// The longest run of ASCII letters at `pos`, possibly empty.
pub open spec fn spec_pattern_name(s: Seq<u8>, pos: int) -> (Seq<u8>, int) {
    let end = spec_scan_identifier_end(s, pos);
    (s.subrange(pos, end), end)
}

/// A terminal symbol: a non-empty identifier.
pub open spec fn spec_symbol(s: Seq<u8>, pos: int) -> Result<(SymbolView, int), ParseError> {
    match spec_identifier(s, pos) {
        Err(_) => Err(ParseError::InvalidSymbol),
        Ok((value, p)) => Ok((SymbolView::Terminal { value }, p)),
    }
}

/// A trailing quantifier character: `+`, `*`, or — consuming nothing — `One`.
/// This rule never fails.
pub open spec fn spec_quantifier(s: Seq<u8>, pos: int) -> (Quantifier, int) {
    if 0 <= pos && pos < s.len() && s[pos] == 43 {
        (Quantifier::OneOrMore, pos + 1)
    } else if 0 <= pos && pos < s.len() && s[pos] == 42 {
        (Quantifier::ZeroOrMore, pos + 1)
    } else {
        (Quantifier::One, pos)
    }
}

/// A symbol followed by its (possibly implicit) quantifier. Fails only if the
/// symbol fails.
pub open spec fn spec_quantified_symbol(s: Seq<u8>, pos: int) -> Result<
    (QuantifiedSymbolView, int),
    ParseError,
> {
    match spec_symbol(s, pos) {
        Err(e) => Err(e),
        Ok((symbol, p)) => {
            let (quantifier, p2) = spec_quantifier(s, p);
            Ok((QuantifiedSymbolView::QuantifiedSymbol { symbol, quantifier }, p2))
        },
    }
}

/// Consumes the longest run of ASCII letters at `pos`; fails with
/// `EmptyIdentifier` if zero characters match.
pub fn identifier(s: &[u8], pos: usize) -> (r: Result<(Vec<u8>, usize), ParseError>)
    requires
        pos <= s@.len(),
    ensures
        result_matches(r, spec_identifier(s@, pos as int)),
        r matches Ok((_, p)) ==> pos < p <= s@.len(),
{
    let end = scan_identifier_end(s, pos);
    if end == pos {
        Err(ParseError::EmptyIdentifier)
    } else {
        let v = subrange_to_vec(s, pos, end);
        proof {
            lemma_bytes_deep_view(v);
        }
        Ok((v, end))
    }
}

/// Scans an identifier for a statement's left-hand side; a zero-length match
/// is syntactically valid here.
pub fn pattern_name(s: &[u8], pos: usize) -> (r: (Vec<u8>, usize))
    requires
        pos <= s@.len(),
    ensures
        r.0@ == spec_pattern_name(s@, pos as int).0,
        r.1 as int == spec_pattern_name(s@, pos as int).1,
        pos <= r.1 <= s@.len(),
{
    let end = scan_identifier_end(s, pos);
    (subrange_to_vec(s, pos, end), end)
}

/// Recognizes a terminal symbol; fails with `InvalidSymbol` if no identifier
/// could be scanned.
pub fn symbol(s: &[u8], pos: usize) -> (r: Result<(Symbol, usize), ParseError>)
    requires
        pos <= s@.len(),
    ensures
        result_matches(r, spec_symbol(s@, pos as int)),
        r matches Ok((_, p)) ==> pos < p <= s@.len(),
{
    match identifier(s, pos) {
        Err(_) => Err(ParseError::InvalidSymbol),
        Ok((value, p)) => {
            proof {
                lemma_bytes_deep_view(value);
            }
            Ok((Symbol::Terminal { value }, p))
        },
    }
}

/// Recognizes `+` as `OneOrMore`, `*` as `ZeroOrMore`, and anything else —
/// consuming no input — as `One`; never fails.
pub fn quantifier(s: &[u8], pos: usize) -> (r: (Quantifier, usize))
    requires
        pos <= s@.len(),
    ensures
        (r.0, r.1 as int) == spec_quantifier(s@, pos as int),
        pos <= r.1 <= s@.len(),
{
    if pos < s.len() && s[pos] == 43 {
        (Quantifier::OneOrMore, pos + 1)
    } else if pos < s.len() && s[pos] == 42 {
        (Quantifier::ZeroOrMore, pos + 1)
    } else {
        (Quantifier::One, pos)
    }
}

/// Recognizes a symbol and its trailing quantifier; fails only if the symbol
/// fails.
pub fn quantified_symbol(s: &[u8], pos: usize) -> (r: Result<(QuantifiedSymbol, usize), ParseError>)
    requires
        pos <= s@.len(),
    ensures
        result_matches(r, spec_quantified_symbol(s@, pos as int)),
        r matches Ok((_, p)) ==> pos < p <= s@.len(),
{
    match symbol(s, pos) {
        Err(e) => Err(e),
        Ok((sym, p)) => {
            let (q, p2) = quantifier(s, p);
            Ok((QuantifiedSymbol::QuantifiedSymbol { symbol: sym, quantifier: q }, p2))
        },
    }
}

// ---------------------------------------------------------------------------
// Expressions
// ---------------------------------------------------------------------------

/// One or more quantified symbols separated by runs of blanks. The separator
/// and the following symbol must both match for the list to continue; nothing
/// of a failed continuation is consumed.
///
/// The `if` guards around the recursive call restate bounds that always hold
/// (a successful symbol consumes at least one character); they make
/// termination evident.
pub open spec fn spec_symbol_list(s: Seq<u8>, pos: int) -> Result<
    (Seq<QuantifiedSymbolView>, int),
    ParseError,
>
    decreases s.len() - pos,
{
    match spec_quantified_symbol(s, pos) {
        Err(e) => Err(e),
        Ok((q, p)) => {
            let p2 = spec_skip_whitespace(s, p);
            if p < p2 && pos < p2 && p2 <= s.len() && spec_quantified_symbol(s, p2) is Ok {
                match spec_symbol_list(s, p2) {
                    Err(e) => Err(e),
                    Ok((rest, p3)) => Ok((seq![q] + rest, p3)),
                }
            } else {
                Ok((seq![q], p))
            }
        },
    }
}

/// An expression: the alternatives are tried in fixed order — bracketed
/// sequence, then single variable, then binary optional — and the first that
/// succeeds wins. On failure the error of the last alternative is returned.
pub open spec fn spec_expr(s: Seq<u8>, pos: int) -> Result<
    (SequentialExpressionView, int),
    ParseError,
>
    decreases s.len() - pos, 1int,
{
    match spec_expr_sequence(s, pos) {
        Ok(r) => Ok(r),
        Err(_) => match spec_expr_variable(s, pos) {
            Ok(r) => Ok(r),
            Err(_) => spec_expr_optional(s, pos),
        },
    }
}

/// A bracketed sequence: `[`, optional blanks, one or more quantified symbols
/// separated by blanks, optional blanks, `]`. Zero symbols or a missing
/// bracket fail with `UnterminatedSequence`.
pub open spec fn spec_expr_sequence(s: Seq<u8>, pos: int) -> Result<
    (SequentialExpressionView, int),
    ParseError,
> {
    if 0 <= pos && pos < s.len() && s[pos] == 91 {
        let p1 = spec_skip_whitespace(s, pos + 1);
        match spec_symbol_list(s, p1) {
            Err(_) => Err(ParseError::UnterminatedSequence),
            Ok((symbols, p2)) => {
                let p3 = spec_skip_whitespace(s, p2);
                if 0 <= p3 && p3 < s.len() && s[p3] == 93 {
                    Ok((SequentialExpressionView::Sequence { symbols }, p3 + 1))
                } else {
                    Err(ParseError::UnterminatedSequence)
                }
            },
        }
    } else {
        Err(ParseError::UnterminatedSequence)
    }
}

/// A single quantified symbol standing as an expression.
pub open spec fn spec_expr_variable(s: Seq<u8>, pos: int) -> Result<
    (SequentialExpressionView, int),
    ParseError,
> {
    match spec_quantified_symbol(s, pos) {
        Err(e) => Err(e),
        Ok((symbol, p)) => Ok((SequentialExpressionView::Variable { symbol }, p)),
    }
}

/// A binary alternative: `(`, a nested expression, `|`, a nested expression,
/// `)`, each literal framed by optional whitespace. A missing literal or a
/// failed nested expression fails with `MalformedOptional`.
///
/// As in `spec_symbol_list`, the guards before the recursive calls restate
/// always-true bounds so that the recursion visibly terminates.
pub open spec fn spec_expr_optional(s: Seq<u8>, pos: int) -> Result<
    (SequentialExpressionView, int),
    ParseError,
>
    decreases s.len() - pos, 0int,
{
    if 0 <= pos && pos < s.len() && s[pos] == 40 {
        let p1 = spec_skip_multispace(s, pos + 1);
        if pos < p1 && p1 <= s.len() {
            match spec_expr(s, p1) {
                Err(_) => Err(ParseError::MalformedOptional),
                Ok((lhs, p2)) => {
                    let p3 = spec_skip_multispace(s, p2);
                    if 0 <= p3 && p3 < s.len() && s[p3] == 124 {
                        let p4 = spec_skip_multispace(s, p3 + 1);
                        if pos < p4 && p4 <= s.len() {
                            match spec_expr(s, p4) {
                                Err(_) => Err(ParseError::MalformedOptional),
                                Ok((rhs, p5)) => {
                                    let p6 = spec_skip_multispace(s, p5);
                                    if 0 <= p6 && p6 < s.len() && s[p6] == 41 {
                                        Ok(
                                            (
                                                SequentialExpressionView::Optional {
                                                    lhs: Box::new(lhs),
                                                    rhs: Box::new(rhs),
                                                },
                                                p6 + 1,
                                            ),
                                        )
                                    } else {
                                        Err(ParseError::MalformedOptional)
                                    }
                                },
                            }
                        } else {
                            Err(ParseError::MalformedOptional)
                        }
                    } else {
                        Err(ParseError::MalformedOptional)
                    }
                },
            }
        } else {
            Err(ParseError::MalformedOptional)
        }
    } else {
        Err(ParseError::MalformedOptional)
    }
}

/// Parses one or more quantified symbols separated by runs of blanks.
fn symbol_list(s: &[u8], pos: usize) -> (r: Result<(Vec<QuantifiedSymbol>, usize), ParseError>)
    requires
        pos <= s@.len(),
    ensures
        result_matches(r, spec_symbol_list(s@, pos as int)),
        r matches Ok((_, p)) ==> pos < p <= s@.len(),
    decreases s@.len() - pos,
{
    match quantified_symbol(s, pos) {
        Err(e) => Err(e),
        Ok((q, p)) => {
            let ghost q_deep = q.deep_view();
            let p2 = skip_whitespace(s, p);
            if p2 > p && quantified_symbol(s, p2).is_ok() {
                match symbol_list(s, p2) {
                    Err(e) => Err(e),
                    Ok((rest, p3)) => {
                        let ghost rest_deep = rest.deep_view();
                        let mut list = rest;
                        list.insert(0, q);
                        proof {
                            assert(list.deep_view() =~= seq![q_deep] + rest_deep);
                        }
                        Ok((list, p3))
                    },
                }
            } else {
                let list = vec![q];
                proof {
                    assert(list.deep_view() =~= seq![q_deep]);
                }
                Ok((list, p))
            }
        },
    }
}

/// Parses an expression, trying the alternatives in the fixed order: bracketed
/// sequence, single variable, binary optional.
pub fn expr(s: &[u8], pos: usize) -> (r: Result<(SequentialExpression, usize), ParseError>)
    requires
        pos <= s@.len(),
    ensures
        result_matches(r, spec_expr(s@, pos as int)),
        r matches Ok((_, p)) ==> pos < p <= s@.len(),
    decreases s@.len() - pos, 1int,
{
    match expr_sequence(s, pos) {
        Ok(r) => Ok(r),
        Err(_) => match expr_variable(s, pos) {
            Ok(r) => Ok(r),
            Err(_) => expr_optional(s, pos),
        },
    }
}

/// Parses a bracketed sequence of one or more quantified symbols.
pub fn expr_sequence(s: &[u8], pos: usize) -> (r: Result<(SequentialExpression, usize), ParseError>)
    requires
        pos <= s@.len(),
    ensures
        result_matches(r, spec_expr_sequence(s@, pos as int)),
        r matches Ok((_, p)) ==> pos < p <= s@.len(),
{
    if pos < s.len() && s[pos] == 91 {
        let p1 = skip_whitespace(s, pos + 1);
        match symbol_list(s, p1) {
            Err(_) => Err(ParseError::UnterminatedSequence),
            Ok((symbols, p2)) => {
                let p3 = skip_whitespace(s, p2);
                if p3 < s.len() && s[p3] == 93 {
                    Ok((SequentialExpression::Sequence { symbols }, p3 + 1))
                } else {
                    Err(ParseError::UnterminatedSequence)
                }
            },
        }
    } else {
        Err(ParseError::UnterminatedSequence)
    }
}

/// Parses a single quantified symbol as an expression.
pub fn expr_variable(s: &[u8], pos: usize) -> (r: Result<(SequentialExpression, usize), ParseError>)
    requires
        pos <= s@.len(),
    ensures
        result_matches(r, spec_expr_variable(s@, pos as int)),
        r matches Ok((_, p)) ==> pos < p <= s@.len(),
{
    match quantified_symbol(s, pos) {
        Err(e) => Err(e),
        Ok((symbol, p)) => Ok((SequentialExpression::Variable { symbol }, p)),
    }
}

/// Parses a binary alternative `( expression | expression )`.
pub fn expr_optional(s: &[u8], pos: usize) -> (r: Result<(SequentialExpression, usize), ParseError>)
    requires
        pos <= s@.len(),
    ensures
        result_matches(r, spec_expr_optional(s@, pos as int)),
        r matches Ok((_, p)) ==> pos < p <= s@.len(),
    decreases s@.len() - pos, 0int,
{
    if pos < s.len() && s[pos] == 40 {
        let p1 = skip_multispace(s, pos + 1);
        match expr(s, p1) {
            Err(_) => Err(ParseError::MalformedOptional),
            Ok((lhs, p2)) => {
                let p3 = skip_multispace(s, p2);
                if p3 < s.len() && s[p3] == 124 {
                    let p4 = skip_multispace(s, p3 + 1);
                    match expr(s, p4) {
                        Err(_) => Err(ParseError::MalformedOptional),
                        Ok((rhs, p5)) => {
                            let p6 = skip_multispace(s, p5);
                            if p6 < s.len() && s[p6] == 41 {
                                Ok(
                                    (
                                        SequentialExpression::Optional {
                                            lhs: Box::new(lhs),
                                            rhs: Box::new(rhs),
                                        },
                                        p6 + 1,
                                    ),
                                )
                            } else {
                                Err(ParseError::MalformedOptional)
                            }
                        },
                    }
                } else {
                    Err(ParseError::MalformedOptional)
                }
            },
        }
    } else {
        Err(ParseError::MalformedOptional)
    }
}

// ---------------------------------------------------------------------------
// Comments, statements and the program
// ---------------------------------------------------------------------------

/// A comment line: optional leading blanks, the `//` marker, then everything
/// up to (not including) the next line break as the comment's text. `None`
/// when the marker is absent.
pub open spec fn spec_comment(s: Seq<u8>, pos: int) -> Option<(CommentView, int)> {
    let p = spec_skip_whitespace(s, pos);
    if 0 <= p && p + 1 < s.len() && s[p] == 47 && s[p + 1] == 47 {
        let e = spec_scan_line_end(s, p + 2);
        Some((CommentView::Line { text: s.subrange(p + 2, e) }, e))
    } else {
        None
    }
}

/// Position after all whitespace and comment lines at `pos`: what may stand
/// between two statements. The guard around the recursive call restates the
/// always-true fact that a comment line consumes at least its marker.
pub open spec fn spec_skip_trivia(s: Seq<u8>, pos: int) -> int
    decreases s.len() - pos,
{
    let p = spec_skip_multispace(s, pos);
    match spec_comment(s, p) {
        Some((_, e)) => {
            if pos < e && e <= s.len() {
                spec_skip_trivia(s, e)
            } else {
                p
            }
        },
        None => p,
    }
}

/// A statement's left-hand side: the pattern name (possibly empty here; an
/// empty name makes the enclosing statement fail later, at the `=`).
pub open spec fn spec_statement_lhs(s: Seq<u8>, pos: int) -> (StatementLhsView, int) {
    let (name, p) = spec_pattern_name(s, pos);
    (StatementLhsView::PatternName { name }, p)
}

/// A statement's right-hand side: an expression, wrapped.
pub open spec fn spec_statement_rhs(s: Seq<u8>, pos: int) -> Result<
    (StatementRhsView, int),
    ParseError,
> {
    match spec_expr(s, pos) {
        Err(e) => Err(e),
        Ok((expr, p)) => Ok((StatementRhsView::Expr { expr }, p)),
    }
}

/// One equivalence statement: a pattern name, `=` framed by optional
/// whitespace, an expression, optional blanks, and the terminating `.`.
/// A missing `=` or `.` fails with `MalformedStatement`; a failure of the
/// expression propagates unchanged.
pub open spec fn spec_statement(s: Seq<u8>, pos: int) -> Result<(StatementView, int), ParseError> {
    let (lhs, p0) = spec_statement_lhs(s, pos);
    let p1 = spec_skip_multispace(s, p0);
    if 0 <= p1 && p1 < s.len() && s[p1] == 61 {
        let p2 = spec_skip_multispace(s, p1 + 1);
        match spec_statement_rhs(s, p2) {
            Err(e) => Err(e),
            Ok((rhs, p3)) => {
                let p4 = spec_skip_whitespace(s, p3);
                if 0 <= p4 && p4 < s.len() && s[p4] == 46 {
                    Ok((StatementView::Equivalence { lhs, rhs }, p4 + 1))
                } else {
                    Err(ParseError::MalformedStatement)
                }
            },
        }
    } else {
        Err(ParseError::MalformedStatement)
    }
}

/// Zero or more statements, each preceded by skippable trivia, in encounter
/// order, together with the position after the last consumed trivia. Never
/// fails: zero statements give the empty list. The guards restate always-true
/// bounds (a statement consumes at least its `=` and `.`).
pub open spec fn spec_statement_list_more(s: Seq<u8>, pos: int) -> (Seq<StatementView>, int)
    decreases s.len() - pos,
{
    let p = spec_skip_trivia(s, pos);
    if pos <= p && p <= s.len() {
        match spec_statement(s, p) {
            Err(_) => (Seq::empty(), p),
            Ok((st, p2)) => {
                if p < p2 && p2 <= s.len() {
                    let (rest, p3) = spec_statement_list_more(s, p2);
                    (seq![st] + rest, p3)
                } else {
                    (seq![st], p2)
                }
            },
        }
    } else {
        (Seq::empty(), p)
    }
}

/// The whole program: one or more statements interleaved with skippable
/// comments and whitespace. Fails with `EmptyProgram` if not even one
/// statement can be parsed; trailing unconsumed input (after any trailing
/// trivia) is reported through the returned position, never as an error.
pub open spec fn spec_statement_list(s: Seq<u8>, pos: int) -> Result<
    (StatementsView, int),
    ParseError,
> {
    let (list, p) = spec_statement_list_more(s, pos);
    if list.len() == 0 {
        Err(ParseError::EmptyProgram)
    } else {
        Ok((StatementsView::List { list }, p))
    }
}

/// Recognizes a comment line; returns the comment's text and the position of
/// the line break (or end of input), or `None` if the `//` marker is absent.
pub fn comment(s: &[u8], pos: usize) -> (r: Option<(Comment, usize)>)
    requires
        pos <= s@.len(),
    ensures
        ({
            let m = spec_comment(s@, pos as int);
            match (r, m) {
                (Some((c, p)), Some((mc, mp))) => c.deep_view() == mc && p as int == mp,
                (None, None) => true,
                _ => false,
            }
        }),
        r matches Some((_, p)) ==> pos < p <= s@.len(),
{
    let p = skip_whitespace(s, pos);
    if p < s.len() && p + 1 < s.len() && s[p] == 47 && s[p + 1] == 47 {
        let e = scan_line_end(s, p + 2);
        let text = subrange_to_vec(s, p + 2, e);
        proof {
            lemma_bytes_deep_view(text);
        }
        Some((Comment::Line { text }, e))
    } else {
        None
    }
}

/// Consumes all whitespace and comment lines at `pos`.
pub fn skip_trivia(s: &[u8], pos: usize) -> (r: usize)
    requires
        pos <= s@.len(),
    ensures
        r as int == spec_skip_trivia(s@, pos as int),
        pos <= r <= s@.len(),
    decreases s@.len() - pos,
{
    let p = skip_multispace(s, pos);
    match comment(s, p) {
        Some((_, e)) => skip_trivia(s, e),
        None => p,
    }
}

/// Parses a statement's left-hand side; never fails, though an empty name
/// makes the enclosing statement fail at the `=`.
pub fn statement_lhs(s: &[u8], pos: usize) -> (r: (StatementLhs, usize))
    requires
        pos <= s@.len(),
    ensures
        r.0.deep_view() == spec_statement_lhs(s@, pos as int).0,
        r.1 as int == spec_statement_lhs(s@, pos as int).1,
        pos <= r.1 <= s@.len(),
{
    let (name, p) = pattern_name(s, pos);
    proof {
        lemma_bytes_deep_view(name);
    }
    (StatementLhs::PatternName { name }, p)
}

/// Parses a statement's right-hand side: an expression, wrapped.
pub fn statement_rhs(s: &[u8], pos: usize) -> (r: Result<(StatementRhs, usize), ParseError>)
    requires
        pos <= s@.len(),
    ensures
        result_matches(r, spec_statement_rhs(s@, pos as int)),
        r matches Ok((_, p)) ==> pos < p <= s@.len(),
{
    match expr(s, pos) {
        Err(e) => Err(e),
        Ok((ex, p)) => Ok((StatementRhs::Expr { expr: Box::new(ex) }, p)),
    }
}

/// Parses one equivalence statement `name = expression .`.
pub fn statement(s: &[u8], pos: usize) -> (r: Result<(Statement, usize), ParseError>)
    requires
        pos <= s@.len(),
    ensures
        result_matches(r, spec_statement(s@, pos as int)),
        r matches Ok((_, p)) ==> pos < p <= s@.len(),
{
    let (lhs, p0) = statement_lhs(s, pos);
    let p1 = skip_multispace(s, p0);
    if p1 < s.len() && s[p1] == 61 {
        let p2 = skip_multispace(s, p1 + 1);
        match statement_rhs(s, p2) {
            Err(e) => Err(e),
            Ok((rhs, p3)) => {
                let p4 = skip_whitespace(s, p3);
                if p4 < s.len() && s[p4] == 46 {
                    Ok(
                        (
                            Statement::Equivalence { lhs: Box::new(lhs), rhs: Box::new(rhs) },
                            p4 + 1,
                        ),
                    )
                } else {
                    Err(ParseError::MalformedStatement)
                }
            },
        }
    } else {
        Err(ParseError::MalformedStatement)
    }
}

/// Parses as many trivia-preceded statements as possible, in encounter order.
fn statement_list_more(s: &[u8], pos: usize) -> (r: (Vec<Statement>, usize))
    requires
        pos <= s@.len(),
    ensures
        r.0.deep_view() == spec_statement_list_more(s@, pos as int).0,
        r.1 as int == spec_statement_list_more(s@, pos as int).1,
        pos <= r.1 <= s@.len(),
    decreases s@.len() - pos,
{
    let p = skip_trivia(s, pos);
    match statement(s, p) {
        Err(_) => {
            let list: Vec<Statement> = Vec::new();
            proof {
                assert(list.deep_view() =~= Seq::<StatementView>::empty());
            }
            (list, p)
        },
        Ok((st, p2)) => {
            let ghost st_deep = st.deep_view();
            let (rest, p3) = statement_list_more(s, p2);
            let ghost rest_deep = rest.deep_view();
            let mut list = rest;
            list.insert(0, st);
            proof {
                assert(list.deep_view() =~= seq![st_deep] + rest_deep);
            }
            (list, p3)
        },
    }
}

/// Parses a whole program: one or more statements, interleaved with comments
/// and whitespace that are skipped and never retained. On success the returned
/// position marks the unconsumed remainder; `EmptyProgram` is returned when no
/// statement could be parsed at all.
pub fn statement_list(s: &[u8]) -> (r: Result<(Statements, usize), ParseError>)
    ensures
        result_matches(r, spec_statement_list(s@, 0)),
        r matches Ok((_, p)) ==> p <= s@.len(),
{
    let (list, p) = statement_list_more(s, 0);
    if list.len() == 0 {
        Err(ParseError::EmptyProgram)
    } else {
        Ok((Statements::List { list }, p))
    }
}

} // verus!
