//! General laws of the parsing engine, proved once and for all inputs of the
//! stated shape: how identifiers and quantifiers combine, that sequences keep
//! textual order, that alternatives keep their sides, that comments are
//! skipped without a trace, that parsing is deterministic, and that inputs
//! with no statement fail with `EmptyProgram`.

use vstd::prelude::*;

use crate::ast::{
    CommentView, QuantifiedSymbolView, Quantifier, SequentialExpressionView, StatementLhsView,
    StatementRhsView, StatementView, Statements, StatementsView, SymbolView,
};
use crate::parser::{
    is_alpha_char, is_multispace_char, is_space_char, lemma_scanner_bounds, result_matches,
    spec_comment, spec_expr, spec_expr_optional, spec_expr_sequence, spec_expr_variable,
    spec_pattern_name, spec_quantified_symbol, spec_scan_identifier_end, spec_skip_multispace,
    spec_skip_trivia, spec_skip_whitespace, spec_statement, spec_statement_list,
    spec_statement_list_more, spec_symbol_list, ParseError,
};

verus! {

// ---------------------------------------------------------------------------
// How the scanners behave on runs of known characters
// ---------------------------------------------------------------------------

/// A maximal run of `n` letters is scanned in full and no further.
pub proof fn lemma_identifier_run(s: Seq<u8>, pos: int, n: int)
    requires
        0 <= pos,
        0 <= n,
        pos + n <= s.len(),
        forall|i: int| pos <= i < pos + n ==> is_alpha_char(s[i]),
        pos + n == s.len() || !is_alpha_char(s[pos + n]),
    ensures
        spec_scan_identifier_end(s, pos) == pos + n,
    decreases n,
{
    if n > 0 {
        lemma_identifier_run(s, pos + 1, n - 1);
    }
}

/// A maximal run of `n` blanks is skipped in full and no further.
pub proof fn lemma_whitespace_run(s: Seq<u8>, pos: int, n: int)
    requires
        0 <= pos,
        0 <= n,
        pos + n <= s.len(),
        forall|i: int| pos <= i < pos + n ==> is_space_char(s[i]),
        pos + n == s.len() || !is_space_char(s[pos + n]),
    ensures
        spec_skip_whitespace(s, pos) == pos + n,
    decreases n,
{
    if n > 0 {
        lemma_whitespace_run(s, pos + 1, n - 1);
    }
}

/// A maximal run of `n` whitespace characters is skipped in full and no
/// further.
pub proof fn lemma_multispace_run(s: Seq<u8>, pos: int, n: int)
    requires
        0 <= pos,
        0 <= n,
        pos + n <= s.len(),
        forall|i: int| pos <= i < pos + n ==> is_multispace_char(s[i]),
        pos + n == s.len() || !is_multispace_char(s[pos + n]),
    ensures
        spec_skip_multispace(s, pos) == pos + n,
    decreases n,
{
    if n > 0 {
        lemma_multispace_run(s, pos + 1, n - 1);
    }
}

/// Everything that `spec_skip_whitespace` moves over is a blank, and it stops
/// only at a non-blank or at the end of input.
proof fn lemma_skip_whitespace_chars(s: Seq<u8>, pos: int)
    requires
        0 <= pos <= s.len(),
    ensures
        pos <= spec_skip_whitespace(s, pos) <= s.len(),
        forall|i: int| pos <= i < spec_skip_whitespace(s, pos) ==> is_space_char(s[i]),
        spec_skip_whitespace(s, pos) == s.len() || !is_space_char(
            s[spec_skip_whitespace(s, pos)],
        ),
    decreases s.len() - pos,
{
    if pos < s.len() && is_space_char(s[pos]) {
        lemma_skip_whitespace_chars(s, pos + 1);
    }
}

// ---------------------------------------------------------------------------
// Quantifiers after identifiers
// ---------------------------------------------------------------------------

/// For any identifier (a maximal run of `n` letters at `pos`) immediately
/// followed by `+`, the parsed quantified symbol carries `OneOrMore`;
/// followed by `*`, it carries `ZeroOrMore`; followed by neither (or by the
/// end of input), it carries `One` and nothing after the identifier is
/// consumed.
pub proof fn lemma_quantifier_of_suffix(s: Seq<u8>, pos: int, n: int)
    requires
        0 <= pos,
        0 < n,
        pos + n <= s.len(),
        forall|i: int| pos <= i < pos + n ==> is_alpha_char(s[i]),
        pos + n == s.len() || !is_alpha_char(s[pos + n]),
    ensures
        pos + n < s.len() && s[pos + n] == 43 ==> spec_quantified_symbol(s, pos) == Ok::<
            _,
            ParseError,
        >(
            (
                QuantifiedSymbolView::QuantifiedSymbol {
                    symbol: SymbolView::Terminal { value: s.subrange(pos, pos + n) },
                    quantifier: Quantifier::OneOrMore,
                },
                pos + n + 1,
            ),
        ),
        pos + n < s.len() && s[pos + n] == 42 ==> spec_quantified_symbol(s, pos) == Ok::<
            _,
            ParseError,
        >(
            (
                QuantifiedSymbolView::QuantifiedSymbol {
                    symbol: SymbolView::Terminal { value: s.subrange(pos, pos + n) },
                    quantifier: Quantifier::ZeroOrMore,
                },
                pos + n + 1,
            ),
        ),
        pos + n == s.len() || (s[pos + n] != 43 && s[pos + n] != 42)
            ==> spec_quantified_symbol(s, pos) == Ok::<_, ParseError>(
            (
                QuantifiedSymbolView::QuantifiedSymbol {
                    symbol: SymbolView::Terminal { value: s.subrange(pos, pos + n) },
                    quantifier: Quantifier::One,
                },
                pos + n,
            ),
        ),
{
    lemma_identifier_run(s, pos, n);
}

/// The given terminal with no explicit quantifier: quantifier `One`.
pub open spec fn plain_symbol(value: Seq<u8>) -> QuantifiedSymbolView {
    QuantifiedSymbolView::QuantifiedSymbol {
        symbol: SymbolView::Terminal { value },
        quantifier: Quantifier::One,
    }
}

// ---------------------------------------------------------------------------
// Symbol lists inside brackets
// ---------------------------------------------------------------------------

/// A lone identifier whose follower is none of letter, `+`, `*` or blank is
/// parsed as a one-element symbol list ending right after the identifier.
proof fn lemma_symbol_list_last(s: Seq<u8>, pos: int, n: int)
    requires
        0 <= pos,
        0 < n,
        pos + n <= s.len(),
        forall|i: int| pos <= i < pos + n ==> is_alpha_char(s[i]),
        pos + n == s.len() || (!is_alpha_char(s[pos + n]) && s[pos + n] != 43 && s[pos + n] != 42
            && !is_space_char(s[pos + n])),
    ensures
        spec_symbol_list(s, pos) == Ok::<_, ParseError>(
            (seq![plain_symbol(s.subrange(pos, pos + n))], pos + n),
        ),
{
    lemma_quantifier_of_suffix(s, pos, n);
}

/// An identifier followed by one blank and a further symbol list extends that
/// list at the front, in textual order.
proof fn lemma_symbol_list_cons(
    s: Seq<u8>,
    pos: int,
    n: int,
    rest: Seq<QuantifiedSymbolView>,
    rest_pos: int,
)
    requires
        0 <= pos,
        0 < n,
        pos + n + 1 < s.len(),
        forall|i: int| pos <= i < pos + n ==> is_alpha_char(s[i]),
        s[pos + n] == 32,
        spec_symbol_list(s, pos + n + 1) == Ok::<_, ParseError>((rest, rest_pos)),
    ensures
        spec_symbol_list(s, pos) == Ok::<_, ParseError>(
            (seq![plain_symbol(s.subrange(pos, pos + n))] + rest, rest_pos),
        ),
{
    assert(!is_alpha_char(32u8) && !is_space_char(43u8));
    lemma_quantifier_of_suffix(s, pos, n);
    // the next list element starts with a letter, so the separator is exactly
    // the one blank
    assert(spec_quantified_symbol(s, pos + n + 1) is Ok);
    assert(is_alpha_char(s[pos + n + 1])) by {
        if spec_scan_identifier_end(s, pos + n + 1) == pos + n + 1 {
            assert(spec_quantified_symbol(s, pos + n + 1) is Err);
        }
    }
    lemma_whitespace_run(s, pos + n, 1);
}

// ---------------------------------------------------------------------------
// From one statement to the whole program
// ---------------------------------------------------------------------------

/// An input that begins with a letter and is exactly one statement parses as
/// a one-statement program with nothing left unconsumed.
proof fn lemma_single_statement_program(s: Seq<u8>, st: StatementView)
    requires
        0 < s.len(),
        is_alpha_char(s[0]),
        spec_statement(s, 0) == Ok::<_, ParseError>((st, s.len() as int)),
    ensures
        spec_statement_list(s, 0) == Ok::<_, ParseError>(
            (StatementsView::List { list: seq![st] }, s.len() as int),
        ),
{
    let len = s.len() as int;
    assert(!is_multispace_char(s[0]) && !is_space_char(s[0]) && s[0] != 47);
    assert(spec_skip_multispace(s, 0) == 0);
    assert(spec_skip_whitespace(s, 0) == 0);
    assert(spec_comment(s, 0) is None);
    assert(spec_skip_trivia(s, 0) == 0);
    // after the statement nothing is left: the tail parse yields no statement
    assert(spec_skip_multispace(s, len) == len);
    assert(spec_skip_whitespace(s, len) == len);
    assert(spec_comment(s, len) is None);
    assert(spec_skip_trivia(s, len) == len);
    assert(spec_scan_identifier_end(s, len) == len);
    assert(spec_statement(s, len) is Err);
    assert(spec_statement_list_more(s, len) == (Seq::<StatementView>::empty(), len));
    assert(spec_statement_list_more(s, 0).0 =~= seq![st]);
}

// ---------------------------------------------------------------------------
// Binary alternatives keep their sides
// ---------------------------------------------------------------------------

/// The statement `Name = (a | b).` described by character regions of `s`:
/// the name in `[0, nn)`, ` = (` next, `a` in `[nn + 4, nn + 4 + na)`,
/// ` | ` next, `b` in `[nn + 7 + na, nn + 7 + na + nb)`, then `).`.
#[verifier::rlimit(100)]
#[verifier::spinoff_prover]
proof fn lemma_optional_statement_regions(s: Seq<u8>, nn: int, na: int, nb: int)
    requires
        0 < nn,
        0 < na,
        0 < nb,
        s.len() == nn + 9 + na + nb,
        forall|i: int| 0 <= i < nn ==> is_alpha_char(s[i]),
        s[nn] == 32 && s[nn + 1] == 61 && s[nn + 2] == 32 && s[nn + 3] == 40,
        forall|i: int| nn + 4 <= i < nn + 4 + na ==> is_alpha_char(s[i]),
        s[nn + 4 + na] == 32 && s[nn + 5 + na] == 124 && s[nn + 6 + na] == 32,
        forall|i: int| nn + 7 + na <= i < nn + 7 + na + nb ==> is_alpha_char(s[i]),
        s[nn + 7 + na + nb] == 41 && s[nn + 8 + na + nb] == 46,
    ensures
        spec_statement_list(s, 0) == Ok::<_, ParseError>(
            (
                StatementsView::List {
                    list: seq![
                        StatementView::Equivalence {
                            lhs: StatementLhsView::PatternName { name: s.subrange(0, nn) },
                            rhs: StatementRhsView::Expr {
                                expr: SequentialExpressionView::Optional {
                                    lhs: Box::new(
                                        SequentialExpressionView::Variable {
                                            symbol: plain_symbol(
                                                s.subrange(nn + 4, nn + 4 + na),
                                            ),
                                        },
                                    ),
                                    rhs: Box::new(
                                        SequentialExpressionView::Variable {
                                            symbol: plain_symbol(
                                                s.subrange(nn + 7 + na, nn + 7 + na + nb),
                                            ),
                                        },
                                    ),
                                },
                            },
                        },
                    ],
                },
                s.len() as int,
            ),
        ),
{
    let a_start = nn + 4;
    let b_start = nn + 7 + na;
    let z = b_start + nb;
    let len = s.len() as int;
    let a = s.subrange(a_start, a_start + na);
    let b = s.subrange(b_start, b_start + nb);
    let expr_view = SequentialExpressionView::Optional {
        lhs: Box::new(SequentialExpressionView::Variable { symbol: plain_symbol(a) }),
        rhs: Box::new(SequentialExpressionView::Variable { symbol: plain_symbol(b) }),
    };
    let st = StatementView::Equivalence {
        lhs: StatementLhsView::PatternName { name: s.subrange(0, nn) },
        rhs: StatementRhsView::Expr { expr: expr_view },
    };

    // the left-hand side: the name, then ` = `
    assert(spec_pattern_name(s, 0) == (s.subrange(0, nn), nn)) by {
        lemma_identifier_run(s, 0, nn);
    }
    assert(spec_skip_multispace(s, nn) == nn + 1) by {
        lemma_multispace_run(s, nn, 1);
    }
    assert(spec_skip_multispace(s, nn + 2) == nn + 3) by {
        lemma_multispace_run(s, nn + 2, 1);
    }

    // at `(` a bracketed sequence and a lone variable both fail
    assert(spec_expr_sequence(s, nn + 3) is Err);
    assert(spec_expr_variable(s, nn + 3) is Err) by {
        assert(spec_scan_identifier_end(s, nn + 3) == nn + 3);
    }

    // left branch: the variable `a`
    assert(spec_skip_multispace(s, nn + 4) == a_start) by {
        lemma_multispace_run(s, nn + 4, 0);
    }
    assert(spec_expr_sequence(s, a_start) is Err) by {
        assert(!is_alpha_char(91u8));
    }
    assert(spec_expr(s, a_start) == Ok::<_, ParseError>(
        (SequentialExpressionView::Variable { symbol: plain_symbol(a) }, a_start + na),
    )) by {
        lemma_quantifier_of_suffix(s, a_start, na);
    }
    assert(spec_skip_multispace(s, a_start + na) == a_start + na + 1) by {
        lemma_multispace_run(s, a_start + na, 1);
    }
    assert(spec_skip_multispace(s, a_start + na + 2) == b_start) by {
        lemma_multispace_run(s, a_start + na + 2, 1);
    }

    // right branch: the variable `b`
    assert(spec_expr_sequence(s, b_start) is Err) by {
        assert(!is_alpha_char(91u8));
    }
    assert(spec_expr(s, b_start) == Ok::<_, ParseError>(
        (SequentialExpressionView::Variable { symbol: plain_symbol(b) }, z),
    )) by {
        lemma_quantifier_of_suffix(s, b_start, nb);
    }
    assert(spec_skip_multispace(s, z) == z) by {
        lemma_multispace_run(s, z, 0);
    }
    assert(spec_expr_optional(s, nn + 3) == Ok::<_, ParseError>((expr_view, z + 1)));
    assert(spec_expr(s, nn + 3) == Ok::<_, ParseError>((expr_view, z + 1)));

    // the terminating `.`
    assert(spec_skip_whitespace(s, z + 1) == z + 1) by {
        lemma_whitespace_run(s, z + 1, 0);
    }
    assert(spec_statement(s, 0) == Ok::<_, ParseError>((st, len)));
    lemma_single_statement_program(s, st);
}

/// For any input `Name = (a | b).` — identifiers `Name`, `a`, `b` — the parse
/// is a single statement whose expression is the binary alternative of the
/// two variables, each with quantifier `One`, with `a` on the left and `b` on
/// the right exactly as written, and nothing left unconsumed.
#[verifier::rlimit(100)]
#[verifier::spinoff_prover]
pub proof fn lemma_optional_statement(name: Seq<u8>, a: Seq<u8>, b: Seq<u8>)
    requires
        0 < name.len(),
        0 < a.len(),
        0 < b.len(),
        forall|i: int| 0 <= i < name.len() ==> is_alpha_char(name[i]),
        forall|i: int| 0 <= i < a.len() ==> is_alpha_char(a[i]),
        forall|i: int| 0 <= i < b.len() ==> is_alpha_char(b[i]),
    ensures
        ({
            let s = name + seq![32u8, 61u8, 32u8, 40u8] + a + seq![32u8, 124u8, 32u8] + b
                + seq![41u8, 46u8];
            spec_statement_list(s, 0) == Ok::<_, ParseError>(
                (
                    StatementsView::List {
                        list: seq![
                            StatementView::Equivalence {
                                lhs: StatementLhsView::PatternName { name },
                                rhs: StatementRhsView::Expr {
                                    expr: SequentialExpressionView::Optional {
                                        lhs: Box::new(
                                            SequentialExpressionView::Variable {
                                                symbol: plain_symbol(a),
                                            },
                                        ),
                                        rhs: Box::new(
                                            SequentialExpressionView::Variable {
                                                symbol: plain_symbol(b),
                                            },
                                        ),
                                    },
                                },
                            },
                        ],
                    },
                    s.len() as int,
                ),
            )
        }),
{
    let s = name + seq![32u8, 61u8, 32u8, 40u8] + a + seq![32u8, 124u8, 32u8] + b + seq![
        41u8,
        46u8,
    ];
    let nn = name.len() as int;
    let na = a.len() as int;
    let nb = b.len() as int;
    let a_start = nn + 4;
    let b_start = nn + 7 + na;
    assert(forall|i: int| 0 <= i < nn ==> s[i] == name[i]);
    assert(s[nn] == 32 && s[nn + 1] == 61 && s[nn + 2] == 32 && s[nn + 3] == 40);
    assert(forall|i: int| a_start <= i < a_start + na ==> s[i] == a[i - a_start]);
    assert(s[a_start + na] == 32 && s[a_start + na + 1] == 124 && s[a_start + na + 2] == 32);
    assert(forall|i: int| b_start <= i < b_start + nb ==> s[i] == b[i - b_start]);
    assert(s[b_start + nb] == 41 && s[b_start + nb + 1] == 46);
    lemma_optional_statement_regions(s, nn, na, nb);
    assert(s.subrange(0, nn) =~= name);
    assert(s.subrange(a_start, a_start + na) =~= a);
    assert(s.subrange(b_start, b_start + nb) =~= b);
}

// ---------------------------------------------------------------------------
// Bracketed sequences keep textual order
// ---------------------------------------------------------------------------

/// The statement `Name = [a b c].` described by character regions of `s`:
/// the name in `[0, nn)`, ` = [` next, the three identifiers separated by
/// single blanks, then `].`.
#[verifier::rlimit(100)]
#[verifier::spinoff_prover]
proof fn lemma_sequence_statement_regions(s: Seq<u8>, nn: int, na: int, nb: int, nc: int)
    requires
        0 < nn,
        0 < na,
        0 < nb,
        0 < nc,
        s.len() == nn + 8 + na + nb + nc,
        forall|i: int| 0 <= i < nn ==> is_alpha_char(s[i]),
        s[nn] == 32 && s[nn + 1] == 61 && s[nn + 2] == 32 && s[nn + 3] == 91,
        forall|i: int| nn + 4 <= i < nn + 4 + na ==> is_alpha_char(s[i]),
        s[nn + 4 + na] == 32,
        forall|i: int| nn + 5 + na <= i < nn + 5 + na + nb ==> is_alpha_char(s[i]),
        s[nn + 5 + na + nb] == 32,
        forall|i: int| nn + 6 + na + nb <= i < nn + 6 + na + nb + nc ==> is_alpha_char(s[i]),
        s[nn + 6 + na + nb + nc] == 93 && s[nn + 7 + na + nb + nc] == 46,
    ensures
        spec_statement_list(s, 0) == Ok::<_, ParseError>(
            (
                StatementsView::List {
                    list: seq![
                        StatementView::Equivalence {
                            lhs: StatementLhsView::PatternName { name: s.subrange(0, nn) },
                            rhs: StatementRhsView::Expr {
                                expr: SequentialExpressionView::Sequence {
                                    symbols: seq![
                                        plain_symbol(s.subrange(nn + 4, nn + 4 + na)),
                                        plain_symbol(
                                            s.subrange(nn + 5 + na, nn + 5 + na + nb),
                                        ),
                                        plain_symbol(
                                            s.subrange(nn + 6 + na + nb, nn + 6 + na + nb + nc),
                                        ),
                                    ],
                                },
                            },
                        },
                    ],
                },
                s.len() as int,
            ),
        ),
{
    let a_start = nn + 4;
    let b_start = nn + 5 + na;
    let c_start = nn + 6 + na + nb;
    let z = c_start + nc;
    let len = s.len() as int;
    let qa = plain_symbol(s.subrange(a_start, a_start + na));
    let qb = plain_symbol(s.subrange(b_start, b_start + nb));
    let qc = plain_symbol(s.subrange(c_start, c_start + nc));
    let st = StatementView::Equivalence {
        lhs: StatementLhsView::PatternName { name: s.subrange(0, nn) },
        rhs: StatementRhsView::Expr {
            expr: SequentialExpressionView::Sequence { symbols: seq![qa, qb, qc] },
        },
    };

    // the left-hand side: the name, then ` = `
    assert(spec_pattern_name(s, 0) == (s.subrange(0, nn), nn)) by {
        lemma_identifier_run(s, 0, nn);
    }
    assert(spec_skip_multispace(s, nn) == nn + 1) by {
        lemma_multispace_run(s, nn, 1);
    }
    assert(spec_skip_multispace(s, nn + 2) == nn + 3) by {
        lemma_multispace_run(s, nn + 2, 1);
    }

    // inside the brackets: the three symbols, in textual order
    assert(spec_skip_whitespace(s, nn + 4) == a_start) by {
        lemma_whitespace_run(s, nn + 4, 0);
    }
    assert(spec_symbol_list(s, c_start) == Ok::<_, ParseError>((seq![qc], z))) by {
        assert(!is_alpha_char(93u8) && !is_space_char(93u8));
        lemma_symbol_list_last(s, c_start, nc);
    }
    assert(spec_symbol_list(s, b_start) == Ok::<_, ParseError>((seq![qb] + seq![qc], z))) by {
        lemma_symbol_list_cons(s, b_start, nb, seq![qc], z);
    }
    assert(spec_symbol_list(s, a_start) == Ok::<_, ParseError>(
        (seq![qa] + (seq![qb] + seq![qc]), z),
    )) by {
        lemma_symbol_list_cons(s, a_start, na, seq![qb] + seq![qc], z);
    }
    assert(seq![qa] + (seq![qb] + seq![qc]) =~= seq![qa, qb, qc]);

    // the closing bracket and the terminating `.`
    assert(spec_skip_whitespace(s, z) == z) by {
        lemma_whitespace_run(s, z, 0);
    }
    assert(spec_expr_sequence(s, nn + 3) == Ok::<_, ParseError>(
        (SequentialExpressionView::Sequence { symbols: seq![qa, qb, qc] }, z + 1),
    ));
    assert(spec_skip_whitespace(s, z + 1) == z + 1) by {
        lemma_whitespace_run(s, z + 1, 0);
    }
    assert(spec_statement(s, 0) == Ok::<_, ParseError>((st, len)));
    lemma_single_statement_program(s, st);
}

/// For any input `Name = [a b c].` — three identifiers separated by single
/// blanks inside the brackets — the parse is a single statement whose
/// expression is a `Sequence` of the three symbols in exactly left-to-right
/// textual order, each with quantifier `One`, with nothing left unconsumed.
#[verifier::rlimit(100)]
#[verifier::spinoff_prover]
pub proof fn lemma_sequence_statement(name: Seq<u8>, a: Seq<u8>, b: Seq<u8>, c: Seq<u8>)
    requires
        0 < name.len(),
        0 < a.len(),
        0 < b.len(),
        0 < c.len(),
        forall|i: int| 0 <= i < name.len() ==> is_alpha_char(name[i]),
        forall|i: int| 0 <= i < a.len() ==> is_alpha_char(a[i]),
        forall|i: int| 0 <= i < b.len() ==> is_alpha_char(b[i]),
        forall|i: int| 0 <= i < c.len() ==> is_alpha_char(c[i]),
    ensures
        ({
            let s = name + seq![32u8, 61u8, 32u8, 91u8] + a + seq![32u8] + b + seq![32u8] + c
                + seq![93u8, 46u8];
            spec_statement_list(s, 0) == Ok::<_, ParseError>(
                (
                    StatementsView::List {
                        list: seq![
                            StatementView::Equivalence {
                                lhs: StatementLhsView::PatternName { name },
                                rhs: StatementRhsView::Expr {
                                    expr: SequentialExpressionView::Sequence {
                                        symbols: seq![
                                            plain_symbol(a),
                                            plain_symbol(b),
                                            plain_symbol(c),
                                        ],
                                    },
                                },
                            },
                        ],
                    },
                    s.len() as int,
                ),
            )
        }),
{
    let s = name + seq![32u8, 61u8, 32u8, 91u8] + a + seq![32u8] + b + seq![32u8] + c + seq![
        93u8,
        46u8,
    ];
    let nn = name.len() as int;
    let na = a.len() as int;
    let nb = b.len() as int;
    let nc = c.len() as int;
    let a_start = nn + 4;
    let b_start = nn + 5 + na;
    let c_start = nn + 6 + na + nb;
    assert(forall|i: int| 0 <= i < nn ==> s[i] == name[i]);
    assert(s[nn] == 32 && s[nn + 1] == 61 && s[nn + 2] == 32 && s[nn + 3] == 91);
    assert(forall|i: int| a_start <= i < a_start + na ==> s[i] == a[i - a_start]);
    assert(s[a_start + na] == 32);
    assert(forall|i: int| b_start <= i < b_start + nb ==> s[i] == b[i - b_start]);
    assert(s[b_start + nb] == 32);
    assert(forall|i: int| c_start <= i < c_start + nc ==> s[i] == c[i - c_start]);
    assert(s[c_start + nc] == 93 && s[c_start + nc + 1] == 46);
    lemma_sequence_statement_regions(s, nn, na, nb, nc);
    assert(s.subrange(0, nn) =~= name);
    assert(s.subrange(a_start, a_start + na) =~= a);
    assert(s.subrange(b_start, b_start + nb) =~= b);
    assert(s.subrange(c_start, c_start + nc) =~= c);
}

// ---------------------------------------------------------------------------
// Comments are skipped without a trace
// ---------------------------------------------------------------------------

/// Skipping trivia stays within the input and never moves backwards.
proof fn lemma_skip_trivia_bounds(s: Seq<u8>, pos: int)
    requires
        0 <= pos <= s.len(),
    ensures
        pos <= spec_skip_trivia(s, pos) <= s.len(),
    decreases s.len() - pos,
{
    lemma_scanner_bounds(s, pos);
    let p = spec_skip_multispace(s, pos);
    match spec_comment(s, p) {
        Some((c, e)) => {
            if pos < e && e <= s.len() {
                lemma_skip_trivia_bounds(s, e);
            }
        },
        None => {},
    }
}

/// A comment line before whatever follows is skipped and never retained:
/// the parse from `pos` (where a comment starts, `e` being the position of
/// its line break) is exactly the parse from `e` — the same statements, the
/// same remainder, the same error.
pub proof fn lemma_comments_not_retained(s: Seq<u8>, pos: int, text: Seq<u8>, e: int)
    requires
        0 <= pos <= s.len(),
        spec_comment(s, pos) == Some((CommentView::Line { text }, e)),
    ensures
        spec_statement_list_more(s, pos) == spec_statement_list_more(s, e),
        spec_statement_list(s, pos) == spec_statement_list(s, e),
{
    let marker = spec_skip_whitespace(s, pos);
    lemma_skip_whitespace_chars(s, pos);
    assert forall|i: int| pos <= i < marker implies is_multispace_char(s[i]) by {
        assert(is_space_char(s[i]));
    }
    assert(!is_multispace_char(47u8) && !is_space_char(47u8));
    lemma_multispace_run(s, pos, marker - pos);
    assert(spec_skip_multispace(s, pos) == marker);
    assert(spec_skip_whitespace(s, marker) == marker);
    assert(spec_comment(s, marker) == Some((CommentView::Line { text }, e)));
    lemma_scanner_bounds(s, marker + 2);
    assert(marker + 2 <= e && e <= s.len());
    assert(spec_skip_trivia(s, pos) == spec_skip_trivia(s, e));
    lemma_skip_trivia_bounds(s, e);
    assert(spec_statement_list_more(s, pos) == spec_statement_list_more(s, e));
}

// ---------------------------------------------------------------------------
// Parsing is deterministic
// ---------------------------------------------------------------------------

/// Parsing has no hidden state: any two results that meet `statement_list`'s
/// contract for the same input are the same parse — structurally identical
/// trees and equal remainders on success, the same error kind on failure.
pub proof fn lemma_parse_deterministic(
    s: Seq<u8>,
    r1: Result<(Statements, usize), ParseError>,
    r2: Result<(Statements, usize), ParseError>,
)
    requires
        result_matches(r1, spec_statement_list(s, 0)),
        result_matches(r2, spec_statement_list(s, 0)),
    ensures
        match (r1, r2) {
            (Ok((v1, p1)), Ok((v2, p2))) => v1.deep_view() == v2.deep_view() && p1 == p2,
            (Err(e1), Err(e2)) => e1 == e2,
            _ => false,
        },
{
}

// ---------------------------------------------------------------------------
// Inputs without a statement fail with EmptyProgram
// ---------------------------------------------------------------------------

/// The input from `pos` on consists only of whitespace and comment lines.
pub open spec fn trivia_only(s: Seq<u8>, pos: int) -> bool
    decreases s.len() - pos,
{
    if pos >= s.len() {
        true
    } else if 0 <= pos && is_multispace_char(s[pos]) {
        trivia_only(s, pos + 1)
    } else {
        match spec_comment(s, pos) {
            Some((c, e)) => pos < e && e <= s.len() && trivia_only(s, e),
            None => false,
        }
    }
}

/// Trivia-only input is consumed whole by the trivia skipper.
proof fn lemma_trivia_only_consumed(s: Seq<u8>, pos: int)
    requires
        0 <= pos <= s.len(),
        trivia_only(s, pos),
    ensures
        spec_skip_trivia(s, pos) == s.len(),
    decreases s.len() - pos,
{
    if pos >= s.len() {
        assert(spec_skip_multispace(s, pos) == pos);
    } else if is_multispace_char(s[pos]) {
        lemma_trivia_only_consumed(s, pos + 1);
        assert(spec_skip_multispace(s, pos) == spec_skip_multispace(s, pos + 1));
        let p = spec_skip_multispace(s, pos + 1);
        lemma_scanner_bounds(s, pos + 1);
        match spec_comment(s, p) {
            Some((c, e)) => {
                lemma_scanner_bounds(s, p);
                let marker = spec_skip_whitespace(s, p);
                lemma_scanner_bounds(s, marker + 2);
                assert(marker + 2 <= e && e <= s.len());
                assert(spec_skip_trivia(s, pos) == spec_skip_trivia(s, e));
                assert(spec_skip_trivia(s, pos + 1) == spec_skip_trivia(s, e));
            },
            None => {},
        }
    } else {
        let some_comment = spec_comment(s, pos);
        let e = some_comment->Some_0.1;
        lemma_trivia_only_consumed(s, e);
        assert(spec_skip_multispace(s, pos) == pos);
        assert(spec_skip_trivia(s, pos) == spec_skip_trivia(s, e));
    }
}

/// An input consisting only of comments and whitespace — in particular, only
/// of comments, or only of whitespace — fails with `EmptyProgram`: no
/// statement is present.
pub proof fn lemma_trivia_only_empty_program(s: Seq<u8>)
    requires
        trivia_only(s, 0),
    ensures
        spec_statement_list(s, 0) == Err::<(StatementsView, int), ParseError>(
            ParseError::EmptyProgram,
        ),
{
    let len = s.len() as int;
    lemma_trivia_only_consumed(s, 0);
    assert(spec_scan_identifier_end(s, len) == len);
    assert(spec_skip_multispace(s, len) == len);
    assert(spec_statement(s, len) is Err);
    assert(spec_statement_list_more(s, 0) == (Seq::<StatementView>::empty(), len));
}

/// An input of whitespace alone is trivia, so it fails with `EmptyProgram`.
pub proof fn lemma_whitespace_only_empty_program(s: Seq<u8>)
    requires
        forall|i: int| 0 <= i < s.len() ==> is_multispace_char(s[i]),
    ensures
        spec_statement_list(s, 0) == Err::<(StatementsView, int), ParseError>(
            ParseError::EmptyProgram,
        ),
{
    lemma_all_whitespace_trivia(s, 0);
    lemma_trivia_only_empty_program(s);
}

/// Whitespace everywhere from `pos` on is trivia.
proof fn lemma_all_whitespace_trivia(s: Seq<u8>, pos: int)
    requires
        0 <= pos <= s.len(),
        forall|i: int| pos <= i < s.len() ==> is_multispace_char(s[i]),
    ensures
        trivia_only(s, pos),
    decreases s.len() - pos,
{
    if pos < s.len() {
        lemma_all_whitespace_trivia(s, pos + 1);
    }
}

} // verus!

