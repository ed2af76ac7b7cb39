//! The statement tree produced by the parser: named equations whose right-hand
//! side is a sequence of quantified terminal symbols, a single quantified
//! symbol, or a binary either/or alternative.
//!
//! Every executable type has a mathematical model (its `*View` counterpart over
//! `Seq`), reached through `DeepView`; the parser's contracts speak of those
//! models.

use vstd::prelude::*;

verus! {

/// Repetition marker attached to a symbol: exactly one occurrence (no suffix),
/// one-or-more (`+`), or zero-or-more (`*`). There is no zero-or-one marker.
#[derive(Debug, PartialEq, Eq, Structural, Clone, Copy)]
pub enum Quantifier {
    One,
    OneOrMore,
    ZeroOrMore,
}

/// A literal identifier-shaped token matched directly against input text.
/// A non-terminal case is deliberately absent: the notation only knows
/// terminal symbols.
#[derive(Debug, PartialEq, Eq)]
pub enum Symbol {
    Terminal { value: Vec<u8> },
}

/// Mathematical model of `Symbol`.
pub enum SymbolView {
    Terminal { value: Seq<u8> },
}

impl DeepView for Symbol {
    type V = SymbolView;

    open spec fn deep_view(&self) -> SymbolView {
        match self {
            Symbol::Terminal { value } => SymbolView::Terminal { value: value@ },
        }
    }
}

/// One symbol paired with its quantifier. A symbol is never stored without a
/// quantifier: absence of an explicit quantifier character means `One`.
#[derive(Debug, PartialEq, Eq)]
pub enum QuantifiedSymbol {
    QuantifiedSymbol { symbol: Symbol, quantifier: Quantifier },
}

/// Mathematical model of `QuantifiedSymbol`.
pub enum QuantifiedSymbolView {
    QuantifiedSymbol { symbol: SymbolView, quantifier: Quantifier },
}

impl DeepView for QuantifiedSymbol {
    type V = QuantifiedSymbolView;

    open spec fn deep_view(&self) -> QuantifiedSymbolView {
        match self {
            QuantifiedSymbol::QuantifiedSymbol { symbol, quantifier } => {
                QuantifiedSymbolView::QuantifiedSymbol {
                    symbol: symbol.deep_view(),
                    quantifier: *quantifier,
                }
            },
        }
    }
}

/// An expression on the right-hand side of an equation: a single quantified
/// symbol, an ordered bracketed list of quantified symbols, or a binary
/// alternative between two sub-expressions (position matters: it is kept
/// exactly as written).
#[derive(Debug, PartialEq, Eq)]
pub enum SequentialExpression {
    Variable { symbol: QuantifiedSymbol },
    Sequence { symbols: Vec<QuantifiedSymbol> },
    Optional { lhs: Box<SequentialExpression>, rhs: Box<SequentialExpression> },
}

/// Mathematical model of `SequentialExpression`.
pub enum SequentialExpressionView {
    Variable { symbol: QuantifiedSymbolView },
    Sequence { symbols: Seq<QuantifiedSymbolView> },
    Optional { lhs: Box<SequentialExpressionView>, rhs: Box<SequentialExpressionView> },
}

/// Model of an expression tree, recursing structurally through `Optional`.
pub open spec fn view_expr(e: SequentialExpression) -> SequentialExpressionView
    decreases e,
{
    match e {
        SequentialExpression::Variable { symbol } => SequentialExpressionView::Variable {
            symbol: symbol.deep_view(),
        },
        SequentialExpression::Sequence { symbols } => SequentialExpressionView::Sequence {
            symbols: symbols.deep_view(),
        },
        SequentialExpression::Optional { lhs, rhs } => SequentialExpressionView::Optional {
            lhs: Box::new(view_expr(*lhs)),
            rhs: Box::new(view_expr(*rhs)),
        },
    }
}

impl DeepView for SequentialExpression {
    type V = SequentialExpressionView;

    open spec fn deep_view(&self) -> SequentialExpressionView {
        view_expr(*self)
    }
}

/// The left-hand side of an equation: the identifier naming it.
#[derive(Debug, PartialEq, Eq)]
pub enum StatementLhs {
    PatternName { name: Vec<u8> },
}

/// Mathematical model of `StatementLhs`.
pub enum StatementLhsView {
    PatternName { name: Seq<u8> },
}

impl DeepView for StatementLhs {
    type V = StatementLhsView;

    open spec fn deep_view(&self) -> StatementLhsView {
        match self {
            StatementLhs::PatternName { name } => StatementLhsView::PatternName { name: name@ },
        }
    }
}

/// The right-hand side of an equation, wrapping one expression. A variant for
/// structured object patterns is reserved but unimplemented.
#[derive(Debug, PartialEq, Eq)]
pub enum StatementRhs {
    Expr { expr: Box<SequentialExpression> },
}

/// Mathematical model of `StatementRhs`.
pub enum StatementRhsView {
    Expr { expr: SequentialExpressionView },
}

impl DeepView for StatementRhs {
    type V = StatementRhsView;

    open spec fn deep_view(&self) -> StatementRhsView {
        match self {
            StatementRhs::Expr { expr } => StatementRhsView::Expr { expr: expr.deep_view() },
        }
    }
}

/// One named equation `Name = expression.`; its sides are exclusively owned.
#[derive(Debug, PartialEq, Eq)]
pub enum Statement {
    Equivalence { lhs: Box<StatementLhs>, rhs: Box<StatementRhs> },
}

/// Mathematical model of `Statement`.
pub enum StatementView {
    Equivalence { lhs: StatementLhsView, rhs: StatementRhsView },
}

impl DeepView for Statement {
    type V = StatementView;

    open spec fn deep_view(&self) -> StatementView {
        match self {
            Statement::Equivalence { lhs, rhs } => StatementView::Equivalence {
                lhs: lhs.deep_view(),
                rhs: rhs.deep_view(),
            },
        }
    }
}

/// The parsed program: an ordered, non-empty list of statements (a program
/// with zero statements is a parse failure, never an empty list).
#[derive(Debug, PartialEq, Eq)]
pub enum Statements {
    List { list: Vec<Statement> },
}

/// Mathematical model of `Statements`.
pub enum StatementsView {
    List { list: Seq<StatementView> },
}

impl DeepView for Statements {
    type V = StatementsView;

    open spec fn deep_view(&self) -> StatementsView {
        match self {
            Statements::List { list } => StatementsView::List { list: list.deep_view() },
        }
    }
}

/// A comment line: the text after the `//` marker, up to the end of the line.
/// Comments are recognized and discarded, never retained in the program tree.
#[derive(Debug, PartialEq, Eq)]
pub enum Comment {
    Line { text: Vec<u8> },
}

/// Mathematical model of `Comment`.
pub enum CommentView {
    Line { text: Seq<u8> },
}

impl DeepView for Comment {
    type V = CommentView;

    open spec fn deep_view(&self) -> CommentView {
        match self {
            Comment::Line { text } => CommentView::Line { text: text@ },
        }
    }
}

} // verus!
