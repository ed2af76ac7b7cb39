use grammar_parser::ast::{
    QuantifiedSymbol, Quantifier, SequentialExpression, Statement, StatementLhs, StatementRhs,
    Statements, Symbol, Comment,
};
use grammar_parser::parser::{
    comment, expr, expr_optional, expr_sequence, expr_variable, quantified_symbol, quantifier,
    statement, statement_lhs, statement_list, statement_rhs, symbol,
};

fn one(value: &[u8]) -> QuantifiedSymbol {
    QuantifiedSymbol::QuantifiedSymbol {
        symbol: Symbol::Terminal { value: value.to_vec() },
        quantifier: Quantifier::One,
    }
}

fn uri_abc_statement() -> Statement {
    Statement::Equivalence {
        lhs: Box::new(StatementLhs::PatternName { name: b"URI".to_vec() }),
        rhs: Box::new(StatementRhs::Expr {
            expr: Box::new(SequentialExpression::Sequence {
                symbols: vec![one(b"a"), one(b"b"), one(b"c")],
            }),
        }),
    }
}

fn a_or_b_expression() -> SequentialExpression {
    SequentialExpression::Optional {
        lhs: Box::new(SequentialExpression::Variable { symbol: one(b"a") }),
        rhs: Box::new(SequentialExpression::Variable { symbol: one(b"b") }),
    }
}

#[test]
fn parse_statement_list() {
    let input = b"//URI = [a b c].\n// comment //\n   // test comment\nURI = [a b c].\n";
    let result = statement_list(input);
    assert_eq!(
        result,
        Ok((Statements::List { list: vec![uri_abc_statement()] }, input.len()))
    );
    let (_, pos) = result.unwrap();
    assert_eq!(&input[pos..], &b""[..]);
}

#[test]
fn parser_parse_statement_list() {
    let input = b"URI = [a b c].\nURI = [a b c].\n";
    let result = statement_list(input);
    assert_eq!(
        result,
        Ok((
            Statements::List { list: vec![uri_abc_statement(), uri_abc_statement()] },
            input.len()
        ))
    );
    let (_, pos) = result.unwrap();
    assert_eq!(&input[pos..], &b""[..]);
}

#[test]
fn parse_comment() {
    let input = b"//test";
    let result = comment(input, 0);
    assert_eq!(result, Some((Comment::Line { text: b"test".to_vec() }, input.len())));
}

#[test]
fn parse_statement_equivalence_sequential() {
    let input = b"URI = [a b c].";
    let result = statement(input, 0);
    assert_eq!(result, Ok((uri_abc_statement(), input.len())));
}

#[test]
fn parse_statement_equivalence_optional() {
    let input = b"Bit = (a | b).";
    let result = statement(input, 0);
    assert_eq!(
        result,
        Ok((
            Statement::Equivalence {
                lhs: Box::new(StatementLhs::PatternName { name: b"Bit".to_vec() }),
                rhs: Box::new(StatementRhs::Expr { expr: Box::new(a_or_b_expression()) }),
            },
            input.len()
        ))
    );
}

#[test]
fn parse_pattern_name_simple() {
    let input = b"URI ";
    let result = statement_lhs(input, 0);
    assert_eq!(result, (StatementLhs::PatternName { name: b"URI".to_vec() }, 3));
    assert_eq!(&input[result.1..], &b" "[..]);
}

#[test]
fn parse_statement_rhs_sequence() {
    let input = b"[a b c]";
    let result = statement_rhs(input, 0);
    assert_eq!(
        result,
        Ok((
            StatementRhs::Expr {
                expr: Box::new(SequentialExpression::Sequence {
                    symbols: vec![one(b"a"), one(b"b"), one(b"c")],
                }),
            },
            input.len()
        ))
    );
}

#[test]
fn parse_expr_opt() {
    let input = b"(a | b)";
    let result = expr(input, 0);
    assert_eq!(result, Ok((a_or_b_expression(), input.len())));
}

#[test]
fn parse_expr_seq() {
    let input = b"[a b c]";
    let result = expr(input, 0);
    assert_eq!(
        result,
        Ok((
            SequentialExpression::Sequence { symbols: vec![one(b"a"), one(b"b"), one(b"c")] },
            input.len()
        ))
    );
}

#[test]
fn parse_optional_expression() {
    let input = b"(a | b)";
    let result = expr_optional(input, 0);
    assert_eq!(result, Ok((a_or_b_expression(), input.len())));
}

#[test]
fn parse_sequential_expression() {
    let input = b"[a b c]";
    let result = expr_sequence(input, 0);
    assert_eq!(
        result,
        Ok((
            SequentialExpression::Sequence { symbols: vec![one(b"a"), one(b"b"), one(b"c")] },
            input.len()
        ))
    );
}

#[test]
fn parse_variable() {
    let input = b"a";
    let result = expr_variable(input, 0);
    assert_eq!(
        result,
        Ok((SequentialExpression::Variable { symbol: one(b"a") }, input.len()))
    );
}

#[test]
fn parse_quantified_symbol_one() {
    let input = b"a ";
    let result = quantified_symbol(input, 0);
    assert_eq!(result, Ok((one(b"a"), 1)));
    let (_, pos) = result.unwrap();
    assert_eq!(&input[pos..], &b" "[..]);
}

#[test]
fn parse_quantifier_one_or_more() {
    let input = b"+";
    let result = quantifier(input, 0);
    assert_eq!(result, (Quantifier::OneOrMore, 1));
}

#[test]
fn parse_terminal() {
    let input = b"a ";
    let result = symbol(input, 0);
    assert_eq!(result, Ok((Symbol::Terminal { value: b"a".to_vec() }, 1)));
    let (_, pos) = result.unwrap();
    assert_eq!(&input[pos..], &b" "[..]);
}
