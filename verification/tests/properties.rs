use grammar_parser::ast::{
    QuantifiedSymbol, Quantifier, SequentialExpression, Statement, StatementLhs, StatementRhs,
    Statements, Symbol,
};
use grammar_parser::parser::{
    expr_optional, expr_sequence, identifier, quantified_symbol, quantifier, statement,
    statement_list, symbol, ParseError,
};

fn quantified(value: &[u8], q: Quantifier) -> QuantifiedSymbol {
    QuantifiedSymbol::QuantifiedSymbol {
        symbol: Symbol::Terminal { value: value.to_vec() },
        quantifier: q,
    }
}

fn one(value: &[u8]) -> QuantifiedSymbol {
    quantified(value, Quantifier::One)
}

#[test]
fn sequence_keeps_textual_order() {
    let input = b"Name = [foo bar baz].";
    let result = statement_list(input);
    let expected = Statement::Equivalence {
        lhs: Box::new(StatementLhs::PatternName { name: b"Name".to_vec() }),
        rhs: Box::new(StatementRhs::Expr {
            expr: Box::new(SequentialExpression::Sequence {
                symbols: vec![one(b"foo"), one(b"bar"), one(b"baz")],
            }),
        }),
    };
    assert_eq!(result, Ok((Statements::List { list: vec![expected] }, input.len())));
}

#[test]
fn quantifier_suffixes() {
    assert_eq!(quantifier(b"+", 0), (Quantifier::OneOrMore, 1));
    assert_eq!(quantifier(b"*", 0), (Quantifier::ZeroOrMore, 1));
    assert_eq!(quantifier(b"", 0), (Quantifier::One, 0));
    assert_eq!(quantifier(b"x", 0), (Quantifier::One, 0));
    assert_eq!(
        quantified_symbol(b"ab+", 0),
        Ok((quantified(b"ab", Quantifier::OneOrMore), 3))
    );
    assert_eq!(
        quantified_symbol(b"ab*", 0),
        Ok((quantified(b"ab", Quantifier::ZeroOrMore), 3))
    );
    assert_eq!(quantified_symbol(b"ab", 0), Ok((quantified(b"ab", Quantifier::One), 2)));
}

#[test]
fn quantifiers_inside_sequence() {
    let input = b"S = [a+ b* c].";
    let result = statement_list(input);
    let expected = Statement::Equivalence {
        lhs: Box::new(StatementLhs::PatternName { name: b"S".to_vec() }),
        rhs: Box::new(StatementRhs::Expr {
            expr: Box::new(SequentialExpression::Sequence {
                symbols: vec![
                    quantified(b"a", Quantifier::OneOrMore),
                    quantified(b"b", Quantifier::ZeroOrMore),
                    one(b"c"),
                ],
            }),
        }),
    };
    assert_eq!(result, Ok((Statements::List { list: vec![expected] }, input.len())));
}

#[test]
fn optional_keeps_sides() {
    let input = b"Name = (left | right).";
    let result = statement_list(input);
    let expected = Statement::Equivalence {
        lhs: Box::new(StatementLhs::PatternName { name: b"Name".to_vec() }),
        rhs: Box::new(StatementRhs::Expr {
            expr: Box::new(SequentialExpression::Optional {
                lhs: Box::new(SequentialExpression::Variable { symbol: one(b"left") }),
                rhs: Box::new(SequentialExpression::Variable { symbol: one(b"right") }),
            }),
        }),
    };
    assert_eq!(result, Ok((Statements::List { list: vec![expected] }, input.len())));
}

#[test]
fn optional_nests_full_expressions() {
    let input = b"N = ([a b] | c).";
    let result = statement_list(input);
    let expected = Statement::Equivalence {
        lhs: Box::new(StatementLhs::PatternName { name: b"N".to_vec() }),
        rhs: Box::new(StatementRhs::Expr {
            expr: Box::new(SequentialExpression::Optional {
                lhs: Box::new(SequentialExpression::Sequence {
                    symbols: vec![one(b"a"), one(b"b")],
                }),
                rhs: Box::new(SequentialExpression::Variable { symbol: one(b"c") }),
            }),
        }),
    };
    assert_eq!(result, Ok((Statements::List { list: vec![expected] }, input.len())));
}

#[test]
fn indented_comments_are_skipped() {
    let plain = statement_list(b"A = b.");
    let commented = statement_list(b"   // leading note\n// more\nA = b.");
    let (plain_tree, _) = plain.unwrap();
    let (commented_tree, _) = commented.unwrap();
    assert_eq!(plain_tree, commented_tree);
}

#[test]
fn parsing_is_deterministic() {
    let input = b"// note\nBit = (a | b).\nURI = [a b c].\n";
    let first = statement_list(input);
    let second = statement_list(input);
    assert_eq!(first, second);
}

#[test]
fn empty_and_trivia_inputs_fail() {
    assert_eq!(statement_list(b""), Err(ParseError::EmptyProgram));
    assert_eq!(statement_list(b"   \n\t \n"), Err(ParseError::EmptyProgram));
    assert_eq!(statement_list(b"// only a comment\n"), Err(ParseError::EmptyProgram));
    assert_eq!(statement_list(b"//one\n  //two"), Err(ParseError::EmptyProgram));
}

#[test]
fn empty_brackets_fail_one_symbol_succeeds() {
    assert_eq!(expr_sequence(b"[ ]", 0), Err(ParseError::UnterminatedSequence));
    assert_eq!(expr_sequence(b"[]", 0), Err(ParseError::UnterminatedSequence));
    assert_eq!(statement_list(b"X = [ ]."), Err(ParseError::EmptyProgram));
    let input = b"X = [a].";
    let expected = Statement::Equivalence {
        lhs: Box::new(StatementLhs::PatternName { name: b"X".to_vec() }),
        rhs: Box::new(StatementRhs::Expr {
            expr: Box::new(SequentialExpression::Sequence { symbols: vec![one(b"a")] }),
        }),
    };
    assert_eq!(
        statement_list(input),
        Ok((Statements::List { list: vec![expected] }, input.len()))
    );
}

#[test]
fn end_to_end_sequence_with_newline() {
    let input = b"URI = [a b c].\n";
    let expected = Statement::Equivalence {
        lhs: Box::new(StatementLhs::PatternName { name: b"URI".to_vec() }),
        rhs: Box::new(StatementRhs::Expr {
            expr: Box::new(SequentialExpression::Sequence {
                symbols: vec![one(b"a"), one(b"b"), one(b"c")],
            }),
        }),
    };
    let result = statement_list(input);
    assert_eq!(result, Ok((Statements::List { list: vec![expected] }, input.len())));
    let (_, pos) = result.unwrap();
    assert_eq!(&input[pos..], &b""[..]);
}

#[test]
fn end_to_end_comment_then_optional() {
    let input = b"// note\nBit = (a | b).\n";
    let expected = Statement::Equivalence {
        lhs: Box::new(StatementLhs::PatternName { name: b"Bit".to_vec() }),
        rhs: Box::new(StatementRhs::Expr {
            expr: Box::new(SequentialExpression::Optional {
                lhs: Box::new(SequentialExpression::Variable { symbol: one(b"a") }),
                rhs: Box::new(SequentialExpression::Variable { symbol: one(b"b") }),
            }),
        }),
    };
    assert_eq!(
        statement_list(input),
        Ok((Statements::List { list: vec![expected] }, input.len()))
    );
}

#[test]
fn end_to_end_two_identical_statements() {
    let input = b"URI = [a b c].\nURI = [a b c].\n";
    let result = statement_list(input);
    let (tree, _) = result.unwrap();
    let Statements::List { list } = tree;
    assert_eq!(list.len(), 2);
    assert_eq!(list[0], list[1]);
}

#[test]
fn error_kinds() {
    assert_eq!(identifier(b"1", 0), Err(ParseError::EmptyIdentifier));
    assert_eq!(identifier(b"", 0), Err(ParseError::EmptyIdentifier));
    assert_eq!(symbol(b" ", 0), Err(ParseError::InvalidSymbol));
    assert_eq!(quantified_symbol(b"+", 0), Err(ParseError::InvalidSymbol));
    assert_eq!(expr_sequence(b"[a b", 0), Err(ParseError::UnterminatedSequence));
    assert_eq!(expr_sequence(b"x", 0), Err(ParseError::UnterminatedSequence));
    assert_eq!(expr_optional(b"(a b)", 0), Err(ParseError::MalformedOptional));
    assert_eq!(expr_optional(b"(a | b", 0), Err(ParseError::MalformedOptional));
    assert_eq!(expr_optional(b"a | b)", 0), Err(ParseError::MalformedOptional));
    assert_eq!(statement(b"X [a].", 0), Err(ParseError::MalformedStatement));
    assert_eq!(statement(b"X = [a]", 0), Err(ParseError::MalformedStatement));
    assert_eq!(statement_list(b"= []"), Err(ParseError::EmptyProgram));
}

#[test]
fn nested_expression_failure_propagates() {
    // the expression after `=` fails in every alternative; the error of the
    // last alternative tried (the binary optional) reaches the caller
    assert_eq!(statement(b"X = .", 0), Err(ParseError::MalformedOptional));
}

#[test]
fn trailing_input_is_returned_not_rejected() {
    let input = b"A = b. trailing";
    let result = statement_list(input);
    let (tree, pos) = result.unwrap();
    let Statements::List { list } = tree;
    assert_eq!(list.len(), 1);
    assert_eq!(&input[pos..], &b"trailing"[..]);
}
