//! Scenario checks for the properties the library keeps: round-tripping
//! through the RPN view and the display tree, the promotion rules, the zero
//! and negative guards, unary chains, and the error taxonomy.
use math_parse::MathParse;
use math_parse::MathParseErrors;
use math_parse::MathParseErrors::BadOperatorHint;
use math_parse::MathParseErrors::BinaryOpOnFloat;
use math_parse::MathParseErrors::EmptyLine;
use math_parse::MathParseErrors::IntConversion;
use math_parse::MathParseErrors::InvalidNumber;
use math_parse::MathParseErrors::InvalidRPNOperator;
use math_parse::MathParseErrors::MisplacedOperator;
use math_parse::MathParseErrors::ReturnFloatExpectedInt;
use math_parse::MathParseErrors::TrailingOperator;
use math_parse::MathParseErrors::UnbalancedStack;
use math_parse::MathParseErrors::UnclosedParenthesis;
use math_parse::MathParseErrors::UnexpectedNegative;
use math_parse::MathParseErrors::UnexpectedZero;
use math_parse::MathParseErrors::UnopenedParenthesis;
use math_parse::Number;
use math_parse::rpn_slice_to_string;
use math_parse::solve::math_solve;
use math_parse::solve::number_from_string;

#[test]
fn round_trip_rpn_evaluation() {
    // Feeding the RPN view of a parse back through the machine gives the
    // same result as solving directly.
    for expression in ["(1+2)*3", "5/8+6", "3+8.0", "-−-+++-4", "10.0//3.0"] {
        let parsed = MathParse::parse(expression).unwrap();
        let direct = parsed.solve_number(None);
        let rpn = parsed.to_rpn().unwrap();
        let through_rpn = math_solve(&rpn, None);
        assert_eq!(direct, through_rpn);
    }
}

#[test]
fn round_trip_tree_display() {
    // The fully parenthesized rendering of a tree is unambiguous: parsed
    // again, it gives the same tree back.
    for expression in ["(2+3)*2/5", "1+2*3-4", "-(a+b)*c", "3<<2|4"] {
        let tree = MathParse::parse(expression).unwrap().to_tree().unwrap();
        let rendered = tree.to_string();
        let reparsed = MathParse::parse(&rendered).unwrap().to_tree().unwrap();
        assert_eq!(reparsed, tree);
    }
}

#[test]
fn rpn_display() {
    let rpn = MathParse::parse("3+1*2").unwrap().to_rpn().unwrap();
    assert_eq!(rpn_slice_to_string(&rpn), "3 1 2 * +".to_string());
}

#[test]
fn promotion_of_int_operands() {
    // + - * on two Ints stay Int, / yields Float, and a .0 suffix on either
    // side forces Float for the closed operators too.
    let solve = |e: &str| MathParse::parse(e).unwrap().solve_number(None).unwrap();
    assert_eq!(solve("7+2"), Number::Int(9));
    assert_eq!(solve("7-2"), Number::Int(5));
    assert_eq!(solve("7*2"), Number::Int(14));
    assert_eq!(solve("7/2"), Number::Float((3.5f64).to_bits()));
    assert_eq!(solve("7.0+2"), Number::Float((9.0f64).to_bits()));
    assert_eq!(solve("7-2.0"), Number::Float((5.0f64).to_bits()));
    assert_eq!(solve("7.0*2"), Number::Float((14.0f64).to_bits()));
}

#[test]
fn zero_and_negative_guards() {
    let solve_int = |e: &str| MathParse::parse(e).unwrap().solve_int(None);
    assert_eq!(solve_int("5/0"), Err(UnexpectedZero));
    assert_eq!(solve_int("5%0"), Err(UnexpectedZero));
    assert_eq!(solve_int("5<<-1"), Err(UnexpectedNegative));
    assert_eq!(solve_int("5>>-1"), Err(UnexpectedNegative));
    assert_eq!(solve_int("5//0"), Err(UnexpectedZero));
    assert_eq!(solve_int("5/0.0"), Err(UnexpectedZero));
}

#[test]
fn unary_chains() {
    // Six stacked signs on a = 3, four of them minus: the parity nets out
    // positive.
    let variables = vec![("a".to_string(), "3".to_string())];
    assert_eq!(MathParse::parse("-−-+++-a").unwrap().solve_int(Some(&variables)), Ok(3));
    // One more minus flips the sign.
    assert_eq!(MathParse::parse("--−-+++-a").unwrap().solve_int(Some(&variables)), Ok(-3));
}

#[test]
fn solve_auto_collapses_exact_floats() {
    assert_eq!(MathParse::parse("3 + 8.0").unwrap().solve_auto(None), Ok(Ok(11)));
    assert_eq!(
        MathParse::parse("3 - 8.5").unwrap().solve_auto(None),
        Ok(Err((-5.5f64).to_bits()))
    );
    assert_eq!(
        MathParse::parse("34 + bcd").unwrap().solve_auto(None),
        Err(InvalidNumber("bcd".to_string()))
    );
}

#[test]
fn variables_resolve_through_expressions() {
    let variables = vec![("a".to_string(), "3".to_string()), ("b".to_string(), "3*3".to_string())];
    assert_eq!(MathParse::parse("a+b").unwrap().solve_int(Some(&variables)), Ok(12));
    let variables = vec![("a".to_string(), "1".to_string()), ("b".to_string(), "3*3".to_string())];
    let result = MathParse::parse("a+b").unwrap().solve_int(Some(&variables)).unwrap();
    assert_eq!(result, 10);
}

#[test]
fn rpn_balance_is_checked() {
    assert!(matches!(MathParse::parse_rpn("3 2 + *"), Err(UnbalancedStack)));
    assert!(matches!(MathParse::parse_rpn("3 4 +"), Ok(_)));
}

#[test]
fn every_error_has_an_input() {
    let solve_int = |e: &str| -> Result<i64, MathParseErrors> {
        MathParse::parse(e)?.solve_int(None)
    };
    assert_eq!(solve_int("((33)"), Err(UnclosedParenthesis));
    assert_eq!(solve_int("33)"), Err(UnopenedParenthesis));
    assert_eq!(solve_int(""), Err(EmptyLine));
    assert_eq!(solve_int("abcd"), Err(InvalidNumber("abcd".to_string())));
    assert_eq!(solve_int("3+*4"), Err(MisplacedOperator('*')));
    assert_eq!(solve_int("3+"), Err(EmptyLine));
    assert_eq!(solve_int("3++"), Err(TrailingOperator));
    assert_eq!(solve_int("3.5+4"), Err(ReturnFloatExpectedInt((7.5f64).to_bits())));
    assert_eq!(solve_int("3.5&4"), Err(BinaryOpOnFloat((3.5f64).to_bits(), '&')));
    assert_eq!(solve_int("3<4"), Err(BadOperatorHint('<', "<<")));
    assert_eq!(solve_int("3/0"), Err(UnexpectedZero));
    assert_eq!(solve_int("3<<-1"), Err(UnexpectedNegative));
    let big = 9007199254740992.0f64 * 4.0;
    let exp = format!("{big:.1}//1");
    assert_eq!(solve_int(&exp), Err(IntConversion(big.to_bits())));
    assert!(matches!(MathParse::parse_rpn("3 4 ("), Err(InvalidRPNOperator('('))));
    assert!(matches!(MathParse::parse_rpn("3 4"), Err(UnbalancedStack)));
}

#[test]
fn hex_and_decimal_literals() {
    let solve_int = |e: &str| MathParse::parse(e).unwrap().solve_int(None);
    assert_eq!(solve_int("0xFF"), Ok(255));
    assert_eq!(solve_int("0x10+2"), Ok(18));
    assert_eq!(solve_int("9223372036854775807"), Ok(i64::MAX));
    // A sign inside a literal text (as a variable replacement can hold) goes
    // with the digits; in an expression it is an operator of its own.
    assert_eq!(number_from_string("-9223372036854775808"), Ok(Number::Int(i64::MIN)));
    assert_eq!(number_from_string("+17"), Ok(Number::Int(17)));
    // Past the 64-bit range a run of digits is no integer any more and is
    // read as a float instead.
    assert_eq!(
        MathParse::parse("9223372036854775808").unwrap().solve_auto(None),
        Ok(Err((9223372036854775808.0f64).to_bits()))
    );
    // A hex-shaped text that does not read as a hex integer is refused.
    assert_eq!(solve_int("0xGG"), Err(InvalidNumber("0xGG".to_string())));
}

#[test]
fn float_literal_grammar() {
    // The special words and their signs give the standard constants, in any
    // letter case.
    assert_eq!(number_from_string("inf"), Ok(Number::Float(f64::INFINITY.to_bits())));
    assert_eq!(number_from_string("INFINITY"), Ok(Number::Float(f64::INFINITY.to_bits())));
    assert_eq!(number_from_string("-iNf"), Ok(Number::Float(f64::NEG_INFINITY.to_bits())));
    assert_eq!(number_from_string("nan"), Ok(Number::Float(f64::NAN.to_bits())));
    // Every shape of a numeric literal is read.
    assert_eq!(number_from_string("5."), Ok(Number::Float((5.0f64).to_bits())));
    assert_eq!(number_from_string(".5"), Ok(Number::Float((0.5f64).to_bits())));
    assert_eq!(number_from_string("1e3"), Ok(Number::Float((1000.0f64).to_bits())));
    assert_eq!(number_from_string("2E-2"), Ok(Number::Float((0.02f64).to_bits())));
    // A dangling exponent or a hexadecimal float is no literal.
    assert_eq!(number_from_string("1e"), Err(InvalidNumber("1e".to_string())));
    assert_eq!(number_from_string("1e+"), Err(InvalidNumber("1e+".to_string())));
    assert_eq!(number_from_string("0x1.8"), Err(InvalidNumber("0x1.8".to_string())));
    assert_eq!(number_from_string("."), Err(InvalidNumber(".".to_string())));
}

#[test]
fn whitespace_separates_rpn_words() {
    let parsed = MathParse::parse_rpn("1\t2 +\n3 *").unwrap();
    assert_eq!(parsed.solve_int(None), Ok(9));
    let parsed = MathParse::parse_rpn("1\u{00A0}2 +").unwrap();
    assert_eq!(parsed.solve_int(None), Ok(3));
}

#[test]
fn operator_aliases_and_edges() {
    let solve_int = |e: &str| MathParse::parse(e).unwrap().solve_int(None);
    // The tilde is an alias of the bitwise not.
    assert_eq!(solve_int("~0"), Ok(-1));
    // The unicode glyphs alias the ASCII operators.
    assert_eq!(solve_int("3×4"), Ok(12));
    assert_eq!(solve_int("9÷2+9÷2"), Ok(9));
    assert_eq!(solve_int("7−2"), Ok(5));
    // A merged operator where an operand is wanted is misplaced.
    assert_eq!(MathParse::parse("<<3").map(|_| ()), Err(MisplacedOperator('≪')));
    // Integer arithmetic wraps around on overflow.
    assert_eq!(solve_int("9223372036854775807+1"), Ok(i64::MIN));
}

#[test]
fn tree_renders_operators() {
    let tree = MathParse::parse("1^2").unwrap().to_tree().unwrap();
    assert_eq!(tree.to_string(), "(1 ⊕ 2)".to_string());
    let tree = MathParse::parse("-1<<2").unwrap().to_tree().unwrap();
    assert_eq!(tree.to_string(), "(-1 << 2)".to_string());
}
