//! The public entry points: parsing, solving, and the conversions between
//! representations.
use math_parse::MathParse;
use math_parse::MathParseErrors::BadOperatorHint;
use math_parse::MathParseErrors::BinaryOpOnFloat;
use math_parse::MathParseErrors::EmptyLine;
use math_parse::MathParseErrors::InvalidRPNOperator;
use math_parse::MathParseErrors::ReturnFloatExpectedInt;
use math_parse::MathParseErrors::TrailingOperator;
use math_parse::MathParseErrors::UnbalancedStack;
use math_parse::Number;
use math_parse::RPN;
use math_parse::BinaryOp::Addition;
use math_parse::BinaryOp::Division;
use math_parse::UnaryOp::Minus;
use math_parse::contains_math_char;

fn name_r(s: &str) -> RPN {
    RPN::Name(s.to_string())
}

fn math_solve_int(expression: &str) -> Result<i64, math_parse::MathParseErrors> {
    MathParse::parse(expression)?.solve_int(None)
}

fn math_solve_float(expression: &str) -> Result<f64, math_parse::MathParseErrors> {
    Ok(f64::from_bits(MathParse::parse(expression)?.solve_float(None)?))
}

fn compute(
    expression: &str,
    variable_map: Option<&Vec<(String, String)>>,
) -> Result<Number, math_parse::MathParseErrors> {
    MathParse::parse(expression)?.solve_number(variable_map)
}

fn parse_rpn(expression: &str) -> Result<Vec<RPN>, math_parse::MathParseErrors> {
    MathParse::parse(expression)?.to_rpn()
}

#[test]
fn lib_test_math_compute() {
    let a = 3;
    let b = 9;
    let c = 3 * 5;
    let variables = vec![
        ("a".to_string(), "3".to_string()),
        ("b".to_string(), "9".to_string()),
        ("c".to_string(), "(((3)*(5)))".to_string()),
    ];

    let compute_int = |input: &str, output: i64| {
        let res = compute(input, Some(&variables)).unwrap();
        if let Number::Int(res) = res {
            assert_eq!(res, output);
        } else {
            panic!("Expected integer instead of float.");
        }
    };

    fn compute_float(input: &str, output: f64) {
        let res = compute(input, None).unwrap();
        match res {
            Number::Float(res) => {
                assert_eq!(f64::from_bits(res), output);
            },
            Number::Int(res) => {
                assert_eq!(res as f64, output);
            },
        }
    }

    compute_int("((3+3)·b+8)*(a-1)", ((3 + 3) * b + 8) * (a - 1));
    compute_int("0", 0);
    compute_int("-a + b − c", -a + b - c);
    compute_int("-−-+++-a", ----a);
    compute_int("3%8+99", 3 % 8 + 99);
    compute_int("10.0//3.0", 10 / 3);
    compute_int("!-4", !-4);
    compute_int("((3+4)*(8+(4-1)))-(43+8//2+1)", ((3 + 4) * (8 + (4 - 1))) - (43 + 8 / 2 + 1));
    compute_int("((0xFF&0xF)|0x10)^0x3", ((0xFF & 0xF) | 0x10) ^ 0x3);
    compute_int("(10<<5)>>(2<<1)", (10 << 5) >> (2 << 1));

    compute_float("4×9/4", 4.0 * 9.0 / 4.0);
    compute_float("4×9/4.0", 4.0 * 9.0 / 4.0);
    compute_float("4.0*9/4", 4.0 * 9.0 / 4.0);
    compute_float("4.0·9.0/4", 4.0 * 9.0 / 4.0);
    compute_float("4*9.0/4", 4.0 * 9.0 / 4.0);
    compute_float("4*9.0/4.0", 4.0 * 9.0 / 4.0);
    compute_float("4.0+9-4", 4.0 + 9.0 - 4.0);
    compute_float("4+9-4.0", 4.0 + 9.0 - 4.0);
    compute_float("4.0+9.0-4", 4.0 + 9.0 - 4.0);
    compute_float("4+9.0-4", 4.0 + 9.0 - 4.0);
    compute_float("4+9.0-4.0", 4.0 + 9.0 - 4.0);

    compute_float("4.5%2.1", 4.5 % 2.1);
    compute_float("8%2.2", 8.0 % 2.2);
    compute_float("33.4%2", 33.4 % 2.0);
}

#[test]
fn test_butchered_rpn() {
    match parse_rpn("3++") {
        Ok(x) => {
            panic!("{x:?} should not have been solved.");
        },
        Err(TrailingOperator) => {
            // Expected result
        },
        Err(x) => {
            panic!("{x:?} is not the expected error.");
        },
    }
}

#[test]
fn test_api() {
    assert_eq!(math_solve_int("3+3"), Ok(6));
    assert_eq!(math_solve_int("3.0+3.0"), Ok(6));
    assert_eq!(math_solve_int("3.2+3.0"), Err(ReturnFloatExpectedInt((3.2f64 + 3.0).to_bits())));

    assert_eq!(math_solve_float("3+3"), Ok(6.0));
    assert_eq!(math_solve_float("3.0+3.0"), Ok(6.0));

    assert_eq!(contains_math_char("ab+cd"), true);
    assert_eq!(contains_math_char("abcd"), false);
}

#[test]
fn test_bitwise_on_float() {
    fn test_operator(op: char) {
        let exp = format!("3.1{op}4.2");
        let exp_f = 3.1f64;
        assert_eq!(
            MathParse::parse(&exp).unwrap().solve_int(None),
            Err(BinaryOpOnFloat(exp_f.to_bits(), op))
        );
    }

    let operators = ['^', '|', '&', '≪', '≫'];
    for op in &operators {
        test_operator(*op);
    }
}

#[test]
fn test_operator_hints() {
    assert_eq!(math_solve_int("3876<4"), Err(BadOperatorHint('<', "<<")));
    assert_eq!(math_solve_int("3876>4"), Err(BadOperatorHint('>', ">>")));
}

#[test]
fn test_to_rpn() {
    assert_eq!(parse_rpn("8/2").unwrap(), vec![name_r("8"), name_r("2"), RPN::Binary(Division)]);
    assert_eq!(
        parse_rpn("-3+4").unwrap(),
        vec![name_r("3"), RPN::Unary(Minus), name_r("4"), RPN::Binary(Addition)]
    );
}

#[test]
fn lib_test_parse_rpn() {
    fn solve_rpn(expression: &str) -> Result<i64, math_parse::MathParseErrors> {
        MathParse::parse_rpn(expression)?.solve_int(None)
    }

    assert_eq!(solve_rpn("3 4 + 2 *"), Ok(14));
    assert_eq!(solve_rpn("3 4 2 + *"), Ok(18));
    assert_eq!(solve_rpn("3 (4 + 3) 2 + *"), Err(InvalidRPNOperator('(')));
    assert_eq!(solve_rpn("3 2 + *"), Err(UnbalancedStack));
}

#[test]
fn test_misc_errors() {
    match MathParse::parse("3 3 +") {
        Err(EmptyLine) => {/* Expected */},
        Ok(_) => {
            panic!("Should not have been solved.");
        },
        Err(x) => {
            panic!("Should not have been {x:?}");
        },
    }

    assert_eq!(compute("1 - (1*3)", None), Ok(Number::Int(-2)));
    assert_eq!(compute("1+-1", None), Ok(Number::Int(0)));
    assert_eq!(compute("1 + - 1", None), Ok(Number::Int(0)));
}

#[test]
fn test_readme_example() {
    let num1: i64 = MathParse::parse("(1+2)*3").unwrap().solve_int(None).unwrap();
    assert_eq!(num1, 9); // Prints 9

    let num2: f64 =
        f64::from_bits(MathParse::parse("5/8+6").unwrap().solve_float(None).unwrap());
    assert_eq!(num2, 6.625); // Prints 6.625

    let parsed = MathParse::parse("(2+3)*2/5").unwrap().to_tree().unwrap();
    assert_eq!(parsed.to_string().as_str(), "(((2 + 3) * 2) / 5)".to_string());
}
