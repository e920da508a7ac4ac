//! The solving layers: numeric literals, variable resolution, the machine
//! over an instruction list, the number operations, and the value stack.
use math_parse::MathParse;
use math_parse::MathParseErrors::BinaryOpOnFloat;
use math_parse::MathParseErrors::IntConversion;
use math_parse::MathParseErrors::InvalidNumber;
use math_parse::MathParseErrors::ReturnFloatExpectedInt;
use math_parse::MathParseErrors::UnbalancedStack;
use math_parse::MathParseErrors::UnexpectedNegative;
use math_parse::MathParseErrors::UnexpectedZero;
use math_parse::Number::Float;
use math_parse::Number::Int;
use math_parse::RPN;
use math_parse::BinaryOp::Multiplication;
use math_parse::BinaryOp::Subtraction;
use math_parse::number_conversion::f_to_i;
use math_parse::number_conversion::f_to_i_strict;
use math_parse::rpn_stack_manipulation::pop_one;
use math_parse::rpn_stack_manipulation::pop_two;
use math_parse::solve::math_solve;
use math_parse::solve::number_from_string;

fn name_r(s: &str) -> RPN {
    RPN::Name(s.to_string())
}

#[test]
fn solve_test_reading_numbers() {
    assert_eq!(number_from_string("100"), Ok(Int(100)));
    assert_eq!(number_from_string("0"), Ok(Int(0)));
    assert_eq!(number_from_string("0x10"), Ok(Int(0x10)));
    assert_eq!(number_from_string("2.5"), Ok(Float((2.5f64).to_bits())));
    assert_eq!(number_from_string("toto"), Err(InvalidNumber("toto".to_string())));
}

#[test]
fn solve_test_read_named_variables() {
    let variables = vec![
        ("direct_1".to_string(), "1.2".to_string()),
        ("indirect_3".to_string(), "2".to_string()),
        ("indirect_2".to_string(), "indirect_3".to_string()),
        ("indirect_1".to_string(), "indirect_2".to_string()),
    ];

    let read_name = |name: &str| MathParse::parse(name).unwrap().solve_number(Some(&variables));

    assert_eq!(read_name("3"), Ok(Int(3)));
    assert_eq!(read_name("direct_1"), Ok(Float((1.2f64).to_bits())));
    assert_eq!(read_name("indirect_1"), Err(InvalidNumber("indirect_2".to_string())));
}

#[test]
fn solve_test_math_compute() {
    let rpn_actions = vec![
        name_r("4"),
        name_r("3"),
        name_r("5"),
        RPN::Binary(Subtraction),
        RPN::Binary(Multiplication),
    ];
    let computation = math_solve(&rpn_actions, None).unwrap();
    if let Int(computation) = computation {
        assert_eq!(computation, (3 - 5) * 4);
    } else {
        panic!("Expected int.");
    }
}

#[test]
fn test_errors() {
    assert_eq!(Int(10).div(Int(0)), Err(UnexpectedZero));
    assert_eq!(Int(10).shr(Int(-1)), Err(UnexpectedNegative));
    assert_eq!(Float((1.3f64).to_bits()).not(), Err(BinaryOpOnFloat((1.3f64).to_bits(), '!')));
    assert_eq!(Float((-5.5f64).to_bits()).is_negative(), true);
    assert_eq!(Float((5.5f64).to_bits()).is_negative(), false);

    let integral_limit = 9007199254740992.0f64;
    let big_float = integral_limit * 5.0;
    assert_eq!(
        Float(big_float.to_bits()).integer_div(Int(10)),
        Err(IntConversion(big_float.to_bits()))
    );
    assert_eq!(
        Float((-1.0 * big_float).to_bits()).integer_div(Int(10)),
        Err(IntConversion((big_float * -1.0).to_bits()))
    );
    match Float(f64::NAN.to_bits()).integer_div(Int(10)) {
        Err(IntConversion(x)) => {
            assert_eq!(f64::from_bits(x).is_nan(), true);
        },
        x => {
            panic!("Didn't expected {x:?}");
        },
    }
}

#[test]
fn test_pop() {
    let mut vec = vec!['a', 'b', 'c', 'd', 'e'];
    assert_eq!(pop_two(&mut vec), Ok(('d', 'e')));
    assert_eq!(pop_two(&mut vec), Ok(('b', 'c')));
    assert_eq!(pop_two(&mut vec), Err(UnbalancedStack));
    vec.push('a');
    assert_eq!(pop_one(&mut vec), Ok('a'));
    assert_eq!(pop_two(&mut vec), Err(UnbalancedStack));
    assert_eq!(pop_one(&mut vec), Err(UnbalancedStack));
}

#[test]
fn test_float_conversions() {
    assert_eq!(f_to_i((11.0f64).to_bits()), Ok(11));
    assert_eq!(f_to_i((11.4f64).to_bits()), Ok(11));
    assert_eq!(f_to_i((11.5f64).to_bits()), Ok(12));
    assert_eq!(f_to_i((-11.5f64).to_bits()), Ok(-12));
    assert_eq!(f_to_i_strict((11.0f64).to_bits()), Ok(11));
    assert_eq!(
        f_to_i_strict((11.5f64).to_bits()),
        Err(ReturnFloatExpectedInt((11.5f64).to_bits()))
    );
    assert_eq!(f_to_i(f64::INFINITY.to_bits()), Err(IntConversion(f64::INFINITY.to_bits())));
}
