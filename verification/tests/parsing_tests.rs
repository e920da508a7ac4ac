//! The parsing layers one by one: tokenizer, infix parser, postfix parser,
//! substitution helpers, and the display tree.
use math_parse::MathParseErrors::BadOperatorHint;
use math_parse::MathParseErrors::EmptyLine;
use math_parse::MathParseErrors::InvalidNumber;
use math_parse::MathParseErrors::InvalidRPNOperator;
use math_parse::MathParseErrors::MisplacedOperator;
use math_parse::MathParseErrors::UnbalancedStack;
use math_parse::MathParseErrors::UnclosedParenthesis;
use math_parse::MathParseErrors::UnopenedParenthesis;
use math_parse::Number::Float;
use math_parse::Number::Int;
use math_parse::RPN;
use math_parse::Tree;
use math_parse::BinaryOp::Addition;
use math_parse::BinaryOp::Multiplication;
use math_parse::BinaryOp::ShiftRight;
use math_parse::BinaryOp::Subtraction;
use math_parse::UnaryOp::Plus;
use math_parse::parse::math_parse_tokens;
use math_parse::parse_rpn::parse_rpn;
use math_parse::substitute::read_named_variables;
use math_parse::substitute::read_numbers;
use math_parse::tokenize::MathValue;
use math_parse::tokenize::MathValue::Name;
use math_parse::tokenize::MathValue::Operation;
use math_parse::tokenize::MathValue::Operator;
use math_parse::tokenize::MathValue::ParenClose;
use math_parse::tokenize::MathValue::ParenOpen;
use math_parse::tokenize::MathValue::TrailingError;
use math_parse::tokenize::MathValue::UnaryOperation;
use math_parse::tokenize::MathValue::Value;
use math_parse::tokenize::math_token;
use math_parse::tree::parse_to_tree;

fn name_p(s: &str) -> MathValue {
    Name(s.to_string())
}

fn name_r(s: &str) -> RPN {
    RPN::Name(s.to_string())
}

fn name_t(s: &str) -> Tree {
    Tree::Name(s.to_string())
}

#[test]
fn test_math_token() {
    let math_line = "+4/88*toto";
    assert_eq!(
        math_token(math_line),
        vec![
            Operator('+'),
            name_p("4"),
            Operator('/'),
            name_p("88"),
            Operator('*'),
            name_p("toto"),
            TrailingError,
        ]
    );
}

#[test]
fn test_math_parse() {
    let math_line = "+88+89";
    let mut tokens = math_token(math_line);
    math_parse_tokens(&mut tokens).unwrap();
    assert_eq!(
        tokens,
        vec![
            Operation('+', 2, 3),
            name_p("88"),
            UnaryOperation('+', -1),
            name_p("89"),
            TrailingError,
        ]
    );

    let math_line = "-1*2+-3*4";
    let mut tokens = math_token(math_line);
    math_parse_tokens(&mut tokens).unwrap();
    assert_eq!(
        tokens,
        vec![
            Operation('+', 4, 5),
            name_p("1"),
            UnaryOperation('-', -1),
            name_p("2"),
            Operation('*', -2, -1),
            Operation('*', 2, 3),
            name_p("3"),
            UnaryOperation('-', -1),
            name_p("4"),
            TrailingError,
        ]
    );

    let math_line = "(1+2)*(3+4)";
    let mut tokens = math_token(math_line);
    math_parse_tokens(&mut tokens).unwrap();
    assert_eq!(
        tokens,
        vec![
            Operation('*', 5, 6),
            Operation('+', 1, 2),
            name_p("1"),
            name_p("2"),
            ParenClose(3),
            ParenOpen(-4),
            ParenOpen(1),
            Operation('+', 1, 2),
            name_p("3"),
            name_p("4"),
            ParenClose(3),
            TrailingError,
        ]
    );

    assert_eq!(math_parse_tokens(&mut math_token("33)")), Err(UnopenedParenthesis));
    assert_eq!(math_parse_tokens(&mut math_token("((33)")), Err(UnclosedParenthesis));
    assert_eq!(math_parse_tokens(&mut math_token("")), Err(EmptyLine));
    assert_eq!(math_parse_tokens(&mut math_token("22+()")), Err(EmptyLine));
    assert_eq!(math_parse_tokens(&mut math_token("33+*23")), Err(MisplacedOperator('*')));
    assert_eq!(math_parse_tokens(&mut math_token("*2")), Err(MisplacedOperator('*')));
    assert_eq!(math_parse_tokens(&mut math_token("2/")), Err(EmptyLine));
}

#[test]
fn maths_test_reading_numbers() {
    let math_line = "100*0x10-2.5";
    let mut tokens = math_token(math_line);
    math_parse_tokens(&mut tokens).unwrap();
    read_numbers(&mut tokens).unwrap();
    assert_eq!(
        tokens,
        vec![
            Operation('-', 3, 4),
            Value(Int(100)),
            Value(Int(0x10)),
            Operation('*', -2, -1),
            Value(Float((2.5f64).to_bits())),
            TrailingError,
        ]
    );

    let math_line = "toto-0x10";
    let mut tokens = math_token(math_line);
    math_parse_tokens(&mut tokens).unwrap();
    assert_eq!(read_numbers(&mut tokens), Err(InvalidNumber("toto".to_string())));
}

#[test]
fn maths_test_read_named_variables() {
    let variables = vec![
        ("direct_1".to_string(), "1.0".to_string()),
        ("indirect_3".to_string(), "2".to_string()),
        ("indirect_2".to_string(), "indirect_3".to_string()),
        ("indirect_1".to_string(), "indirect_2".to_string()),
    ];
    let mut tokens = vec![name_p("3"), name_p("direct_1")];
    read_named_variables(&mut tokens, Some(&variables)).unwrap();
    assert_eq!(tokens, vec![name_p("3"), Value(Float((1.0f64).to_bits()))]);
    let mut tokens = vec![name_p("3"), name_p("indirect_1"), name_p("direct_1")];
    assert_eq!(
        read_named_variables(&mut tokens, Some(&variables)),
        Err(InvalidNumber("indirect_2".to_string()))
    );
}

#[test]
fn parse_rpn_test_parse_rpn() {
    assert_eq!(
        parse_rpn(
            "88
            99	+"
        ),
        Ok(vec![name_r("88"), name_r("99"), RPN::Binary(Addition)])
    );

    assert_eq!(
        parse_rpn("88 77 + 33 11 + *"),
        Ok(vec![
            name_r("88"),
            name_r("77"),
            RPN::Binary(Addition),
            name_r("33"),
            name_r("11"),
            RPN::Binary(Addition),
            RPN::Binary(Multiplication),
        ])
    );

    assert_eq!(parse_rpn("(88 77 +)"), Err(InvalidRPNOperator('(')));

    assert_eq!(parse_rpn("8 7 + +"), Err(UnbalancedStack));

    assert_eq!(parse_rpn("+"), Err(UnbalancedStack));

    assert_eq!(parse_rpn("8 7"), Err(UnbalancedStack));

    assert_eq!(parse_rpn("6 1 >>"), Ok(vec![name_r("6"), name_r("1"), RPN::Binary(ShiftRight)]));

    assert_eq!(parse_rpn("6 1 >"), Err(BadOperatorHint('>', ">>")));
}

#[test]
fn test_parse_to_tree() {
    let rpn = vec![
        name_r("toto"),
        name_r("tata"),
        RPN::Unary(Plus),
        name_r("titi"),
        RPN::Binary(Subtraction),
        RPN::Binary(Multiplication),
    ];
    assert_eq!(
        parse_to_tree(&rpn).unwrap(),
        Tree::Binary(
            Multiplication,
            Box::new(name_t("toto")),
            Box::new(Tree::Binary(
                Subtraction,
                Box::new(Tree::Unary(Plus, Box::new(name_t("tata")))),
                Box::new(name_t("titi")),
            )),
        )
    );
}
