use polish_notation::{
    lex, parse, ErrorExp, Exp, Expression, LitExp, MinusExp, MultExp, Op, PlusExp, PowExp,
};

fn run(text: &str) -> Expression {
    parse(lex(text))
}

fn lit(n: i32) -> Expression {
    Expression::Lit(LitExp { n })
}

fn plus(l: Expression, r: Expression) -> Expression {
    Expression::Plus(PlusExp { lhs: Box::new(l), rhs: Box::new(r) })
}

fn minus(l: Expression, r: Expression) -> Expression {
    Expression::Minus(MinusExp { lhs: Box::new(l), rhs: Box::new(r) })
}

fn mult(l: Expression, r: Expression) -> Expression {
    Expression::Mult(MultExp { lhs: Box::new(l), rhs: Box::new(r) })
}

fn pow(l: Expression, r: Expression) -> Expression {
    Expression::Pow(PowExp { lhs: Box::new(l), rhs: Box::new(r) })
}

fn error() -> Expression {
    Expression::Error(ErrorExp)
}

#[test]
fn parse_literal_alone() {
    for n in [0, 1, 7, 42, 1000000, 2147483647] {
        let ast = run(&format!("{}", n));
        assert_eq!(ast, lit(n));
        assert_eq!(ast.eval(), n);
        assert!(!ast.is_error());
    }
}

#[test]
fn parse_literal_with_leading_zeros() {
    assert_eq!(run("007"), lit(7));
    assert_eq!(run("0000000000000000000000012"), lit(12));
    assert_eq!(run("00"), lit(0));
}

#[test]
fn parse_literal_out_of_range_is_an_error() {
    assert_eq!(run("2147483647"), lit(2147483647));
    assert_eq!(run("2147483648"), error());
    assert_eq!(run("4294967296"), error());
    assert_eq!(run("99999999999999999999999999"), error());
    assert_eq!(run("+ 1 2147483648"), error());
}

#[test]
fn parse_negative_number_text_is_not_a_literal() {
    assert_eq!(run("-5"), error());
    assert_eq!(parse(vec!["-5"]), error());
    assert_eq!(parse(vec!["+5"]), error());
}

#[test]
fn parse_bare_binary_plus() {
    let ast = run("+ 1 25");
    assert_eq!(ast, plus(lit(1), lit(25)));
    assert_eq!(ast.to_string(), "(+ 1 25)");
    assert_eq!(ast.eval(), 26);
    assert!(!ast.is_error());
}

#[test]
fn parse_bare_operators_nest() {
    let ast = run("- + 3 2 1");
    assert_eq!(ast, minus(plus(lit(3), lit(2)), lit(1)));
    assert_eq!(ast.eval(), 4);
    assert_eq!(ast.to_string(), "(- (+ 3 2) 1)");
}

#[test]
fn parse_every_bare_operator() {
    assert_eq!(run("+ 6 3"), plus(lit(6), lit(3)));
    assert_eq!(run("- 6 3"), minus(lit(6), lit(3)));
    assert_eq!(run("* 6 3"), mult(lit(6), lit(3)));
    assert_eq!(run("^ 6 3"), pow(lit(6), lit(3)));
    assert_eq!(run("^ 6 3").eval(), 216);
    assert_eq!(run("* 6 3").eval(), 18);
}

#[test]
fn parse_minus_folds_to_the_left() {
    let ast = run("(- 3 2 1)");
    assert_eq!(ast, minus(minus(lit(3), lit(2)), lit(1)));
    assert_eq!(ast.to_string(), "(- (- 3 2) 1)");
    assert_eq!(ast.eval(), 0);
}

#[test]
fn parse_plus_and_mult_fold_to_the_left() {
    let sum = run("(+ 1 2 3 4)");
    assert_eq!(sum, plus(plus(plus(lit(1), lit(2)), lit(3)), lit(4)));
    assert_eq!(sum.eval(), 10);
    let product = run("(* 2 3 4)");
    assert_eq!(product, mult(mult(lit(2), lit(3)), lit(4)));
    assert_eq!(product.to_string(), "(* (* 2 3) 4)");
    assert_eq!(product.eval(), 24);
    assert_eq!(run("(- 10 1 2 3)").eval(), 4);
}

#[test]
fn parse_pow_folds_to_the_right() {
    let ast = run("(^ 3 2 1)");
    assert_eq!(ast, pow(lit(3), pow(lit(2), lit(1))));
    assert_eq!(ast.to_string(), "(^ 3 (^ 2 1))");
    assert_eq!(ast.eval(), 9);
    let tower = run("(^ 2 3 2)");
    assert_eq!(tower, pow(lit(2), pow(lit(3), lit(2))));
    assert_eq!(tower.eval(), 512);
    let four = run("(^ 2 1 5 0)");
    assert_eq!(four, pow(lit(2), pow(lit(1), pow(lit(5), lit(0)))));
    assert_eq!(four.eval(), 2);
}

#[test]
fn parse_parenthesized_pairs() {
    assert_eq!(run("(+ 1 2)"), plus(lit(1), lit(2)));
    assert_eq!(run("(- 1 2)"), minus(lit(1), lit(2)));
    assert_eq!(run("(* 1 2)"), mult(lit(1), lit(2)));
    assert_eq!(run("(^ 1 2)"), pow(lit(1), lit(2)));
}

#[test]
fn parse_unary_minus_is_zero_minus() {
    let ast = run("(- 2)");
    assert_eq!(ast, minus(lit(0), lit(2)));
    assert_eq!(ast.eval(), -2);
    assert!(!ast.is_error());
}

#[test]
fn parse_unary_plus_is_zero_plus() {
    let ast = run("(+ 3)");
    assert_eq!(ast, plus(lit(0), lit(3)));
    assert_eq!(ast.eval(), 3);
    assert!(!ast.is_error());
}

#[test]
fn parse_unary_forms_render_with_their_zero() {
    assert_eq!(run("(- 2)").to_string(), "(- 0 2)");
    assert_eq!(run("(+ 3)").to_string(), "(+ 0 3)");
    assert_eq!(run("(- 2)"), run("(- 0 2)"));
    assert_eq!(run(&run("(- 2)").to_string()).to_string(), "(- 0 2)");
}

#[test]
fn parse_unary_mult_and_pow_are_errors() {
    assert!(run("(* 4)").is_error());
    assert!(run("(^ 5)").is_error());
    assert_eq!(run("(* 4)"), error());
    assert_eq!(run("(^ 5)"), error());
}

#[test]
fn parse_empty_parentheses_are_errors() {
    assert!(run("()").is_error());
    assert!(run("(+)").is_error());
    assert!(run("(-)").is_error());
    assert!(run("(*)").is_error());
    assert!(run("(^)").is_error());
    assert_eq!(run("()"), error());
    assert_eq!(run("(+)"), error());
}

#[test]
fn parse_unknown_characters_are_errors() {
    assert!(run("x").is_error());
    assert_eq!(run("x"), error());
    assert_eq!(run("+ 1 x"), error());
    assert_eq!(run("hello"), error());
}

#[test]
fn parse_dropped_characters_only_separate() {
    assert_eq!(run("+ 1x2"), plus(lit(1), lit(2)));
    assert_eq!(run("7 x"), lit(7));
}

#[test]
fn parse_no_tokens_is_an_error() {
    assert_eq!(run(""), error());
    assert_eq!(run("   "), error());
    assert_eq!(parse(Vec::new()), error());
}

#[test]
fn parse_trailing_tokens_are_errors() {
    assert_eq!(run("1 2"), error());
    assert_eq!(run("+ 1 2 3"), error());
    assert_eq!(run("(+ 1 2))"), error());
    assert_eq!(run("(+ 1 2) (+ 3 4)"), error());
    assert_eq!(run("(- 2) +"), error());
    assert_eq!(run("5 ("), error());
    assert_eq!(parse(vec!["1", ""]), error());
}

#[test]
fn parse_missing_operands_are_errors() {
    assert_eq!(run("+"), error());
    assert_eq!(run("+ 1"), error());
    assert_eq!(run("- + 3 2"), error());
    assert_eq!(run("* (+ 1 2)"), error());
}

#[test]
fn parse_unbalanced_parentheses_are_errors() {
    assert_eq!(run("("), error());
    assert_eq!(run(")"), error());
    assert_eq!(run("(+"), error());
    assert_eq!(run("(+ 1"), error());
    assert_eq!(run("(+ 1 2"), error());
    assert_eq!(run("(+ 1 (- 2)"), error());
    assert_eq!(run("+ 1 )"), error());
}

#[test]
fn parse_parenthesis_needs_an_operator_first() {
    assert_eq!(run("(1 2)"), error());
    assert_eq!(run("(1)"), error());
    assert_eq!(run("((+ 1 2))"), error());
    assert_eq!(run("( )"), error());
    assert_eq!(run("() 1"), error());
    assert_eq!(parse(vec!["(", "++", "1", "2", ")"]), error());
    assert_eq!(parse(vec!["(", "+\n", "1", "2", ")"]), error());
    assert_eq!(parse(vec!["(", " +", "1", "2", ")"]), error());
    assert_eq!(parse(vec!["(", "", "1", "2", ")"]), error());
}

#[test]
fn parse_accepts_each_operator_after_a_parenthesis() {
    assert_eq!(parse(vec!["(", "+", "1", "2", ")"]), plus(lit(1), lit(2)));
    assert_eq!(parse(vec!["(", "-", "1", "2", ")"]), minus(lit(1), lit(2)));
    assert_eq!(parse(vec!["(", "*", "1", "2", ")"]), mult(lit(1), lit(2)));
    assert_eq!(parse(vec!["(", "^", "1", "2", ")"]), pow(lit(1), lit(2)));
}

#[test]
fn parse_an_error_inside_fails_the_whole() {
    assert_eq!(run("+ 1 (^ 5)"), error());
    assert_eq!(run("(+ 1 (* 4) 2)"), error());
    assert_eq!(run("* 2 ()"), error());
    assert_eq!(run("(+ 1 (+) 2)"), error());
    assert_eq!(run("(^ 2 x)"), error());
}

#[test]
fn parse_error_results() {
    let ast = run("(* 4)");
    assert!(ast.is_error());
    assert_eq!(ast.to_string(), "error");
    assert_eq!(ast.eval(), -1000000);
}

#[test]
fn parse_nested_forms() {
    let ast = run("(+ (* 2 3) (- 10 4 1) (^ 2 3))");
    assert_eq!(
        ast,
        plus(
            plus(mult(lit(2), lit(3)), minus(minus(lit(10), lit(4)), lit(1))),
            pow(lit(2), lit(3))
        )
    );
    assert_eq!(ast.eval(), 19);
    assert_eq!(ast.to_string(), "(+ (+ (* 2 3) (- (- 10 4) 1)) (^ 2 3))");
}

#[test]
fn parse_mixes_bare_and_parenthesized_forms() {
    let ast = run("* (- 5) + 1 (+ 1 1 1)");
    assert_eq!(
        ast,
        mult(minus(lit(0), lit(5)), plus(lit(1), plus(plus(lit(1), lit(1)), lit(1))))
    );
    assert_eq!(ast.eval(), -20);
    let inner = run("(+ + 1 2 3)");
    assert_eq!(inner, plus(plus(lit(1), lit(2)), lit(3)));
    let single = run("(- * 2 3)");
    assert_eq!(single, minus(lit(0), mult(lit(2), lit(3))));
    assert_eq!(single.eval(), -6);
}

#[test]
fn parse_takes_tokens_that_no_lexer_made() {
    assert_eq!(parse(vec!["abc"]), error());
    assert_eq!(parse(vec![""]), error());
    assert_eq!(parse(vec!["1 2"]), error());
    assert_eq!(parse(vec!["12a"]), error());
    assert_eq!(parse(vec!["\u{661}"]), error());
    assert_eq!(parse(vec!["+", "1", "2"]), plus(lit(1), lit(2)));
    assert_eq!(parse(vec!["(+", "1", "2", ")"]), error());
}

#[test]
fn parse_round_trips_a_rendered_tree() {
    let text = "(^ (- (+ 1 2) (* 3 4)) (+ 0 2))";
    let ast = run(text);
    assert_eq!(ast.to_string(), text);
    assert_eq!(run(&ast.to_string()), ast);
    assert_eq!(ast.eval(), 81);
}

#[test]
fn parse_long_operand_list() {
    let mut text = String::from("(+");
    for _ in 0..500 {
        text.push_str(" 2");
    }
    text.push(')');
    let ast = run(&text);
    assert!(!ast.is_error());
    assert_eq!(ast.eval(), 1000);
}

#[test]
fn expression_constructors_build_the_nodes() {
    assert_eq!(Expression::lit(5), lit(5));
    assert_eq!(Expression::error(), error());
    assert_eq!(Expression::binary(Op::Plus, lit(1), lit(2)), plus(lit(1), lit(2)));
    assert_eq!(Expression::binary(Op::Minus, lit(1), lit(2)), minus(lit(1), lit(2)));
    assert_eq!(Expression::binary(Op::Mult, lit(1), lit(2)), mult(lit(1), lit(2)));
    assert_eq!(Expression::binary(Op::Pow, lit(1), lit(2)), pow(lit(1), lit(2)));
}

#[test]
fn parse_deeply_nested_forms() {
    let depth = 200;
    let mut text = String::new();
    for _ in 0..depth {
        text.push_str("(+ 1 ");
    }
    text.push('0');
    for _ in 0..depth {
        text.push(')');
    }
    let ast = run(&text);
    assert!(!ast.is_error());
    assert_eq!(ast.eval(), depth);
    assert_eq!(ast.to_string(), text);
    text.pop();
    assert_eq!(run(&text), error());
}
