use polish_notation::ast::ERROR_VALUE;
use polish_notation::{
    lex, parse, ErrorExp, Exp, Expression, LitExp, MinusExp, MultExp, Op, PlusExp, PowExp,
};

fn run(text: &str) -> Expression {
    parse(lex(text))
}

fn lit(n: i32) -> Box<Expression> {
    Box::new(Expression::Lit(LitExp { n }))
}

fn error() -> Box<Expression> {
    Box::new(Expression::Error(ErrorExp))
}

#[test]
fn literal_node() {
    let node = LitExp { n: 42 };
    assert_eq!(node.eval(), 42);
    assert_eq!(node.to_string(), "42");
    assert!(!node.is_error());
}

#[test]
fn literal_renders_in_decimal() {
    assert_eq!(LitExp { n: 0 }.to_string(), "0");
    assert_eq!(LitExp { n: 9 }.to_string(), "9");
    assert_eq!(LitExp { n: 10 }.to_string(), "10");
    assert_eq!(LitExp { n: 1203 }.to_string(), "1203");
    assert_eq!(LitExp { n: -5 }.to_string(), "-5");
    assert_eq!(LitExp { n: 2147483647 }.to_string(), "2147483647");
    assert_eq!(LitExp { n: -2147483648 }.to_string(), "-2147483648");
    assert_eq!(LitExp { n: -2147483648 }.eval(), -2147483648);
}

#[test]
fn error_node() {
    let node = ErrorExp;
    assert_eq!(node.eval(), -1000000);
    assert_eq!(node.eval(), ERROR_VALUE);
    assert_eq!(node.to_string(), "error");
    assert!(node.is_error());
}

#[test]
fn plus_node() {
    let node = PlusExp { lhs: lit(1), rhs: lit(2) };
    assert_eq!(node.eval(), 3);
    assert_eq!(node.to_string(), "(+ 1 2)");
    assert!(!node.is_error());
}

#[test]
fn minus_node() {
    let node = MinusExp { lhs: lit(1), rhs: lit(2) };
    assert_eq!(node.eval(), -1);
    assert_eq!(node.to_string(), "(- 1 2)");
    assert!(!node.is_error());
}

#[test]
fn mult_node() {
    let node = MultExp { lhs: lit(-3), rhs: lit(4) };
    assert_eq!(node.eval(), -12);
    assert_eq!(node.to_string(), "(* -3 4)");
    assert!(!node.is_error());
}

#[test]
fn pow_node() {
    let node = PowExp { lhs: lit(2), rhs: lit(10) };
    assert_eq!(node.eval(), 1024);
    assert_eq!(node.to_string(), "(^ 2 10)");
    assert!(!node.is_error());
}

#[test]
fn pow_values() {
    assert_eq!(run("^ 0 0").eval(), 1);
    assert_eq!(run("^ 5 0").eval(), 1);
    assert_eq!(run("^ 0 5").eval(), 0);
    assert_eq!(run("^ 1 2147483647").eval(), 1);
    assert_eq!(run("^ 7 1").eval(), 7);
    assert_eq!(run("^ 3 4").eval(), 81);
    assert_eq!(PowExp { lhs: lit(-3), rhs: lit(3) }.eval(), -27);
    assert_eq!(PowExp { lhs: lit(-1), rhs: lit(2147483647) }.eval(), -1);
    assert_eq!(PowExp { lhs: lit(-1), rhs: lit(2147483646) }.eval(), 1);
}

#[test]
fn pow_with_negative_exponent_is_one() {
    assert_eq!(run("^ 2 (- 1)").eval(), 1);
    assert_eq!(run("^ 0 (- 3)").eval(), 1);
    assert_eq!(PowExp { lhs: lit(5), rhs: lit(-2147483648) }.eval(), 1);
    assert!(!run("^ 2 (- 1)").is_error());
    assert_eq!(run("^ 2 (- 1)").to_string(), "(^ 2 (- 0 1))");
}

#[test]
fn plus_wraps_around() {
    assert_eq!(run("+ 2147483647 1").eval(), -2147483648);
    assert_eq!(run("+ 2147483647 2147483647").eval(), -2);
    assert_eq!(PlusExp { lhs: lit(-2147483648), rhs: lit(-1) }.eval(), 2147483647);
}

#[test]
fn minus_wraps_around() {
    assert_eq!(run("- (- 2147483647) 2").eval(), 2147483647);
    assert_eq!(MinusExp { lhs: lit(-2147483648), rhs: lit(1) }.eval(), 2147483647);
    assert_eq!(MinusExp { lhs: lit(0), rhs: lit(-2147483648) }.eval(), -2147483648);
    assert_eq!(MinusExp { lhs: lit(2147483647), rhs: lit(-1) }.eval(), -2147483648);
}

#[test]
fn mult_wraps_around() {
    assert_eq!(run("* 65536 65536").eval(), 0);
    assert_eq!(run("* 2147483647 2").eval(), -2);
    assert_eq!(run("* 46341 46341").eval(), -2147479015);
    assert_eq!(MultExp { lhs: lit(-2147483648), rhs: lit(-1) }.eval(), -2147483648);
}

#[test]
fn pow_wraps_around() {
    assert_eq!(run("^ 2 31").eval(), -2147483648);
    assert_eq!(run("^ 2 32").eval(), 0);
    assert_eq!(run("^ 2 2147483647").eval(), 0);
    assert_eq!(run("^ 10 10").eval(), 1410065408);
    assert_eq!(run("^ 3 21").eval(), 1870418611);
    assert_eq!(run("^ 7 13").eval(), -1895237401);
    assert_eq!(run("^ 3 2147483647").eval(), -1431655765);
    assert_eq!(PowExp { lhs: lit(-2), rhs: lit(31) }.eval(), -2147483648);
}

#[test]
fn an_error_operand_poisons_every_operator() {
    let left = PlusExp { lhs: error(), rhs: lit(1) };
    assert!(left.is_error());
    assert_eq!(left.eval(), -1000000);
    assert_eq!(left.to_string(), "error");
    let right = MinusExp { lhs: lit(1), rhs: error() };
    assert!(right.is_error());
    assert_eq!(right.eval(), -1000000);
    assert_eq!(right.to_string(), "error");
    let product = MultExp { lhs: error(), rhs: lit(2) };
    assert!(product.is_error());
    assert_eq!(product.eval(), -1000000);
    assert_eq!(product.to_string(), "error");
    let power = PowExp { lhs: lit(2), rhs: error() };
    assert!(power.is_error());
    assert_eq!(power.eval(), -1000000);
    assert_eq!(power.to_string(), "error");
    let base = PowExp { lhs: error(), rhs: lit(2) };
    assert!(base.is_error());
    assert_eq!(base.eval(), -1000000);
}

#[test]
fn an_error_deep_inside_poisons_the_root() {
    let inner = Expression::Mult(MultExp { lhs: lit(3), rhs: error() });
    let middle = Expression::Pow(PowExp { lhs: Box::new(inner), rhs: lit(2) });
    let root = Expression::Plus(PlusExp { lhs: lit(1), rhs: Box::new(middle) });
    assert!(root.is_error());
    assert_eq!(root.eval(), -1000000);
    assert_eq!(root.to_string(), "error");
}

#[test]
fn the_error_value_is_not_reserved() {
    let sound = run("(- 1000000)");
    assert_eq!(sound.eval(), -1000000);
    assert!(!sound.is_error());
    assert_eq!(sound.to_string(), "(- 0 1000000)");
    let sum = run("+ (- 1000000) 5");
    assert_eq!(sum.eval(), -999995);
}

#[test]
fn expression_forwards_to_its_node() {
    let tree = Expression::binary(
        Op::Minus,
        Expression::binary(Op::Mult, Expression::lit(6), Expression::lit(7)),
        Expression::binary(Op::Pow, Expression::lit(2), Expression::lit(5)),
    );
    assert_eq!(tree.eval(), 10);
    assert_eq!(tree.to_string(), "(- (* 6 7) (^ 2 5))");
    assert!(!tree.is_error());
    assert_eq!(Expression::error().to_string(), "error");
    assert!(Expression::error().is_error());
    assert_eq!(Expression::lit(-8).to_string(), "-8");
}

#[test]
fn clone_copies_the_tree() {
    let tree = run("(+ 1 (* 2 3) (- 4))");
    let copy = tree.clone();
    assert_eq!(copy, tree);
    assert_eq!(copy.eval(), tree.eval());
    let node = PowExp { lhs: lit(2), rhs: lit(3) };
    assert_eq!(node.clone(), node);
    assert_eq!(ErrorExp.clone(), ErrorExp);
    assert_eq!(LitExp { n: 3 }.clone(), LitExp { n: 3 });
}

#[test]
fn operator_compute() {
    assert_eq!(Op::Plus.compute(2, 3), 5);
    assert_eq!(Op::Minus.compute(2, 3), -1);
    assert_eq!(Op::Mult.compute(2, 3), 6);
    assert_eq!(Op::Pow.compute(2, 3), 8);
    assert_eq!(Op::Pow.compute(2, -3), 1);
    assert_eq!(Op::Plus.symbol_text(), "+");
    assert_eq!(Op::Minus.symbol_text(), "-");
    assert_eq!(Op::Mult.symbol_text(), "*");
    assert_eq!(Op::Pow.symbol_text(), "^");
}

#[test]
fn checked_eval_keeps_errors_apart() {
    assert_eq!(run("+ 1 25").checked_eval(), Some(26));
    assert_eq!(run("(- 1000000)").checked_eval(), Some(-1000000));
    assert_eq!(run("(* 4)").checked_eval(), None);
    assert_eq!(run("").checked_eval(), None);
    assert_eq!(ErrorExp.checked_eval(), None);
    assert_eq!(LitExp { n: -1000000 }.checked_eval(), Some(-1000000));
    assert_eq!(MultExp { lhs: error(), rhs: lit(2) }.checked_eval(), None);
    assert_eq!(PowExp { lhs: lit(2), rhs: lit(-1) }.checked_eval(), Some(1));
}
