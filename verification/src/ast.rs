//! Expression trees: their mathematical model, the node types, and what
//! every node can do.
use crate::arith::{lemma_wrap, wrap, wrapping_pow};
use crate::decimal::{decimal, int_to_string};
use vstd::arithmetic::power::pow;
use vstd::prelude::*;

verus! {

/// What an expression with an error in it evaluates to.
///
/// The value is a convention, not a reserved one: a sound expression can
/// evaluate to it as well, so callers tell errors apart with `is_error`.
pub const ERROR_VALUE: i32 = -1000000;

/// The text that an expression with an error in it is rendered as.
pub open spec fn error_text() -> Seq<char> {
    seq!['e', 'r', 'r', 'o', 'r']
}

/// The four operators of the language.
#[derive(Clone, Copy, Debug, PartialEq, Eq)]
pub enum Op {
    Plus,
    Minus,
    Mult,
    Pow,
}

impl Op {
    /// The character that denotes the operator.
    pub open spec fn symbol(self) -> char {
        match self {
            Op::Plus => '+',
            Op::Minus => '-',
            Op::Mult => '*',
            Op::Pow => '^',
        }
    }

    /// The operator applied to two 32-bit values.
    ///
    /// Sums, differences, products and powers wrap around modulo 2^32. A
    /// power with a negative exponent is defined to be 1.
    pub open spec fn apply(self, a: int, b: int) -> int {
        match self {
            Op::Plus => wrap(a + b),
            Op::Minus => wrap(a - b),
            Op::Mult => wrap(a * b),
            Op::Pow => if b < 0 {
                1
            } else {
                wrap(pow(a, b as nat))
            },
        }
    }

    /// Applies the operator to two values.
    pub fn compute(self, a: i32, b: i32) -> (v: i32)
        ensures
            v == self.apply(a as int, b as int),
    {
        match self {
            Op::Plus => a.wrapping_add(b),
            Op::Minus => a.wrapping_sub(b),
            Op::Mult => a.wrapping_mul(b),
            Op::Pow => if b < 0 {
                1
            } else {
                wrapping_pow(a, b as u32)
            },
        }
    }

    /// The operator's symbol as text.
    pub fn symbol_text(self) -> (t: &'static str)
        ensures
            t@ == seq![self.symbol()],
    {
        proof {
            reveal_strlit("+");
            reveal_strlit("-");
            reveal_strlit("*");
            reveal_strlit("^");
        }
        let t = match self {
            Op::Plus => "+",
            Op::Minus => "-",
            Op::Mult => "*",
            Op::Pow => "^",
        };
        assert(t@ =~= seq![self.symbol()]);
        t
    }
}

/// The mathematical model of an expression tree.
pub enum Ast {
    /// An integer literal.
    Lit(int),
    /// An operator applied to a left and a right operand.
    Bin(Op, Box<Ast>, Box<Ast>),
    /// The mark of a parse fault.
    Error,
}

impl Ast {
    /// Whether the tree is, or holds, an error mark.
    pub open spec fn has_error(self) -> bool
        decreases self,
    {
        match self {
            Ast::Lit(_) => false,
            Ast::Bin(_, l, r) => l.has_error() || r.has_error(),
            Ast::Error => true,
        }
    }

    /// The value of the tree.
    ///
    /// An error mark poisons every node above it, whatever the operator: a
    /// node with an error in one of its operands has the value
    /// `ERROR_VALUE`. Elsewhere the operator is applied to the operands'
    /// values with 32-bit wrap-around.
    pub open spec fn eval(self) -> int
        decreases self,
    {
        match self {
            Ast::Lit(n) => n,
            Ast::Bin(op, l, r) => if l.has_error() || r.has_error() {
                ERROR_VALUE as int
            } else {
                op.apply(l.eval(), r.eval())
            },
            Ast::Error => ERROR_VALUE as int,
        }
    }

    /// The tree in fully parenthesized prefix notation.
    ///
    /// A node with an error in one of its operands is rendered as
    /// `error`, and so is the error mark itself.
    pub open spec fn render(self) -> Seq<char>
        decreases self,
    {
        match self {
            Ast::Lit(n) => decimal(n),
            Ast::Bin(op, l, r) => if l.has_error() || r.has_error() {
                error_text()
            } else {
                seq!['(', op.symbol(), ' '] + l.render() + seq![' '] + r.render() + seq![')']
            },
            Ast::Error => error_text(),
        }
    }

    /// Every literal of the tree is a 32-bit value.
    pub open spec fn in_range(self) -> bool
        decreases self,
    {
        match self {
            Ast::Lit(n) => i32::MIN <= n <= i32::MAX,
            Ast::Bin(_, l, r) => l.in_range() && r.in_range(),
            Ast::Error => true,
        }
    }
}

/// An error anywhere in a tree decides the tree's value and text.
pub proof fn lemma_error_poisons(t: Ast)
    requires
        t.has_error(),
    ensures
        t.eval() == ERROR_VALUE,
        t.render() == error_text(),
{
}

/// A tree whose literals are 32-bit values evaluates to a 32-bit value.
pub proof fn lemma_eval_in_range(t: Ast)
    requires
        t.in_range(),
    ensures
        i32::MIN <= t.eval() <= i32::MAX,
    decreases t,
{
    match t {
        Ast::Bin(op, l, r) => {
            lemma_eval_in_range(*l);
            lemma_eval_in_range(*r);
            lemma_wrap(l.eval() + r.eval());
            lemma_wrap(l.eval() - r.eval());
            lemma_wrap(l.eval() * r.eval());
            if r.eval() >= 0 {
                lemma_wrap(pow(l.eval(), r.eval() as nat));
            }
        },
        _ => {},
    }
}

/// An integer literal.
#[derive(Debug, PartialEq, Eq)]
pub struct LitExp {
    pub n: i32,
}

/// A sum.
#[derive(Debug, PartialEq, Eq)]
pub struct PlusExp {
    pub lhs: Box<Expression>,
    pub rhs: Box<Expression>,
}

/// A difference.
#[derive(Debug, PartialEq, Eq)]
pub struct MinusExp {
    pub lhs: Box<Expression>,
    pub rhs: Box<Expression>,
}

/// A product.
#[derive(Debug, PartialEq, Eq)]
pub struct MultExp {
    pub lhs: Box<Expression>,
    pub rhs: Box<Expression>,
}

/// A power.
#[derive(Debug, PartialEq, Eq)]
pub struct PowExp {
    pub lhs: Box<Expression>,
    pub rhs: Box<Expression>,
}

/// The mark of a parse fault.
#[derive(Debug, PartialEq, Eq)]
pub struct ErrorExp;

/// An expression tree: one of the six kinds of node.
#[derive(Debug, PartialEq, Eq)]
pub enum Expression {
    Lit(LitExp),
    Plus(PlusExp),
    Minus(MinusExp),
    Mult(MultExp),
    Pow(PowExp),
    Error(ErrorExp),
}

/// The model of an expression tree.
pub open spec fn model(e: Expression) -> Ast
    decreases e,
{
    match e {
        Expression::Lit(x) => Ast::Lit(x.n as int),
        Expression::Plus(x) => Ast::Bin(Op::Plus, Box::new(model(*x.lhs)), Box::new(model(*x.rhs))),
        Expression::Minus(x) => Ast::Bin(
            Op::Minus,
            Box::new(model(*x.lhs)),
            Box::new(model(*x.rhs)),
        ),
        Expression::Mult(x) => Ast::Bin(Op::Mult, Box::new(model(*x.lhs)), Box::new(model(*x.rhs))),
        Expression::Pow(x) => Ast::Bin(Op::Pow, Box::new(model(*x.lhs)), Box::new(model(*x.rhs))),
        Expression::Error(_) => Ast::Error,
    }
}

impl View for Expression {
    type V = Ast;

    open spec fn view(&self) -> Ast {
        model(*self)
    }
}

impl View for LitExp {
    type V = Ast;

    open spec fn view(&self) -> Ast {
        Ast::Lit(self.n as int)
    }
}

impl View for PlusExp {
    type V = Ast;

    open spec fn view(&self) -> Ast {
        Ast::Bin(Op::Plus, Box::new(self.lhs@), Box::new(self.rhs@))
    }
}

impl View for MinusExp {
    type V = Ast;

    open spec fn view(&self) -> Ast {
        Ast::Bin(Op::Minus, Box::new(self.lhs@), Box::new(self.rhs@))
    }
}

impl View for MultExp {
    type V = Ast;

    open spec fn view(&self) -> Ast {
        Ast::Bin(Op::Mult, Box::new(self.lhs@), Box::new(self.rhs@))
    }
}

impl View for PowExp {
    type V = Ast;

    open spec fn view(&self) -> Ast {
        Ast::Bin(Op::Pow, Box::new(self.lhs@), Box::new(self.rhs@))
    }
}

impl View for ErrorExp {
    type V = Ast;

    open spec fn view(&self) -> Ast {
        Ast::Error
    }
}

/// The models of a sequence of expression trees.
pub open spec fn models(v: Seq<Expression>) -> Seq<Ast> {
    Seq::new(v.len(), |i: int| v[i]@)
}

impl Expression {
    /// The literal `n`.
    pub fn lit(n: i32) -> (e: Expression)
        ensures
            e@ == Ast::Lit(n as int),
    {
        Expression::Lit(LitExp { n })
    }

    /// The operator `op` applied to `lhs` and `rhs`.
    pub fn binary(op: Op, lhs: Expression, rhs: Expression) -> (e: Expression)
        ensures
            e@ == Ast::Bin(op, Box::new(lhs@), Box::new(rhs@)),
    {
        let lhs = Box::new(lhs);
        let rhs = Box::new(rhs);
        match op {
            Op::Plus => Expression::Plus(PlusExp { lhs, rhs }),
            Op::Minus => Expression::Minus(MinusExp { lhs, rhs }),
            Op::Mult => Expression::Mult(MultExp { lhs, rhs }),
            Op::Pow => Expression::Pow(PowExp { lhs, rhs }),
        }
    }

    /// The mark of a parse fault.
    pub fn error() -> (e: Expression)
        ensures
            e@ == Ast::Error,
    {
        Expression::Error(ErrorExp)
    }
}

/// What every node of an expression tree can do.
pub trait Exp: View<V = Ast> {
    /// Evaluates the expression to a 32-bit integer.
    ///
    /// Arithmetic wraps around modulo 2^32, a power with a negative exponent
    /// is 1, and an expression with a parse fault in it evaluates to
    /// `ERROR_VALUE`.
    fn eval(&self) -> (v: i32)
        ensures
            v == self@.eval(),
    ;

    /// Renders the expression in fully parenthesized prefix notation.
    fn to_string(&self) -> (s: String)
        ensures
            s@ == self@.render(),
    ;

    /// Whether the expression is, or holds, a parse fault.
    fn is_error(&self) -> (b: bool)
        ensures
            b == self@.has_error(),
    ;

    /// Evaluates the expression, keeping errors apart from values: `None`
    /// for an expression with a parse fault in it, and its value otherwise.
    fn checked_eval(&self) -> (r: Option<i32>)
        ensures
            r == if self@.has_error() {
                None
            } else {
                Some(self@.eval() as i32)
            },
    {
        if self.is_error() {
            None
        } else {
            Some(self.eval())
        }
    }
}

/// The text `error`.
fn error_string() -> (s: String)
    ensures
        s@ == error_text(),
{
    proof {
        reveal_strlit("error");
    }
    let s = String::from_str("error");
    assert(s@ =~= error_text());
    s
}

/// The text of an operator node whose operands are rendered as `left` and
/// `right`.
fn render_binary(op: Op, left: &str, right: &str) -> (s: String)
    ensures
        s@ == seq!['(', op.symbol(), ' '] + left@ + seq![' '] + right@ + seq![')'],
{
    proof {
        reveal_strlit("(");
        reveal_strlit(" ");
        reveal_strlit(")");
    }
    let mut s = String::from_str("(");
    s.append(op.symbol_text());
    s.append(" ");
    s.append(left);
    s.append(" ");
    s.append(right);
    s.append(")");
    assert(s@ =~= seq!['(', op.symbol(), ' '] + left@ + seq![' '] + right@ + seq![')']);
    s
}

impl Exp for Expression {
    fn eval(&self) -> (v: i32)
        decreases self,
    {
        match self {
            Expression::Lit(x) => x.eval(),
            Expression::Plus(x) => x.eval(),
            Expression::Minus(x) => x.eval(),
            Expression::Mult(x) => x.eval(),
            Expression::Pow(x) => x.eval(),
            Expression::Error(x) => x.eval(),
        }
    }

    fn to_string(&self) -> (s: String)
        decreases self,
    {
        match self {
            Expression::Lit(x) => x.to_string(),
            Expression::Plus(x) => x.to_string(),
            Expression::Minus(x) => x.to_string(),
            Expression::Mult(x) => x.to_string(),
            Expression::Pow(x) => x.to_string(),
            Expression::Error(x) => x.to_string(),
        }
    }

    fn is_error(&self) -> (b: bool)
        decreases self,
    {
        match self {
            Expression::Lit(x) => x.is_error(),
            Expression::Plus(x) => x.is_error(),
            Expression::Minus(x) => x.is_error(),
            Expression::Mult(x) => x.is_error(),
            Expression::Pow(x) => x.is_error(),
            Expression::Error(x) => x.is_error(),
        }
    }
}

impl Exp for LitExp {
    fn eval(&self) -> (v: i32) {
        self.n
    }

    fn to_string(&self) -> (s: String) {
        int_to_string(self.n)
    }

    fn is_error(&self) -> (b: bool) {
        false
    }
}

impl Exp for ErrorExp {
    fn eval(&self) -> (v: i32) {
        ERROR_VALUE
    }

    fn to_string(&self) -> (s: String) {
        error_string()
    }

    fn is_error(&self) -> (b: bool) {
        true
    }
}

impl Exp for PlusExp {
    fn eval(&self) -> (v: i32)
        decreases self,
    {
        if self.lhs.is_error() || self.rhs.is_error() {
            ERROR_VALUE
        } else {
            Op::Plus.compute(self.lhs.eval(), self.rhs.eval())
        }
    }

    fn to_string(&self) -> (s: String)
        decreases self,
    {
        if self.lhs.is_error() || self.rhs.is_error() {
            error_string()
        } else {
            let left = self.lhs.to_string();
            let right = self.rhs.to_string();
            render_binary(Op::Plus, left.as_str(), right.as_str())
        }
    }

    fn is_error(&self) -> (b: bool)
        decreases self,
    {
        self.lhs.is_error() || self.rhs.is_error()
    }
}

impl Exp for MinusExp {
    fn eval(&self) -> (v: i32)
        decreases self,
    {
        if self.lhs.is_error() || self.rhs.is_error() {
            ERROR_VALUE
        } else {
            Op::Minus.compute(self.lhs.eval(), self.rhs.eval())
        }
    }

    fn to_string(&self) -> (s: String)
        decreases self,
    {
        if self.lhs.is_error() || self.rhs.is_error() {
            error_string()
        } else {
            let left = self.lhs.to_string();
            let right = self.rhs.to_string();
            render_binary(Op::Minus, left.as_str(), right.as_str())
        }
    }

    fn is_error(&self) -> (b: bool)
        decreases self,
    {
        self.lhs.is_error() || self.rhs.is_error()
    }
}

impl Exp for MultExp {
    fn eval(&self) -> (v: i32)
        decreases self,
    {
        if self.lhs.is_error() || self.rhs.is_error() {
            ERROR_VALUE
        } else {
            Op::Mult.compute(self.lhs.eval(), self.rhs.eval())
        }
    }

    fn to_string(&self) -> (s: String)
        decreases self,
    {
        if self.lhs.is_error() || self.rhs.is_error() {
            error_string()
        } else {
            let left = self.lhs.to_string();
            let right = self.rhs.to_string();
            render_binary(Op::Mult, left.as_str(), right.as_str())
        }
    }

    fn is_error(&self) -> (b: bool)
        decreases self,
    {
        self.lhs.is_error() || self.rhs.is_error()
    }
}

impl Exp for PowExp {
    fn eval(&self) -> (v: i32)
        decreases self,
    {
        if self.lhs.is_error() || self.rhs.is_error() {
            ERROR_VALUE
        } else {
            Op::Pow.compute(self.lhs.eval(), self.rhs.eval())
        }
    }

    fn to_string(&self) -> (s: String)
        decreases self,
    {
        if self.lhs.is_error() || self.rhs.is_error() {
            error_string()
        } else {
            let left = self.lhs.to_string();
            let right = self.rhs.to_string();
            render_binary(Op::Pow, left.as_str(), right.as_str())
        }
    }

    fn is_error(&self) -> (b: bool)
        decreases self,
    {
        self.lhs.is_error() || self.rhs.is_error()
    }
}

impl Clone for LitExp {
    fn clone(&self) -> (r: Self)
        ensures
            r == *self,
    {
        LitExp { n: self.n }
    }
}

impl Clone for ErrorExp {
    fn clone(&self) -> (r: Self)
        ensures
            r == *self,
    {
        ErrorExp
    }
}

impl Clone for Expression {
    fn clone(&self) -> (r: Self)
        ensures
            r == *self,
        decreases self,
    {
        match self {
            Expression::Lit(x) => Expression::Lit(x.clone()),
            Expression::Plus(x) => Expression::Plus(x.clone()),
            Expression::Minus(x) => Expression::Minus(x.clone()),
            Expression::Mult(x) => Expression::Mult(x.clone()),
            Expression::Pow(x) => Expression::Pow(x.clone()),
            Expression::Error(x) => Expression::Error(x.clone()),
        }
    }
}

impl Clone for PlusExp {
    fn clone(&self) -> (r: Self)
        ensures
            r == *self,
        decreases self,
    {
        let lhs: Expression = (*self.lhs).clone();
        let rhs: Expression = (*self.rhs).clone();
        PlusExp { lhs: Box::new(lhs), rhs: Box::new(rhs) }
    }
}

impl Clone for MinusExp {
    fn clone(&self) -> (r: Self)
        ensures
            r == *self,
        decreases self,
    {
        let lhs: Expression = (*self.lhs).clone();
        let rhs: Expression = (*self.rhs).clone();
        MinusExp { lhs: Box::new(lhs), rhs: Box::new(rhs) }
    }
}

impl Clone for MultExp {
    fn clone(&self) -> (r: Self)
        ensures
            r == *self,
        decreases self,
    {
        let lhs: Expression = (*self.lhs).clone();
        let rhs: Expression = (*self.rhs).clone();
        MultExp { lhs: Box::new(lhs), rhs: Box::new(rhs) }
    }
}

impl Clone for PowExp {
    fn clone(&self) -> (r: Self)
        ensures
            r == *self,
        decreases self,
    {
        let lhs: Expression = (*self.lhs).clone();
        let rhs: Expression = (*self.rhs).clone();
        PowExp { lhs: Box::new(lhs), rhs: Box::new(rhs) }
    }
}

} // verus!
