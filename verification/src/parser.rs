//! The parser: from tokens to an expression tree.
use crate::ast::{models, Ast, Expression, Op};
use crate::decimal::{literal_value, parse_number};
use crate::text::{lemma_texts_skip, same_text, texts, Source};
use regex::Regex;
use vstd::prelude::*;
use vstd::std_specs::vec::axiom_spec_into_iter;

verus! {

/// A sequence of tokens, each given by its characters.
pub type Tokens = Seq<Seq<char>>;

/// The operator that a token denotes, if it is one of `+ - * ^`.
pub open spec fn operator_of(t: Seq<char>) -> Option<Op> {
    if t.len() != 1 {
        None
    } else if t[0] == '+' {
        Some(Op::Plus)
    } else if t[0] == '-' {
        Some(Op::Minus)
    } else if t[0] == '*' {
        Some(Op::Mult)
    } else if t[0] == '^' {
        Some(Op::Pow)
    } else {
        None
    }
}

/// The token `(`.
pub open spec fn is_open(t: Seq<char>) -> bool {
    t.len() == 1 && t[0] == '('
}

/// The token `)`.
pub open spec fn is_close(t: Seq<char>) -> bool {
    t.len() == 1 && t[0] == ')'
}

/// A non-empty `args` folded from the left: `((a0 op a1) op ...) op an`.
pub open spec fn fold_left(op: Op, args: Seq<Ast>) -> Ast
    decreases args.len(),
{
    if args.len() <= 1 {
        args[0]
    } else {
        Ast::Bin(op, Box::new(fold_left(op, args.drop_last())), Box::new(args.last()))
    }
}

/// A non-empty `args` folded from the right: `a0 op (a1 op (... op an))`.
pub open spec fn fold_right(op: Op, args: Seq<Ast>) -> Ast
    decreases args.len(),
{
    if args.len() <= 1 {
        args[0]
    } else {
        Ast::Bin(op, Box::new(args[0]), Box::new(fold_right(op, args.skip(1))))
    }
}

/// The tree that a parenthesized operator makes of its operands.
///
/// No operands are a fault. A single operand stands for `0 + a` or `0 - a`
/// under `+` and `-`, and is a fault under `*` and `^`. Two or more operands
/// associate to the left under `+`, `-` and `*`, and to the right under `^`.
pub open spec fn reduce_spec(op: Op, args: Seq<Ast>) -> Option<Ast> {
    if args.len() == 0 {
        None
    } else if args.len() == 1 {
        match op {
            Op::Plus | Op::Minus => Some(Ast::Bin(op, Box::new(Ast::Lit(0)), Box::new(args[0]))),
            Op::Mult | Op::Pow => None,
        }
    } else {
        match op {
            Op::Pow => Some(fold_right(op, args)),
            _ => Some(fold_left(op, args)),
        }
    }
}

/// The expression at the front of `toks` and the tokens that follow it, or
/// `None` when no expression starts there.
///
/// An operator takes the two expressions after it. A `(` takes an operator,
/// then operands up to the matching `)`. Any other token must be a literal
/// that fits in 32 bits. The tests on the length of what is left only make
/// the definition well-founded: `lemma_parse_consumes` shows that they
/// always hold.
pub open spec fn parse_exp_spec(toks: Tokens) -> Option<(Ast, Tokens)>
    decreases toks.len(), 0nat,
{
    if toks.len() == 0 {
        None
    } else if let Some(op) = operator_of(toks[0]) {
        match parse_exp_spec(toks.skip(1)) {
            Some((lhs, rest)) => if rest.len() < toks.len() {
                match parse_exp_spec(rest) {
                    Some((rhs, rest)) => Some((Ast::Bin(op, Box::new(lhs), Box::new(rhs)), rest)),
                    None => None,
                }
            } else {
                None
            },
            None => None,
        }
    } else if is_open(toks[0]) {
        if toks.len() >= 2 && operator_of(toks[1]) is Some {
            match parse_args_spec(toks.skip(2)) {
                Some((args, rest)) => if rest.len() > 0 {
                    match reduce_spec(operator_of(toks[1])->0, args) {
                        Some(tree) => Some((tree, rest.skip(1))),
                        None => None,
                    }
                } else {
                    None
                },
                None => None,
            }
        } else {
            None
        }
    } else {
        match literal_value(toks[0]) {
            Some(n) => Some((Ast::Lit(n as int), toks.skip(1))),
            None => None,
        }
    }
}

/// The expressions at the front of `toks` up to the first `)` that closes
/// them, and the tokens from that `)` on; `None` when one of them is faulty
/// or the `)` is missing.
pub open spec fn parse_args_spec(toks: Tokens) -> Option<(Seq<Ast>, Tokens)>
    decreases toks.len(), 1nat,
{
    if toks.len() > 0 && is_close(toks[0]) {
        Some((Seq::empty(), toks))
    } else {
        match parse_exp_spec(toks) {
            Some((first, rest)) => if rest.len() < toks.len() {
                match parse_args_spec(rest) {
                    Some((more, rest)) => Some((seq![first] + more, rest)),
                    None => None,
                }
            } else {
                None
            },
            None => None,
        }
    }
}

/// The tree of a whole token sequence: the expression at its front when
/// nothing follows it, and the error mark otherwise.
pub open spec fn parse_spec(toks: Tokens) -> Ast {
    match parse_exp_spec(toks) {
        Some((tree, rest)) => if rest.len() == 0 {
            tree
        } else {
            Ast::Error
        },
        None => Ast::Error,
    }
}

/// An expression consumes at least one token, and a list of operands stops
/// in front of a `)`.
pub proof fn lemma_parse_consumes(toks: Tokens)
    ensures
        parse_exp_spec(toks) matches Some((_, rest)) ==> rest.len() < toks.len(),
        parse_args_spec(toks) matches Some((_, rest)) ==> 0 < rest.len() <= toks.len() && is_close(
            rest[0],
        ),
    decreases toks.len(),
{
    if toks.len() > 0 {
        lemma_parse_consumes(toks.skip(1));
        if let Some((_, rest)) = parse_exp_spec(toks.skip(1)) {
            lemma_parse_consumes(rest);
        }
        if toks.len() >= 2 {
            lemma_parse_consumes(toks.skip(2));
        }
        if let Some((_, rest)) = parse_exp_spec(toks) {
            lemma_parse_consumes(rest);
        }
    }
}

/// Folding trees that are free of errors and hold 32-bit literals gives
/// such a tree.
pub proof fn lemma_fold_well_formed(op: Op, args: Seq<Ast>)
    requires
        args.len() > 0,
        forall|i: int| 0 <= i < args.len() ==> !(#[trigger] args[i]).has_error() && args[i].in_range(),
    ensures
        !fold_left(op, args).has_error(),
        fold_left(op, args).in_range(),
        !fold_right(op, args).has_error(),
        fold_right(op, args).in_range(),
    decreases args.len(),
{
    if args.len() > 1 {
        lemma_fold_well_formed(op, args.drop_last());
        lemma_fold_well_formed(op, args.skip(1));
    }
}

/// Whatever the parser accepts is free of errors and holds 32-bit literals.
pub proof fn lemma_parse_well_formed(toks: Tokens)
    ensures
        parse_exp_spec(toks) matches Some((tree, _)) ==> !tree.has_error() && tree.in_range(),
        parse_args_spec(toks) matches Some((args, _)) ==> forall|i: int|
            0 <= i < args.len() ==> !(#[trigger] args[i]).has_error() && args[i].in_range(),
    decreases toks.len(),
{
    lemma_parse_consumes(toks);
    if toks.len() > 0 {
        lemma_parse_consumes(toks.skip(1));
        if operator_of(toks[0]) is Some {
            lemma_parse_well_formed(toks.skip(1));
            if let Some((_, rest)) = parse_exp_spec(toks.skip(1)) {
                lemma_parse_well_formed(rest);
            }
        } else if is_open(toks[0]) && toks.len() >= 2 && operator_of(toks[1]) is Some {
            let op = operator_of(toks[1])->0;
            lemma_parse_well_formed(toks.skip(2));
            if let Some((args, _)) = parse_args_spec(toks.skip(2)) {
                if args.len() > 0 {
                    lemma_fold_well_formed(op, args);
                    assert(!Ast::Lit(0).has_error() && Ast::Lit(0).in_range());
                    assert(!args[0].has_error() && args[0].in_range());
                }
            }
        }
        if let Some((first, rest)) = parse_exp_spec(toks) {
            assert(!first.has_error() && first.in_range());
            lemma_parse_well_formed(rest);
            if let Some((more, _)) = parse_args_spec(rest) {
                let args = seq![first] + more;
                assert forall|i: int| 0 <= i < args.len() implies !(#[trigger] args[i]).has_error()
                    && args[i].in_range() by {
                    if i > 0 {
                        assert(args[i] == more[i - 1]);
                    } else {
                        assert(args[0] == first);
                    }
                }
            }
        }
    }
}

/// A parse has no partial results: it yields the error mark itself, or a
/// tree without any error in it.
pub proof fn lemma_parse_all_or_nothing(toks: Tokens)
    ensures
        parse_spec(toks) == Ast::Error || !parse_spec(toks).has_error(),
        parse_spec(toks).in_range(),
{
    lemma_parse_well_formed(toks);
}

/// Tokens left over after a complete expression make the whole parse an
/// error.
pub proof fn lemma_trailing_tokens_rejected(toks: Tokens)
    requires
        parse_exp_spec(toks) matches Some((_, rest)) && rest.len() > 0,
    ensures
        parse_spec(toks) == Ast::Error,
{
}

/// The pattern that `+`, `-`, `*` and `^` match, each as a whole text.
pub open spec fn operator_pattern() -> Seq<char> {
    seq!['^', '(', '\\', '+', '|', '-', '|', '\\', '*', '|', '\\', '^', ')', '$']
}

/// The only character of `tok`, if it has exactly one.
fn single_char(tok: &str) -> (r: Option<char>)
    ensures
        r == if tok@.len() == 1 {
            Some(tok@[0])
        } else {
            None
        },
{
    let src = Source::new(tok);
    if src.len() == 1 {
        Some(src.char_at(0))
    } else {
        None
    }
}

/// The operator that `tok` denotes.
fn operator(tok: &str) -> (r: Option<Op>)
    ensures
        r == operator_of(tok@),
{
    match single_char(tok) {
        Some('+') => Some(Op::Plus),
        Some('-') => Some(Op::Minus),
        Some('*') => Some(Op::Mult),
        Some('^') => Some(Op::Pow),
        _ => None,
    }
}

/// The error of a pattern that `regex` does not compile.
#[verifier::external_type_specification]
#[verifier::external_body]
pub struct ExPatternError(regex::Error);

/// Compiles `pattern` with `regex::Regex::new` and searches `text` for it
/// with `regex::Regex::is_match`.
///
/// Trusted: once compiled, the operator pattern, an alternation of the four
/// escaped operator characters anchored at both ends of the text, has a
/// match exactly when the text is one of `+`, `-`, `*` and `^`. The wrapper
/// takes no other pattern, and claims nothing when compiling fails.
#[verifier::external_body]
fn pattern_matches(pattern: &str, text: &str) -> (r: Result<bool, regex::Error>)
    requires
        pattern@ == operator_pattern(),
    ensures
        r matches Ok(found) ==> found == (operator_of(text@) is Some),
{
    match Regex::new(pattern) {
        Ok(re) => Ok(re.is_match(text)),
        Err(e) => Err(e),
    }
}

/// Whether `tok` is an operator.
///
/// The token is matched against the operator pattern; should the pattern
/// fail to compile, the token is compared with the operators directly.
fn is_operator(tok: &str) -> (b: bool)
    ensures
        b == (operator_of(tok@) is Some),
{
    let pattern = "^(\\+|-|\\*|\\^)$";
    proof {
        reveal_strlit("^(\\+|-|\\*|\\^)$");
        assert(pattern@ =~= operator_pattern());
    }
    match pattern_matches(pattern, tok) {
        Ok(found) => found,
        Err(_) => operator(tok).is_some(),
    }
}

/// The token at position `n`, or the empty text when there is none.
pub fn peek<'a>(toks: &'a Vec<&str>, n: usize) -> (tok: &'a str)
    ensures
        tok@ == if n < toks.len() {
            toks[n as int]@
        } else {
            Seq::<char>::empty()
        },
{
    if toks.len() > n {
        toks[n]
    } else {
        proof {
            reveal_strlit("");
        }
        let none = "";
        assert(none@ =~= Seq::<char>::empty());
        none
    }
}

/// Consumes the first token if it is `tok`.
///
/// Returns whether it was: when the first token differs from `tok`, or
/// there is none, the tokens are left as they are.
pub fn expect<'a>(toks: &mut Vec<&'a str>, tok: &'a str) -> (matched: bool)
    ensures
        matched == (old(toks).len() > 0 && old(toks)[0]@ == tok@),
        final(toks)@ == if matched {
            old(toks)@.skip(1)
        } else {
            old(toks)@
        },
{
    if toks.len() > 0 && same_text(toks[0], tok) {
        toks.remove(0);
        assert(toks@ =~= old(toks)@.skip(1));
        true
    } else {
        false
    }
}

/// Builds the tree of a parenthesized operator from its operands.
fn reduce(op: Op, args: Vec<Expression>) -> (r: Option<Expression>)
    ensures
        match reduce_spec(op, models(args@)) {
            Some(tree) => r matches Some(e) && e@ == tree,
            None => r is None,
        },
{
    broadcast use axiom_spec_into_iter;

    let ghost all = models(args@);
    let mut args = args;
    let n: usize = args.len();
    if n == 0 {
        return None;
    }
    if n == 1 {
        let only = args.pop().unwrap();
        return match op {
            Op::Plus => Some(Expression::binary(Op::Plus, Expression::lit(0), only)),
            Op::Minus => Some(Expression::binary(Op::Minus, Expression::lit(0), only)),
            _ => None,
        };
    }
    match op {
        Op::Pow => {
            let mut acc = args.pop().unwrap();
            while args.len() > 0
                invariant
                    args.len() < all.len(),
                    models(args@) =~= all.take(args.len() as int),
                    acc@ == fold_right(op, all.skip(args.len() as int)),
                decreases args.len(),
            {
                let ghost k = args.len() as int;
                let ghost before = args@;
                let a = args.pop().unwrap();
                proof {
                    assert(all.skip(k - 1).skip(1) =~= all.skip(k));
                    assert(a@ == models(before)[k - 1]);
                }
                acc = Expression::binary(op, a, acc);
            }
            proof {
                assert(all.skip(0) =~= all);
            }
            Some(acc)
        },
        _ => {
            let ghost exprs = args@;
            let mut acc: Option<Expression> = None;
            for e in it: args
                invariant
                    it.seq() == exprs,
                    all == models(exprs),
                    match acc {
                        Some(a) => it.index() > 0 && a@ == fold_left(op, all.take(it.index())),
                        None => it.index() == 0,
                    },
            {
                proof {
                    let i = it.index();
                    assert(all.take(i + 1).drop_last() =~= all.take(i));
                    assert(e@ == all[i]);
                }
                acc = match acc {
                    None => Some(e),
                    Some(a) => Some(Expression::binary(op, a, e)),
                };
            }
            proof {
                assert(all.take(all.len() as int) =~= all);
            }
            acc
        },
    }
}

/// Parses the expression at the front of `toks` and consumes its tokens.
///
/// Returns `None` when no expression starts there; the tokens are then left
/// in an unspecified state.
#[verifier::loop_isolation(false)]
fn parse_exp<'a>(toks: &mut Vec<&'a str>) -> (r: Option<Expression>)
    ensures
        match parse_exp_spec(texts(old(toks)@)) {
            Some((tree, rest)) => r matches Some(e) && e@ == tree && texts(final(toks)@) == rest,
            None => r is None,
        },
        r is Some ==> final(toks).len() < old(toks).len(),
    decreases old(toks).len(),
{
    let ghost input = texts(toks@);
    proof {
        lemma_parse_consumes(input);
    }
    if toks.len() == 0 {
        return None;
    }
    let head: &'a str = toks[0];
    if let Some(op) = operator(head) {
        expect(toks, head);
        proof {
            lemma_texts_skip(old(toks)@, 1);
        }
        let lhs = match parse_exp(toks) {
            Some(e) => e,
            None => {
                return None;
            },
        };
        let rhs = match parse_exp(toks) {
            Some(e) => e,
            None => {
                return None;
            },
        };
        Some(Expression::binary(op, lhs, rhs))
    } else if single_char(head) == Some('(') {
        expect(toks, head);
        if toks.len() == 0 {
            return None;
        }
        let symbol: &'a str = toks[0];
        if !is_operator(symbol) {
            return None;
        }
        let op = match operator(symbol) {
            Some(op) => op,
            None => {
                return None;
            },
        };
        expect(toks, symbol);
        let ghost inner = texts(toks@);
        proof {
            lemma_texts_skip(old(toks)@, 2);
            assert(toks@ =~= old(toks)@.skip(2));
        }
        let mut args: Vec<Expression> = Vec::new();
        proof {
            assert(models(args@) =~= Seq::<Ast>::empty());
            if let Some((more, rest)) = parse_args_spec(inner) {
                assert(models(args@) + more =~= more);
            }
        }
        while single_char(peek(toks, 0)) != Some(')')
            invariant
                toks.len() < old(toks).len(),
                match parse_args_spec(texts(toks@)) {
                    Some((more, rest)) => parse_args_spec(inner) == Some(
                        (models(args@) + more, rest),
                    ),
                    None => parse_args_spec(inner) is None,
                },
            decreases toks.len(),
        {
            let ghost here = texts(toks@);
            let ghost before = args@;
            proof {
                lemma_parse_consumes(here);
                assert(toks.len() > 0 ==> here[0] == toks@[0]@);
                assert(!(here.len() > 0 && is_close(here[0])));
            }
            match parse_exp(toks) {
                Some(e) => {
                    args.push(e);
                    proof {
                        assert(models(args@) =~= models(before).push(e@));
                        if let Some((more, rest)) = parse_args_spec(texts(toks@)) {
                            assert(models(before) + (seq![e@] + more) =~= models(args@) + more);
                        }
                    }
                },
                None => {
                    return None;
                },
            }
        }
        proof {
            assert(toks.len() > 0);
            assert(texts(toks@)[0] == toks@[0]@);
            assert(parse_args_spec(texts(toks@)) == Some((Seq::<Ast>::empty(), texts(toks@))));
            assert(models(args@) + Seq::<Ast>::empty() =~= models(args@));
            assert(parse_args_spec(inner) == Some((models(args@), texts(toks@))));
            lemma_texts_skip(toks@, 1);
            reveal_strlit(")");
            assert(toks@[0]@ =~= ")"@);
        }
        let closed = expect(toks, ")");
        assert(closed);
        reduce(op, args)
    } else {
        match parse_number(head) {
            Some(n) => {
                expect(toks, head);
                proof {
                    lemma_texts_skip(old(toks)@, 1);
                }
                Some(Expression::lit(n))
            },
            None => None,
        }
    }
}

/// Parses a whole sequence of tokens.
///
/// Returns the tree of the expression that the tokens spell. When they
/// spell none, or when tokens are left over after it, the result is the
/// error mark: a parse either succeeds as a whole or yields nothing but the
/// mark, and it never panics.
///
/// The tree keeps no trace of how it was written. In particular a single
/// operand under `+` or `-` is stored with its zero, so `(- 2)` gives the
/// tree of `(- 0 2)` and is rendered as `(- 0 2)`: rendering a parsed text
/// need not give the text back.
pub fn parse(ts: Vec<&str>) -> (ast: Expression)
    ensures
        ast@ == parse_spec(texts(ts@)),
        parse_exp_spec(texts(ts@)) matches Some((_, rest)) && rest.len() > 0 ==> ast@ == Ast::Error,
        ast@ == Ast::Error || !ast@.has_error(),
{
    proof {
        lemma_parse_all_or_nothing(texts(ts@));
    }
    let mut toks = ts;
    match parse_exp(&mut toks) {
        Some(tree) => if toks.len() == 0 {
            tree
        } else {
            Expression::error()
        },
        None => Expression::error(),
    }
}

} // verus!
