//! The canonical text of a tree, and the way back from it.
//!
//! Rendering writes every operator with its parentheses and exactly two
//! operands. This module shows that lexing and parsing such a text gives the
//! tree back, for every tree that a text can denote at all: one without an
//! error mark whose literals lie between 0 and `i32::MAX`.
use crate::ast::Ast;
use crate::decimal::{decimal, is_digit, lemma_numeral_value, literal_value};
use crate::lexer::{
    lemma_lex_blank, lemma_lex_symbol, lemma_scan_flushes, lemma_scan_joins, lex_spec,
};
use crate::parser::{
    fold_left, fold_right, is_close, is_open, lemma_parse_consumes, operator_of, parse_args_spec,
    parse_exp_spec, parse_spec, reduce_spec, Tokens,
};
use vstd::prelude::*;

verus! {

/// A tree that some text denotes: it holds no error mark, and each literal
/// lies between 0 and `i32::MAX`.
pub open spec fn is_plain(t: Ast) -> bool
    decreases t,
{
    match t {
        Ast::Lit(n) => 0 <= n <= i32::MAX,
        Ast::Bin(_, l, r) => is_plain(*l) && is_plain(*r),
        Ast::Error => false,
    }
}

/// The tokens of the canonical text of a tree.
pub open spec fn tokens_of(t: Ast) -> Tokens
    decreases t,
{
    match t {
        Ast::Lit(n) => seq![decimal(n)],
        Ast::Bin(op, l, r) => seq![seq!['('], seq![op.symbol()]] + tokens_of(*l) + tokens_of(*r)
            + seq![seq![')']],
        Ast::Error => Seq::empty(),
    }
}

/// A plain tree has no error in it, and its tokens start with a token that
/// is no `)`.
pub proof fn lemma_plain(t: Ast)
    requires
        is_plain(t),
    ensures
        !t.has_error(),
        tokens_of(t).len() > 0,
        !is_close(tokens_of(t)[0]),
    decreases t,
{
    match t {
        Ast::Lit(n) => {
            lemma_numeral_value(n as nat);
        },
        Ast::Bin(_, l, r) => {
            lemma_plain(*l);
            lemma_plain(*r);
        },
        Ast::Error => {},
    }
}

/// The canonical text of a plain tree, in front of a text that starts with
/// no digit, lexes to the tree's tokens and then the tokens of that text.
pub proof fn lemma_lex_render(t: Ast, s: Seq<char>)
    requires
        is_plain(t),
        s.len() == 0 || !is_digit(s[0]),
    ensures
        lex_spec(t.render() + s) == tokens_of(t) + lex_spec(s),
    decreases t,
{
    match t {
        Ast::Lit(n) => {
            let none = Seq::<char>::empty();
            let digits = decimal(n);
            lemma_numeral_value(n as nat);
            lemma_scan_joins(digits, s, none);
            assert(none + digits =~= digits);
            lemma_scan_flushes(s, digits);
        },
        Ast::Bin(op, l, r) => {
            lemma_plain(*l);
            lemma_plain(*r);
            // The text, cut at each place where the lexer moves on:
            // `(`, the operator, a blank, the left operand, a blank, the
            // right operand, `)`, and what follows.
            let c = op.symbol();
            let s6 = seq![')'] + s;
            let s5 = r.render() + s6;
            let s4 = seq![' '] + s5;
            let s3 = l.render() + s4;
            let s2 = seq![' '] + s3;
            let s1 = seq![c] + s2;
            let s0 = seq!['('] + s1;
            assert(t.render() + s == s0) by {
                assert(t.render() == seq!['(', c, ' '] + l.render() + seq![' '] + r.render()
                    + seq![')']);
                assert(t.render() + s =~= s0);
            }
            lemma_lex_symbol('(', s1);
            lemma_lex_symbol(c, s2);
            lemma_lex_blank(' ', s3);
            assert(s4[0] == ' ');
            lemma_lex_render(*l, s4);
            lemma_lex_blank(' ', s5);
            assert(s6[0] == ')');
            lemma_lex_render(*r, s6);
            lemma_lex_symbol(')', s);
            let tl = tokens_of(*l);
            let tr = tokens_of(*r);
            let ts = lex_spec(s);
            assert(lex_spec(s0) == seq![seq!['(']] + (seq![seq![c]] + (tl + (tr + (seq![seq![')']]
                + ts)))));
            assert(seq![seq!['(']] + (seq![seq![c]] + (tl + (tr + (seq![seq![')']] + ts))))
                =~= seq![seq!['('], seq![c]] + tl + tr + seq![seq![')']] + ts);
        },
        Ast::Error => {},
    }
}

/// The tokens of a plain tree, in front of any tokens, parse to the tree and
/// leave those tokens.
pub proof fn lemma_parse_tokens(t: Ast, rest: Tokens)
    requires
        is_plain(t),
    ensures
        parse_exp_spec(tokens_of(t) + rest) == Some((t, rest)),
    decreases t,
{
    let toks = tokens_of(t) + rest;
    match t {
        Ast::Lit(n) => {
            lemma_numeral_value(n as nat);
            let text = decimal(n);
            assert(toks[0] == text);
            assert(is_digit(text[0]));
            assert(toks.skip(1) =~= rest);
            assert(literal_value(text) == Some(n as i32));
        },
        Ast::Bin(op, l, r) => {
            lemma_plain(*l);
            lemma_plain(*r);
            let closing = seq![seq![')']] + rest;
            let from_r = tokens_of(*r) + closing;
            let from_l = tokens_of(*l) + from_r;
            assert(toks =~= seq![seq!['('], seq![op.symbol()]] + from_l);
            assert(toks[0] == seq!['(']);
            assert(toks[1] == seq![op.symbol()]);
            assert(toks.skip(2) =~= from_l);
            assert(operator_of(toks[0]) is None);
            assert(is_open(toks[0]));
            assert(operator_of(toks[1]) == Some(op));
            // The operands, one after the other, up to the `)`.
            lemma_parse_tokens(*l, from_r);
            lemma_parse_tokens(*r, closing);
            lemma_parse_consumes(from_l);
            lemma_parse_consumes(from_r);
            assert(from_l[0] == tokens_of(*l)[0]);
            assert(from_r[0] == tokens_of(*r)[0]);
            assert(is_close(closing[0]));
            assert(parse_args_spec(closing) == Some((Seq::<Ast>::empty(), closing)));
            assert(parse_args_spec(from_r) == Some((seq![*r] + Seq::<Ast>::empty(), closing)));
            let args = seq![*l] + (seq![*r] + Seq::<Ast>::empty());
            assert(parse_args_spec(from_l) == Some((args, closing)));
            // Two operands fold to one node, whatever the direction.
            assert(args =~= seq![*l, *r]);
            assert(args.drop_last() =~= seq![*l]);
            assert(args.skip(1) =~= seq![*r]);
            assert(fold_left(op, args.drop_last()) == *l);
            assert(fold_right(op, args.skip(1)) == *r);
            assert(fold_left(op, args) == t);
            assert(fold_right(op, args) == t);
            assert(reduce_spec(op, args) == Some(t));
            assert(closing.skip(1) =~= rest);
        },
        Ast::Error => {},
    }
}

/// Lexing and parsing the canonical text of a plain tree gives the tree
/// back.
pub proof fn lemma_render_round_trip(t: Ast)
    requires
        is_plain(t),
    ensures
        lex_spec(t.render()) == tokens_of(t),
        parse_spec(lex_spec(t.render())) == t,
{
    let none = Seq::<char>::empty();
    lemma_lex_render(t, none);
    assert(t.render() + none =~= t.render());
    assert(tokens_of(t) + lex_spec(none) =~= tokens_of(t));
    lemma_parse_tokens(t, Seq::empty());
    assert(tokens_of(t) + Seq::<Seq<char>>::empty() =~= tokens_of(t));
}

/// A non-negative 32-bit integer written in decimal lexes to one token,
/// parses to the literal of that integer, evaluates to it, and is no error.
pub proof fn lemma_literal_round_trip(n: int)
    requires
        0 <= n <= i32::MAX,
    ensures
        lex_spec(decimal(n)) == seq![decimal(n)],
        parse_spec(lex_spec(decimal(n))) == Ast::Lit(n),
        parse_spec(lex_spec(decimal(n))).eval() == n,
        !parse_spec(lex_spec(decimal(n))).has_error(),
{
    lemma_render_round_trip(Ast::Lit(n));
}

} // verus!
