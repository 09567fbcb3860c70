//! The lexer: from text to tokens.
use crate::decimal::{is_digit, is_number};
use crate::text::{lemma_texts_push, texts, Source};
use vstd::prelude::*;

verus! {

/// One of the six characters that are a token by themselves.
pub open spec fn is_symbol(c: char) -> bool {
    c == '+' || c == '-' || c == '*' || c == '^' || c == '(' || c == ')'
}

/// A token as the lexer produces it: a single symbol, or a run of digits.
pub open spec fn is_token(t: Seq<char>) -> bool {
    ||| t.len() == 1 && is_symbol(t[0])
    ||| is_number(t)
}

/// The token that a finished run of digits becomes: none for an empty run.
pub open spec fn flush(run: Seq<char>) -> Seq<Seq<char>> {
    if run.len() == 0 {
        Seq::empty()
    } else {
        seq![run]
    }
}

/// The tokens of `s`, given that the digits in `run` were read just before
/// `s` and do not belong to a token yet.
///
/// A digit extends the run. Any other character ends it; a symbol is then a
/// token of its own, and every other character is dropped.
pub open spec fn scan(s: Seq<char>, run: Seq<char>) -> Seq<Seq<char>>
    decreases s.len(),
{
    if s.len() == 0 {
        flush(run)
    } else if is_digit(s[0]) {
        scan(s.skip(1), run.push(s[0]))
    } else if is_symbol(s[0]) {
        flush(run) + seq![seq![s[0]]] + scan(s.skip(1), Seq::empty())
    } else {
        flush(run) + scan(s.skip(1), Seq::empty())
    }
}

/// The tokens of a text, from left to right.
pub open spec fn lex_spec(s: Seq<char>) -> Seq<Seq<char>> {
    scan(s, Seq::empty())
}

/// Every token that a scan yields is a single symbol or a run of digits.
pub proof fn lemma_scan_tokens(s: Seq<char>, run: Seq<char>)
    requires
        forall|i: int| 0 <= i < run.len() ==> is_digit(#[trigger] run[i]),
    ensures
        forall|i: int| 0 <= i < scan(s, run).len() ==> is_token(#[trigger] scan(s, run)[i]),
    decreases s.len(),
{
    let out = scan(s, run);
    if s.len() == 0 {
        if run.len() > 0 {
            assert(out[0] == run);
            assert(is_number(run));
        }
    } else if is_digit(s[0]) {
        lemma_scan_tokens(s.skip(1), run.push(s[0]));
        assert(out == scan(s.skip(1), run.push(s[0])));
    } else {
        lemma_scan_tokens(s.skip(1), Seq::empty());
        let head = flush(run);
        let tail = scan(s.skip(1), Seq::empty());
        assert forall|i: int| 0 <= i < out.len() implies is_token(#[trigger] out[i]) by {
            if i < head.len() {
                assert(out[i] == run);
            } else if is_symbol(s[0]) {
                if i == head.len() {
                    assert(out[i] == seq![s[0]]);
                } else {
                    assert(out[i] == tail[i - head.len() - 1]);
                }
            } else {
                assert(out[i] == tail[i - head.len()]);
            }
        }
    }
}

/// In front of a character that is no digit, a pending run of digits is
/// flushed as it stands.
pub proof fn lemma_scan_flushes(s: Seq<char>, run: Seq<char>)
    requires
        s.len() == 0 || !is_digit(s[0]),
    ensures
        scan(s, run) == flush(run) + scan(s, Seq::empty()),
{
    if s.len() == 0 {
        assert(flush(run) + Seq::<Seq<char>>::empty() =~= flush(run));
    } else {
        let rest = scan(s.skip(1), Seq::empty());
        if is_symbol(s[0]) {
            assert(flush(run) + (Seq::<Seq<char>>::empty() + seq![seq![s[0]]] + rest) =~= flush(run)
                + seq![seq![s[0]]] + rest);
        } else {
            assert(flush(run) + (Seq::<Seq<char>>::empty() + rest) =~= flush(run) + rest);
        }
    }
}

/// Digits in front of a text join the pending run.
pub proof fn lemma_scan_joins(digits: Seq<char>, s: Seq<char>, run: Seq<char>)
    requires
        forall|i: int| 0 <= i < digits.len() ==> is_digit(#[trigger] digits[i]),
    ensures
        scan(digits + s, run) == scan(s, run + digits),
    decreases digits.len(),
{
    if digits.len() == 0 {
        assert(digits + s =~= s);
        assert(run + digits =~= run);
    } else {
        let whole = digits + s;
        assert(whole[0] == digits[0]);
        assert(whole.skip(1) =~= digits.skip(1) + s);
        lemma_scan_joins(digits.skip(1), s, run.push(digits[0]));
        assert(run.push(digits[0]) + digits.skip(1) =~= run + digits);
    }
}

/// No token spans a place where a digit does not meet a digit: when `a`
/// ends with no digit, or `b` starts with none, the tokens of `a + b` are
/// those of `a` and then those of `b`.
pub proof fn lemma_scan_boundary(a: Seq<char>, b: Seq<char>, run: Seq<char>)
    requires
        (a.len() > 0 && !is_digit(a.last())) || b.len() == 0 || !is_digit(b[0]),
    ensures
        scan(a + b, run) == scan(a, run) + scan(b, Seq::empty()),
    decreases a.len(),
{
    let none = Seq::<char>::empty();
    let whole = a + b;
    let tail = scan(b, none);
    if a.len() == 0 {
        assert(whole =~= b);
        lemma_scan_flushes(b, run);
    } else {
        let first = a[0];
        assert(whole[0] == first);
        assert(whole.skip(1) =~= a.skip(1) + b);
        if a.len() == 1 {
            assert(a.skip(1) =~= none);
            assert(whole.skip(1) =~= b);
            assert(scan(a.skip(1), none) =~= Seq::<Seq<char>>::empty());
            if is_digit(first) {
                lemma_scan_flushes(b, run.push(first));
                assert(scan(a.skip(1), run.push(first)) == flush(run.push(first)));
            } else if is_symbol(first) {
                assert(scan(a, run) =~= flush(run) + seq![seq![first]]);
                assert(scan(whole, run) =~= flush(run) + seq![seq![first]] + tail);
            } else {
                assert(scan(a, run) =~= flush(run));
                assert(scan(whole, run) =~= flush(run) + tail);
            }
        } else {
            assert(a.skip(1).last() == a.last());
            if is_digit(first) {
                lemma_scan_boundary(a.skip(1), b, run.push(first));
            } else {
                lemma_scan_boundary(a.skip(1), b, none);
                let rest = scan(a.skip(1), none);
                assert(scan(whole.skip(1), none) == rest + tail);
                if is_symbol(first) {
                    assert(scan(a, run) == flush(run) + seq![seq![first]] + rest);
                    assert(scan(whole, run) == flush(run) + seq![seq![first]] + (rest + tail));
                    assert(flush(run) + seq![seq![first]] + (rest + tail) =~= (flush(run) + seq![
                        seq![first],
                    ] + rest) + tail);
                } else {
                    assert(scan(a, run) == flush(run) + rest);
                    assert(scan(whole, run) == flush(run) + (rest + tail));
                    assert(flush(run) + (rest + tail) =~= (flush(run) + rest) + tail);
                }
            }
        }
    }
}

/// Texts that meet where a digit does not meet a digit are lexed one after
/// the other.
pub proof fn lemma_lex_boundary(a: Seq<char>, b: Seq<char>)
    requires
        a.len() == 0 || b.len() == 0 || !is_digit(a.last()) || !is_digit(b[0]),
    ensures
        lex_spec(a + b) == lex_spec(a) + lex_spec(b),
{
    if a.len() == 0 {
        assert(a + b =~= b);
        assert(lex_spec(a) + lex_spec(b) =~= lex_spec(b));
    } else {
        lemma_scan_boundary(a, b, Seq::empty());
    }
}

/// A symbol in front of a text is a token in front of the text's tokens.
pub proof fn lemma_lex_symbol(c: char, s: Seq<char>)
    requires
        is_symbol(c),
    ensures
        lex_spec(seq![c] + s) == seq![seq![c]] + lex_spec(s),
{
    let text = seq![c] + s;
    assert(text[0] == c);
    assert(text.skip(1) =~= s);
    assert(flush(Seq::<char>::empty()) + seq![seq![c]] + lex_spec(s) =~= seq![seq![c]] + lex_spec(
        s,
    ));
}

/// A character that is neither a digit nor a symbol adds no token.
pub proof fn lemma_lex_blank(c: char, s: Seq<char>)
    requires
        !is_digit(c),
        !is_symbol(c),
    ensures
        lex_spec(seq![c] + s) == lex_spec(s),
{
    let text = seq![c] + s;
    assert(text[0] == c);
    assert(text.skip(1) =~= s);
    assert(flush(Seq::<char>::empty()) + lex_spec(s) =~= lex_spec(s));
}

/// Splits a text into tokens.
///
/// Each of `+ - * ^ ( )` is a token of its own, each maximal run of the
/// digits `0` to `9` is one token, and every other character separates
/// tokens and is dropped. Tokens come in the order of the text and borrow
/// from it.
pub fn lex(exp: &str) -> (toks: Vec<&str>)
    ensures
        texts(toks@) == lex_spec(exp@),
        forall|i: int| 0 <= i < toks.len() ==> is_token(#[trigger] toks[i]@),
{
    let src = Source::new(exp);
    let n: usize = src.len();
    let mut toks: Vec<&str> = Vec::new();
    let mut start: usize = 0;
    let mut i: usize = 0;
    proof {
        assert(exp@.skip(0) =~= exp@);
        assert(exp@.subrange(0, 0) =~= Seq::<char>::empty());
        assert(texts(toks@) =~= Seq::<Seq<char>>::empty());
    }
    while i < n
        invariant
            start <= i <= n,
            n == exp@.len(),
            src@ == exp@,
            forall|j: int| start <= j < i ==> is_digit(#[trigger] exp@[j]),
            texts(toks@) + scan(exp@.skip(i as int), exp@.subrange(start as int, i as int))
                == lex_spec(exp@),
        decreases n - i,
    {
        let c: char = src.char_at(i);
        let ghost run = exp@.subrange(start as int, i as int);
        proof {
            assert(exp@.skip(i as int).skip(1) =~= exp@.skip(i + 1));
            assert(exp@.skip(i as int)[0] == c);
        }
        if c >= '0' && c <= '9' {
            proof {
                assert(run.push(c) =~= exp@.subrange(start as int, i + 1));
            }
        } else {
            if start < i {
                let ghost before = toks@;
                let tok = src.slice(start, i);
                toks.push(tok);
                proof {
                    lemma_texts_push(before, tok);
                }
            }
            if c == '+' || c == '-' || c == '*' || c == '^' || c == '(' || c == ')' {
                let ghost before = toks@;
                let tok = src.slice(i, i + 1);
                toks.push(tok);
                proof {
                    lemma_texts_push(before, tok);
                    assert(tok@ =~= seq![c]);
                }
            }
            start = i + 1;
            proof {
                assert(exp@.subrange(start as int, i + 1) =~= Seq::<char>::empty());
            }
        }
        i += 1;
    }
    if start < n {
        let ghost before = toks@;
        let tok = src.slice(start, n);
        toks.push(tok);
        proof {
            lemma_texts_push(before, tok);
        }
    }
    proof {
        assert(exp@.skip(n as int) =~= Seq::<char>::empty());
        assert(texts(toks@) =~= lex_spec(exp@));
        lemma_scan_tokens(exp@, Seq::empty());
        assert forall|i: int| 0 <= i < toks.len() implies is_token(#[trigger] toks[i]@) by {
            assert(lex_spec(exp@)[i] == toks[i]@);
        }
    }
    toks
}

} // verus!
