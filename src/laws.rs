//! Properties of the lexical grammar, proved over the spec functions that `lex` is
//! verified against.

use vstd::prelude::*;
use crate::grammar::{
    alnum_run_end, digit_run_end, digits_value, is_digit, keyword_of, lemma_alnum_run_end,
    lemma_crop_in_range, lemma_digit_run_end, lemma_step_advances, lemma_string_stop, lex_from,
    lex_spec, number_value, operator_at, opt_seq, step, string_stop, structural_token,
    word_token,
};
use crate::text::alphanumeric;
use crate::token::{Keyword, Operator, TypeView};

verus! {

/// Lexing from position `i` produces at most one token per remaining character, and never
/// the "no token" sentinel.
pub proof fn lemma_lex_from_well_formed(s: Seq<char>, i: int)
    requires
        0 <= i <= s.len(),
    ensures
        lex_from(s, i).len() <= s.len() - i,
        forall|k: int| 0 <= k < lex_from(s, i).len() ==> lex_from(s, i)[k] != TypeView::NoToken,
    decreases s.len() - i,
{
    if i < s.len() {
        lemma_step_advances(s, i);
        let j = step(s, i).1;
        lemma_lex_from_well_formed(s, j);
        let head = opt_seq(step(s, i).0);
        assert(head.len() <= 1);
        assert forall|k: int| 0 <= k < head.len() implies head[k] != TypeView::NoToken by {
            let c = s[i];
            if c != '"' && !is_digit(c) && structural_token(c) is Some {
                assert(structural_token(c)->0 != TypeView::NoToken);
            }
        }
        let all = head + lex_from(s, j);
        assert forall|k: int| 0 <= k < all.len() implies all[k] != TypeView::NoToken by {
            if k >= head.len() {
                assert(all[k] == lex_from(s, j)[k - head.len()]);
            }
        }
    }
}

/// The tokens of `s`: at most one per character, and never the "no token" sentinel.
pub proof fn lemma_lex_well_formed(s: Seq<char>)
    ensures
        lex_spec(s).len() <= s.len(),
        forall|k: int| 0 <= k < lex_spec(s).len() ==> lex_spec(s)[k] != TypeView::NoToken,
{
    lemma_lex_from_well_formed(s, 0);
}

proof fn lemma_string_stop_shift(p: Seq<char>, b: Seq<char>, i: int)
    requires
        0 <= i <= b.len(),
    ensures
        string_stop(p + b, p.len() + i) == p.len() + string_stop(b, i),
    decreases b.len() - i,
{
    if i < b.len() {
        assert((p + b)[p.len() + i] == b[i]);
        if b[i] != '"' && b[i] != '\n' {
            lemma_string_stop_shift(p, b, i + 1);
        }
    }
}

proof fn lemma_digit_run_end_shift(p: Seq<char>, b: Seq<char>, i: int)
    requires
        0 <= i <= b.len(),
    ensures
        digit_run_end(p + b, p.len() + i) == p.len() + digit_run_end(b, i),
    decreases b.len() - i,
{
    if i < b.len() {
        assert((p + b)[p.len() + i] == b[i]);
        if is_digit(b[i]) {
            lemma_digit_run_end_shift(p, b, i + 1);
        }
    }
}

proof fn lemma_alnum_run_end_shift(p: Seq<char>, b: Seq<char>, i: int)
    requires
        0 <= i <= b.len(),
    ensures
        alnum_run_end(p + b, p.len() + i) == p.len() + alnum_run_end(b, i),
    decreases b.len() - i,
{
    if i < b.len() {
        assert((p + b)[p.len() + i] == b[i]);
        if alphanumeric(b[i]) {
            lemma_alnum_run_end_shift(p, b, i + 1);
        }
    }
}

proof fn lemma_step_shift(p: Seq<char>, b: Seq<char>, i: int)
    requires
        0 <= i < b.len(),
    ensures
        step(p + b, p.len() + i).0 == step(b, i).0,
        step(p + b, p.len() + i).1 == p.len() + step(b, i).1,
{
    let s = p + b;
    let n = p.len();
    assert(s[n + i] == b[i]);
    if i + 1 < b.len() {
        assert(s[n + i + 1] == b[i + 1]);
    }
    let c = b[i];
    if c == '"' {
        lemma_string_stop_shift(p, b, i + 1);
        lemma_string_stop(b, i + 1);
        let k = string_stop(b, i + 1);
        if k < b.len() {
            assert(s[n + k] == b[k]);
        }
        assert(s.subrange(n + i + 1, n + k) =~= b.subrange(i + 1, k));
    } else if is_digit(c) {
        lemma_digit_run_end_shift(p, b, i);
        lemma_digit_run_end(b, i);
        assert(s.subrange(n + i, n + digit_run_end(b, i)) =~= b.subrange(i, digit_run_end(b, i)));
    } else if alphanumeric(c) {
        lemma_alnum_run_end_shift(p, b, i);
        lemma_alnum_run_end(b, i);
        assert(s.subrange(n + i, n + alnum_run_end(b, i)) =~= b.subrange(i, alnum_run_end(b, i)));
    }
}

proof fn lemma_lex_from_shift(p: Seq<char>, b: Seq<char>, i: int)
    requires
        0 <= i <= b.len(),
    ensures
        lex_from(p + b, p.len() + i) == lex_from(b, i),
    decreases b.len() - i,
{
    if i < b.len() {
        lemma_step_shift(p, b, i);
        lemma_step_advances(b, i);
        lemma_lex_from_shift(p, b, step(b, i).1);
    }
}

/// Lexing what follows a prefix does not depend on the prefix: the tokens of `b` are what
/// lexing `p + b` produces from the position where `b` starts.
pub proof fn lemma_lex_after_prefix(p: Seq<char>, b: Seq<char>)
    ensures
        lex_from(p + b, p.len() as int) == lex_spec(b),
{
    lemma_lex_from_shift(p, b, 0);
}

/// The ASCII whitespace characters: space, tab, line feed, vertical tab, form feed and
/// carriage return.
pub open spec fn is_ascii_space(c: char) -> bool {
    c == ' ' || c == '\t' || c == '\n' || c == '\u{0B}' || c == '\u{0C}' || c == '\r'
}

proof fn lemma_space_from(s: Seq<char>, i: int)
    requires
        0 <= i <= s.len(),
        forall|k: int| 0 <= k < s.len() ==> is_ascii_space(#[trigger] s[k]),
    ensures
        lex_from(s, i) == Seq::<TypeView>::empty(),
    decreases s.len() - i,
{
    if i < s.len() {
        assert(is_ascii_space(s[i]));
        lemma_space_from(s, i + 1);
        assert(opt_seq(step(s, i).0) + lex_from(s, i + 1) =~= Seq::<TypeView>::empty());
    }
}

/// Input made only of whitespace lexes to no tokens.
pub proof fn lemma_whitespace_lexes_to_nothing(s: Seq<char>)
    requires
        forall|k: int| 0 <= k < s.len() ==> is_ascii_space(#[trigger] s[k]),
    ensures
        lex_spec(s) == Seq::<TypeView>::empty(),
{
    lemma_space_from(s, 0);
}

/// A run of decimal digits alone lexes to one number literal, whose value is the digits'
/// value wrapped into an `i32`: the digits' value itself whenever that fits.
pub proof fn lemma_digits_lex_to_number(d: Seq<char>)
    requires
        d.len() > 0,
        forall|k: int| 0 <= k < d.len() ==> is_digit(#[trigger] d[k]),
    ensures
        lex_spec(d) == seq![TypeView::Number(number_value(d))],
        digits_value(d) <= i32::MAX ==> number_value(d) as int == digits_value(d),
{
    lemma_digit_run_end(d, 0);
    let j = digit_run_end(d, 0);
    if j < d.len() {
        assert(is_digit(d[j]));
    }
    assert(d.subrange(0, j) =~= d);
    assert(lex_from(d, j) == Seq::<TypeView>::empty());
    assert(lex_spec(d) =~= seq![TypeView::Number(number_value(d))]);
    lemma_digits_value_nonneg(d);
    if digits_value(d) <= i32::MAX {
        lemma_crop_in_range(digits_value(d));
    }
}

proof fn lemma_digits_value_nonneg(d: Seq<char>)
    requires
        forall|k: int| 0 <= k < d.len() ==> is_digit(#[trigger] d[k]),
    ensures
        digits_value(d) >= 0,
    decreases d.len(),
{
    if d.len() > 0 {
        assert(is_digit(d[d.len() - 1]));
        lemma_digits_value_nonneg(d.drop_last());
    }
}

/// An alphanumeric run that is not a reserved word and does not start with a decimal digit
/// lexes alone to one identifier holding exactly that run.
pub proof fn lemma_word_lexes_to_identifier(w: Seq<char>)
    requires
        w.len() > 0,
        forall|k: int| 0 <= k < w.len() ==> alphanumeric(#[trigger] w[k]),
        keyword_of(w) == Keyword::NotReserved,
        !is_digit(w[0]),
    ensures
        lex_spec(w) == seq![TypeView::Identifier(w)],
{
    lemma_alnum_run_end(w, 0);
    let j = alnum_run_end(w, 0);
    if j < w.len() {
        assert(alphanumeric(w[j]));
    }
    assert(alphanumeric(w[0]));
    assert(w.subrange(0, j) =~= w);
    assert(word_token(w) == TypeView::Identifier(w));
    assert(lex_from(w, j) == Seq::<TypeView>::empty());
    assert(lex_spec(w) =~= seq![TypeView::Identifier(w)]);
}

/// How an operator is written.
pub open spec fn operator_text(o: Operator) -> Seq<char> {
    match o {
        Operator::Plus => seq!['+'],
        Operator::Minus => seq!['-'],
        Operator::Star => seq!['*'],
        Operator::Slash => seq!['/'],
        Operator::Equals => seq!['='],
        Operator::DoubleEquals => seq!['=', '='],
        Operator::NotEquals => seq!['!', '='],
        Operator::Bang => seq!['!'],
        Operator::Mod => seq!['%'],
        Operator::Greater => seq!['>'],
        Operator::Less => seq!['<'],
        Operator::GreaterEqual => seq!['>', '='],
        Operator::LessEqual => seq!['<', '='],
        Operator::And => seq!['&', '&'],
        Operator::Or => seq!['|', '|'],
    }
}

/// Every operator's own text, lexed alone, gives back exactly that operator.
pub proof fn lemma_operator_round_trip(o: Operator)
    ensures
        lex_spec(operator_text(o)) == seq![TypeView::Operator(o)],
{
    let s = operator_text(o);
    let j = step(s, 0).1;
    assert(j == s.len());
    assert(lex_from(s, j) == Seq::<TypeView>::empty());
    assert(lex_spec(s) =~= seq![TypeView::Operator(o)]);
}

/// An `=` followed by any character other than `=` lexes to `Equals`, then to the tokens
/// of what follows.
pub proof fn lemma_equals_then(rest: Seq<char>)
    requires
        rest.len() > 0,
        rest[0] != '=',
    ensures
        lex_spec(seq!['='] + rest) == seq![TypeView::Operator(Operator::Equals)] + lex_spec(rest),
{
    let s = seq!['='] + rest;
    assert(s[0] == '=' && s[1] == rest[0]);
    assert(step(s, 0) == (Some(TypeView::Operator(Operator::Equals)), 1int));
    lemma_lex_after_prefix(seq!['='], rest);
    assert(opt_seq(step(s, 0).0) =~= seq![TypeView::Operator(Operator::Equals)]);
}

/// A single `&` that is not followed by another `&` produces no token: lexing goes on with
/// what follows it.
pub proof fn lemma_lone_ampersand(rest: Seq<char>)
    requires
        rest.len() == 0 || rest[0] != '&',
    ensures
        lex_spec(seq!['&'] + rest) == lex_spec(rest),
{
    let s = seq!['&'] + rest;
    assert(s[0] == '&');
    if rest.len() > 0 {
        assert(s[1] == rest[0]);
    }
    assert(step(s, 0) == (None::<TypeView>, 1int));
    lemma_lex_after_prefix(seq!['&'], rest);
    assert(opt_seq(step(s, 0).0) + lex_from(s, 1) =~= lex_from(s, 1));
}

/// A string literal that no closing quote or newline ends before the end of input produces
/// no token at all.
pub proof fn lemma_unterminated_string(t: Seq<char>)
    requires
        forall|k: int| 0 <= k < t.len() ==> #[trigger] t[k] != '"' && t[k] != '\n',
    ensures
        lex_spec(seq!['"'] + t) == Seq::<TypeView>::empty(),
{
    let s = seq!['"'] + t;
    assert(s[0] == '"');
    lemma_string_stop(s, 1);
    let k = string_stop(s, 1);
    if k < s.len() {
        assert(s[k] == t[k - 1]);
    }
    assert(k == s.len());
    assert(lex_from(s, k) == Seq::<TypeView>::empty());
    assert(lex_spec(s) =~= Seq::<TypeView>::empty());
}

} // verus!
