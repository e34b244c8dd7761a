//! The lexical grammar as spec functions over sequences of characters.
//!
//! `lex_from(s, i)` is the token sequence that lexing `s` from position `i` produces; the
//! scanners in `scan` are proved to compute exactly these functions.

use vstd::prelude::*;
use vstd::arithmetic::div_mod::{
    lemma_add_mod_noop,
    lemma_mod_add_multiples_vanish,
    lemma_mod_sub_multiples_vanish,
    lemma_mul_mod_noop_left,
    lemma_small_mod,
};
use vstd::wrapping::i32_specs::{signed_crop, wrapping_add, wrapping_mul};
use crate::text::alphanumeric;
use crate::token::{Keyword, Operator, TypeView};

verus! {

pub open spec fn is_digit(c: char) -> bool {
    '0' <= c && c <= '9'
}

/// The value of a decimal digit.
pub open spec fn digit_value(c: char) -> int {
    c as int - '0' as int
}

/// The value of a run of decimal digits, read left to right (`value * 10 + digit`).
pub open spec fn digits_value(d: Seq<char>) -> int
    decreases d.len(),
{
    if d.len() == 0 {
        0
    } else {
        digits_value(d.drop_last()) * 10 + digit_value(d.last())
    }
}

/// A number literal's value as the lexer stores it: the digits' value wrapped into an `i32`.
pub open spec fn number_value(d: Seq<char>) -> i32 {
    signed_crop(digits_value(d))
}

/// How a reserved word is spelled.
pub open spec fn spelling(k: Keyword) -> Seq<char> {
    match k {
        Keyword::Define => seq!['d', 'e', 'f', 'i', 'n', 'e'],
        Keyword::True => seq!['t', 'r', 'u', 'e'],
        Keyword::False => seq!['f', 'a', 'l', 's', 'e'],
        Keyword::If => seq!['i', 'f'],
        Keyword::Null => seq!['n', 'u', 'l', 'l'],
        Keyword::NotReserved => Seq::empty(),
    }
}

/// The reserved word spelled `w`, or `NotReserved`.
pub open spec fn keyword_of(w: Seq<char>) -> Keyword {
    if w == spelling(Keyword::Define) {
        Keyword::Define
    } else if w == spelling(Keyword::True) {
        Keyword::True
    } else if w == spelling(Keyword::False) {
        Keyword::False
    } else if w == spelling(Keyword::If) {
        Keyword::If
    } else if w == spelling(Keyword::Null) {
        Keyword::Null
    } else {
        Keyword::NotReserved
    }
}

/// The token for a word: a keyword when it is reserved, an identifier otherwise.
pub open spec fn word_token(w: Seq<char>) -> TypeView {
    if keyword_of(w) == Keyword::NotReserved {
        TypeView::Identifier(w)
    } else {
        TypeView::Keyword(keyword_of(w))
    }
}

/// The token of a one-character punctuation mark.
pub open spec fn structural_token(c: char) -> Option<TypeView> {
    if c == '(' {
        Some(TypeView::LeftParen)
    } else if c == ')' {
        Some(TypeView::RightParen)
    } else if c == '{' {
        Some(TypeView::LeftBrace)
    } else if c == '}' {
        Some(TypeView::RightBrace)
    } else if c == '.' {
        Some(TypeView::Dot)
    } else if c == ',' {
        Some(TypeView::Comma)
    } else if c == ';' {
        Some(TypeView::Semicolon)
    } else {
        None
    }
}

pub open spec fn is_operator_start(c: char) -> bool {
    c == '+' || c == '-' || c == '*' || c == '/' || c == '=' || c == '!' || c == '%' || c == '>'
        || c == '<' || c == '&' || c == '|'
}

/// The end of the maximal run of decimal digits that starts at `i`.
pub open spec fn digit_run_end(s: Seq<char>, i: int) -> int
    decreases s.len() - i,
{
    if 0 <= i < s.len() && is_digit(s[i]) {
        digit_run_end(s, i + 1)
    } else {
        i
    }
}

/// The end of the maximal run of alphanumeric characters that starts at `i`.
pub open spec fn alnum_run_end(s: Seq<char>, i: int) -> int
    decreases s.len() - i,
{
    if 0 <= i < s.len() && alphanumeric(s[i]) {
        alnum_run_end(s, i + 1)
    } else {
        i
    }
}

/// The first position at or after `i` that holds a `"` or a newline, or the end of `s`.
pub open spec fn string_stop(s: Seq<char>, i: int) -> int
    decreases s.len() - i,
{
    if 0 <= i < s.len() && s[i] != '"' && s[i] != '\n' {
        string_stop(s, i + 1)
    } else {
        i
    }
}

/// The operator that starts at `i` (none for a lone `&` or `|`), and where lexing resumes.
pub open spec fn operator_at(s: Seq<char>, i: int) -> (Option<Operator>, int) {
    let c = s[i];
    let doubled = i + 1 < s.len() && s[i + 1] == (if c == '&' || c == '|' { c } else { '=' });
    if c == '+' {
        (Some(Operator::Plus), i + 1)
    } else if c == '-' {
        (Some(Operator::Minus), i + 1)
    } else if c == '*' {
        (Some(Operator::Star), i + 1)
    } else if c == '/' {
        (Some(Operator::Slash), i + 1)
    } else if c == '%' {
        (Some(Operator::Mod), i + 1)
    } else if c == '=' {
        if doubled {
            (Some(Operator::DoubleEquals), i + 2)
        } else {
            (Some(Operator::Equals), i + 1)
        }
    } else if c == '!' {
        if doubled {
            (Some(Operator::NotEquals), i + 2)
        } else {
            (Some(Operator::Bang), i + 1)
        }
    } else if c == '>' {
        if doubled {
            (Some(Operator::GreaterEqual), i + 2)
        } else {
            (Some(Operator::Greater), i + 1)
        }
    } else if c == '<' {
        if doubled {
            (Some(Operator::LessEqual), i + 2)
        } else {
            (Some(Operator::Less), i + 1)
        }
    } else if c == '&' {
        if doubled {
            (Some(Operator::And), i + 2)
        } else {
            (None, i + 1)
        }
    } else if c == '|' {
        if doubled {
            (Some(Operator::Or), i + 2)
        } else {
            (None, i + 1)
        }
    } else {
        (None, i + 1)
    }
}

/// One step of the lexer at position `i` of `s`: the token produced, if any, and where
/// lexing resumes.
pub open spec fn step(s: Seq<char>, i: int) -> (Option<TypeView>, int) {
    let c = s[i];
    if c == '"' {
        let k = string_stop(s, i + 1);
        if k < s.len() && s[k] == '"' {
            (Some(TypeView::String(s.subrange(i + 1, k))), k + 1)
        } else if k < s.len() {
            (None, k + 1)
        } else {
            (None, k)
        }
    } else if is_digit(c) {
        let j = digit_run_end(s, i);
        (Some(TypeView::Number(number_value(s.subrange(i, j)))), j)
    } else if structural_token(c) is Some {
        (structural_token(c), i + 1)
    } else if is_operator_start(c) {
        let (o, j) = operator_at(s, i);
        (if o is Some { Some(TypeView::Operator(o->0)) } else { None }, j)
    } else if alphanumeric(c) {
        let j = alnum_run_end(s, i);
        (Some(word_token(s.subrange(i, j))), j)
    } else {
        (None, i + 1)
    }
}

pub open spec fn opt_seq(t: Option<TypeView>) -> Seq<TypeView> {
    if t is Some { seq![t->0] } else { Seq::empty() }
}

/// The tokens that lexing `s` produces from position `i` on.
pub open spec fn lex_from(s: Seq<char>, i: int) -> Seq<TypeView>
    decreases s.len() - i,
    via lex_from_decreases
{
    if 0 <= i < s.len() {
        opt_seq(step(s, i).0) + lex_from(s, step(s, i).1)
    } else {
        Seq::empty()
    }
}

/// The tokens of `s`.
pub open spec fn lex_spec(s: Seq<char>) -> Seq<TypeView> {
    lex_from(s, 0)
}

pub proof fn lemma_digit_run_end(s: Seq<char>, i: int)
    requires
        0 <= i <= s.len(),
    ensures
        i <= digit_run_end(s, i) <= s.len(),
        forall|k: int| i <= k < digit_run_end(s, i) ==> is_digit(#[trigger] s[k]),
        digit_run_end(s, i) < s.len() ==> !is_digit(s[digit_run_end(s, i)]),
    decreases s.len() - i,
{
    if i < s.len() && is_digit(s[i]) {
        lemma_digit_run_end(s, i + 1);
    }
}

pub proof fn lemma_alnum_run_end(s: Seq<char>, i: int)
    requires
        0 <= i <= s.len(),
    ensures
        i <= alnum_run_end(s, i) <= s.len(),
        forall|k: int| i <= k < alnum_run_end(s, i) ==> alphanumeric(#[trigger] s[k]),
        alnum_run_end(s, i) < s.len() ==> !alphanumeric(s[alnum_run_end(s, i)]),
    decreases s.len() - i,
{
    if i < s.len() && alphanumeric(s[i]) {
        lemma_alnum_run_end(s, i + 1);
    }
}

pub proof fn lemma_string_stop(s: Seq<char>, i: int)
    requires
        0 <= i <= s.len(),
    ensures
        i <= string_stop(s, i) <= s.len(),
        forall|k: int| i <= k < string_stop(s, i) ==> #[trigger] s[k] != '"' && s[k] != '\n',
        string_stop(s, i) < s.len() ==> (s[string_stop(s, i)] == '"' || s[string_stop(s, i)]
            == '\n'),
    decreases s.len() - i,
{
    if i < s.len() && s[i] != '"' && s[i] != '\n' {
        lemma_string_stop(s, i + 1);
    }
}

/// Each step consumes at least one character and stays within `s`.
pub proof fn lemma_step_advances(s: Seq<char>, i: int)
    requires
        0 <= i < s.len(),
    ensures
        i < step(s, i).1 <= s.len(),
{
    let c = s[i];
    if c == '"' {
        lemma_string_stop(s, i + 1);
    } else if is_digit(c) {
        lemma_digit_run_end(s, i);
    } else if alphanumeric(c) {
        lemma_alnum_run_end(s, i);
    }
}

#[via_fn]
proof fn lex_from_decreases(s: Seq<char>, i: int) {
    if 0 <= i < s.len() {
        lemma_step_advances(s, i);
    }
}

/// An `i32` wrapped from a value congruent to `x` modulo 2^32 is the wrap of `x`.
proof fn lemma_crop_mod(x: int)
    ensures
        signed_crop(x) as int % 0x1_0000_0000 == x % 0x1_0000_0000,
{
    let m = x % 0x1_0000_0000;
    if m > i32::MAX as int {
        lemma_mod_sub_multiples_vanish(m, 0x1_0000_0000);
        lemma_mod_twice(x);
    } else {
        lemma_mod_twice(x);
    }
}

proof fn lemma_mod_twice(x: int)
    ensures
        (x % 0x1_0000_0000) % 0x1_0000_0000 == x % 0x1_0000_0000,
{
    lemma_small_mod((x % 0x1_0000_0000) as nat, 0x1_0000_0000);
}

/// Wrapping an `i32` value leaves it unchanged.
pub proof fn lemma_crop_in_range(y: int)
    requires
        i32::MIN <= y <= i32::MAX,
    ensures
        signed_crop(y) as int == y,
{
    if y >= 0 {
        lemma_small_mod(y as nat, 0x1_0000_0000);
    } else {
        lemma_mod_add_multiples_vanish(y, 0x1_0000_0000);
        lemma_small_mod((y + 0x1_0000_0000) as nat, 0x1_0000_0000);
    }
}

/// Values congruent modulo 2^32 wrap to the same `i32`.
proof fn lemma_crop_congruent(x: int, y: int)
    requires
        x % 0x1_0000_0000 == y % 0x1_0000_0000,
    ensures
        signed_crop(x) == signed_crop(y),
{
}

/// Folding one more digit with wrapping arithmetic wraps the exact fold.
pub proof fn lemma_wrapping_fold(v: int, d: i32)
    requires
        0 <= d <= 9,
    ensures
        wrapping_add(wrapping_mul(signed_crop(v), 10), d) == signed_crop(v * 10 + d),
{
    let a = signed_crop(v);
    let b = wrapping_mul(a, 10);
    lemma_crop_mod(v);
    lemma_crop_mod(a * 10);
    lemma_mul_mod_noop_left(a as int, 10, 0x1_0000_0000);
    lemma_mul_mod_noop_left(v, 10, 0x1_0000_0000);
    assert(b as int % 0x1_0000_0000 == (v * 10) % 0x1_0000_0000);
    let w = wrapping_add(b, d);
    if b + d > i32::MAX {
        lemma_mod_sub_multiples_vanish(b + d, 0x1_0000_0000);
    }
    assert(w as int % 0x1_0000_0000 == (b + d) % 0x1_0000_0000);
    lemma_add_mod_noop(b as int, d as int, 0x1_0000_0000);
    lemma_add_mod_noop(v * 10, d as int, 0x1_0000_0000);
    assert((b + d) % 0x1_0000_0000 == (v * 10 + d) % 0x1_0000_0000);
    lemma_crop_in_range(w as int);
    lemma_crop_congruent(w as int, v * 10 + d);
}

} // verus!
