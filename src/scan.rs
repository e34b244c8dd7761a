//! The lexer: four scanners over a character cursor, and the dispatch loop that drives them.

use vstd::prelude::*;
use crate::grammar::{
    alnum_run_end, digit_run_end, digit_value, digits_value, is_digit, is_operator_start,
    keyword_of, lemma_alnum_run_end, lemma_digit_run_end, lemma_step_advances,
    lemma_string_stop, lemma_wrapping_fold, lex_from, lex_spec, number_value, operator_at,
    opt_seq, step, string_stop, structural_token, word_token,
};
use crate::laws::lemma_lex_well_formed;
use crate::text::{alphanumeric, chars_of, is_alphanumeric, push_char};
use crate::token::{views, Keyword, Operator, Token, Type, TypeView};

verus! {

/// Scans a string literal; `*pos` is just past its opening quote. Returns the literal when
/// a closing quote ends it, and `None` when a newline or the end of input comes first. The
/// cursor ends past the character that stopped the scan.
fn lex_string(chars: &Vec<char>, pos: &mut usize) -> (r: Option<Token>)
    requires
        *old(pos) <= chars@.len(),
    ensures
        ({
            let k = string_stop(chars@, *old(pos) as int);
            &&& *final(pos) == (if k < chars@.len() { k + 1 } else { k })
            &&& r is Some <==> (k < chars@.len() && chars@[k] == '"')
            &&& r is Some ==> r->0@ == TypeView::String(chars@.subrange(*old(pos) as int, k))
        }),
{
    let ghost s = chars@;
    let ghost start = *pos as int;
    proof {
        lemma_string_stop(s, start);
    }
    let mut accumulator = String::new();
    while *pos < chars.len() && chars[*pos] != '"' && chars[*pos] != '\n'
        invariant
            s == chars@,
            start <= *pos <= string_stop(s, start),
            accumulator@ == s.subrange(start, *pos as int),
            forall|k: int|
                start <= k < string_stop(s, start) ==> #[trigger] s[k] != '"' && s[k] != '\n',
            string_stop(s, start) < s.len() ==> (s[string_stop(s, start)] == '"'
                || s[string_stop(s, start)] == '\n'),
            string_stop(s, start) <= s.len(),
        decreases s.len() - *pos,
    {
        push_char(&mut accumulator, chars[*pos]);
        *pos = *pos + 1;
        assert(accumulator@ =~= s.subrange(start, *pos as int));
    }
    if *pos == chars.len() {
        None
    } else {
        let stop = chars[*pos];
        *pos = *pos + 1;
        if stop == '"' {
            Some(Token::new(Type::String(accumulator)))
        } else {
            None
        }
    }
}

/// Scans the maximal run of decimal digits at `*pos`, folding them into an `i32` with
/// wrapping arithmetic. The cursor ends at the first character that is not a digit.
fn lex_number(chars: &Vec<char>, pos: &mut usize) -> (r: Token)
    requires
        *old(pos) < chars@.len(),
        is_digit(chars@[*old(pos) as int]),
    ensures
        *final(pos) == digit_run_end(chars@, *old(pos) as int),
        r@ == TypeView::Number(
            number_value(chars@.subrange(*old(pos) as int, *final(pos) as int)),
        ),
{
    let ghost s = chars@;
    let ghost start = *pos as int;
    proof {
        lemma_digit_run_end(s, start);
    }
    let mut accumulator: i32 = 0;
    assert(s.subrange(start, start) =~= Seq::<char>::empty());
    while *pos < chars.len() && '0' <= chars[*pos] && chars[*pos] <= '9'
        invariant
            s == chars@,
            start <= *pos <= digit_run_end(s, start),
            accumulator == number_value(s.subrange(start, *pos as int)),
            forall|k: int| start <= k < digit_run_end(s, start) ==> is_digit(#[trigger] s[k]),
            digit_run_end(s, start) < s.len() ==> !is_digit(s[digit_run_end(s, start)]),
            digit_run_end(s, start) <= s.len(),
        decreases s.len() - *pos,
    {
        let c = chars[*pos];
        let d = (c as u32 - '0' as u32) as i32;
        let ghost before = s.subrange(start, *pos as int);
        let ghost after = s.subrange(start, *pos as int + 1);
        proof {
            assert(after.drop_last() =~= before);
            assert(digits_value(after) == digits_value(before) * 10 + digit_value(c));
            lemma_wrapping_fold(digits_value(before), d);
        }
        accumulator = accumulator.wrapping_mul(10).wrapping_add(d);
        *pos = *pos + 1;
    }
    Token::new(Type::Number(accumulator))
}

/// Scans the maximal alphanumeric run at `*pos` and classifies it as a keyword or an
/// identifier. The cursor ends at the first character that is not alphanumeric.
fn lex_alphanumeric(chars: &Vec<char>, pos: &mut usize) -> (r: Token)
    requires
        *old(pos) < chars@.len(),
        alphanumeric(chars@[*old(pos) as int]),
    ensures
        *final(pos) == alnum_run_end(chars@, *old(pos) as int),
        r@ == word_token(chars@.subrange(*old(pos) as int, *final(pos) as int)),
{
    let ghost s = chars@;
    let ghost start = *pos as int;
    proof {
        lemma_alnum_run_end(s, start);
    }
    let mut accumulator = String::new();
    while *pos < chars.len() && is_alphanumeric(chars[*pos])
        invariant
            s == chars@,
            start <= *pos <= alnum_run_end(s, start),
            accumulator@ == s.subrange(start, *pos as int),
            forall|k: int| start <= k < alnum_run_end(s, start) ==> alphanumeric(#[trigger] s[k]),
            alnum_run_end(s, start) < s.len() ==> !alphanumeric(s[alnum_run_end(s, start)]),
            alnum_run_end(s, start) <= s.len(),
        decreases s.len() - *pos,
    {
        push_char(&mut accumulator, chars[*pos]);
        *pos = *pos + 1;
        assert(accumulator@ =~= s.subrange(start, *pos as int));
    }
    let keyword = Keyword::from_str(accumulator.clone());
    if keyword == Keyword::NotReserved {
        Token::new(Type::Identifier(accumulator))
    } else {
        Token::new(Type::Keyword(keyword))
    }
}

/// Whether the character after `p` exists and is `c`.
fn next_is(chars: &Vec<char>, p: usize, c: char) -> (r: bool)
    requires
        p < chars@.len(),
    ensures
        r == (p + 1 < chars@.len() && chars@[p + 1] == c),
{
    chars.len() - p > 1 && chars[p + 1] == c
}

/// Scans an operator at `*pos`: one character, or two where the second extends it
/// (`==`, `!=`, `>=`, `<=`, `&&`, `||`). A lone `&` or `|`, or a character that starts no
/// operator, gives the `NoToken` sentinel.
fn lex_operator(chars: &Vec<char>, pos: &mut usize) -> (r: Token)
    requires
        *old(pos) < chars@.len(),
    ensures
        *final(pos) == operator_at(chars@, *old(pos) as int).1,
        r@ == (match operator_at(chars@, *old(pos) as int).0 {
            Some(o) => TypeView::Operator(o),
            None => TypeView::NoToken,
        }),
{
    let p = *pos;
    let len = chars.len();
    proof {
        // `p < len <= usize::MAX`: the cursor can step past one or two characters
        assert(p < len);
    }
    let c = chars[p];
    *pos = p + 1;
    if c == '+' {
        Token::new(Type::Operator(Operator::Plus))
    } else if c == '-' {
        Token::new(Type::Operator(Operator::Minus))
    } else if c == '*' {
        Token::new(Type::Operator(Operator::Star))
    } else if c == '/' {
        Token::new(Type::Operator(Operator::Slash))
    } else if c == '%' {
        Token::new(Type::Operator(Operator::Mod))
    } else if c == '=' {
        if next_is(chars, p, '=') {
            *pos = p + 2;
            Token::new(Type::Operator(Operator::DoubleEquals))
        } else {
            Token::new(Type::Operator(Operator::Equals))
        }
    } else if c == '!' {
        if next_is(chars, p, '=') {
            *pos = p + 2;
            Token::new(Type::Operator(Operator::NotEquals))
        } else {
            Token::new(Type::Operator(Operator::Bang))
        }
    } else if c == '>' {
        if next_is(chars, p, '=') {
            *pos = p + 2;
            Token::new(Type::Operator(Operator::GreaterEqual))
        } else {
            Token::new(Type::Operator(Operator::Greater))
        }
    } else if c == '<' {
        if next_is(chars, p, '=') {
            *pos = p + 2;
            Token::new(Type::Operator(Operator::LessEqual))
        } else {
            Token::new(Type::Operator(Operator::Less))
        }
    } else if c == '&' {
        if next_is(chars, p, '&') {
            *pos = p + 2;
            Token::new(Type::Operator(Operator::And))
        } else {
            Token::none()
        }
    } else if c == '|' {
        if next_is(chars, p, '|') {
            *pos = p + 2;
            Token::new(Type::Operator(Operator::Or))
        } else {
            Token::none()
        }
    } else {
        Token::none()
    }
}

fn is_operator_char(c: char) -> (r: bool)
    ensures
        r == is_operator_start(c),
{
    c == '+' || c == '-' || c == '*' || c == '/' || c == '=' || c == '!' || c == '%' || c == '>'
        || c == '<' || c == '&' || c == '|'
}

/// The token of a one-character punctuation mark, if `c` is one.
fn structural(c: char) -> (r: Option<Token>)
    ensures
        r is Some <==> structural_token(c) is Some,
        r is Some ==> r->0@ == structural_token(c)->0,
{
    if c == '(' {
        Some(Token::new(Type::LeftParen))
    } else if c == ')' {
        Some(Token::new(Type::RightParen))
    } else if c == '{' {
        Some(Token::new(Type::LeftBrace))
    } else if c == '}' {
        Some(Token::new(Type::RightBrace))
    } else if c == '.' {
        Some(Token::new(Type::Dot))
    } else if c == ',' {
        Some(Token::new(Type::Comma))
    } else if c == ';' {
        Some(Token::new(Type::Semicolon))
    } else {
        None
    }
}

/// Lexes a whole sequence of characters: dispatches on the character at the cursor, runs
/// the matching scanner, keeps the token it produced (if any), and repeats to the end.
fn lex_helper(chars: &Vec<char>) -> (r: Vec<Token>)
    ensures
        views(r@) == lex_spec(chars@),
{
    let ghost s = chars@;
    let mut tokens: Vec<Token> = Vec::new();
    let mut pos: usize = 0;
    assert(views(tokens@) =~= Seq::<TypeView>::empty());
    while pos < chars.len()
        invariant
            s == chars@,
            pos <= s.len(),
            views(tokens@) + lex_from(s, pos as int) == lex_spec(s),
        decreases s.len() - pos,
    {
        let ghost before = tokens@;
        let ghost p0 = pos as int;
        proof {
            lemma_step_advances(s, p0);
        }
        let c = chars[pos];
        let produced: Option<Token>;
        if c == '"' {
            pos = pos + 1;
            produced = lex_string(chars, &mut pos);
        } else if '0' <= c && c <= '9' {
            produced = Some(lex_number(chars, &mut pos));
        } else if c == '(' || c == ')' || c == '{' || c == '}' || c == '.' || c == ',' || c == ';' {
            pos = pos + 1;
            produced = structural(c);
        } else if is_operator_char(c) {
            let t = lex_operator(chars, &mut pos);
            produced = match t.token_type {
                Type::NoToken => None,
                _ => Some(t),
            };
        } else if is_alphanumeric(c) {
            produced = Some(lex_alphanumeric(chars, &mut pos));
        } else {
            pos = pos + 1;
            produced = None;
        }
        assert(pos as int == step(s, p0).1);
        assert(opt_seq(step(s, p0).0) == (match produced {
            Some(t) => seq![t@],
            None => Seq::<TypeView>::empty(),
        }));
        match produced {
            Some(t) => {
                tokens.push(t);
                assert(views(tokens@) =~= views(before).push(t@));
            },
            None => {},
        }
        assert(lex_from(s, p0) == opt_seq(step(s, p0).0) + lex_from(s, pos as int));
        assert(views(tokens@) == views(before) + opt_seq(step(s, p0).0));
        assert(views(tokens@) + lex_from(s, pos as int) =~= views(before) + lex_from(s, p0));
    }
    assert(lex_from(s, pos as int) =~= Seq::<TypeView>::empty());
    assert(views(tokens@) + lex_from(s, pos as int) =~= views(tokens@));
    tokens
}

/// Lexes `s` into its tokens, in source order. Whitespace and characters that start no
/// token are skipped; an unterminated string literal and a lone `&` or `|` produce nothing.
pub fn lex(s: String) -> (r: Vec<Token>)
    ensures
        views(r@) == lex_spec(s@),
        r@.len() <= s@.len(),
        forall|k: int| 0 <= k < r@.len() ==> r@[k]@ != TypeView::NoToken,
{
    let chars = chars_of(s.as_str());
    let r = lex_helper(&chars);
    proof {
        lemma_lex_well_formed(s@);
        assert forall|k: int| 0 <= k < r@.len() implies r@[k]@ != TypeView::NoToken by {
            assert(views(r@)[k] == r@[k]@);
        }
    }
    r
}

} // verus!
