use lexer::{lex, Keyword, Operator, Token, Type};

fn toks(types: Vec<Type>) -> Vec<Token> {
    types.into_iter().map(Token::new).collect()
}

fn op(o: Operator) -> Type {
    Type::Operator(o)
}

#[test]
fn test() {
    assert_eq!(
        lex("\"meow\"".to_string()),
        vec![Token::new(Type::String("meow".to_string()))]
    );
    assert_eq!(
        lex("\"meow meow\"".to_string()),
        vec![Token::new(Type::String("meow meow".to_string()))]
    );
    assert_eq!(lex("311".to_string()), vec![Token::new(Type::Number(311))]);
    assert_eq!(
        lex("ident".to_string()),
        vec![Token::new(Type::Identifier("ident".to_string()))]
    );
    assert_eq!(
        lex("empty()".to_string()),
        vec![
            Token::new(Type::Identifier("empty".to_string())),
            Token::new(Type::LeftParen),
            Token::new(Type::RightParen)
        ]
    );
    assert_eq!(
        lex("1 + 1 == 5".to_string()),
        vec![
            Token::new(Type::Number(1)),
            Token::new(Type::Operator(Operator::Plus)),
            Token::new(Type::Number(1)),
            Token::new(Type::Operator(Operator::DoubleEquals)),
            Token::new(Type::Number(5))
        ]
    );
    assert_eq!(
        lex("define x = 5".to_string()),
        vec![
            Token::new(Type::Keyword(Keyword::Define)),
            Token::new(Type::Identifier("x".to_string())),
            Token::new(Type::Operator(Operator::Equals)),
            Token::new(Type::Number(5))
        ]
    );
    assert_eq!(
        lex("true".to_string()),
        vec![Token::new(Type::Keyword(Keyword::True))]
    );
    assert_eq!(
        lex("if true".to_string()),
        vec![
            Token::new(Type::Keyword(Keyword::If)),
            Token::new(Type::Keyword(Keyword::True)),
        ]
    );
    assert_eq!(
        lex("if 4 == 4".to_string()),
        vec![
            Token::new(Type::Keyword(Keyword::If)),
            Token::new(Type::Number(4)),
            Token::new(Type::Operator(Operator::DoubleEquals)),
            Token::new(Type::Number(4))
        ]
    );
    assert_eq!(
        lex("if 4 == 5".to_string()),
        vec![
            Token::new(Type::Keyword(Keyword::If)),
            Token::new(Type::Number(4)),
            Token::new(Type::Operator(Operator::DoubleEquals)),
            Token::new(Type::Number(5))
        ]
    );
}

#[test]
fn whitespace_only_gives_nothing() {
    assert_eq!(lex("".to_string()), vec![]);
    assert_eq!(lex("   \t\n\r  \u{0B}\u{0C}".to_string()), vec![]);
}

#[test]
fn digit_runs_give_one_number() {
    assert_eq!(lex("0".to_string()), toks(vec![Type::Number(0)]));
    assert_eq!(lex("007".to_string()), toks(vec![Type::Number(7)]));
    assert_eq!(lex("2147483647".to_string()), toks(vec![Type::Number(i32::MAX)]));
}

#[test]
fn number_beyond_i32_wraps() {
    assert_eq!(lex("2147483648".to_string()), toks(vec![Type::Number(i32::MIN)]));
    assert_eq!(lex("4294967297".to_string()), toks(vec![Type::Number(1)]));
}

#[test]
fn number_stops_at_first_non_digit() {
    assert_eq!(
        lex("12abc".to_string()),
        toks(vec![Type::Number(12), Type::Identifier("abc".to_string())])
    );
}

#[test]
fn words_that_are_not_keywords_are_identifiers() {
    assert_eq!(lex("abc123".to_string()), toks(vec![Type::Identifier("abc123".to_string())]));
    assert_eq!(lex("Define".to_string()), toks(vec![Type::Identifier("Define".to_string())]));
    assert_eq!(lex("iffy".to_string()), toks(vec![Type::Identifier("iffy".to_string())]));
}

#[test]
fn non_ascii_letters_are_alphanumeric() {
    assert_eq!(lex("é1".to_string()), toks(vec![Type::Identifier("é1".to_string())]));
    assert_eq!(lex("日本".to_string()), toks(vec![Type::Identifier("日本".to_string())]));
}

#[test]
fn every_keyword_is_recognised() {
    assert_eq!(
        lex("define true false if null".to_string()),
        toks(vec![
            Type::Keyword(Keyword::Define),
            Type::Keyword(Keyword::True),
            Type::Keyword(Keyword::False),
            Type::Keyword(Keyword::If),
            Type::Keyword(Keyword::Null),
        ])
    );
}

#[test]
fn keyword_from_str() {
    assert_eq!(Keyword::from_str("define".to_string()), Keyword::Define);
    assert_eq!(Keyword::from_str("true".to_string()), Keyword::True);
    assert_eq!(Keyword::from_str("false".to_string()), Keyword::False);
    assert_eq!(Keyword::from_str("if".to_string()), Keyword::If);
    assert_eq!(Keyword::from_str("null".to_string()), Keyword::Null);
    assert_eq!(Keyword::from_str("NULL".to_string()), Keyword::NotReserved);
    assert_eq!(Keyword::from_str("".to_string()), Keyword::NotReserved);
    assert_eq!(Keyword::from_str("x".to_string()), Keyword::NotReserved);
}

#[test]
fn each_operator_text_lexes_to_itself() {
    let cases = vec![
        ("+", Operator::Plus),
        ("-", Operator::Minus),
        ("*", Operator::Star),
        ("/", Operator::Slash),
        ("=", Operator::Equals),
        ("==", Operator::DoubleEquals),
        ("!=", Operator::NotEquals),
        ("!", Operator::Bang),
        ("%", Operator::Mod),
        (">", Operator::Greater),
        ("<", Operator::Less),
        (">=", Operator::GreaterEqual),
        ("<=", Operator::LessEqual),
        ("&&", Operator::And),
        ("||", Operator::Or),
    ];
    for (text, o) in cases {
        assert_eq!(lex(text.to_string()), toks(vec![op(o)]), "{}", text);
    }
}

#[test]
fn equals_followed_by_other_character() {
    assert_eq!(
        lex("=a".to_string()),
        toks(vec![op(Operator::Equals), Type::Identifier("a".to_string())])
    );
    assert_eq!(lex("=(".to_string()), toks(vec![op(Operator::Equals), Type::LeftParen]));
    assert_eq!(lex("= =".to_string()), toks(vec![op(Operator::Equals), op(Operator::Equals)]));
    assert_eq!(
        lex("===".to_string()),
        toks(vec![op(Operator::DoubleEquals), op(Operator::Equals)])
    );
}

#[test]
fn lone_ampersand_and_bar_give_nothing() {
    assert_eq!(lex("&&".to_string()), toks(vec![op(Operator::And)]));
    assert_eq!(lex("&".to_string()), vec![]);
    assert_eq!(lex("|".to_string()), vec![]);
    assert_eq!(lex("& x".to_string()), toks(vec![Type::Identifier("x".to_string())]));
    assert_eq!(lex("|y".to_string()), toks(vec![Type::Identifier("y".to_string())]));
    assert_eq!(lex("&&&".to_string()), toks(vec![op(Operator::And)]));
}

#[test]
fn comparison_operators_in_sequence() {
    assert_eq!(
        lex("a>=b<=c!=d!e<f>g".to_string()),
        toks(vec![
            Type::Identifier("a".to_string()),
            op(Operator::GreaterEqual),
            Type::Identifier("b".to_string()),
            op(Operator::LessEqual),
            Type::Identifier("c".to_string()),
            op(Operator::NotEquals),
            Type::Identifier("d".to_string()),
            op(Operator::Bang),
            Type::Identifier("e".to_string()),
            op(Operator::Less),
            Type::Identifier("f".to_string()),
            op(Operator::Greater),
            Type::Identifier("g".to_string()),
        ])
    );
}

#[test]
fn unterminated_string_gives_nothing() {
    assert_eq!(lex("\"meow".to_string()), vec![]);
    assert_eq!(lex("\"".to_string()), vec![]);
}

#[test]
fn newline_ends_a_string_without_a_token() {
    assert_eq!(
        lex("\"ab\ncd\"".to_string()),
        toks(vec![Type::Identifier("cd".to_string())])
    );
}

#[test]
fn string_keeps_text_verbatim() {
    assert_eq!(lex("\"\"".to_string()), toks(vec![Type::String("".to_string())]));
    assert_eq!(
        lex("\"a\\tb (1+2)\"".to_string()),
        toks(vec![Type::String("a\\tb (1+2)".to_string())])
    );
}

#[test]
fn punctuation_marks() {
    assert_eq!(
        lex("(){}.,;".to_string()),
        toks(vec![
            Type::LeftParen,
            Type::RightParen,
            Type::LeftBrace,
            Type::RightBrace,
            Type::Dot,
            Type::Comma,
            Type::Semicolon,
        ])
    );
}

#[test]
fn unknown_characters_are_skipped() {
    assert_eq!(lex("@#$ ~`".to_string()), vec![]);
    assert_eq!(lex("x@y".to_string()), toks(vec![
        Type::Identifier("x".to_string()),
        Type::Identifier("y".to_string()),
    ]));
}

#[test]
fn token_constructors() {
    assert_eq!(Token::new(Type::Dot).token_type, Type::Dot);
    assert_eq!(Token::none().token_type, Type::NoToken);
}

#[test]
fn output_never_holds_the_sentinel() {
    let out = lex("a & b | c && \"x\n 1 ! @".to_string());
    assert!(out.iter().all(|t| t.token_type != Type::NoToken));
    assert_eq!(
        out,
        toks(vec![
            Type::Identifier("a".to_string()),
            Type::Identifier("b".to_string()),
            Type::Identifier("c".to_string()),
            op(Operator::And),
            Type::Number(1),
            op(Operator::Bang),
        ])
    );
}
