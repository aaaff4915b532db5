use skyd::data::Lit;
use skyd::error::LexError;
use skyd::ql::lex::{lex, lex_insecure, lex_secure, Keyword, Symbol, Token};

fn ident(s: &str) -> Token<'_> {
    Token::Ident(s.as_bytes())
}

#[test]
fn lex_keywords_in_any_case() {
    let tokens = lex_insecure(b"use USE Create aLtEr drop model space").unwrap();
    assert_eq!(
        tokens,
        vec![
            Token::Keyword(Keyword::Use),
            Token::Keyword(Keyword::Use),
            Token::Keyword(Keyword::Create),
            Token::Keyword(Keyword::Alter),
            Token::Keyword(Keyword::Drop),
            Token::Keyword(Keyword::Model),
            Token::Keyword(Keyword::Space),
        ]
    );
}

#[test]
fn lex_all_keywords() {
    let tokens = lex_insecure(
        b"insert into select from where update set delete and with add remove",
    )
    .unwrap();
    assert_eq!(
        tokens,
        vec![
            Token::Keyword(Keyword::Insert),
            Token::Keyword(Keyword::Into),
            Token::Keyword(Keyword::Select),
            Token::Keyword(Keyword::From),
            Token::Keyword(Keyword::Where),
            Token::Keyword(Keyword::Update),
            Token::Keyword(Keyword::SetTo),
            Token::Keyword(Keyword::Delete),
            Token::Keyword(Keyword::And),
            Token::Keyword(Keyword::With),
            Token::Keyword(Keyword::Add),
            Token::Keyword(Keyword::Remove),
        ]
    );
}

#[test]
fn lex_identifiers_byte_for_byte() {
    let tokens = lex_insecure(b"MySpace _x a1_B2 force Inspect").unwrap();
    assert_eq!(
        tokens,
        vec![ident("MySpace"), ident("_x"), ident("a1_B2"), ident("force"), ident("Inspect")]
    );
}

#[test]
fn lex_qualified_name_is_two_identifiers() {
    let tokens = lex_insecure(b"use space.model").unwrap();
    assert_eq!(
        tokens,
        vec![
            Token::Keyword(Keyword::Use),
            ident("space"),
            Token::Symbol(Symbol::SymPeriod),
            ident("model"),
        ]
    );
}

#[test]
fn lex_symbols() {
    let tokens = lex_insecure(b". , ( ) [ ] { } ; * = < > <= >= != ?").unwrap();
    assert_eq!(
        tokens,
        vec![
            Token::Symbol(Symbol::SymPeriod),
            Token::Symbol(Symbol::SymComma),
            Token::Symbol(Symbol::SymOpenParen),
            Token::Symbol(Symbol::SymCloseParen),
            Token::Symbol(Symbol::SymOpenBracket),
            Token::Symbol(Symbol::SymCloseBracket),
            Token::Symbol(Symbol::SymOpenBrace),
            Token::Symbol(Symbol::SymCloseBrace),
            Token::Symbol(Symbol::SymSemicolon),
            Token::Symbol(Symbol::SymAsterisk),
            Token::Symbol(Symbol::OpEq),
            Token::Symbol(Symbol::OpLt),
            Token::Symbol(Symbol::OpGt),
            Token::Symbol(Symbol::OpLe),
            Token::Symbol(Symbol::OpGe),
            Token::Symbol(Symbol::OpNe),
            Token::Placeholder,
        ]
    );
}

#[test]
fn lex_symbols_without_spaces() {
    let tokens = lex_insecure(b"a<=1,b>2").unwrap();
    assert_eq!(
        tokens,
        vec![
            ident("a"),
            Token::Symbol(Symbol::OpLe),
            Token::Lit(Lit::UnsignedInt(1)),
            Token::Symbol(Symbol::SymComma),
            ident("b"),
            Token::Symbol(Symbol::OpGt),
            Token::Lit(Lit::UnsignedInt(2)),
        ]
    );
}

#[test]
fn lex_whitespace_separates() {
    let tokens = lex_insecure(b" \tuse\n x \n").unwrap();
    assert_eq!(tokens, vec![Token::Keyword(Keyword::Use), ident("x")]);
    assert_eq!(lex_insecure(b"").unwrap(), vec![]);
    assert_eq!(lex_insecure(b"  \n\t ").unwrap(), vec![]);
}

#[test]
fn lex_carriage_return_is_ignorable_comma() {
    let tokens = lex_insecure(b"(1\r)").unwrap();
    assert_eq!(
        tokens,
        vec![
            Token::Symbol(Symbol::SymOpenParen),
            Token::Lit(Lit::UnsignedInt(1)),
            Token::IgnorableComma,
            Token::Symbol(Symbol::SymCloseParen),
        ]
    );
}

#[test]
fn lex_decimal_integers() {
    assert_eq!(lex_insecure(b"0").unwrap(), vec![Token::Lit(Lit::UnsignedInt(0))]);
    assert_eq!(lex_insecure(b"1234").unwrap(), vec![Token::Lit(Lit::UnsignedInt(1234))]);
    assert_eq!(lex_insecure(b"007").unwrap(), vec![Token::Lit(Lit::UnsignedInt(7))]);
    assert_eq!(
        lex_insecure(b"18446744073709551615").unwrap(),
        vec![Token::Lit(Lit::UnsignedInt(u64::MAX))]
    );
}

#[test]
fn lex_hexadecimal_integers() {
    assert_eq!(lex_insecure(b"0xff").unwrap(), vec![Token::Lit(Lit::UnsignedInt(255))]);
    assert_eq!(lex_insecure(b"0XAb").unwrap(), vec![Token::Lit(Lit::UnsignedInt(171))]);
    assert_eq!(lex_insecure(b"0x10").unwrap(), vec![Token::Lit(Lit::UnsignedInt(16))]);
    assert_eq!(
        lex_insecure(b"0xffffffffffffffff").unwrap(),
        vec![Token::Lit(Lit::UnsignedInt(u64::MAX))]
    );
}

#[test]
fn lex_signed_integers() {
    assert_eq!(lex_insecure(b"-1").unwrap(), vec![Token::Lit(Lit::SignedInt(-1))]);
    assert_eq!(lex_insecure(b"-0").unwrap(), vec![Token::Lit(Lit::SignedInt(0))]);
    assert_eq!(
        lex_insecure(b"-9223372036854775808").unwrap(),
        vec![Token::Lit(Lit::SignedInt(i64::MIN))]
    );
    assert_eq!(
        lex_insecure(b"-9223372036854775807").unwrap(),
        vec![Token::Lit(Lit::SignedInt(-9223372036854775807))]
    );
}

#[test]
fn lex_bad_numbers() {
    assert_eq!(lex_insecure(b"18446744073709551616"), Err(LexError::BadNumber(0)));
    assert_eq!(lex_insecure(b"0x10000000000000000"), Err(LexError::BadNumber(0)));
    assert_eq!(lex_insecure(b"-9223372036854775809"), Err(LexError::BadNumber(0)));
    assert_eq!(lex_insecure(b"x 12ab"), Err(LexError::BadNumber(2)));
    assert_eq!(lex_insecure(b"0x"), Err(LexError::BadNumber(0)));
    assert_eq!(lex_insecure(b"0xg"), Err(LexError::BadNumber(0)));
    assert_eq!(lex_insecure(b"  -5_"), Err(LexError::BadNumber(2)));
}

#[test]
fn lex_strings() {
    assert_eq!(
        lex_insecure(b"'hello'").unwrap(),
        vec![Token::Lit(Lit::Str(b"hello".to_vec()))]
    );
    assert_eq!(lex_insecure(b"''").unwrap(), vec![Token::Lit(Lit::Str(vec![]))]);
    assert_eq!(
        lex_insecure(b"'it''s'").unwrap(),
        vec![Token::Lit(Lit::Str(b"it's".to_vec()))]
    );
    assert_eq!(
        lex_insecure(b"''''").unwrap(),
        vec![Token::Lit(Lit::Str(b"'".to_vec()))]
    );
    assert_eq!(
        lex_insecure(b"'a b' 'c'").unwrap(),
        vec![Token::Lit(Lit::Str(b"a b".to_vec())), Token::Lit(Lit::Str(b"c".to_vec()))]
    );
}

#[test]
fn lex_binary() {
    assert_eq!(
        lex_insecure(b"b'\x00\xff'").unwrap(),
        vec![Token::Lit(Lit::Bin(vec![0, 255]))]
    );
    assert_eq!(lex_insecure(b"b").unwrap(), vec![ident("b")]);
    assert_eq!(lex_insecure(b"bc").unwrap(), vec![ident("bc")]);
}

#[test]
fn lex_unterminated_string() {
    assert_eq!(lex_insecure(b"'hello"), Err(LexError::UnterminatedString(0)));
    assert_eq!(lex_insecure(b"x 'it''"), Err(LexError::UnterminatedString(2)));
    assert_eq!(lex_insecure(b"  b'ab"), Err(LexError::UnterminatedString(2)));
}

#[test]
fn lex_bool_and_null() {
    assert_eq!(
        lex_insecure(b"true False NULL").unwrap(),
        vec![Token::Lit(Lit::Bool(true)), Token::Lit(Lit::Bool(false)), Token::Lit(Lit::Null)]
    );
}

#[test]
fn lex_unknown_token() {
    assert_eq!(lex_insecure(b"a ! b"), Err(LexError::UnknownToken(2)));
    assert_eq!(lex_insecure(b"- 1"), Err(LexError::UnknownToken(0)));
    assert_eq!(lex_insecure(b"x -"), Err(LexError::UnknownToken(2)));
}

#[test]
fn lex_unexpected_byte() {
    assert_eq!(lex_insecure(b"use @x"), Err(LexError::UnexpectedByte(4)));
    assert_eq!(lex_insecure(b"#"), Err(LexError::UnexpectedByte(0)));
    assert_eq!(lex_insecure(b"\xc3\xa9"), Err(LexError::UnexpectedByte(0)));
    assert_eq!(lex_secure(b"a \"b\""), Err(LexError::UnexpectedByte(2)));
}

#[test]
fn safe_lexer_rejects_string_literal() {
    assert_eq!(
        lex_secure(b"insert into foo ('hello')"),
        Err(LexError::LiteralNotAllowed(17))
    );
}

#[test]
fn safe_lexer_rejects_every_literal() {
    assert_eq!(lex_secure(b"x = 1"), Err(LexError::LiteralNotAllowed(4)));
    assert_eq!(lex_secure(b"x = -1"), Err(LexError::LiteralNotAllowed(4)));
    assert_eq!(lex_secure(b"x = true"), Err(LexError::LiteralNotAllowed(4)));
    assert_eq!(lex_secure(b"x = false"), Err(LexError::LiteralNotAllowed(4)));
    assert_eq!(lex_secure(b"x = null"), Err(LexError::LiteralNotAllowed(4)));
    assert_eq!(lex_secure(b"x = b'a'"), Err(LexError::LiteralNotAllowed(4)));
    assert_eq!(lex_secure(b"x = 'unterminated"), Err(LexError::LiteralNotAllowed(4)));
    assert_eq!(lex_secure(b"x = 12ab"), Err(LexError::LiteralNotAllowed(4)));
}

#[test]
fn safe_lexer_takes_placeholders() {
    let tokens = lex_secure(b"insert into foo (?, ?)").unwrap();
    assert_eq!(
        tokens,
        vec![
            Token::Keyword(Keyword::Insert),
            Token::Keyword(Keyword::Into),
            ident("foo"),
            Token::Symbol(Symbol::SymOpenParen),
            Token::Placeholder,
            Token::Symbol(Symbol::SymComma),
            Token::Placeholder,
            Token::Symbol(Symbol::SymCloseParen),
        ]
    );
}

#[test]
fn both_modes_agree_without_literals() {
    let src = b"select a, b from s.m where x >= ? and y != ?";
    assert_eq!(lex(src, true).unwrap(), lex(src, false).unwrap());
    assert_eq!(lex_secure(src).unwrap(), lex_insecure(src).unwrap());
}

#[test]
fn token_equality_and_clone() {
    let a = Token::Lit(Lit::Str(b"x".to_vec()));
    let b = a.clone();
    assert_eq!(a, b);
    assert_ne!(a, Token::Lit(Lit::Bin(b"x".to_vec())));
    assert_ne!(ident("x"), ident("X"));
    assert!(ident("x").is_ident());
    assert!(!ident("x").is_lit());
    assert!(a.is_lit());
}
