use spi::lexing::chars::{classify, CharClass};
use spi::lexing::lexer::{LexError, Lexer};
use spi::lexing::source::TokenSource;
use spi::lexing::token::{Keyword, Token};
use spi::reals::Real;

fn float(value: f64) -> Real {
    Real::from_bits(value.to_bits())
}

fn tokens_of(text: &str) -> Vec<Token> {
    let mut lexer = Lexer::new(text);
    let mut tokens = vec![];
    loop {
        let token = lexer.get_next_token().unwrap();
        if token == Token::Eof {
            return tokens;
        }
        tokens.push(token);
    }
}

#[test]
fn lexer_test_lexer() {
    let expected_tokens = vec![
        Token::Keyword(Keyword::Begin),
        Token::Identifier("a".to_string()),
        Token::Assign,
        Token::IntegerConstant(2),
        Token::Semi,
        Token::Identifier("_num".to_string()),
        Token::Assign,
        Token::Identifier("a".to_string()),
        Token::Multiply,
        Token::RealConstant(float(5.0)),
        Token::Semi,
        Token::Keyword(Keyword::End),
        Token::Dot,
    ];

    let mut lexer = Lexer::new("BEGIN a := 2; _num := a * 5.0; END.");
    for expected in expected_tokens {
        let actual = lexer.get_next_token().unwrap();
        assert_eq!(actual, expected);
    }
    assert_eq!(lexer.get_next_token(), Ok(Token::Eof));
}

#[test]
fn empty_text_is_end_of_stream() {
    let mut lexer = Lexer::new("");
    assert_eq!(lexer.get_next_token(), Ok(Token::Eof));
    assert_eq!(lexer.get_next_token(), Ok(Token::Eof));
}

#[test]
fn end_of_stream_repeats_after_trailing_blanks() {
    let mut lexer = Lexer::new("1 \n\t {done} ");
    assert_eq!(lexer.get_next_token(), Ok(Token::IntegerConstant(1)));
    assert_eq!(lexer.get_next_token(), Ok(Token::Eof));
    assert_eq!(lexer.get_next_token(), Ok(Token::Eof));
    assert_eq!(lexer.next_token(), Ok(Token::Eof));
}

#[test]
fn operators_and_punctuation() {
    assert_eq!(
        tokens_of("+ - * / ( ) ; : , . :="),
        vec![
            Token::Plus,
            Token::Minus,
            Token::Multiply,
            Token::RealDivision,
            Token::ParenthesisStart,
            Token::ParenthesisEnd,
            Token::Semi,
            Token::Colon,
            Token::Comma,
            Token::Dot,
            Token::Assign,
        ]
    );
}

#[test]
fn colon_without_equals_is_a_colon() {
    assert_eq!(
        tokens_of("a:b:=c:"),
        vec![
            Token::Identifier("a".to_string()),
            Token::Colon,
            Token::Identifier("b".to_string()),
            Token::Assign,
            Token::Identifier("c".to_string()),
            Token::Colon,
        ]
    );
    let mut lexer = Lexer::new("a : =");
    assert_eq!(lexer.get_next_token(), Ok(Token::Identifier("a".to_string())));
    assert_eq!(lexer.get_next_token(), Ok(Token::Colon));
    assert_eq!(
        lexer.get_next_token(),
        Err(LexError::UnexpectedCharacter('='))
    );
}

#[test]
fn comments_are_skipped_whole() {
    assert_eq!(
        tokens_of("{first} 1 {second { still second} + {third}2"),
        vec![
            Token::IntegerConstant(1),
            Token::Plus,
            Token::IntegerConstant(2),
        ]
    );
}

#[test]
fn unterminated_comment_is_an_error() {
    let mut lexer = Lexer::new("1 { never closed");
    assert_eq!(lexer.get_next_token(), Ok(Token::IntegerConstant(1)));
    assert_eq!(lexer.get_next_token(), Err(LexError::UnterminatedComment));
    assert_eq!(lexer.get_next_token(), Err(LexError::UnterminatedComment));
}

#[test]
fn unexpected_character_is_named() {
    let mut lexer = Lexer::new("a $ b");
    assert_eq!(lexer.get_next_token(), Ok(Token::Identifier("a".to_string())));
    assert_eq!(
        lexer.get_next_token(),
        Err(LexError::UnexpectedCharacter('$'))
    );
    assert_eq!(
        lexer.get_next_token(),
        Err(LexError::UnexpectedCharacter('$'))
    );
}

#[test]
fn integer_and_real_constants() {
    assert_eq!(
        tokens_of("0 007 42 3.14 10.0 2147483647"),
        vec![
            Token::IntegerConstant(0),
            Token::IntegerConstant(7),
            Token::IntegerConstant(42),
            Token::RealConstant(float(3.14)),
            Token::RealConstant(float(10.0)),
            Token::IntegerConstant(2147483647),
        ]
    );
}

#[test]
fn a_dot_without_digits_after_it_is_not_part_of_the_number() {
    assert_eq!(
        tokens_of("5. 6.x 7.8.9"),
        vec![
            Token::IntegerConstant(5),
            Token::Dot,
            Token::IntegerConstant(6),
            Token::Dot,
            Token::Identifier("x".to_string()),
            Token::RealConstant(float(7.8)),
            Token::Dot,
            Token::IntegerConstant(9),
        ]
    );
}

#[test]
fn integer_above_the_largest_is_invalid() {
    let mut lexer = Lexer::new("2147483648");
    assert_eq!(lexer.get_next_token(), Err(LexError::InvalidNumber));
    let mut lexer = Lexer::new("99999999999999999999999999");
    assert_eq!(lexer.get_next_token(), Err(LexError::InvalidNumber));
}

#[test]
fn numerals_of_other_scripts_are_invalid() {
    let mut lexer = Lexer::new("1\u{0663}");
    assert_eq!(lexer.get_next_token(), Err(LexError::InvalidNumber));
    let mut lexer = Lexer::new("1.\u{0663}");
    assert_eq!(lexer.get_next_token(), Err(LexError::InvalidNumber));
}

#[test]
fn identifiers_keep_their_case_and_may_hold_underscores_and_digits() {
    assert_eq!(
        tokens_of("Number _x my_var2 __ \u{e9}t\u{e9}"),
        vec![
            Token::Identifier("Number".to_string()),
            Token::Identifier("_x".to_string()),
            Token::Identifier("my_var2".to_string()),
            Token::Identifier("__".to_string()),
            Token::Identifier("\u{e9}t\u{e9}".to_string()),
        ]
    );
}

#[test]
fn keywords_in_any_case() {
    assert_eq!(
        tokens_of("DIV div Div dIV"),
        vec![
            Token::Keyword(Keyword::IntegerDiv),
            Token::Keyword(Keyword::IntegerDiv),
            Token::Keyword(Keyword::IntegerDiv),
            Token::Keyword(Keyword::IntegerDiv),
        ]
    );
    assert_eq!(
        tokens_of("program VAR Begin eNd integer REAL Procedure"),
        vec![
            Token::Keyword(Keyword::Program),
            Token::Keyword(Keyword::Var),
            Token::Keyword(Keyword::Begin),
            Token::Keyword(Keyword::End),
            Token::Keyword(Keyword::Integer),
            Token::Keyword(Keyword::Real),
            Token::Keyword(Keyword::Procedure),
        ]
    );
}

#[test]
fn keyword_from_str() {
    assert_eq!(Keyword::from_str("BEGIN"), Some(Keyword::Begin));
    assert_eq!(Keyword::from_str("end"), Some(Keyword::End));
    assert_eq!(Keyword::from_str("Div"), Some(Keyword::IntegerDiv));
    assert_eq!(Keyword::from_str("IntegerDiv"), None);
    assert_eq!(Keyword::from_str("begins"), None);
    assert_eq!(Keyword::from_str(""), None);
    assert_eq!(Keyword::from_str("re\u{e1}l"), None);
}

#[test]
fn token_same_and_duplicate() {
    let name = Token::Identifier("abc".to_string());
    assert!(name.same(&name.duplicate()));
    assert_eq!(name.duplicate(), name);
    assert!(!name.same(&Token::Identifier("Abc".to_string())));
    assert!(Token::IntegerConstant(3).same(&Token::IntegerConstant(3)));
    assert!(!Token::IntegerConstant(3).same(&Token::IntegerConstant(4)));
    assert!(!Token::Plus.same(&Token::Minus));
    assert!(Token::RealConstant(float(1.5)).same(&Token::RealConstant(float(1.5))));
    assert!(Token::Keyword(Keyword::Var).same(&Token::Keyword(Keyword::Var)));
    assert!(!Token::Keyword(Keyword::Var).same(&Token::Keyword(Keyword::End)));
}

#[test]
fn a_lexer_with_given_classes() {
    let text: Vec<char> = "x1 := 2.5".chars().collect();
    let classes: Vec<CharClass> = text.iter().map(|c| classify(*c)).collect();
    let mut lexer = Lexer::with_classes(text, classes).unwrap();
    assert_eq!(lexer.get_next_token(), Ok(Token::Identifier("x1".to_string())));
    assert_eq!(lexer.get_next_token(), Ok(Token::Assign));
    assert_eq!(lexer.get_next_token(), Ok(Token::RealConstant(float(2.5))));
    assert_eq!(lexer.get_next_token(), Ok(Token::Eof));
    assert!(Lexer::with_classes(vec!['a', 'b'], vec![classify('a')]).is_none());
    assert!(Lexer::with_classes(vec![], vec![]).is_some());
}

#[test]
fn the_classes_decide_what_a_character_starts() {
    let letter = CharClass {
        whitespace: false,
        alphabetic: true,
        numeric: false,
    };
    let blank = CharClass {
        whitespace: true,
        alphabetic: false,
        numeric: false,
    };
    let other = CharClass {
        whitespace: false,
        alphabetic: false,
        numeric: false,
    };
    let mut lexer = Lexer::with_classes(vec!['a', '#', 'b'], vec![letter, blank, letter]).unwrap();
    assert_eq!(lexer.get_next_token(), Ok(Token::Identifier("a".to_string())));
    assert_eq!(lexer.get_next_token(), Ok(Token::Identifier("b".to_string())));
    assert_eq!(lexer.get_next_token(), Ok(Token::Eof));
    let mut lexer = Lexer::with_classes(vec!['a', 'b'], vec![other, letter]).unwrap();
    assert_eq!(
        lexer.get_next_token(),
        Err(LexError::UnexpectedCharacter('a'))
    );
}

#[test]
fn characters_are_classified_as_the_standard_library_does() {
    for c in [' ', '\t', '\n', 'a', 'Z', '_', '0', '9', '+', '{', '\u{e9}', '\u{0663}', '\u{3000}'] {
        let class = classify(c);
        assert_eq!(class.whitespace, c.is_whitespace());
        assert_eq!(class.alphabetic, c.is_alphabetic());
        assert_eq!(class.numeric, c.is_numeric());
    }
    assert!(classify(' ').whitespace);
    assert!(classify('x').alphabetic);
    assert!(classify('7').numeric);
    assert!(!classify('7').alphabetic);
}
