use apollo_parser::lexer::{Lexer, LexerIterator};
use apollo_parser::{Token, TokenKind};

fn kinds(input: &str) -> Vec<TokenKind> {
    Lexer::new(input).tokens().iter().map(|t| t.kind()).collect()
}

fn token(input: &str, i: usize) -> Token {
    Lexer::new(input).tokens()[i].clone()
}

fn errors(input: &str) -> Vec<(String, String, usize)> {
    Lexer::new(input)
        .errors()
        .iter()
        .map(|e| (e.message().to_string(), e.data().to_string(), e.index()))
        .collect()
}

#[test]
fn the_end_of_input_comes_last() {
    let lexer = Lexer::new("");
    assert_eq!(lexer.tokens().len(), 1);
    assert_eq!(lexer.tokens()[0].kind(), TokenKind::Eof);
    assert_eq!(lexer.tokens()[0].data(), "");
    assert_eq!(lexer.tokens()[0].index(), 0);
    let input = "a é";
    let lexer = Lexer::new(input);
    let last = lexer.tokens().last().unwrap();
    assert_eq!(last.kind(), TokenKind::Eof);
    assert_eq!(last.index(), input.len());
    assert_eq!(last.index(), 4);
}

#[test]
fn punctuators() {
    assert_eq!(
        kinds("!$()...:=@[]{}|"),
        vec![
            TokenKind::Bang,
            TokenKind::Dollar,
            TokenKind::LParen,
            TokenKind::RParen,
            TokenKind::Spread,
            TokenKind::Colon,
            TokenKind::Equal,
            TokenKind::At,
            TokenKind::LBracket,
            TokenKind::RBracket,
            TokenKind::LBrace,
            TokenKind::RBrace,
            TokenKind::Pipe,
            TokenKind::Eof,
        ]
    );
}

#[test]
fn whitespace_is_one_token_per_run() {
    let input = " \t\r\n a";
    assert_eq!(kinds(input), vec![TokenKind::Whitespace, TokenKind::Name, TokenKind::Eof]);
    assert_eq!(token(input, 0).data(), " \t\r\n ");
    assert_eq!(token(input, 1).index(), 5);
}

#[test]
fn commas_are_one_token_each() {
    assert_eq!(
        kinds(",, ,"),
        vec![
            TokenKind::Comma,
            TokenKind::Comma,
            TokenKind::Whitespace,
            TokenKind::Comma,
            TokenKind::Eof
        ]
    );
}

#[test]
fn comments_end_before_the_line_break() {
    let input = "# one\n#two\r#";
    assert_eq!(
        kinds(input),
        vec![
            TokenKind::Comment,
            TokenKind::Whitespace,
            TokenKind::Comment,
            TokenKind::Whitespace,
            TokenKind::Comment,
            TokenKind::Eof
        ]
    );
    assert_eq!(token(input, 0).data(), "# one");
    assert_eq!(token(input, 2).data(), "#two");
    assert_eq!(token(input, 4).data(), "#");
}

#[test]
fn names() {
    let input = "_a1 B_2 query";
    assert_eq!(
        kinds(input),
        vec![
            TokenKind::Name,
            TokenKind::Whitespace,
            TokenKind::Name,
            TokenKind::Whitespace,
            TokenKind::Name,
            TokenKind::Eof
        ]
    );
    assert_eq!(token(input, 0).data(), "_a1");
    assert_eq!(token(input, 2).data(), "B_2");
    assert_eq!(token(input, 4).data(), "query");
    assert_eq!(token(input, 4).index(), 8);
}

#[test]
fn numbers() {
    for int in ["0", "-0", "7", "-12", "1234567890"] {
        assert_eq!(kinds(int), vec![TokenKind::Int, TokenKind::Eof], "{}", int);
        assert_eq!(token(int, 0).data(), int);
    }
    for float in ["0.0", "-1.5", "1e5", "1E5", "1e+5", "1e-5", "6.02e23", "-0.1E-10"] {
        assert_eq!(kinds(float), vec![TokenKind::Float, TokenKind::Eof], "{}", float);
        assert_eq!(token(float, 0).data(), float);
        assert!(errors(float).is_empty());
    }
    // the longest match wins
    assert_eq!(kinds("12ab"), vec![TokenKind::Int, TokenKind::Name, TokenKind::Eof]);
    assert_eq!(token("12ab", 1).data(), "ab");
}

#[test]
fn malformed_numbers() {
    let malformed = "malformed number".to_string();
    assert_eq!(errors("01"), vec![(malformed.clone(), "01".to_string(), 0)]);
    assert_eq!(kinds("01"), vec![TokenKind::Eof]);
    assert_eq!(errors("1."), vec![(malformed.clone(), "1.".to_string(), 0)]);
    assert_eq!(errors("1e"), vec![(malformed.clone(), "1e".to_string(), 0)]);
    assert_eq!(errors("1e+"), vec![(malformed.clone(), "1e+".to_string(), 0)]);
    assert_eq!(errors(" -"), vec![(malformed.clone(), "-".to_string(), 1)]);
    assert_eq!(errors("-a"), vec![(malformed.clone(), "-".to_string(), 0)]);
    assert_eq!(kinds("-a"), vec![TokenKind::Name, TokenKind::Eof]);
    assert_eq!(errors("007.5"), vec![(malformed.clone(), "007.5".to_string(), 0)]);
    assert_eq!(errors("1.x"), vec![(malformed.clone(), "1.".to_string(), 0)]);
    assert_eq!(kinds("1.x"), vec![TokenKind::Name, TokenKind::Eof]);
}

#[test]
fn strings() {
    for s in [
        "\"\"",
        "\"a b\"",
        "\"\\\" \\\\ \\/ \\b \\f \\n \\r \\t\"",
        "\"\\u00e9\\uD83D\\uDE00\"",
        "\"#{}\"",
    ] {
        assert_eq!(kinds(s), vec![TokenKind::StringValue, TokenKind::Eof], "{}", s);
        assert_eq!(token(s, 0).data(), s);
        assert!(errors(s).is_empty());
    }
}

#[test]
fn block_strings() {
    for s in [
        "\"\"\"\"\"\"",
        "\"\"\"one\ntwo\"\"\"",
        "\"\"\"He said \"hi\".\"\"\"",
        "\"\"\"an escaped \\\"\"\" inside\"\"\"",
        "\"\"\"\\q is no escape here\"\"\"",
    ] {
        assert_eq!(kinds(s), vec![TokenKind::StringValue, TokenKind::Eof], "{}", s);
        assert_eq!(token(s, 0).data(), s);
        assert!(errors(s).is_empty());
    }
    let literal = "\"\"\"He said \"hi\".\"\"\"";
    assert_eq!(token(literal, 0).data().chars().count(), 19);
    // the string ends with the first three quotes
    assert_eq!(
        kinds("\"\"\"a\"\"\"b"),
        vec![TokenKind::StringValue, TokenKind::Name, TokenKind::Eof]
    );
}

#[test]
fn block_string_with_embedded_quotes() {
    let input = "\"\"\"He said \"hi\".\"\"\"";
    let lexer = Lexer::new(input);
    assert_eq!(lexer.errors().len(), 0);
    assert_eq!(lexer.tokens().len(), 2);
    assert_eq!(lexer.tokens()[0].kind(), TokenKind::StringValue);
    assert_eq!(lexer.tokens()[0].data(), input);
    assert_eq!(lexer.tokens()[0].data().len(), 19);
    assert_eq!(lexer.tokens()[0].index(), 0);
    assert_eq!(lexer.tokens()[1].kind(), TokenKind::Eof);
    assert_eq!(lexer.tokens()[1].index(), 19);
}

#[test]
fn unterminated_strings() {
    let message = "unterminated string value".to_string();
    assert_eq!(errors("\"abc"), vec![(message.clone(), "\"abc".to_string(), 0)]);
    assert_eq!(errors("\"abc\ndef"), vec![(message.clone(), "\"abc".to_string(), 0)]);
    assert_eq!(
        kinds("\"abc\ndef"),
        vec![TokenKind::Whitespace, TokenKind::Name, TokenKind::Eof]
    );
    assert_eq!(errors("\"\"\"abc\"\""), vec![(message.clone(), "\"\"\"abc\"\"".to_string(), 0)]);
    assert_eq!(errors("\"a\\\""), vec![(message.clone(), "\"a\\\"".to_string(), 0)]);
    assert_eq!(errors("a \""), vec![(message.clone(), "\"".to_string(), 2)]);
}

#[test]
fn invalid_escapes() {
    let message = "invalid escape sequence in string value".to_string();
    assert_eq!(errors("\"a\\qb\" c"), vec![(message.clone(), "\"a\\qb\"".to_string(), 0)]);
    assert_eq!(kinds("\"a\\qb\" c"), vec![TokenKind::Whitespace, TokenKind::Name, TokenKind::Eof]);
    assert_eq!(errors("\"\\u12G4\""), vec![(message.clone(), "\"\\u12G4\"".to_string(), 0)]);
    assert_eq!(errors("\"\\u12\""), vec![(message.clone(), "\"\\u12\"".to_string(), 0)]);
}

#[test]
fn unexpected_characters() {
    let message = "unexpected character".to_string();
    assert_eq!(errors("&"), vec![(message.clone(), "&".to_string(), 0)]);
    assert_eq!(errors("a ø b"), vec![(message.clone(), "ø".to_string(), 2)]);
    assert_eq!(token("a ø b", 3).data(), "b");
    assert_eq!(token("a ø b", 3).index(), 5);
    assert_eq!(errors("\u{feff}a"), vec![(message.clone(), "\u{feff}".to_string(), 0)]);
    assert_eq!(token("\u{feff}a", 0).index(), 3);
    assert_eq!(errors("😀"), vec![(message.clone(), "😀".to_string(), 0)]);
    assert_eq!(token("😀", 0).index(), 4);
}

#[test]
fn two_dots_are_an_error() {
    let message = "unterminated spread operator, expected `...`".to_string();
    assert_eq!(errors(".."), vec![(message.clone(), "..".to_string(), 0)]);
    assert_eq!(errors(". a"), vec![(message.clone(), ".".to_string(), 0)]);
    assert_eq!(errors("...."), vec![(message.clone(), ".".to_string(), 3)]);
    assert_eq!(kinds("...."), vec![TokenKind::Spread, TokenKind::Eof]);
}

#[test]
fn token_texts_and_error_texts_make_up_the_input() {
    let input = "query ø { a(b: 01, c: \"x\\q\") ..\n # é\n }";
    let lexer = Lexer::new(input);
    let mut pieces: Vec<(usize, String)> = Vec::new();
    for t in lexer.tokens() {
        pieces.push((t.index(), t.data().to_string()));
    }
    for e in lexer.errors() {
        pieces.push((e.index(), e.data().to_string()));
    }
    pieces.sort();
    let mut text = String::new();
    for (index, data) in pieces {
        assert_eq!(index, text.len());
        text.push_str(&data);
    }
    assert_eq!(text, input);
    assert_eq!(lexer.errors().len(), 4);
}

#[test]
fn the_iterator_hands_out_the_same_as_the_lexer() {
    let input = "{ a ø $b 1.5 \"s }";
    let lexer = Lexer::new(input);
    let mut it = LexerIterator::new(input);
    let mut tokens = Vec::new();
    let mut errors = Vec::new();
    while let Some(item) = it.next_lexeme() {
        match item {
            Ok(t) => tokens.push((t.kind(), t.data().to_string(), t.index())),
            Err(e) => errors.push((e.message().to_string(), e.data().to_string(), e.index())),
        }
    }
    assert!(it.next_lexeme().is_none());
    let expected: Vec<(TokenKind, String, usize)> = lexer
        .tokens()
        .iter()
        .map(|t| (t.kind(), t.data().to_string(), t.index()))
        .collect();
    assert_eq!(tokens, expected);
    assert_eq!(errors, self::errors(input));
    assert_eq!(errors.len(), 2);
    assert_eq!(tokens.last().unwrap().0, TokenKind::Eof);
}
