use rlox::number::Decimal;
use rlox::scanner::{
    get_kewords_hashmap, is_aplha, is_aplha_numeric, is_digit, join_messages, ScanError, Scanner,
};
use rlox::token::{LiteralValue, Token, TokenType};

fn scan(src: &str) -> (Vec<Token>, Vec<ScanError>) {
    let mut s = Scanner::new(src);
    s.scan_all()
}

fn kinds(tokens: &[Token]) -> Vec<TokenType> {
    tokens.iter().map(|t| t.token_type).collect()
}

fn number_parts(t: &Token) -> (String, String) {
    match &t.literal {
        Some(LiteralValue::NumberValue(d)) => (d.whole.clone(), d.fraction.clone()),
        other => panic!("not a number literal: {:?}", other),
    }
}

#[test]
fn end_of_input_always_last() {
    for src in ["", "   ", "(", "@#", "\"open", "var x = 1;\n// c", "a\nb\nc"] {
        let (tokens, _) = scan(src);
        assert!(!tokens.is_empty());
        assert_eq!(tokens.last().unwrap().token_type, TokenType::EndOfInput);
        let ends = tokens.iter().filter(|t| t.token_type == TokenType::EndOfInput).count();
        assert_eq!(ends, 1);
    }
}

#[test]
fn empty_source_gives_only_end_of_input() {
    let (tokens, errors) = scan("");
    assert!(errors.is_empty());
    assert_eq!(tokens.len(), 1);
    assert_eq!(tokens[0].lexeme, "");
    assert!(tokens[0].literal.is_none());
    assert_eq!(tokens[0].line_number, 1);
}

#[test]
fn lines_count_newlines_before_token_start() {
    let (tokens, errors) = scan("a\n\nb \"x\ny\" c\n");
    assert!(errors.is_empty());
    assert_eq!(kinds(&tokens), vec![
        TokenType::Identifier,
        TokenType::Identifier,
        TokenType::StringLiteral,
        TokenType::Identifier,
        TokenType::EndOfInput,
    ]);
    let lines: Vec<usize> = tokens.iter().map(|t| t.line_number).collect();
    assert_eq!(lines, vec![1, 3, 3, 4, 5]);
}

#[test]
fn rescanning_gives_same_tokens() {
    let src = "fun f(a) { return a >= 10.5 and \"s\"; } // end\n!x";
    let mut s = Scanner::new(src);
    let first = s.scan_tokens().unwrap();
    let again = s.scan_tokens().unwrap();
    let fresh = Scanner::new(src).scan_tokens().unwrap();
    assert_eq!(first.len(), again.len());
    assert_eq!(first.len(), fresh.len());
    for i in 0..first.len() {
        assert_eq!(first[i].to_string(), again[i].to_string());
        assert_eq!(first[i].to_string(), fresh[i].to_string());
        assert_eq!(first[i].line_number, again[i].line_number);
        assert_eq!(first[i].line_number, fresh[i].line_number);
    }
}

#[test]
fn bang_equal_is_one_token() {
    let (tokens, errors) = scan("!=");
    assert!(errors.is_empty());
    assert_eq!(kinds(&tokens), vec![TokenType::BangEqual, TokenType::EndOfInput]);
    assert_eq!(tokens[0].lexeme, "!=");
}

#[test]
fn two_character_operators() {
    let (tokens, errors) = scan("! = == <= < >= > != /");
    assert!(errors.is_empty());
    assert_eq!(kinds(&tokens), vec![
        TokenType::Bang,
        TokenType::Equal,
        TokenType::EqualEqual,
        TokenType::LessEqual,
        TokenType::Less,
        TokenType::GreaterEqual,
        TokenType::Greater,
        TokenType::BangEqual,
        TokenType::Slash,
        TokenType::EndOfInput,
    ]);
}

#[test]
fn punctuation() {
    let (tokens, errors) = scan("(){},.-+;*");
    assert!(errors.is_empty());
    assert_eq!(kinds(&tokens), vec![
        TokenType::LeftParen,
        TokenType::RightParen,
        TokenType::LeftBrace,
        TokenType::RightBrace,
        TokenType::Comma,
        TokenType::Dot,
        TokenType::Minus,
        TokenType::Plus,
        TokenType::Semicolon,
        TokenType::Star,
        TokenType::EndOfInput,
    ]);
}

#[test]
fn comment_is_skipped() {
    let (tokens, errors) = scan("// comment\n(");
    assert!(errors.is_empty());
    assert_eq!(kinds(&tokens), vec![TokenType::LeftParen, TokenType::EndOfInput]);
    assert_eq!(tokens[0].line_number, 2);
    assert_eq!(tokens[1].line_number, 2);
}

#[test]
fn comment_at_end_of_input() {
    let (tokens, errors) = scan("+ // trailing");
    assert!(errors.is_empty());
    assert_eq!(kinds(&tokens), vec![TokenType::Plus, TokenType::EndOfInput]);
}

#[test]
fn string_keeps_newline() {
    let (tokens, errors) = scan("\"ABC\nEF\"");
    assert!(errors.is_empty());
    assert_eq!(tokens.len(), 2);
    assert_eq!(tokens[0].token_type, TokenType::StringLiteral);
    assert_eq!(tokens[0].lexeme, "\"ABC\nEF\"");
    match &tokens[0].literal {
        Some(LiteralValue::StringValue(s)) => assert_eq!(s, "ABC\nEF"),
        other => panic!("unexpected literal {:?}", other),
    }
    assert_eq!(tokens[0].line_number, 1);
    assert_eq!(tokens[1].line_number, 2);
}

#[test]
fn unterminated_string_is_reported() {
    let (tokens, errors) = scan("\"ABC");
    assert_eq!(errors, vec![ScanError::UnterminatedString { line: 1 }]);
    assert_eq!(kinds(&tokens), vec![TokenType::EndOfInput]);
    let mut s = Scanner::new("\"ABC");
    assert_eq!(s.scan_tokens().unwrap_err(), "unterminated string");
    assert_eq!(kinds(s.tokens()), vec![TokenType::EndOfInput]);
    assert_eq!(s.tokens()[0].line_number, 1);
}

#[test]
fn unterminated_string_reports_opening_line() {
    let (_, errors) = scan("x\n\"a\nb");
    assert_eq!(errors, vec![ScanError::UnterminatedString { line: 2 }]);
}

#[test]
fn numbers_on_lines() {
    let (tokens, errors) = scan("123.123\n321.0\n5");
    assert!(errors.is_empty());
    assert_eq!(kinds(&tokens), vec![
        TokenType::Number,
        TokenType::Number,
        TokenType::Number,
        TokenType::EndOfInput,
    ]);
    assert_eq!(number_parts(&tokens[0]), ("123".to_string(), "123".to_string()));
    assert_eq!(number_parts(&tokens[1]), ("321".to_string(), "0".to_string()));
    assert_eq!(number_parts(&tokens[2]), ("5".to_string(), "".to_string()));
    let texts: Vec<String> = tokens[..3]
        .iter()
        .map(|t| t.literal.as_ref().unwrap().to_string())
        .collect();
    assert_eq!(texts, vec!["123.123", "321", "5"]);
    let lines: Vec<usize> = tokens[..3].iter().map(|t| t.line_number).collect();
    assert_eq!(lines, vec![1, 2, 3]);
}

#[test]
fn trailing_dot_is_not_part_of_number() {
    let (tokens, errors) = scan("5.");
    assert!(errors.is_empty());
    assert_eq!(kinds(&tokens), vec![TokenType::Number, TokenType::Dot, TokenType::EndOfInput]);
    assert_eq!(tokens[0].lexeme, "5");
    let (tokens, _) = scan("1.x");
    assert_eq!(kinds(&tokens), vec![
        TokenType::Number,
        TokenType::Dot,
        TokenType::Identifier,
        TokenType::EndOfInput,
    ]);
}

#[test]
fn keyword_and_identifier() {
    let (tokens, errors) = scan("for forever");
    assert!(errors.is_empty());
    assert_eq!(kinds(&tokens), vec![
        TokenType::For,
        TokenType::Identifier,
        TokenType::EndOfInput,
    ]);
    assert!(tokens[0].literal.is_none());
    match &tokens[1].literal {
        Some(LiteralValue::IdentifierValue(s)) => assert_eq!(s, "forever"),
        other => panic!("unexpected literal {:?}", other),
    }
}

#[test]
fn every_keyword_is_recognised() {
    let src = "and class else false for fun if nil or print return super this true var while";
    let (tokens, errors) = scan(src);
    assert!(errors.is_empty());
    assert_eq!(kinds(&tokens), vec![
        TokenType::And,
        TokenType::Class,
        TokenType::Else,
        TokenType::False,
        TokenType::For,
        TokenType::Fun,
        TokenType::If,
        TokenType::Nil,
        TokenType::Or,
        TokenType::Print,
        TokenType::Return,
        TokenType::Super,
        TokenType::This,
        TokenType::True,
        TokenType::Var,
        TokenType::While,
        TokenType::EndOfInput,
    ]);
    let table = get_kewords_hashmap();
    assert_eq!(table.len(), 16);
    assert_eq!(table[0], ("and".to_string(), TokenType::And));
}

#[test]
fn identifiers_with_underscores_and_digits() {
    let (tokens, _) = scan("_a1 And");
    assert_eq!(kinds(&tokens), vec![
        TokenType::Identifier,
        TokenType::Identifier,
        TokenType::EndOfInput,
    ]);
    assert_eq!(tokens[0].lexeme, "_a1");
}

#[test]
fn unrecognized_characters_are_all_reported() {
    let (tokens, errors) = scan("@ (\n#");
    assert_eq!(errors, vec![
        ScanError::UnrecognizedCharacter { line: 1, character: '@' },
        ScanError::UnrecognizedCharacter { line: 2, character: '#' },
    ]);
    assert_eq!(kinds(&tokens), vec![TokenType::LeftParen, TokenType::EndOfInput]);
    let message = Scanner::new("@ (\n#").scan_tokens().unwrap_err();
    assert_eq!(
        message,
        "unrecognized character at line 1: @\nunrecognized character at line 2: #"
    );
}

#[test]
fn error_messages() {
    let e = ScanError::UnrecognizedCharacter { line: 12, character: 'é' };
    assert_eq!(e.message(), "unrecognized character at line 12: é");
    assert_eq!(ScanError::UnterminatedString { line: 3 }.message(), "unterminated string");
    assert_eq!(join_messages(&vec![]), "");
}

#[test]
fn whitespace_only() {
    let (tokens, errors) = scan(" \t\r\n \n");
    assert!(errors.is_empty());
    assert_eq!(tokens.len(), 1);
    assert_eq!(tokens[0].line_number, 3);
}

#[test]
fn scan_token_reads_one_lexeme() {
    let mut s = Scanner::new("?>=");
    assert!(!s.is_at_end());
    assert_eq!(
        s.scan_token(),
        Err(ScanError::UnrecognizedCharacter { line: 1, character: '?' })
    );
    assert_eq!(s.scan_token(), Ok(()));
    assert!(s.is_at_end());
}

#[test]
fn character_classes() {
    assert!(is_digit('0') && is_digit('9'));
    assert!(!is_digit('a') && !is_digit('/') && !is_digit(':'));
    assert!(is_aplha('a') && is_aplha('Z') && is_aplha('_'));
    assert!(!is_aplha('1') && !is_aplha('é') && !is_aplha('İ'));
    assert!(is_aplha_numeric('7') && is_aplha_numeric('q'));
    assert!(!is_aplha_numeric('-'));
}

#[test]
fn token_text() {
    let (tokens, _) = scan("foo ( 2.50");
    assert_eq!(tokens[0].to_string(), "Identifier foo Some(IdentifierValue(\"foo\"))");
    assert_eq!(tokens[1].to_string(), "LeftParen ( None");
    assert_eq!(tokens[2].to_string(), "Number 2.50 Some(NumberValue(2.5))");
    assert_eq!(tokens[3].to_string(), "EndOfInput  None");
    assert_eq!(TokenType::BangEqual.to_string(), "BangEqual");
    let t = Token::new(TokenType::Number, "7".to_string(), Some(LiteralValue::IntValue(-7)), 4);
    assert_eq!(t.to_string(), "Number 7 Some(IntValue(-7))");
    let (tokens, _) = scan("\"hi\"");
    assert_eq!(tokens[0].to_string(), "StringLiteral \"hi\" Some(StringValue(\"hi\"))");
    assert_eq!(t.line_number, 4);
}

#[test]
fn decimal_text() {
    let d = |w: &str, f: &str| Decimal {
        negative: false,
        whole: w.to_string(),
        fraction: f.to_string(),
    };
    assert_eq!(d("007", "500").to_string(), "7.5");
    assert_eq!(d("000", "").to_string(), "0");
    assert_eq!(d("0", "05").to_string(), "0.05");
    assert_eq!(d("120", "0").to_string(), "120");
    assert_eq!(Decimal::from_int(-42).to_string(), "-42");
    assert_eq!(Decimal::from_int(0).to_string(), "0");
    assert_eq!(Decimal::from_int(i64::MIN).to_string(), "-9223372036854775808");
    assert_eq!(Decimal::from_int(i64::MAX).to_string(), "9223372036854775807");
}

#[test]
fn failed_scan_keeps_its_tokens() {
    let mut s = Scanner::new("@\n(#");
    let message = s.scan_tokens().unwrap_err();
    assert_eq!(
        message,
        "unrecognized character at line 1: @\nunrecognized character at line 2: #"
    );
    let tokens = s.tokens();
    assert_eq!(kinds(tokens), vec![TokenType::LeftParen, TokenType::EndOfInput]);
    assert_eq!(tokens[0].lexeme, "(");
    assert_eq!(tokens[0].line_number, 2);
    assert_eq!(tokens[1].line_number, 2);
}

#[test]
fn bad_character_only_adds_an_error() {
    let (with_bad, errors) = scan("a @b\n1");
    let (with_space, none) = scan("a  b\n1");
    assert_eq!(errors.len(), 1);
    assert!(none.is_empty());
    assert_eq!(with_bad.len(), with_space.len());
    for i in 0..with_bad.len() {
        assert_eq!(with_bad[i].to_string(), with_space[i].to_string());
        assert_eq!(with_bad[i].line_number, with_space[i].line_number);
    }
}

#[test]
fn successful_scan_keeps_its_tokens() {
    let mut s = Scanner::new("x = 1;");
    let returned = s.scan_tokens().unwrap();
    let kept = s.tokens();
    assert_eq!(returned.len(), 5);
    assert_eq!(kept.len(), returned.len());
    for i in 0..kept.len() {
        assert_eq!(kept[i].to_string(), returned[i].to_string());
    }
}

#[test]
fn scan_token_tracks_lines() {
    let mut s = Scanner::new("\n // c\n x");
    assert_eq!(s.scan_token(), Ok(()));
    assert_eq!(s.scan_token(), Ok(()));
    assert_eq!(s.scan_token(), Ok(()));
    assert!(s.tokens().is_empty());
    assert_eq!(s.scan_token(), Ok(()));
    assert_eq!(s.scan_token(), Ok(()));
    assert_eq!(s.scan_token(), Ok(()));
    assert_eq!(s.tokens().len(), 1);
    assert_eq!(s.tokens()[0].line_number, 3);
    assert!(s.is_at_end());
}
