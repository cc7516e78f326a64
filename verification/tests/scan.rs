use rjlox::diag::ErrKind;
use rjlox::scanner::scan;
use rjlox::token::Token;
use rjlox::token_type::TokenType;
use rjlox::value::Value;

fn chars(s: &str) -> Vec<char> {
    s.chars().collect()
}

fn tags(tokens: &[Token]) -> Vec<TokenType> {
    tokens.iter().map(|t| t.tag).collect()
}

fn text(tokens: &[Token]) -> String {
    tokens.iter().flat_map(|t| t.lexeme.iter().copied()).collect()
}

fn number_of(t: &Token) -> f64 {
    match &t.value {
        Some(Value::Number(d)) => d.iter().collect::<String>().parse::<f64>().unwrap(),
        other => panic!("no number payload: {:?}", other),
    }
}

#[test]
fn one_plus_two_point_five() {
    let tokens = scan("1 + 2.5").unwrap();
    assert_eq!(
        tags(&tokens),
        vec![TokenType::Number, TokenType::Plus, TokenType::Number, TokenType::Eof]
    );
    assert_eq!(tokens[0].lexeme, chars("1"));
    assert_eq!(number_of(&tokens[0]), 1.0);
    assert_eq!(tokens[1].lexeme, chars("+"));
    assert_eq!(tokens[1].value, None);
    assert_eq!(tokens[2].lexeme, chars("2.5"));
    assert_eq!(number_of(&tokens[2]), 2.5);
    assert_eq!(tokens[3].lexeme, chars(""));
    for t in &tokens {
        assert_eq!(t.line, 1);
    }
}

#[test]
fn unterminated_string_fails_with_one_diagnostic() {
    let failures = scan("\"open").unwrap_err();
    assert_eq!(failures.len(), 1);
    assert_eq!(failures[0].kind, ErrKind::UnterminatedString);
    assert_eq!(failures[0].line, 1);
}

#[test]
fn comment_then_var_assignment() {
    let tokens = scan("// comment\nvar x = 1").unwrap();
    assert_eq!(
        tags(&tokens),
        vec![
            TokenType::Var,
            TokenType::Word,
            TokenType::Equal,
            TokenType::Number,
            TokenType::Eof
        ]
    );
    assert_eq!(tokens[0].line, 2);
    assert_eq!(tokens[0].value, None);
    assert_eq!(tokens[1].value, Some(Value::Word(chars("x"))));
    assert_eq!(number_of(&tokens[3]), 1.0);
}

#[test]
fn recovery_after_unexpected_character() {
    let failures = scan("@ 1").unwrap_err();
    assert_eq!(failures.len(), 1);
    assert_eq!(failures[0].kind, ErrKind::UnexpectedChar('@'));
    assert_eq!(failures[0].line, 1);
}

#[test]
fn every_error_is_reported_in_order() {
    let failures = scan("@\n#").unwrap_err();
    assert_eq!(failures.len(), 2);
    assert_eq!(failures[0].kind, ErrKind::UnexpectedChar('@'));
    assert_eq!(failures[0].line, 1);
    assert_eq!(failures[1].kind, ErrKind::UnexpectedChar('#'));
    assert_eq!(failures[1].line, 2);
}

#[test]
fn clean_scan_ends_with_exactly_one_end_marker() {
    let tokens = scan("var answer = (6 * 7); // done").unwrap();
    assert_eq!(tokens.last().unwrap().tag, TokenType::Eof);
    let markers = tokens.iter().filter(|t| t.tag == TokenType::Eof).count();
    assert_eq!(markers, 1);
    for t in &tokens[..tokens.len() - 1] {
        assert!(!t.lexeme.is_empty());
    }
}

#[test]
fn two_character_operators_are_single_tokens() {
    let tokens = scan("!= == <= >=").unwrap();
    assert_eq!(
        tags(&tokens),
        vec![
            TokenType::BangEqual,
            TokenType::EqualEqual,
            TokenType::LessEqual,
            TokenType::GreaterEqual,
            TokenType::Eof
        ]
    );
    assert_eq!(tokens[0].lexeme, chars("!="));
}

#[test]
fn bare_operators_only_without_following_equals() {
    let tokens = scan("! = < >").unwrap();
    assert_eq!(
        tags(&tokens),
        vec![
            TokenType::Bang,
            TokenType::Equal,
            TokenType::Less,
            TokenType::Greater,
            TokenType::Eof
        ]
    );
}

#[test]
fn equals_lookahead_always_wins() {
    let tokens = scan("===").unwrap();
    assert_eq!(
        tags(&tokens),
        vec![TokenType::EqualEqual, TokenType::Equal, TokenType::Eof]
    );
}

#[test]
fn forest_is_one_word_not_a_keyword() {
    let tokens = scan("forest").unwrap();
    assert_eq!(tags(&tokens), vec![TokenType::Word, TokenType::Eof]);
    assert_eq!(tokens[0].lexeme, chars("forest"));
    assert_eq!(tokens[0].value, Some(Value::Word(chars("forest"))));
}

#[test]
fn exact_keyword_spelling_is_reserved() {
    let tokens = scan("for").unwrap();
    assert_eq!(tags(&tokens), vec![TokenType::For, TokenType::Eof]);
    assert_eq!(tokens[0].value, None);
}

#[test]
fn all_sixteen_keywords() {
    let source = "and class else false for fun if nil or print return super this true var while";
    let tokens = scan(source).unwrap();
    assert_eq!(
        tags(&tokens),
        vec![
            TokenType::And,
            TokenType::Class,
            TokenType::Else,
            TokenType::False,
            TokenType::For,
            TokenType::Fun,
            TokenType::If,
            TokenType::Nil,
            TokenType::Or,
            TokenType::Print,
            TokenType::Return,
            TokenType::Super,
            TokenType::This,
            TokenType::True,
            TokenType::Var,
            TokenType::While,
            TokenType::Eof
        ]
    );
}

#[test]
fn keyword_lookup_is_case_sensitive() {
    let tokens = scan("For VAR Class").unwrap();
    assert_eq!(
        tags(&tokens),
        vec![TokenType::Word, TokenType::Word, TokenType::Word, TokenType::Eof]
    );
}

#[test]
fn token_lines_follow_newlines() {
    let tokens = scan("one\ntwo\n\nfour").unwrap();
    assert_eq!(tokens[0].line, 1);
    assert_eq!(tokens[1].line, 2);
    assert_eq!(tokens[2].line, 4);
    assert_eq!(tokens[3].tag, TokenType::Eof);
    assert_eq!(tokens[3].line, 4);
}

#[test]
fn multiline_string_reports_opening_line() {
    let tokens = scan("\"a\nb\nc\" x").unwrap();
    assert_eq!(
        tags(&tokens),
        vec![TokenType::Str, TokenType::Word, TokenType::Eof]
    );
    assert_eq!(tokens[0].line, 1);
    assert_eq!(tokens[0].value, Some(Value::Str(chars("a\nb\nc"))));
    assert_eq!(tokens[1].line, 3);
}

#[test]
fn unterminated_string_reports_line_where_input_ended() {
    let failures = scan("\"a\nb").unwrap_err();
    assert_eq!(failures.len(), 1);
    assert_eq!(failures[0].kind, ErrKind::UnterminatedString);
    assert_eq!(failures[0].line, 2);
}

#[test]
fn lexemes_concatenate_back_to_source() {
    let source = "(1.5+2);x<=\"s\"";
    let tokens = scan(source).unwrap();
    assert_eq!(text(&tokens), source);
}

#[test]
fn only_comment_bodies_and_whitespace_are_missing_from_lexemes() {
    let tokens = scan("a b//c").unwrap();
    assert_eq!(text(&tokens), "ab");
}

#[test]
fn string_payload_strips_the_quotes() {
    let tokens = scan("\"hi\"").unwrap();
    assert_eq!(tags(&tokens), vec![TokenType::Str, TokenType::Eof]);
    assert_eq!(tokens[0].lexeme, chars("\"hi\""));
    assert_eq!(tokens[0].value, Some(Value::Str(chars("hi"))));
}

#[test]
fn empty_string_literal() {
    let tokens = scan("\"\"").unwrap();
    assert_eq!(tokens[0].value, Some(Value::Str(chars(""))));
}

#[test]
fn trailing_dot_is_its_own_token() {
    let tokens = scan("1.").unwrap();
    assert_eq!(
        tags(&tokens),
        vec![TokenType::Number, TokenType::Dot, TokenType::Eof]
    );
    assert_eq!(tokens[0].lexeme, chars("1"));
}

#[test]
fn dot_between_numbers_binds_to_the_left_once() {
    let tokens = scan("3.25.5").unwrap();
    assert_eq!(
        tags(&tokens),
        vec![TokenType::Number, TokenType::Dot, TokenType::Number, TokenType::Eof]
    );
    assert_eq!(number_of(&tokens[0]), 3.25);
    assert_eq!(number_of(&tokens[2]), 5.0);
}

#[test]
fn slash_alone_is_division() {
    let tokens = scan("a/b").unwrap();
    assert_eq!(
        tags(&tokens),
        vec![TokenType::Word, TokenType::Slash, TokenType::Word, TokenType::Eof]
    );
}

#[test]
fn comment_runs_to_end_of_line_only() {
    let tokens = scan("//x\ny").unwrap();
    assert_eq!(tags(&tokens), vec![TokenType::Word, TokenType::Eof]);
    assert_eq!(tokens[0].lexeme, chars("y"));
    assert_eq!(tokens[0].line, 2);
}

#[test]
fn comment_at_end_of_input() {
    let tokens = scan("//x").unwrap();
    assert_eq!(tags(&tokens), vec![TokenType::Eof]);
    assert_eq!(tokens[0].line, 1);
}

#[test]
fn empty_input_yields_only_the_end_marker() {
    let tokens = scan("").unwrap();
    assert_eq!(tags(&tokens), vec![TokenType::Eof]);
    assert_eq!(tokens[0].line, 1);
    assert_eq!(tokens[0].lexeme, chars(""));
    assert_eq!(tokens[0].value, None);
}

#[test]
fn whitespace_only_input() {
    let tokens = scan(" \t\r\n").unwrap();
    assert_eq!(tags(&tokens), vec![TokenType::Eof]);
    assert_eq!(tokens[0].line, 2);
}

#[test]
fn all_single_character_punctuation() {
    let tokens = scan("(){},.-+;*").unwrap();
    assert_eq!(
        tags(&tokens),
        vec![
            TokenType::LeftParen,
            TokenType::RightParen,
            TokenType::LeftBrace,
            TokenType::RightBrace,
            TokenType::Comma,
            TokenType::Dot,
            TokenType::Minus,
            TokenType::Plus,
            TokenType::Semicolon,
            TokenType::Star,
            TokenType::Eof
        ]
    );
}

#[test]
fn failed_scan_returns_no_tokens() {
    let result = scan("var @ = 1");
    assert!(result.is_err());
}

#[test]
fn underscore_opens_a_word() {
    let tokens = scan("_private x_1").unwrap();
    assert_eq!(
        tags(&tokens),
        vec![TokenType::Word, TokenType::Word, TokenType::Eof]
    );
    assert_eq!(tokens[0].value, Some(Value::Word(chars("_private"))));
    assert_eq!(tokens[1].value, Some(Value::Word(chars("x_1"))));
}
