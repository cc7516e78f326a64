use rjlox::cutter::Cutter;
use rjlox::keywords;
use rjlox::token::Token;
use rjlox::token_type::TokenType;

fn chars(s: &str) -> Vec<char> {
    s.chars().collect()
}

#[test]
fn cursor_starts_at_line_one() {
    let c = Cutter::new("ab");
    assert_eq!(c.line, 1);
    assert!(!c.eof());
}

#[test]
fn peek_does_not_consume() {
    let mut c = Cutter::new("ab");
    assert_eq!(c.peek(), Some('a'));
    assert_eq!(c.peek(), Some('a'));
    assert_eq!(c.next(), Some('a'));
    assert_eq!(c.peek(), Some('b'));
}

#[test]
fn peek_next_looks_two_ahead() {
    let c = Cutter::new("ab");
    assert_eq!(c.peek(), Some('a'));
    assert_eq!(c.peek_next(), Some('b'));
}

#[test]
fn next_counts_newlines() {
    let mut c = Cutter::new("a\nb");
    assert_eq!(c.next(), Some('a'));
    assert_eq!(c.line, 1);
    assert_eq!(c.next(), Some('\n'));
    assert_eq!(c.line, 2);
    assert_eq!(c.next(), Some('b'));
    assert_eq!(c.line, 2);
    assert_eq!(c.next(), None);
    assert!(c.eof());
}

#[test]
fn next_eq_consumes_only_on_match() {
    let mut c = Cutter::new("!=");
    assert_eq!(c.next(), Some('!'));
    assert!(!c.next_eq('!'));
    assert!(c.next_eq('='));
    assert!(c.eof());
}

#[test]
fn copy_and_cut_window() {
    let mut c = Cutter::new("word rest");
    c.next();
    c.next();
    c.next();
    c.next();
    assert_eq!(c.copy(), chars("word"));
    assert_eq!(c.copy(), chars("word"));
    assert_eq!(c.cut(), chars("word"));
    assert_eq!(c.copy(), chars(""));
    c.next();
    assert_eq!(c.cut(), chars(" "));
}

#[test]
fn multibyte_characters_count_as_one() {
    let mut c = Cutter::new("aé☃");
    assert_eq!(c.next(), Some('a'));
    assert_eq!(c.next(), Some('é'));
    assert_eq!(c.next(), Some('☃'));
    assert!(c.eof());
}

#[test]
fn keyword_table_maps_all_reserved_words() {
    let table = [
        ("and", TokenType::And),
        ("class", TokenType::Class),
        ("else", TokenType::Else),
        ("false", TokenType::False),
        ("for", TokenType::For),
        ("fun", TokenType::Fun),
        ("if", TokenType::If),
        ("nil", TokenType::Nil),
        ("or", TokenType::Or),
        ("print", TokenType::Print),
        ("return", TokenType::Return),
        ("super", TokenType::Super),
        ("this", TokenType::This),
        ("true", TokenType::True),
        ("var", TokenType::Var),
        ("while", TokenType::While),
    ];
    for (word, tag) in table {
        assert_eq!(keywords::get(&chars(word)), Some(tag));
    }
}

#[test]
fn keyword_table_rejects_near_misses() {
    assert_eq!(keywords::get(&chars("forest")), None);
    assert_eq!(keywords::get(&chars("fo")), None);
    assert_eq!(keywords::get(&chars("")), None);
    assert_eq!(keywords::get(&chars("And")), None);
}

#[test]
fn token_new_keeps_its_fields() {
    let t = Token::new(TokenType::Word, chars("abc"), None, 7);
    assert_eq!(t.tag, TokenType::Word);
    assert_eq!(t.lexeme, chars("abc"));
    assert_eq!(t.value, None);
    assert_eq!(t.line, 7);
}
