use tortuga::errors::lexical::{ErrorKind, LexicalError};
use tortuga::lexeme::{Lexeme, Location};
use tortuga::scanner::Scanner;
use tortuga::token::{Kind, Token};

fn token(start: Location, text: &str, kind: Kind) -> Option<Result<Token, LexicalError>> {
    Some(Ok(Token::new(Lexeme::new(start, text), kind)))
}

fn error(start: Location, text: &str, kind: ErrorKind) -> Option<Result<Token, LexicalError>> {
    Some(Err(LexicalError::new(Lexeme::new(start, text), kind)))
}

fn location(item: &Option<Result<Token, LexicalError>>) -> Location {
    match item {
        Some(Ok(token)) => token.lexeme().location(),
        Some(Err(error)) => error.lexeme().location(),
        None => panic!("the scanner is at the end of its source"),
    }
}

fn kinds(source: &str) -> Vec<Result<Kind, ErrorKind>> {
    let mut kinds = Vec::new();
    for item in Scanner::scan(source) {
        match item {
            Ok(token) => kinds.push(Ok(token.kind())),
            Err(error) => kinds.push(Err(*error.kind())),
        }
    }
    kinds
}

fn texts(source: &str) -> Vec<String> {
    let mut texts = Vec::new();
    for item in Scanner::scan(source) {
        match item {
            Ok(token) => texts.push(token.lexeme().as_str().to_string()),
            Err(error) => texts.push(error.lexeme().as_str().to_string()),
        }
    }
    texts
}

fn validate(kind: Kind) {
    let input = kind.to_string();
    let mut scanner = Scanner::new(input.as_str());

    let item = scanner.next();
    assert_eq!(item, token(Location::default(), input.as_str(), kind));
    assert_eq!(location(&item), Location::default());
    assert_eq!(scanner.next(), None);
}

#[test]
fn scan_simple() {
    validate(Kind::Plus);
    validate(Kind::Minus);
    validate(Kind::Star);
    validate(Kind::Slash);
    validate(Kind::Percent);
    validate(Kind::Caret);
    validate(Kind::Tilde);
    validate(Kind::Equal);
    validate(Kind::NotEqual);
    validate(Kind::LessThan);
    validate(Kind::LessThanOrEqualTo);
    validate(Kind::GreaterThan);
    validate(Kind::GreaterThanOrEqualTo);
    validate(Kind::Comma);
    validate(Kind::Underscore);
    validate(Kind::LeftParenthesis);
    validate(Kind::RightParenthesis);
    validate(Kind::LeftBrace);
    validate(Kind::RightBrace);
    validate(Kind::LeftBracket);
    validate(Kind::RightBracket);
}

#[test]
fn scan_at() {
    validate(Kind::At);
}

#[test]
fn skips_invalid_characters() {
    let input = "\u{0E01EF}\u{0E01EF}\u{0E01EF}\u{0E01EF} +";
    let mut scanner = Scanner::new(input);

    let bad = &input[..input.len() - 2];

    let first = scanner.next();
    assert_eq!(first, error(Location::default(), bad, ErrorKind::Invalid));
    assert_eq!(location(&first), Location::default());

    let second = scanner.next();
    assert_eq!(
        second,
        token(Location::of(&input[..input.len() - 1]), "+", Kind::Plus)
    );
    assert_eq!(location(&second), Location::new(0, 5, 5));
    assert_eq!(scanner.next(), None);
}

#[test]
fn invalid_run_is_one_error() {
    let input = "\u{0E01EF}\u{0E01EF}\u{0E01EF}\u{0E01EF} +";

    assert_eq!(kinds(input), vec![Err(ErrorKind::Invalid), Ok(Kind::Plus)]);
    assert_eq!(texts(input)[0].chars().count(), 4);
}

#[test]
fn punctuation_ends_an_invalid_run() {
    assert_eq!(
        kinds("!\u{0E01EF}!"),
        vec![Err(ErrorKind::Invalid), Err(ErrorKind::Invalid)]
    );
    assert_eq!(texts("!\u{0E01EF}!"), vec!["!\u{0E01EF}", "!"]);
    assert_eq!(kinds("2#10"), vec![Ok(Kind::Number), Err(ErrorKind::Invalid), Ok(Kind::Number)]);
}

fn validate_identifier(identifier: &str) {
    let mut scanner = Scanner::new(identifier);

    assert_eq!(
        scanner.next(),
        token(Location::default(), identifier, Kind::Identifier)
    );
    assert_eq!(scanner.next(), None);
}

#[test]
fn scan_identifier() {
    validate_identifier("x");
    validate_identifier("x2");
    validate_identifier("x_2");
    validate_identifier("x__2");
    validate_identifier("xx");
    validate_identifier("x__");
    validate_identifier("x_y_z");
    validate_identifier("x_y_z_");
}

#[test]
fn scan_identifier_beyond_ascii() {
    validate_identifier("\u{3C0}");
    validate_identifier("gr\u{F6}\u{DF}e");
    validate_identifier("\u{65E5}\u{672C}\u{8A9E}");
    validate_identifier("a\u{301}");
}

#[test]
fn underscore_is_never_part_of_the_start_of_an_identifier() {
    assert_eq!(kinds("_"), vec![Ok(Kind::Underscore)]);
    assert_eq!(kinds("_x"), vec![Ok(Kind::Underscore), Ok(Kind::Identifier)]);
    assert_eq!(kinds("x_"), vec![Ok(Kind::Identifier)]);
}

fn validate_number(number: &str) {
    let mut scanner = Scanner::new(number);

    assert_eq!(
        scanner.next(),
        token(Location::default(), number, Kind::Number)
    );
    assert_eq!(scanner.next(), None);
}

#[test]
fn scan_number() {
    validate_number("0");
    validate_number("2");
    validate_number("21");
    validate_number("100");
    validate_number(".100");
    validate_number(".5");
}

#[test]
fn scan_number_with_fraction() {
    validate_number("6.4");
    validate_number("0.1");
    validate_number("10.403124237432849");
    assert_eq!(texts("1.2.3"), vec!["1.2", ".3"]);
    assert_eq!(texts("1.x"), vec!["1", ".", "x"]);
}

#[test]
fn skip_comment() {
    let input = "; hello, world!\n \t42";

    assert_forty_two(input);
}

fn assert_forty_two(input: &str) {
    let mut scanner = Scanner::new(input);

    let item = scanner.next();
    assert_eq!(
        item,
        token(Location::of(&input[..input.len() - 2]), "42", Kind::Number)
    );
    assert_eq!(location(&item), Location::of(&input[..input.len() - 2]));
    assert_eq!(scanner.next(), None);
}

#[test]
fn skip_multiple_comments() {
    let input = "; hello, world!\n \t; foobar\n\n42";

    assert_forty_two(input);
}

#[test]
fn comments_and_blank_space_change_no_token() {
    assert_eq!(kinds("; hello\n \t42"), vec![Ok(Kind::Number)]);
    assert_eq!(kinds("; a\n; b\n\n42"), vec![Ok(Kind::Number)]);
    assert_eq!(texts("; hello\n \t42"), texts("42"));
    assert_eq!(texts("; a\n; b\n\n42"), texts("42"));
    assert_eq!(texts("1 + 2 ; the rest is ignored"), texts("1+2"));
    assert_eq!(kinds("; nothing but a comment"), vec![]);
    assert_eq!(kinds(""), vec![]);
}

#[test]
fn scan_invalid_number() {
    // 0008 is not valid.
    let mut scanner = Scanner::new("0008");

    assert_eq!(
        scanner.next(),
        error(Location::default(), "0008", ErrorKind::Number)
    );
    assert_eq!(scanner.next(), None);

    assert_eq!(kinds("00.5"), vec![Err(ErrorKind::Number)]);
    assert_eq!(kinds("."), vec![Err(ErrorKind::Number)]);
    assert_eq!(kinds("0.5"), vec![Ok(Kind::Number)]);
}

#[test]
fn scan_edge_cases() {
    // 2x is number then identifier.
    let mut scanner = Scanner::new("2x");

    let first = scanner.next();
    assert_eq!(first, token(Location::default(), "2", Kind::Number));
    let second = scanner.next();
    assert_eq!(second, token(Location::new(0, 1, 1), "x", Kind::Identifier));
    assert_eq!(location(&second), Location::new(0, 1, 1));
    assert_eq!(scanner.next(), None);
}

#[test]
fn scan_relations() {
    assert_eq!(
        kinds("< <= <> > >= = >< =<"),
        vec![
            Ok(Kind::LessThan),
            Ok(Kind::LessThanOrEqualTo),
            Ok(Kind::NotEqual),
            Ok(Kind::GreaterThan),
            Ok(Kind::GreaterThanOrEqualTo),
            Ok(Kind::Equal),
            Ok(Kind::GreaterThan),
            Ok(Kind::LessThan),
            Ok(Kind::Equal),
            Ok(Kind::LessThan),
        ]
    );
}

#[test]
fn locations_count_lines_and_columns() {
    let source = "a\n  b\nc";
    let items = Scanner::scan(source);
    let mut locations = Vec::new();
    for item in items {
        locations.push(location(&Some(item)));
    }

    assert_eq!(
        locations,
        vec![Location::new(0, 0, 0), Location::new(1, 2, 4), Location::new(2, 0, 6)]
    );
    assert_eq!(Location::of(source), Location::new(2, 1, 7));
    assert_eq!(Location::of(""), Location::default());
}

#[test]
fn tokens_are_equal_by_text_wherever_they_stand() {
    let here = Token::new(Lexeme::new(Location::default(), "x"), Kind::Identifier);
    let there = Token::new(Lexeme::new(Location::new(3, 4, 50), "x"), Kind::Identifier);
    let other = Token::new(Lexeme::new(Location::default(), "y"), Kind::Identifier);

    assert_eq!(here, there);
    assert_ne!(here, other);
    assert_eq!(here.clone(), here);
}

#[test]
fn lexical_error_names_its_kind_and_text() {
    let error = LexicalError::new(Lexeme::new(Location::default(), "0008"), ErrorKind::Number);

    assert_eq!(
        error.to_string(),
        "Encountered a NUMBER error during lexical analysis on 0008"
    );
    assert_eq!(ErrorKind::Invalid.to_string(), "INVALID");
}
