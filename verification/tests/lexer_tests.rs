use postgresql_parser_core::lexer::token::Token;
use postgresql_parser_core::lexer::token::TokenPosition;
use postgresql_parser_core::lexer::tokenize_postgresql;

#[test]
fn lexer_whitespace() {
    assert_eq!(
        tokenize_postgresql(" foo\t \n bar"),
        vec![
            Token {
                position: TokenPosition { line: 0, column: 0 },
                value: String::from(" ")
            },
            Token {
                position: TokenPosition { line: 0, column: 1 },
                value: String::from("foo")
            },
            Token {
                position: TokenPosition { line: 0, column: 4 },
                value: String::from("\t \n ")
            },
            Token {
                position: TokenPosition { line: 1, column: 1 },
                value: String::from("bar")
            }
        ]
    );
}

#[test]
fn lexer_separators() {
    assert_eq!(
        tokenize_postgresql("a.b,c;"),
        vec![
            Token {
                position: TokenPosition { line: 0, column: 0 },
                value: String::from("a")
            },
            Token {
                position: TokenPosition { line: 0, column: 1 },
                value: String::from(".")
            },
            Token {
                position: TokenPosition { line: 0, column: 2 },
                value: String::from("b")
            },
            Token {
                position: TokenPosition { line: 0, column: 3 },
                value: String::from(",")
            },
            Token {
                position: TokenPosition { line: 0, column: 4 },
                value: String::from("c")
            },
            Token {
                position: TokenPosition { line: 0, column: 5 },
                value: String::from(";")
            },
        ]
    );
}

#[test]
fn lexer_quoted_identifiers() {
    assert_eq!(
        tokenize_postgresql("a\"b ;\""),
        vec![
            Token {
                position: TokenPosition { line: 0, column: 0 },
                value: String::from("a")
            },
            Token {
                position: TokenPosition { line: 0, column: 1 },
                value: String::from("\"b ;\"")
            },
        ]
    );
}

#[test]
fn lexer_onclosed_quoted_identifier() {
    assert_eq!(
        tokenize_postgresql("a\"b"),
        vec![
            Token {
                position: TokenPosition { line: 0, column: 0 },
                value: String::from("a")
            },
            Token {
                position: TokenPosition { line: 0, column: 1 },
                value: String::from("\"b")
            },
        ]
    );
}
