use postgresql_parser_core::lexer::char_is_whitespace;
use postgresql_parser_core::lexer::token::Token;
use postgresql_parser_core::lexer::token::TokenPosition;
use postgresql_parser_core::lexer::tokenize_postgresql;

fn token(line: usize, column: usize, value: &str) -> Token {
    Token {
        position: TokenPosition { line, column },
        value: String::from(value),
    }
}

fn values_put_together(tokens: &Vec<Token>) -> String {
    let mut text = String::new();
    for token in tokens {
        text.push_str(&token.value);
    }
    text
}

#[test]
fn whitespace_characters_are_space_tab_and_line_break() {
    assert!(char_is_whitespace(' '));
    assert!(char_is_whitespace('\t'));
    assert!(char_is_whitespace('\n'));
    assert!(!char_is_whitespace('\r'));
    assert!(!char_is_whitespace('a'));
    assert!(!char_is_whitespace('.'));
    assert!(!char_is_whitespace('\u{a0}'));
}

#[test]
fn token_new_holds_one_character() {
    assert_eq!(
        Token::new(TokenPosition { line: 3, column: 7 }, 'x'),
        token(3, 7, "x")
    );
}

#[test]
fn token_append_adds_at_the_end_and_keeps_the_position() {
    let appended = Token::new(TokenPosition { line: 1, column: 2 }, 'a')
        .append('b')
        .append('丕');
    assert_eq!(appended, token(1, 2, "ab丕"));
}

#[test]
fn empty_text_has_no_tokens() {
    assert_eq!(tokenize_postgresql(""), Vec::<Token>::new());
}

#[test]
fn token_values_rebuild_the_text() {
    let texts = [
        "",
        ";",
        "select * from foobar;",
        " foo\t \n bar",
        "a\"b ;\"c",
        "a\"b",
        "\"\"\"",
        "select firstname,public.\"1-teacher两\".lastname , teacher.* from \"public\".teacher;",
        ",,..;;  \n\n\t x\"y z\n",
    ];
    for text in texts {
        let tokens = tokenize_postgresql(text);
        assert_eq!(values_put_together(&tokens), text);
        for token in &tokens {
            assert!(!token.value.is_empty());
        }
    }
}

#[test]
fn token_positions_never_go_back() {
    let text = "select a,\n  b\n\nfrom \"x\ny\".t ;\n;";
    let tokens = tokenize_postgresql(text);
    for pair in tokens.windows(2) {
        let earlier = &pair[0].position;
        let later = &pair[1].position;
        assert!(
            earlier.line < later.line
                || (earlier.line == later.line && earlier.column <= later.column)
        );
        if pair[0].value.contains('\n') {
            assert!(earlier.line < later.line);
        }
    }
}

#[test]
fn token_positions_count_lines_and_columns() {
    assert_eq!(
        tokenize_postgresql("a\n\nbc \"d\ne\";f"),
        vec![
            token(0, 0, "a"),
            token(0, 1, "\n\n"),
            token(2, 0, "bc"),
            token(2, 2, " "),
            token(2, 3, "\"d\ne\""),
            token(3, 2, ";"),
            token(3, 3, "f"),
        ]
    );
}

#[test]
fn tokenizing_twice_gives_the_same_tokens() {
    let text = "select \"a b\".c, d from e.f;\n;";
    assert_eq!(tokenize_postgresql(text), tokenize_postgresql(text));
}

#[test]
fn quoted_text_is_one_token() {
    let text = "\"a b.c,d;e\n\tf 丕\"";
    assert_eq!(tokenize_postgresql(text), vec![token(0, 0, text)]);
}

#[test]
fn empty_quotes_are_one_token() {
    assert_eq!(tokenize_postgresql("\"\""), vec![token(0, 0, "\"\"")]);
}

#[test]
fn quote_ends_a_word_and_a_word_follows_a_quote() {
    assert_eq!(
        tokenize_postgresql("ab\"c\"de \"f\" g"),
        vec![
            token(0, 0, "ab"),
            token(0, 2, "\"c\""),
            token(0, 5, "de"),
            token(0, 7, " "),
            token(0, 8, "\"f\""),
            token(0, 11, " "),
            token(0, 12, "g"),
        ]
    );
}

#[test]
fn terminators_stand_alone() {
    assert_eq!(
        tokenize_postgresql(";;.,"),
        vec![
            token(0, 0, ";"),
            token(0, 1, ";"),
            token(0, 2, "."),
            token(0, 3, ","),
        ]
    );
}

#[test]
fn whitespace_between_terminators_is_one_token() {
    assert_eq!(
        tokenize_postgresql("; \t\n ;"),
        vec![token(0, 0, ";"), token(0, 1, " \t\n "), token(1, 1, ";")]
    );
}

#[test]
fn whitespace_tokens_never_follow_each_other() {
    let text = " a  \"b\" \n . \t, ;  \"c";
    let tokens = tokenize_postgresql(text);
    for pair in tokens.windows(2) {
        let first = pair[0].value.chars().next().unwrap();
        let second = pair[1].value.chars().next().unwrap();
        assert!(!(char_is_whitespace(first) && char_is_whitespace(second)));
    }
}
