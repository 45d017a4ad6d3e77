use script_lexer::ast::{ExpressionNode, Identifier, Program, StatementNode, VarStatement};
use script_lexer::lexer::{tokenize, LexError, Lexer};
use script_lexer::parser::Parser;
use script_lexer::token::{lookup_identifier, Token, TokenType};

fn token(t_type: TokenType, literal: &str) -> Token {
    Token { t_type, literal: literal.to_string() }
}

fn kinds_and_texts(input: &str) -> Vec<(TokenType, String)> {
    tokenize(input).unwrap().into_iter().map(|t| (t.t_type, t.literal)).collect()
}

fn pairs(expected: &[(TokenType, &str)]) -> Vec<(TokenType, String)> {
    expected.iter().map(|(k, s)| (*k, s.to_string())).collect()
}

fn malformed_text(input: &str) -> String {
    let mut lexer = Lexer::new(input);
    loop {
        match lexer.next_token() {
            Ok(t) => assert_ne!(t.t_type, TokenType::EndOfFile, "no malformed number in {:?}", input),
            Err(LexError::MalformedNumber(text)) => return text,
        }
    }
}

#[test]
fn same_text_gives_same_tokens() {
    let input = "var a = 3_000 >= b; if (!c) { return 5.25; } @";
    let first = tokenize(input).unwrap();
    let second = tokenize(input).unwrap();
    assert_eq!(first, second);
    assert_eq!(first.len(), 18);
}

#[test]
fn end_of_file_repeats_after_the_end() {
    let mut lexer = Lexer::new("x;");
    assert_eq!(lexer.next_token().unwrap(), token(TokenType::Identifier, "x"));
    assert_eq!(lexer.next_token().unwrap(), token(TokenType::Semicolon, ";"));
    for _ in 0..5 {
        assert_eq!(lexer.next_token().unwrap(), token(TokenType::EndOfFile, ""));
    }
}

#[test]
fn empty_and_blank_texts_give_end_of_file_at_once() {
    for input in ["", " ", "\t\r\n  \n"] {
        let mut lexer = Lexer::new(input);
        assert_eq!(lexer.next_token().unwrap(), token(TokenType::EndOfFile, ""));
        assert_eq!(lexer.next_token().unwrap(), token(TokenType::EndOfFile, ""));
        assert!(tokenize(input).unwrap().is_empty());
    }
}

#[test]
fn last_character_then_end() {
    let mut lexer = Lexer::new("a");
    assert_eq!(lexer.next_token().unwrap(), token(TokenType::Identifier, "a"));
    assert_eq!(lexer.next_token().unwrap(), token(TokenType::EndOfFile, ""));
    let mut lexer = Lexer::new("!");
    assert_eq!(lexer.next_token().unwrap(), token(TokenType::Bang, "!"));
    assert_eq!(lexer.next_token().unwrap(), token(TokenType::EndOfFile, ""));
}

#[test]
fn two_character_operators() {
    assert_eq!(
        kinds_and_texts("== != >= <="),
        pairs(&[
            (TokenType::Equal, "=="),
            (TokenType::NotEqual, "!="),
            (TokenType::GreaterOrEqual, ">="),
            (TokenType::LessOrEqual, "<="),
        ])
    );
}

#[test]
fn operators_without_a_following_equals() {
    assert_eq!(
        kinds_and_texts("= = ! x < > =< !!"),
        pairs(&[
            (TokenType::Assign, "="),
            (TokenType::Assign, "="),
            (TokenType::Bang, "!"),
            (TokenType::Identifier, "x"),
            (TokenType::LessThan, "<"),
            (TokenType::GreaterThan, ">"),
            (TokenType::Assign, "="),
            (TokenType::LessThan, "<"),
            (TokenType::Bang, "!"),
            (TokenType::Bang, "!"),
        ])
    );
    assert_eq!(
        kinds_and_texts("a=>b"),
        pairs(&[
            (TokenType::Identifier, "a"),
            (TokenType::Assign, "="),
            (TokenType::GreaterThan, ">"),
            (TokenType::Identifier, "b"),
        ])
    );
    assert_eq!(kinds_and_texts(">"), pairs(&[(TokenType::GreaterThan, ">")]));
}

#[test]
fn words_and_numbers_are_read_whole() {
    assert_eq!(
        kinds_and_texts("first_num 3_000_000 5.1 _x1"),
        pairs(&[
            (TokenType::Identifier, "first_num"),
            (TokenType::Integer, "3_000_000"),
            (TokenType::Double, "5.1"),
            (TokenType::Identifier, "_x"),
            (TokenType::Integer, "1"),
        ])
    );
}

#[test]
fn a_number_starts_only_at_a_digit() {
    assert_eq!(
        kinds_and_texts(".5"),
        pairs(&[(TokenType::Illegal, "."), (TokenType::Integer, "5")])
    );
    assert_eq!(kinds_and_texts("."), pairs(&[(TokenType::Illegal, ".")]));
    assert_eq!(
        kinds_and_texts("x.y"),
        pairs(&[
            (TokenType::Identifier, "x"),
            (TokenType::Illegal, "."),
            (TokenType::Identifier, "y"),
        ])
    );
    assert_eq!(kinds_and_texts("1.2.3"), pairs(&[(TokenType::Double, "1.2.3")]));
}

#[test]
fn letters_and_digits_beyond_ascii() {
    assert_eq!(kinds_and_texts("café"), pairs(&[(TokenType::Identifier, "café")]));
    assert_eq!(kinds_and_texts("٣٤"), pairs(&[(TokenType::Integer, "٣٤")]));
}

#[test]
fn keywords_take_precedence_over_identifiers() {
    assert_eq!(lookup_identifier(&"var".to_string()), TokenType::Variable);
    assert_eq!(lookup_identifier(&"variable".to_string()), TokenType::Identifier);
    assert_eq!(lookup_identifier(&"func".to_string()), TokenType::Function);
    assert_eq!(lookup_identifier(&"true".to_string()), TokenType::True);
    assert_eq!(lookup_identifier(&"false".to_string()), TokenType::False);
    assert_eq!(lookup_identifier(&"if".to_string()), TokenType::If);
    assert_eq!(lookup_identifier(&"else".to_string()), TokenType::Else);
    assert_eq!(lookup_identifier(&"return".to_string()), TokenType::Return);
    assert_eq!(lookup_identifier(&"Var".to_string()), TokenType::Identifier);
    assert_eq!(lookup_identifier(&"".to_string()), TokenType::Identifier);
    assert_eq!(
        kinds_and_texts("var variable"),
        pairs(&[(TokenType::Variable, "var"), (TokenType::Identifier, "variable")])
    );
}

#[test]
fn number_ending_in_point_or_underscore_is_fatal() {
    assert_eq!(malformed_text("5."), "5.");
    assert_eq!(malformed_text("var x = 3_000_;"), "3_000_");
    assert_eq!(malformed_text("5_"), "5_");
    assert_eq!(malformed_text("7._;"), "7._");
    assert_eq!(malformed_text("1.2. + 3"), "1.2.");
    match tokenize("a = 5.") {
        Err(LexError::MalformedNumber(text)) => assert_eq!(text, "5."),
        Ok(tokens) => panic!("expected a malformed number, got {:?}", tokens),
    }
}

#[test]
fn declaration_of_a_function_end_to_end() {
    assert_eq!(
        kinds_and_texts("var add = func(x, y) { return x + y; };"),
        pairs(&[
            (TokenType::Variable, "var"),
            (TokenType::Identifier, "add"),
            (TokenType::Assign, "="),
            (TokenType::Function, "func"),
            (TokenType::OpenParenthesis, "("),
            (TokenType::Identifier, "x"),
            (TokenType::Comma, ","),
            (TokenType::Identifier, "y"),
            (TokenType::CloseParenthesis, ")"),
            (TokenType::OpenBrace, "{"),
            (TokenType::Return, "return"),
            (TokenType::Identifier, "x"),
            (TokenType::Plus, "+"),
            (TokenType::Identifier, "y"),
            (TokenType::Semicolon, ";"),
            (TokenType::CloseBrace, "}"),
            (TokenType::Semicolon, ";"),
        ])
    );
    let mut lexer = Lexer::new("var add = func(x, y) { return x + y; };");
    for _ in 0..17 {
        lexer.next_token().unwrap();
    }
    assert_eq!(lexer.next_token().unwrap(), token(TokenType::EndOfFile, ""));
}

#[test]
fn unknown_characters_are_illegal_tokens() {
    assert_eq!(
        kinds_and_texts("a @ # b"),
        pairs(&[
            (TokenType::Identifier, "a"),
            (TokenType::Illegal, "@"),
            (TokenType::Illegal, "#"),
            (TokenType::Identifier, "b"),
        ])
    );
}

#[test]
fn a_nul_character_ends_the_stream() {
    assert_eq!(kinds_and_texts("a\0b"), pairs(&[(TokenType::Identifier, "a")]));
    let mut lexer = Lexer::new("a\0b");
    assert_eq!(lexer.next_token().unwrap(), token(TokenType::Identifier, "a"));
    assert_eq!(lexer.next_token().unwrap(), token(TokenType::EndOfFile, ""));
    assert_eq!(lexer.next_token().unwrap(), token(TokenType::Identifier, "b"));
    assert_eq!(lexer.next_token().unwrap(), token(TokenType::EndOfFile, ""));
}

#[test]
fn form_feed_is_not_whitespace() {
    assert_eq!(
        kinds_and_texts("a\u{c}b"),
        pairs(&[
            (TokenType::Identifier, "a"),
            (TokenType::Illegal, "\u{c}"),
            (TokenType::Identifier, "b"),
        ])
    );
}

#[test]
fn kind_names() {
    assert_eq!(TokenType::EndOfFile.as_str(), "EOF");
    assert_eq!(TokenType::Illegal.as_str(), "Illegal");
    assert_eq!(TokenType::OpenBrace.as_str(), "{");
    assert_eq!(TokenType::CloseBrace.as_str(), "}");
    assert_eq!(TokenType::GreaterOrEqual.as_str(), ">=");
    assert_eq!(TokenType::Variable.as_str(), "Variable");
}

fn declaration(initializer: Option<&str>) -> VarStatement {
    VarStatement {
        token: token(TokenType::Variable, "var"),
        name: Identifier { token: token(TokenType::Identifier, "x"), value: "x".to_string() },
        value: initializer.map(|name| {
            ExpressionNode::IdentifierNode(Identifier {
                token: token(TokenType::Identifier, name),
                value: name.to_string(),
            })
        }),
    }
}

#[test]
fn declaration_without_initializer_renders() {
    let statement = declaration(None);
    assert_eq!(statement.print_string(), "var x = ;");
    assert_eq!(statement.token_literal(), "var");
}

#[test]
fn declaration_with_initializer_renders() {
    let statement = declaration(Some("y"));
    assert_eq!(statement.print_string(), "var x = y;");
    let expression = statement.value.as_ref().unwrap();
    assert_eq!(expression.print_string(), "y");
    assert_eq!(expression.token_literal(), "y");
}

#[test]
fn program_renders_its_statements_in_order() {
    let program = Program {
        statements: vec![
            StatementNode::Var(declaration(Some("y"))),
            StatementNode::Var(declaration(None)),
        ],
    };
    assert_eq!(program.print_string(), "var x = y;var x = ;");
    assert_eq!(program.token_literal(), "var");
    let empty = Program { statements: vec![] };
    assert_eq!(empty.print_string(), "");
    assert_eq!(empty.token_literal(), "");
}

#[test]
fn parser_holds_a_window_of_two_tokens() {
    let mut parser = Parser::new(Lexer::new("a + b")).unwrap();
    assert!(parser.next_token().is_ok());
    assert!(parser.next_token().is_ok());
    assert!(parser.next_token().is_ok());
    assert!(parser.parse_program().is_none());
    assert!(Parser::new(Lexer::new("1. + b")).is_err());
    assert!(Parser::new(Lexer::new("a 1_")).is_err());
}
