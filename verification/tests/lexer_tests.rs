use carbide::lexer::{Lexer, Token};

#[test]
fn test_lex_primitives_and_pointers() {
    let source = "int* p; char const* s; void** q;";
    let tokens = Lexer::new(source).tokenize().unwrap();
    assert_eq!(
        tokens,
        vec![
            Token::Int,
            Token::Star,
            Token::Ident("p".to_string()),
            Token::Semicolon,
            Token::Char,
            Token::Const,
            Token::Star,
            Token::Ident("s".to_string()),
            Token::Semicolon,
            Token::Void,
            Token::Star,
            Token::Star,
            Token::Ident("q".to_string()),
            Token::Semicolon,
        ]
    );
}

#[test]
fn test_lex_function() {
    let source = "fn add(x: int, y: int*) -> int { return x + *y; }";
    let tokens = Lexer::new(source).tokenize().unwrap();
    assert_eq!(
        tokens,
        vec![
            Token::Fn,
            Token::Ident("add".to_string()),
            Token::OpenParen,
            Token::Ident("x".to_string()),
            Token::Colon,
            Token::Int,
            Token::Comma,
            Token::Ident("y".to_string()),
            Token::Colon,
            Token::Int,
            Token::Star,
            Token::CloseParen,
            Token::Arrow,
            Token::Int,
            Token::OpenBrace,
            Token::Return,
            Token::Ident("x".to_string()),
            Token::Plus,
            Token::Star,
            Token::Ident("y".to_string()),
            Token::Semicolon,
            Token::CloseBrace,
        ]
    );
}

#[test]
fn test_comments_and_strings() {
    let source = r#"
            // This is a comment
            let x = "hello world";
            /* block comment */
            let c = 'a';
        "#;
    let tokens = Lexer::new(source).tokenize().unwrap();
    assert_eq!(
        tokens,
        vec![
            Token::Let,
            Token::Ident("x".to_string()),
            Token::Eq,
            Token::StrLit("hello world".to_string()),
            Token::Semicolon,
            Token::Let,
            Token::Ident("c".to_string()),
            Token::Eq,
            Token::CharLit('a'),
            Token::Semicolon,
        ]
    );
}

#[test]
fn test_lex_proc() {
    let source = "proc run() {}";
    let tokens = Lexer::new(source).tokenize().unwrap();
    assert_eq!(
        tokens,
        vec![
            Token::Proc,
            Token::Ident("run".to_string()),
            Token::OpenParen,
            Token::CloseParen,
            Token::OpenBrace,
            Token::CloseBrace,
        ]
    );
}
