use rsh::token::{Token, Tokenizer};

#[test]
fn test_tokenizer() {
    let input = "ls -l | grep .rs";
    let mut tokenizer = Tokenizer::new(input);
    assert_eq!(tokenizer.next_token(), Some(Token::Text("ls")));
    assert_eq!(tokenizer.next_token(), Some(Token::Space));
    assert_eq!(tokenizer.next_token(), Some(Token::Text("-l")));
    assert_eq!(tokenizer.next_token(), Some(Token::Space));
    assert_eq!(tokenizer.next_token(), Some(Token::Pipe));
    assert_eq!(tokenizer.next_token(), Some(Token::Space));
    assert_eq!(tokenizer.next_token(), Some(Token::Text("grep")));
    assert_eq!(tokenizer.next_token(), Some(Token::Space));
    assert_eq!(tokenizer.next_token(), Some(Token::Text(".rs")));
    assert_eq!(tokenizer.next_token(), None);
}

#[test]
fn test_tokenizer_2() {
    let input = "ls -l | grep .rs | wc -l";
    let mut tokenizer = Tokenizer::new(input);
    assert_eq!(tokenizer.next_token(), Some(Token::Text("ls")));
    assert_eq!(tokenizer.next_token(), Some(Token::Space));
    assert_eq!(tokenizer.next_token(), Some(Token::Text("-l")));
    assert_eq!(tokenizer.next_token(), Some(Token::Space));
    assert_eq!(tokenizer.next_token(), Some(Token::Pipe));
    assert_eq!(tokenizer.next_token(), Some(Token::Space));
    assert_eq!(tokenizer.next_token(), Some(Token::Text("grep")));
    assert_eq!(tokenizer.next_token(), Some(Token::Space));
    assert_eq!(tokenizer.next_token(), Some(Token::Text(".rs")));
    assert_eq!(tokenizer.next_token(), Some(Token::Space));
    assert_eq!(tokenizer.next_token(), Some(Token::Pipe));
    assert_eq!(tokenizer.next_token(), Some(Token::Space));
    assert_eq!(tokenizer.next_token(), Some(Token::Text("wc")));
    assert_eq!(tokenizer.next_token(), Some(Token::Space));
    assert_eq!(tokenizer.next_token(), Some(Token::Text("-l")));
    assert_eq!(tokenizer.next_token(), None);
}

#[test]
fn test_tokenizer_3() {
    let input = "ls -l | grep .rs | wc -l &";
    let mut tokenizer = Tokenizer::new(input);

    assert_eq!(tokenizer.next_token(), Some(Token::Text("ls")));
    assert_eq!(tokenizer.next_token(), Some(Token::Space));
    assert_eq!(tokenizer.next_token(), Some(Token::Text("-l")));
    assert_eq!(tokenizer.next_token(), Some(Token::Space));
    assert_eq!(tokenizer.next_token(), Some(Token::Pipe));
    assert_eq!(tokenizer.next_token(), Some(Token::Space));
    assert_eq!(tokenizer.next_token(), Some(Token::Text("grep")));
    assert_eq!(tokenizer.next_token(), Some(Token::Space));
    assert_eq!(tokenizer.next_token(), Some(Token::Text(".rs")));
    assert_eq!(tokenizer.next_token(), Some(Token::Space));
    assert_eq!(tokenizer.next_token(), Some(Token::Pipe));
    assert_eq!(tokenizer.next_token(), Some(Token::Space));
    assert_eq!(tokenizer.next_token(), Some(Token::Text("wc")));
    assert_eq!(tokenizer.next_token(), Some(Token::Space));
    assert_eq!(tokenizer.next_token(), Some(Token::Text("-l")));
    assert_eq!(tokenizer.next_token(), Some(Token::Space));
    assert_eq!(tokenizer.next_token(), Some(Token::Background));
    assert_eq!(tokenizer.next_token(), None);
}

#[test]
fn test_tokenizer_4() {
    let input = "ls -l | grep .rs | wc -l & echo \"hello world\"";
    let mut tokenizer = Tokenizer::new(input);
    assert_eq!(tokenizer.next_token(), Some(Token::Text("ls")));
    assert_eq!(tokenizer.next_token(), Some(Token::Space));
    assert_eq!(tokenizer.next_token(), Some(Token::Text("-l")));
    assert_eq!(tokenizer.next_token(), Some(Token::Space));
    assert_eq!(tokenizer.next_token(), Some(Token::Pipe));
    assert_eq!(tokenizer.next_token(), Some(Token::Space));
    assert_eq!(tokenizer.next_token(), Some(Token::Text("grep")));
    assert_eq!(tokenizer.next_token(), Some(Token::Space));
    assert_eq!(tokenizer.next_token(), Some(Token::Text(".rs")));
    assert_eq!(tokenizer.next_token(), Some(Token::Space));
    assert_eq!(tokenizer.next_token(), Some(Token::Pipe));
    assert_eq!(tokenizer.next_token(), Some(Token::Space));
    assert_eq!(tokenizer.next_token(), Some(Token::Text("wc")));
    assert_eq!(tokenizer.next_token(), Some(Token::Space));
    assert_eq!(tokenizer.next_token(), Some(Token::Text("-l")));
    assert_eq!(tokenizer.next_token(), Some(Token::Space));
    assert_eq!(tokenizer.next_token(), Some(Token::Background));
    assert_eq!(tokenizer.next_token(), Some(Token::Space));
    assert_eq!(tokenizer.next_token(), Some(Token::Text("echo")));
    assert_eq!(tokenizer.next_token(), Some(Token::Space));
    assert_eq!(tokenizer.next_token(), Some(Token::DoubleQuote));
    assert_eq!(tokenizer.next_token(), Some(Token::Text("hello")));
    assert_eq!(tokenizer.next_token(), Some(Token::Space));
    assert_eq!(tokenizer.next_token(), Some(Token::Text("world")));
    assert_eq!(tokenizer.next_token(), Some(Token::DoubleQuote));
    assert_eq!(tokenizer.next_token(), None);
}

#[test]
fn test_tokenizer_tight_syntax() {
    let input = "ls>out.txt";
    let mut tokenizer = Tokenizer::new(input);
    assert_eq!(tokenizer.next_token(), Some(Token::Text("ls")));
    assert_eq!(tokenizer.next_token(), Some(Token::RedirectOutput));
    assert_eq!(tokenizer.next_token(), Some(Token::Text("out.txt")));
    assert_eq!(tokenizer.next_token(), None);
}

#[test]
fn test_tokenizer_tight_syntax_2() {
    let input = "ls>out.txt|grep .txt";
    let mut tokenizer = Tokenizer::new(input);
    assert_eq!(tokenizer.next_token(), Some(Token::Text("ls")));
    assert_eq!(tokenizer.next_token(), Some(Token::RedirectOutput));
    assert_eq!(tokenizer.next_token(), Some(Token::Text("out.txt")));
    assert_eq!(tokenizer.next_token(), Some(Token::Pipe));
    assert_eq!(tokenizer.next_token(), Some(Token::Text("grep")));
    assert_eq!(tokenizer.next_token(), Some(Token::Space));
    assert_eq!(tokenizer.next_token(), Some(Token::Text(".txt")));
    assert_eq!(tokenizer.next_token(), None);
}

#[test]
fn test_tokenizer_round_trip() {
    let input = "ls -l|grep \"a b\" >out.txt&  c'd";
    let mut tokenizer = Tokenizer::new(input);
    let mut rebuilt = String::new();
    while let Some(token) = tokenizer.next_token() {
        rebuilt.push_str(&token.to_string());
    }
    assert_eq!(rebuilt, input);
}

#[test]
fn test_tokenizer_peek_does_not_consume() {
    let mut tokenizer = Tokenizer::new("ls -l");
    assert_eq!(tokenizer.peek_next(), Some(Token::Text("ls")));
    assert_eq!(tokenizer.peek_next(), Some(Token::Text("ls")));
    assert_eq!(tokenizer.next_token(), Some(Token::Text("ls")));
    assert_eq!(tokenizer.peek_next(), Some(Token::Space));
}

#[test]
fn test_tokenizer_skip_whitespace() {
    let mut tokenizer = Tokenizer::new("   \t ls");
    tokenizer.skip_whitespace();
    assert!(!tokenizer.is_empty());
    assert_eq!(tokenizer.next_token(), Some(Token::Text("ls")));
    assert!(tokenizer.is_empty());
    assert_eq!(tokenizer.next_token(), None);
}

#[test]
fn test_token_new_classifies() {
    assert_eq!(Token::new("|"), Token::Pipe);
    assert_eq!(Token::new(">"), Token::RedirectOutput);
    assert_eq!(Token::new("<"), Token::RedirectInput);
    assert_eq!(Token::new("&"), Token::Background);
    assert_eq!(Token::new("'"), Token::SingleQuote);
    assert_eq!(Token::new("\""), Token::DoubleQuote);
    assert_eq!(Token::new(" "), Token::Space);
    assert_eq!(Token::new("ls"), Token::Text("ls"));
    assert_eq!(Token::new("||"), Token::Text("||"));
}

#[test]
fn test_tokenizer_empty_input() {
    let mut tokenizer = Tokenizer::new("");
    assert!(tokenizer.is_empty());
    assert_eq!(tokenizer.next_token(), None);
    assert_eq!(tokenizer.peek_next(), None);
}
