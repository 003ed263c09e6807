use rsh::parser::{ParseError, Parser, RedirectMode, RshNode};

#[test]
fn test_parser_vanilla() {
    let input = "echo hello";
    let mut parser = Parser::new(input);
    let result = parser.parse();
    assert!(result.is_ok());
    let unwrapped = result.unwrap();
    assert_eq!(
        unwrapped,
        RshNode::Command { name: "echo".to_string(), args: vec!["hello".to_string()] }
    );
}

#[test]
fn test_parser_vanilla_double_quote() {
    let input = "echo \"hello world\"";
    let mut parser = Parser::new(input);
    let result = parser.parse();
    assert!(result.is_ok());
    let unwrapped = result.unwrap();
    assert_eq!(
        unwrapped,
        RshNode::Command { name: "echo".to_string(), args: vec!["hello world".to_string()] }
    );
}

#[test]
fn test_parser_vanilla_single_quote() {
    let input = "echo 'hello world'";
    let mut parser = Parser::new(input);
    let result = parser.parse();
    assert!(result.is_ok());
    let unwrapped = result.unwrap();
    assert_eq!(
        unwrapped,
        RshNode::Command { name: "echo".to_string(), args: vec!["hello world".to_string()] }
    );
}

#[test]
fn test_parser_pipe() {
    let input = "ls -l|grep .rs";
    let mut parser = Parser::new(input);
    let result = parser.parse();
    assert!(result.is_ok());
    let unwrapped = result.unwrap();
    assert_eq!(
        unwrapped,
        RshNode::Pipe {
            left: Box::new(RshNode::Command {
                name: "ls".to_string(),
                args: vec!["-l".to_string()],
            }),
            right: Box::new(RshNode::Command {
                name: "grep".to_string(),
                args: vec![".rs".to_string()],
            }),
        }
    );
}

#[test]
fn test_parser_pipe_multiple() {
    let input = "ls -l | grep .rs | wc -l";
    let mut parser = Parser::new(input);
    let result = parser.parse();
    if !result.is_ok() {
        println!("{:?}", result);
        assert!(false);
    }
    let unwrapped = result.unwrap();
    assert_eq!(
        unwrapped,
        RshNode::Pipe {
            left: Box::new(RshNode::Command {
                name: "ls".to_string(),
                args: vec!["-l".to_string()],
            }),
            right: Box::new(RshNode::Pipe {
                left: Box::new(RshNode::Command {
                    name: "grep".to_string(),
                    args: vec![".rs".to_string()],
                }),
                right: Box::new(RshNode::Command {
                    name: "wc".to_string(),
                    args: vec!["-l".to_string()],
                }),
            }),
        }
    );
}

#[test]
fn test_parser_pipe_multiple_background() {
    let input = "ls -l|grep .rs|wc -l&";
    let mut parser = Parser::new(input);
    let result = parser.parse();
    assert!(result.is_ok());
    let unwrapped = result.unwrap();

    assert_eq!(
        unwrapped,
        RshNode::Pipe {
            left: Box::new(RshNode::Command {
                name: "ls".to_string(),
                args: vec!["-l".to_string()],
            }),
            right: Box::new(RshNode::Pipe {
                left: Box::new(RshNode::Command {
                    name: "grep".to_string(),
                    args: vec![".rs".to_string()],
                }),
                right: Box::new(RshNode::Background {
                    command: Box::new(RshNode::Command {
                        name: "wc".to_string(),
                        args: vec!["-l".to_string()],
                    }),
                }),
            }),
        }
    );
}

#[test]
fn test_parser_pipe_multiple_background_deep() {
    let input = "ls -l|grep .rs|wc -l&|something|something else";
    let mut parser = Parser::new(input);
    let result = parser.parse();
    assert!(result.is_ok());
    let unwrapped = result.unwrap();

    assert_eq!(
        unwrapped,
        RshNode::Pipe {
            left: Box::new(RshNode::Command {
                name: "ls".to_string(),
                args: vec!["-l".to_string()],
            }),
            right: Box::new(RshNode::Pipe {
                left: Box::new(RshNode::Command {
                    name: "grep".to_string(),
                    args: vec![".rs".to_string()],
                }),
                right: Box::new(RshNode::Pipe {
                    left: Box::new(RshNode::Background {
                        command: Box::new(RshNode::Command {
                            name: "wc".to_string(),
                            args: vec!["-l".to_string()],
                        }),
                    }),
                    right: Box::new(RshNode::Pipe {
                        left: Box::new(RshNode::Command {
                            name: "something".to_string(),
                            args: vec![],
                        }),
                        right: Box::new(RshNode::Command {
                            name: "something".to_string(),
                            args: vec!["else".to_string()],
                        }),
                    }),
                }),
            }),
        }
    );
}

#[test]
fn test_parser_redirec_to_file() {
    let input = "ls -l > dir.txt";
    let mut parser = Parser::new(input);
    let result = parser.parse();
    assert!(result.is_ok());
    let unwrapped = result.unwrap();
    assert_eq!(
        unwrapped,
        RshNode::Redirect {
            command: Box::new(RshNode::Command {
                name: "ls".to_string(),
                args: vec!["-l".to_string()],
            }),
            file: "dir.txt".to_string(),
            mode: RedirectMode::Write,
        }
    );
}

#[test]
fn test_parser_redirec_from_file() {
    let input = "cat < dir.txt";
    let mut parser = Parser::new(input);
    let result = parser.parse();
    assert!(result.is_ok());
    let unwrapped = result.unwrap();
    assert_eq!(
        unwrapped,
        RshNode::Redirect {
            command: Box::new(RshNode::Command { name: "cat".to_string(), args: vec![] }),
            file: "dir.txt".to_string(),
            mode: RedirectMode::Read,
        }
    );
}

#[test]
fn test_parser_unterminated_single_quote() {
    let input = "echo 'unterminated";
    let mut parser = Parser::new(input);
    let result = parser.parse();
    assert!(matches!(result, Err(ParseError::UnexpectedEOF)));
}

#[test]
fn test_parser_trailing_pipe() {
    let mut parser = Parser::new("ls -l|");
    let result = parser.parse();
    assert!(matches!(result, Err(ParseError::UnexpectedEOF)));
}

#[test]
fn test_parser_trailing_redirect() {
    let mut parser = Parser::new("ls >");
    let result = parser.parse();
    assert!(matches!(result, Err(ParseError::UnexpectedEOF)));
}

#[test]
fn test_parser_empty_line() {
    let mut parser = Parser::new("");
    let result = parser.parse();
    assert!(matches!(result, Err(ParseError::UnexpectedEOF)));
}

#[test]
fn test_parser_operator_as_name() {
    let mut parser = Parser::new("| ls");
    let result = parser.parse();
    match result {
        Err(ParseError::UnexpectedToken(text)) => assert_eq!(text, "|"),
        other => panic!("{:?}", other),
    }
}

#[test]
fn test_parser_redirect_file_as_operator() {
    let mut parser = Parser::new("ls > >");
    let result = parser.parse();
    match result {
        Err(ParseError::UnexpectedToken(text)) => assert_eq!(text, ">"),
        other => panic!("{:?}", other),
    }
}

#[test]
fn test_parser_idempotent() {
    let input = "ls -l | grep .rs > out.txt &";
    let mut first = Parser::new(input);
    let mut second = Parser::new(input);
    let a = first.parse().unwrap();
    let b = second.parse().unwrap();
    assert_eq!(a, b);
}

#[test]
fn test_node_getters() {
    let mut parser = Parser::new("cat < dir.txt");
    let node = parser.parse().unwrap();
    assert!(!node.is_background());
    assert_eq!(node.get_name(), Some("cat"));
    assert_eq!(node.get_args().map(|a| a.len()), Some(0));

    let mut parser = Parser::new("sleep 100&");
    let node = parser.parse().unwrap();
    assert!(node.is_background());
    assert_eq!(node.get_name(), Some("sleep"));
    assert_eq!(node.get_args(), Some(&vec!["100".to_string()]));

    let mut parser = Parser::new("a|b");
    let node = parser.parse().unwrap();
    assert_eq!(node.get_name(), None);
    assert_eq!(node.get_args(), None);
}

#[test]
fn test_parser_empty_quotes() {
    let mut parser = Parser::new("echo ''");
    let result = parser.parse().unwrap();
    assert_eq!(
        result,
        RshNode::Command { name: "echo".to_string(), args: vec!["".to_string()] }
    );
}

#[test]
fn test_parser_quoted_operators_are_literal() {
    let mut parser = Parser::new("echo 'a|b > c'");
    let result = parser.parse().unwrap();
    assert_eq!(
        result,
        RshNode::Command { name: "echo".to_string(), args: vec!["a|b > c".to_string()] }
    );
}
