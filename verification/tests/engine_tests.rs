use rsh::engine::{Engine, EngineCtx, ProcSpec, StdinSpec, StdoutSpec};
use rsh::parser::{ParseError, Parser};
use rsh::shell::Rsh;

fn plan_of(line: &str) -> EngineCtx {
    let mut parser = Parser::new(line);
    let root = parser.parse().unwrap();
    let engine = Engine::new(root);
    engine.plan()
}

fn names_of(ctx: &EngineCtx) -> Vec<String> {
    let mut names: Vec<String> = Vec::new();
    let mut i = 0;
    while let Some(spec) = ctx.get_child(i) {
        names.push(spec.name.clone());
        i += 1;
    }
    names
}

#[test]
fn test_plan_single_command() {
    let ctx = plan_of("echo hello");
    assert_eq!(ctx.child_count(), 1);
    let spec = ctx.get_child(0).unwrap();
    assert_eq!(spec.name, "echo");
    assert_eq!(spec.args, vec!["hello".to_string()]);
    // standard streams of a standalone stage are captured pipe endpoints
    assert!(matches!(spec.stdin, StdinSpec::Piped));
    assert!(matches!(spec.stdout, StdoutSpec::Piped));
}

#[test]
fn test_plan_counts_one_process_per_command() {
    assert_eq!(plan_of("ls").child_count(), 1);
    assert_eq!(plan_of("ls -l|grep .rs").child_count(), 2);
    assert_eq!(plan_of("ls -l | grep .rs | wc -l").child_count(), 3);
    assert_eq!(plan_of("ls -l|grep .rs|wc -l&").child_count(), 3);
    assert_eq!(plan_of("ls > out.txt").child_count(), 1);
}

#[test]
fn test_plan_left_to_right_order() {
    let ctx = plan_of("ls -l | grep .rs | wc -l");
    assert_eq!(
        names_of(&ctx),
        vec!["ls".to_string(), "grep".to_string(), "wc".to_string()]
    );
}

#[test]
fn test_plan_pipe_wiring() {
    let ctx = plan_of("ls -l|grep .rs");
    let first = ctx.get_child(0).unwrap();
    let second = ctx.get_child(1).unwrap();
    assert!(matches!(first.stdin, StdinSpec::Piped));
    assert!(matches!(first.stdout, StdoutSpec::Piped));
    assert!(matches!(second.stdin, StdinSpec::PrevStdout));
    assert!(matches!(second.stdout, StdoutSpec::Piped));
    assert!(ctx.get_child(2).is_none());
}

#[test]
fn test_plan_redirect_write() {
    let ctx = plan_of("ls -l > dir.txt");
    assert_eq!(ctx.child_count(), 1);
    let spec = ctx.get_child(0).unwrap();
    assert_eq!(spec.name, "ls");
    assert_eq!(spec.args, vec!["-l".to_string()]);
    assert!(matches!(spec.stdin, StdinSpec::Piped));
    match &spec.stdout {
        StdoutSpec::FileWrite(file) => assert_eq!(file, "dir.txt"),
        other => panic!("{:?}", other),
    }
}

#[test]
fn test_plan_redirect_read() {
    let ctx = plan_of("cat < dir.txt");
    assert_eq!(ctx.child_count(), 1);
    let spec = ctx.get_child(0).unwrap();
    assert_eq!(spec.name, "cat");
    assert_eq!(spec.args.len(), 0);
    match &spec.stdin {
        StdinSpec::FileRead(file) => assert_eq!(file, "dir.txt"),
        other => panic!("{:?}", other),
    }
    assert!(matches!(spec.stdout, StdoutSpec::Piped));
}

#[test]
fn test_plan_background_is_foreground() {
    let foreground = plan_of("sleep 100");
    let background = plan_of("sleep 100&");
    assert_eq!(foreground.child_count(), background.child_count());
    let f = foreground.get_child(0).unwrap();
    let b = background.get_child(0).unwrap();
    assert_eq!(f.name, b.name);
    assert_eq!(f.args, b.args);
}

#[test]
fn test_ctx_take_last_child() {
    let mut ctx = plan_of("a|b|c");
    assert_eq!(ctx.child_count(), 3);
    let last = ctx.take_last_child().unwrap();
    assert_eq!(last.name, "c");
    assert_eq!(ctx.child_count(), 2);
    assert_eq!(ctx.get_last_child().unwrap().name, "b");
}

#[test]
fn test_ctx_pipe_flag() {
    let mut ctx = EngineCtx::new();
    assert!(!ctx.should_pipe());
    ctx.set_pipe(true);
    assert!(ctx.should_pipe());
    ctx.set_pipe(false);
    assert!(!ctx.should_pipe());
}

#[test]
fn test_ctx_add_child() {
    let mut ctx = EngineCtx::new();
    assert_eq!(ctx.child_count(), 0);
    ctx.add_child(ProcSpec {
        name: "ls".to_string(),
        args: vec![],
        stdin: StdinSpec::Piped,
        stdout: StdoutSpec::Piped,
    });
    assert_eq!(ctx.child_count(), 1);
    assert_eq!(ctx.get_last_child().unwrap().name, "ls");
}

#[test]
fn test_tree_checkers() {
    let mut parser = Parser::new("ls -l | grep .rs | wc -l");
    let root = parser.parse().unwrap();
    assert!(rsh::engine::tree_is_executable(&root));
    assert_eq!(rsh::engine::count_processes(&root), 3);
}

#[test]
fn test_eval_line_plans() {
    let ctx = Rsh::eval_line("ls -l | wc").unwrap();
    assert_eq!(ctx.child_count(), 2);
    assert_eq!(names_of(&ctx), vec!["ls".to_string(), "wc".to_string()]);
}

#[test]
fn test_eval_line_rejects() {
    let result = Rsh::eval_line("echo 'open");
    assert!(matches!(result, Err(ParseError::UnexpectedEOF)));
}

#[test]
fn test_is_exit() {
    assert!(Rsh::is_exit("exit"));
    assert!(!Rsh::is_exit("exit "));
    assert!(!Rsh::is_exit("ls"));
}

#[test]
fn test_rsh_prompt() {
    let shell = Rsh::new("rsh> ".to_string());
    assert_eq!(shell.get_prompt(), "rsh> ");
}
