//! The shell's orchestration core: what one line of input means.
//!
//! The read-eval loop around it owns the prompt, reads lines, runs the
//! planned processes and drains their output; those are input-output
//! matters outside this library. The decisions are here: whether a line is
//! the exit sentinel, and what evaluating a line yields — a parse error, or
//! the complete ordered plan of processes to spawn.

use vstd::prelude::*;

use crate::engine::{Engine, EngineCtx, count_commands, lemma_parse_count, plan_nodes};
use crate::parser::{ParseError, Parser, lemma_parse_spec_wf, parse_spec};
use crate::token::str_eq;

verus! {

/// The shell: holds the prompt shown before each line.
pub struct Rsh {
    prompt: String,
}

impl Rsh {
    /// The prompt shown before each line.
    pub closed spec fn prompt_text(&self) -> Seq<char> {
        self.prompt@
    }

    pub fn new(prompt: String) -> (r: Rsh)
        ensures
            r.prompt_text() == prompt@,
    {
        Rsh { prompt }
    }

    /// The prompt, for the loop that displays it.
    pub fn get_prompt(&self) -> (r: &String)
        ensures
            r@ == self.prompt_text(),
    {
        &self.prompt
    }

    /// Whether the line is the exit sentinel that ends the shell.
    pub fn is_exit(line: &str) -> (r: bool)
        ensures
            r == (line@ == "exit"@),
    {
        str_eq(line, "exit")
    }

    /// Evaluate one line: parse it, and on success walk the tree into the
    /// complete ordered plan of processes to spawn. A rejected line returns
    /// its parse error; nothing is planned for it.
    pub fn eval_line(line: &str) -> (r: Result<EngineCtx, ParseError>)
        requires
            line@.len() <= u32::MAX,
        ensures
            r matches Ok(ctx) ==> (parse_spec(line@) matches Result::Ok(n) && ctx.procs()
                == plan_nodes(n, false) && ctx.procs().len() == count_commands(n) && ctx.wf()),
            r matches Err(e) ==> (parse_spec(line@) matches Result::Err(pe) && e@ == pe),
    {
        let mut parser = Parser::new(line);
        match parser.parse() {
            Ok(root) => {
                proof {
                    lemma_parse_spec_wf(line@);
                    lemma_parse_count(line@);
                }
                let engine = Engine::new(root);
                Ok(engine.plan())
            },
            Err(e) => Err(e),
        }
    }
}

} // verus!
