//! The execution engine's planning core: walking a command tree and mapping
//! it to an ordered sequence of process-spawn requests with their stream
//! wiring.
//!
//! Spawning is an operating-system effect, so the engine here produces the
//! complete, ordered list of spawn requests (`ProcSpec`) that realizing the
//! tree takes: one request per command leaf, in left-to-right, depth-first
//! order, each with its standard-stream wiring decided. The caller performs
//! the spawns in order; a request whose input is `PrevStdout` connects to
//! the process spawned for the request before it.
//!
//! The traversal threads one piece of ambient state, the pipe-connect flag
//! on the context: descending into a pipe sets it for the right-hand side,
//! so that adjacent stages of a chain are linked, and clears it afterwards.

use vstd::prelude::*;

use crate::parser::{
    NodeV, RedirectMode, RshNode, exec_wf, lemma_parse_argument_len, lemma_parse_command_len,
    lemma_parse_simple_len, node_args, node_name, parse_argument_spec, parse_command_spec,
    parse_ops_spec, parse_simple_spec, parse_spec,
};
use crate::token::{TokenV, token_of};

verus! {

/// How a planned process's standard input is wired. A stream is never
/// inherited: what a redirect or pipe does not substitute is a fresh
/// captured pipe endpoint.
#[derive(Debug, Clone)]
pub enum StdinSpec {
    /// A fresh captured pipe.
    Piped,
    /// The previous spawned process's standard output; consuming it is a
    /// move, so each output feeds at most one later process.
    PrevStdout,
    /// The named file, opened for reading; it must already exist.
    FileRead(String),
}

/// How a planned process's standard output is wired. Standard error is
/// always a fresh captured pipe.
#[derive(Debug, Clone)]
pub enum StdoutSpec {
    /// A fresh captured pipe.
    Piped,
    /// The named file, created or truncated.
    FileWrite(String),
    /// The named file, created if absent and extended at its end.
    FileAppend(String),
}

/// Mathematical form of a standard-input wiring.
pub enum StdinV {
    Piped,
    PrevStdout,
    FileRead(Seq<char>),
}

/// Mathematical form of a standard-output wiring.
pub enum StdoutV {
    Piped,
    FileWrite(Seq<char>),
    FileAppend(Seq<char>),
}

impl View for StdinSpec {
    type V = StdinV;

    open spec fn view(&self) -> StdinV {
        match self {
            StdinSpec::Piped => StdinV::Piped,
            StdinSpec::PrevStdout => StdinV::PrevStdout,
            StdinSpec::FileRead(f) => StdinV::FileRead(f@),
        }
    }
}

impl View for StdoutSpec {
    type V = StdoutV;

    open spec fn view(&self) -> StdoutV {
        match self {
            StdoutSpec::Piped => StdoutV::Piped,
            StdoutSpec::FileWrite(f) => StdoutV::FileWrite(f@),
            StdoutSpec::FileAppend(f) => StdoutV::FileAppend(f@),
        }
    }
}

/// One process-spawn request: the command's name, its arguments in order,
/// and the wiring of its standard input and output.
#[derive(Debug, Clone)]
pub struct ProcSpec {
    pub name: String,
    pub args: Vec<String>,
    pub stdin: StdinSpec,
    pub stdout: StdoutSpec,
}

/// Mathematical form of a process-spawn request.
pub struct ProcV {
    pub name: Seq<char>,
    pub args: Seq<Seq<char>>,
    pub stdin: StdinV,
    pub stdout: StdoutV,
}

impl View for ProcSpec {
    type V = ProcV;

    open spec fn view(&self) -> ProcV {
        ProcV { name: self.name@, args: self.args.deep_view(), stdin: self.stdin@, stdout: self.stdout@ }
    }
}

/// How many processes realizing the tree spawns: one per command leaf, but
/// a redirect spawns exactly its wrapped command.
pub open spec fn count_commands(n: NodeV) -> nat
    decreases n,
{
    match n {
        NodeV::Command { .. } => 1,
        NodeV::Pipe { left, right } => count_commands(*left) + count_commands(*right),
        NodeV::Redirect { command, .. } => count_commands(*command),
        NodeV::Background { command } => count_commands(*command),
    }
}

/// The spawn requests that realizing `n` appends, in left-to-right,
/// depth-first order, when the pipe-connect flag holds `piped` on entry:
/// a command leaf becomes one request, its input the previous stage's
/// output when the flag is set and a fresh captured pipe otherwise; a
/// redirect becomes one request for its wrapped command with the named file
/// substituted for the stream its mode selects, the flag notwithstanding;
/// a pipe plans its left side, then its right side with the flag set; a
/// background mark plans its command unchanged.
pub open spec fn plan_nodes(n: NodeV, piped: bool) -> Seq<ProcV>
    decreases n,
{
    match n {
        NodeV::Command { name, args } => seq![
            ProcV {
                name,
                args,
                stdin: if piped {
                    StdinV::PrevStdout
                } else {
                    StdinV::Piped
                },
                stdout: StdoutV::Piped,
            },
        ],
        NodeV::Redirect { command, file, mode } => seq![
            ProcV {
                name: node_name(*command).unwrap(),
                args: node_args(*command).unwrap(),
                stdin: match mode {
                    RedirectMode::Read => StdinV::FileRead(file),
                    RedirectMode::Write => StdinV::Piped,
                    RedirectMode::Append => StdinV::Piped,
                },
                stdout: match mode {
                    RedirectMode::Read => StdoutV::Piped,
                    RedirectMode::Write => StdoutV::FileWrite(file),
                    RedirectMode::Append => StdoutV::FileAppend(file),
                },
            },
        ],
        NodeV::Pipe { left, right } => plan_nodes(*left, piped) + plan_nodes(*right, true),
        NodeV::Background { command } => plan_nodes(*command, piped),
    }
}

/// The pipe-connect flag's value after realizing `n`, entered with `piped`.
pub open spec fn flag_after(n: NodeV, piped: bool) -> bool
    decreases n,
{
    match n {
        NodeV::Command { .. } => piped,
        NodeV::Redirect { .. } => piped,
        NodeV::Pipe { .. } => false,
        NodeV::Background { command } => flag_after(*command, piped),
    }
}

/// Every tree's plan holds at least one spawn request.
proof fn lemma_plan_pos(n: NodeV, piped: bool)
    ensures
        plan_nodes(n, piped).len() >= 1,
    decreases n,
{
    match n {
        NodeV::Command { .. } => {},
        NodeV::Pipe { left, right } => {
            lemma_plan_pos(*left, piped);
            lemma_plan_pos(*right, true);
        },
        NodeV::Redirect { .. } => {},
        NodeV::Background { command } => {
            lemma_plan_pos(*command, piped);
        },
    }
}

/// In a plan begun with the pipe-connect flag clear, the first request
/// never takes a previous stage's output: every pipe-connected request has
/// a predecessor whose output it can consume.
pub proof fn lemma_plan_first_stands_alone(n: NodeV, piped: bool)
    requires
        !piped,
    ensures
        plan_nodes(n, piped)[0].stdin != StdinV::PrevStdout,
    decreases n,
{
    match n {
        NodeV::Command { .. } => {},
        NodeV::Pipe { left, right } => {
            lemma_plan_pos(*left, piped);
            lemma_plan_first_stands_alone(*left, piped);
        },
        NodeV::Redirect { .. } => {},
        NodeV::Background { command } => {
            lemma_plan_first_stands_alone(*command, piped);
        },
    }
}

/// The three reachable stream configurations of a planned command: a
/// standalone stage (both streams captured pipe endpoints), a
/// pipe-connected stage (the previous stage's output feeds it), or a stage
/// with one stream substituted by a redirect's file.
pub open spec fn wiring_reachable(p: ProcV) -> bool {
    ||| (p.stdin == StdinV::Piped && p.stdout == StdoutV::Piped)
    ||| (p.stdin == StdinV::PrevStdout && p.stdout == StdoutV::Piped)
    ||| (p.stdin matches StdinV::FileRead(_) && p.stdout == StdoutV::Piped)
    ||| (p.stdin == StdinV::Piped && (p.stdout matches StdoutV::FileWrite(_) || p.stdout
        matches StdoutV::FileAppend(_)))
}

/// Whether every request of a sequence is wired in a reachable
/// configuration.
pub open spec fn all_wired(s: Seq<ProcV>) -> bool {
    forall|i: int| 0 <= i < s.len() ==> wiring_reachable(#[trigger] s[i])
}

/// Every spawn request a plan records is wired in one of the three
/// reachable configurations; pipe connection and redirect substitution are
/// never composed on one stage.
pub proof fn lemma_plan_wiring(n: NodeV, piped: bool)
    ensures
        all_wired(plan_nodes(n, piped)),
    decreases n,
{
    match n {
        NodeV::Command { .. } => {
            assert forall|i: int| 0 <= i < plan_nodes(n, piped).len() implies wiring_reachable(
                plan_nodes(n, piped)[i],
            ) by {
                assert(i == 0);
                assert(wiring_reachable(plan_nodes(n, piped)[0]));
            }
        },
        NodeV::Pipe { left, right } => {
            lemma_plan_wiring(*left, piped);
            lemma_plan_wiring(*right, true);
            let lp = plan_nodes(*left, piped);
            let rp = plan_nodes(*right, true);
            assert forall|i: int| 0 <= i < plan_nodes(n, piped).len() implies wiring_reachable(
                plan_nodes(n, piped)[i],
            ) by {
                if i < lp.len() {
                    assert(plan_nodes(n, piped)[i] == lp[i]);
                    assert(wiring_reachable(lp[i]));
                } else {
                    assert(plan_nodes(n, piped)[i] == rp[i - lp.len()]);
                    assert(wiring_reachable(rp[i - lp.len()]));
                }
            }
        },
        NodeV::Redirect { .. } => {
            assert forall|i: int| 0 <= i < plan_nodes(n, piped).len() implies wiring_reachable(
                plan_nodes(n, piped)[i],
            ) by {
                assert(i == 0);
                assert(wiring_reachable(plan_nodes(n, piped)[0]));
            }
        },
        NodeV::Background { command } => {
            lemma_plan_wiring(*command, piped);
        },
    }
}

/// Every tree spawns at least one process.
pub proof fn lemma_count_pos(n: NodeV)
    ensures
        count_commands(n) >= 1,
    decreases n,
{
    match n {
        NodeV::Command { .. } => {},
        NodeV::Pipe { left, right } => {
            lemma_count_pos(*left);
            lemma_count_pos(*right);
        },
        NodeV::Redirect { command, .. } => {
            lemma_count_pos(*command);
        },
        NodeV::Background { command } => {
            lemma_count_pos(*command);
        },
    }
}

/// The plan of a tree that is safe to execute spawns exactly one process
/// per command leaf, so a tree with N command leaves is realized by exactly
/// N processes, in left-to-right order.
pub proof fn lemma_plan_count(n: NodeV, piped: bool)
    requires
        exec_wf(n),
    ensures
        plan_nodes(n, piped).len() == count_commands(n),
    decreases n,
{
    match n {
        NodeV::Command { .. } => {},
        NodeV::Pipe { left, right } => {
            lemma_plan_count(*left, piped);
            lemma_plan_count(*right, true);
        },
        NodeV::Redirect { command, .. } => {
            lemma_named_count(*command);
        },
        NodeV::Background { command } => {
            lemma_plan_count(*command, piped);
        },
    }
}

/// A tree that names a single command has exactly one command leaf.
proof fn lemma_named_count(n: NodeV)
    requires
        node_name(n) is Some,
    ensures
        count_commands(n) == 1,
    decreases n,
{
    match n {
        NodeV::Command { .. } => {},
        NodeV::Redirect { command, .. } => {
            lemma_named_count(*command);
        },
        NodeV::Background { command } => {
            lemma_named_count(*command);
        },
        NodeV::Pipe { .. } => {},
    }
}

proof fn lemma_parse_ops_count(acc: NodeV, s: Seq<char>)
    ensures
        parse_ops_spec(acc, s) matches Result::Ok(p) ==> count_commands(p.0) + p.1.len()
            <= count_commands(acc) + s.len(),
    decreases s.len(), 0nat,
{
    match token_of(s) {
        Option::Some(TokenV::Pipe) => {
            lemma_parse_command_count(s.skip(1));
        },
        Option::Some(TokenV::RedirectOutput) => {
            lemma_parse_argument_len(s.skip(1));
            match parse_argument_spec(s.skip(1)) {
                Result::Ok((file, rest)) => {
                    lemma_parse_ops_count(
                        NodeV::Redirect { command: Box::new(acc), file, mode: RedirectMode::Write },
                        rest,
                    );
                },
                Result::Err(_) => {},
            }
        },
        Option::Some(TokenV::RedirectInput) => {
            lemma_parse_argument_len(s.skip(1));
            match parse_argument_spec(s.skip(1)) {
                Result::Ok((file, rest)) => {
                    lemma_parse_ops_count(
                        NodeV::Redirect { command: Box::new(acc), file, mode: RedirectMode::Read },
                        rest,
                    );
                },
                Result::Err(_) => {},
            }
        },
        Option::Some(TokenV::Background) => {
            lemma_parse_ops_count(NodeV::Background { command: Box::new(acc) }, s.skip(1));
        },
        _ => {},
    }
}

proof fn lemma_parse_command_count(s: Seq<char>)
    ensures
        parse_command_spec(s) matches Result::Ok(p) ==> count_commands(p.0) + p.1.len() <= s.len(),
    decreases s.len(), 1nat,
{
    lemma_parse_simple_len(s);
    match parse_simple_spec(s) {
        Result::Ok((cmd, rest)) => {
            lemma_parse_ops_count(cmd, rest);
        },
        Result::Err(_) => {},
    }
}

/// A line of N characters parses to a tree of at most N command leaves, so
/// the planned process count fits every machine limit the line itself fits.
pub proof fn lemma_parse_count(s: Seq<char>)
    ensures
        parse_spec(s) matches Result::Ok(n) ==> count_commands(n) <= s.len(),
{
    lemma_parse_command_count(s);
}

/// Runtime form of `exec_wf`: whether the tree is safe to hand to the
/// planner, for a caller holding a tree that did not come from the parser.
pub fn tree_is_executable(node: &RshNode) -> (r: bool)
    ensures
        r == exec_wf(node@),
    decreases *node,
{
    match node {
        RshNode::Command { .. } => true,
        RshNode::Pipe { left, right } => tree_is_executable(left) && tree_is_executable(right),
        RshNode::Redirect { command, .. } => command.get_name().is_some()
            && command.get_args().is_some() && tree_is_executable(command),
        RshNode::Background { command } => tree_is_executable(command),
    }
}

/// The number of processes realizing the tree spawns, clipped to the
/// counter's range.
pub fn count_processes(node: &RshNode) -> (r: u64)
    ensures
        count_commands(node@) <= u64::MAX ==> r == count_commands(node@),
        count_commands(node@) > u64::MAX ==> r == u64::MAX,
    decreases *node,
{
    match node {
        RshNode::Command { .. } => 1,
        RshNode::Pipe { left, right } => {
            proof {
                lemma_count_pos(left@);
                lemma_count_pos(right@);
            }
            let l = count_processes(left);
            let r2 = count_processes(right);
            if l > u64::MAX - r2 {
                u64::MAX
            } else {
                l + r2
            }
        },
        RshNode::Redirect { command, .. } => count_processes(command),
        RshNode::Background { command } => count_processes(command),
    }
}

/// The run context that planning a tree builds: the ordered spawn requests,
/// how many commands were planned, and the pipe-connect flag directing
/// whether the next command's standard input attaches to the previous
/// command's standard output.
#[derive(Debug)]
pub struct EngineCtx {
    command_count: u32,
    should_pipe: bool,
    children: Vec<ProcSpec>,
}

impl EngineCtx {
    /// The spawn requests recorded so far, in spawn order.
    pub closed spec fn procs(&self) -> Seq<ProcV> {
        self.children@.map_values(|p: ProcSpec| p@)
    }

    /// The pipe-connect flag.
    pub closed spec fn pipe_flag(&self) -> bool {
        self.should_pipe
    }

    /// The command counter always counts the recorded spawn requests.
    pub closed spec fn wf(&self) -> bool {
        self.command_count == self.children@.len()
    }

    pub fn new() -> (ctx: EngineCtx)
        ensures
            ctx.procs() == Seq::<ProcV>::empty(),
            !ctx.pipe_flag(),
            ctx.wf(),
    {
        let ctx = EngineCtx { command_count: 0, should_pipe: false, children: Vec::new() };
        proof {
            assert(ctx.procs() =~= Seq::<ProcV>::empty());
        }
        ctx
    }

    /// Record one more spawn request.
    pub fn add_child(&mut self, child: ProcSpec)
        requires
            old(self).wf(),
            old(self).procs().len() < u32::MAX,
        ensures
            final(self).wf(),
            final(self).procs() == old(self).procs().push(child@),
            final(self).pipe_flag() == old(self).pipe_flag(),
    {
        self.children.push(child);
        self.command_count = self.command_count + 1;
        proof {
            assert(self.procs() =~= old(self).procs().push(child@));
        }
    }

    /// The spawn request at `index`, in spawn order.
    pub fn get_child(&self, index: usize) -> (r: Option<&ProcSpec>)
        ensures
            index < self.procs().len() ==> (r matches Some(p) && p@ == self.procs()[index as int]),
            index >= self.procs().len() ==> r is None,
    {
        if index < self.children.len() {
            Some(&self.children[index])
        } else {
            None
        }
    }

    /// The most recently recorded spawn request.
    pub fn get_last_child(&self) -> (r: Option<&ProcSpec>)
        ensures
            self.procs().len() > 0 ==> (r matches Some(p) && p@ == self.procs().last()),
            self.procs().len() == 0 ==> r is None,
    {
        if self.children.len() > 0 {
            Some(&self.children[self.children.len() - 1])
        } else {
            None
        }
    }

    /// Remove and return the most recently recorded spawn request; the
    /// earlier requests stay owned by the context.
    pub fn take_last_child(&mut self) -> (r: Option<ProcSpec>)
        ensures
            old(self).procs().len() > 0 ==> (r matches Some(p) && p@ == old(self).procs().last()
                && final(self).procs() == old(self).procs().drop_last()),
            old(self).procs().len() == 0 ==> r is None && final(self).procs() == old(self).procs(),
            final(self).pipe_flag() == old(self).pipe_flag(),
    {
        let r = self.children.pop();
        proof {
            if old(self).procs().len() > 0 {
                assert(self.procs() =~= old(self).procs().drop_last());
            } else {
                assert(self.procs() =~= old(self).procs());
            }
        }
        r
    }

    /// How many spawn requests have been recorded.
    pub fn child_count(&self) -> (r: usize)
        requires
            self.wf(),
        ensures
            r == self.procs().len(),
    {
        self.children.len()
    }

    /// Whether the next planned command's input attaches to the previous
    /// command's output.
    pub fn should_pipe(&self) -> (r: bool)
        ensures
            r == self.pipe_flag(),
    {
        self.should_pipe
    }

    pub fn set_pipe(&mut self, should_pipe: bool)
        ensures
            final(self).pipe_flag() == should_pipe,
            final(self).procs() == old(self).procs(),
            final(self).wf() == old(self).wf(),
    {
        self.should_pipe = should_pipe;
    }
}

/// The engine: holds the root of the tree to realize and walks it, building
/// the ordered spawn requests in an `EngineCtx`.
pub struct Engine {
    root: RshNode,
}

impl View for Engine {
    type V = NodeV;

    closed spec fn view(&self) -> NodeV {
        self.root@
    }
}

impl Engine {
    pub fn new(root: RshNode) -> (e: Engine)
        ensures
            e@ == root@,
    {
        Engine { root }
    }

    /// Walk the tree and build the complete, ordered sequence of spawn
    /// requests that realizes it: exactly one request per command leaf, in
    /// left-to-right, depth-first order.
    pub fn plan(&self) -> (ctx: EngineCtx)
        requires
            exec_wf(self@),
            count_commands(self@) <= u32::MAX,
        ensures
            ctx.procs() == plan_nodes(self@, false),
            ctx.procs().len() == count_commands(self@),
            ctx.wf(),
    {
        let mut ctx = EngineCtx::new();
        self.execute_node(&self.root, &mut ctx);
        proof {
            assert(Seq::<ProcV>::empty() + plan_nodes(self@, false) =~= plan_nodes(self@, false));
            lemma_plan_count(self@, false);
        }
        ctx
    }

    fn execute_node(&self, root: &RshNode, ctx: &mut EngineCtx)
        requires
            exec_wf(root@),
            old(ctx).wf(),
            old(ctx).pipe_flag() ==> old(ctx).procs().len() > 0,
            old(ctx).procs().len() + count_commands(root@) <= u32::MAX,
        ensures
            final(ctx).wf(),
            final(ctx).procs() == old(ctx).procs() + plan_nodes(root@, old(ctx).pipe_flag()),
            final(ctx).pipe_flag() == flag_after(root@, old(ctx).pipe_flag()),
        decreases *root,
    {
        proof {
            lemma_count_pos(root@);
        }
        match root {
            RshNode::Command { name, args } => {
                if ctx.should_pipe() {
                    self.execute_cmd_pipe(name.as_str(), args, ctx);
                } else {
                    self.execute_cmd_std(name.as_str(), args, ctx);
                }
                proof {
                    assert(ctx.procs() =~= old(ctx).procs() + plan_nodes(
                        root@,
                        old(ctx).pipe_flag(),
                    ));
                }
            },
            RshNode::Redirect { command, file, mode } => {
                let name = command.get_name().unwrap();
                let args = command.get_args().unwrap();
                self.execute_cmd_redir(name, args, file.as_str(), mode, ctx);
                proof {
                    assert(ctx.procs() =~= old(ctx).procs() + plan_nodes(
                        root@,
                        old(ctx).pipe_flag(),
                    ));
                }
            },
            RshNode::Pipe { left, right } => {
                proof {
                    lemma_count_pos(left@);
                    lemma_count_pos(right@);
                    lemma_plan_count(left@, old(ctx).pipe_flag());
                }
                self.execute_node(left, ctx);
                ctx.set_pipe(true);
                self.execute_node(right, ctx);
                ctx.set_pipe(false);
                proof {
                    assert(ctx.procs() =~= old(ctx).procs() + plan_nodes(
                        root@,
                        old(ctx).pipe_flag(),
                    ));
                }
            },
            RshNode::Background { command } => {
                self.execute_node(command, ctx);
            },
        }
    }

    /// Plan one command standing alone: both its standard streams default
    /// to fresh captured pipe endpoints, not inherited ones.
    fn execute_cmd_std(&self, name: &str, args: &Vec<String>, ctx: &mut EngineCtx)
        requires
            old(ctx).wf(),
            old(ctx).procs().len() < u32::MAX,
        ensures
            final(ctx).wf(),
            final(ctx).procs() == old(ctx).procs().push(
                ProcV {
                    name: name@,
                    args: args.deep_view(),
                    stdin: StdinV::Piped,
                    stdout: StdoutV::Piped,
                },
            ),
            final(ctx).pipe_flag() == old(ctx).pipe_flag(),
    {
        let mut command = self.setup_command(name, args);
        self.setup_io(&mut command, None, None);
        ctx.add_child(command);
    }

    /// Plan one command whose input is the previous stage's output; the
    /// ownership of that output moves to the new process when it is
    /// spawned, so each output is consumed exactly once.
    fn execute_cmd_pipe(&self, name: &str, args: &Vec<String>, ctx: &mut EngineCtx)
        requires
            old(ctx).wf(),
            old(ctx).procs().len() > 0,
            old(ctx).procs().len() < u32::MAX,
        ensures
            final(ctx).wf(),
            final(ctx).procs() == old(ctx).procs().push(
                ProcV {
                    name: name@,
                    args: args.deep_view(),
                    stdin: StdinV::PrevStdout,
                    stdout: StdoutV::Piped,
                },
            ),
            final(ctx).pipe_flag() == old(ctx).pipe_flag(),
    {
        let mut command = self.setup_command(name, args);
        self.setup_io(&mut command, Some(StdinSpec::PrevStdout), None);
        ctx.add_child(command);
    }

    /// Plan one command with the named file substituted for the stream the
    /// mode selects: reading replaces its input, writing or appending its
    /// output. The file is opened before the process is spawned, so an
    /// open failure spawns nothing.
    fn execute_cmd_redir(
        &self,
        name: &str,
        args: &Vec<String>,
        file: &str,
        mode: &RedirectMode,
        ctx: &mut EngineCtx,
    )
        requires
            old(ctx).wf(),
            old(ctx).procs().len() < u32::MAX,
        ensures
            final(ctx).wf(),
            final(ctx).procs() == old(ctx).procs().push(
                ProcV {
                    name: name@,
                    args: args.deep_view(),
                    stdin: match mode {
                        RedirectMode::Read => StdinV::FileRead(file@),
                        RedirectMode::Write => StdinV::Piped,
                        RedirectMode::Append => StdinV::Piped,
                    },
                    stdout: match mode {
                        RedirectMode::Read => StdoutV::Piped,
                        RedirectMode::Write => StdoutV::FileWrite(file@),
                        RedirectMode::Append => StdoutV::FileAppend(file@),
                    },
                },
            ),
            final(ctx).pipe_flag() == old(ctx).pipe_flag(),
    {
        let mut command = self.setup_command(name, args);
        match mode {
            RedirectMode::Read => {
                self.setup_io(&mut command, Some(StdinSpec::FileRead(String::from_str(file))), None);
            },
            RedirectMode::Write => {
                self.setup_io(
                    &mut command,
                    None,
                    Some(StdoutSpec::FileWrite(String::from_str(file))),
                );
            },
            RedirectMode::Append => {
                self.setup_io(
                    &mut command,
                    None,
                    Some(StdoutSpec::FileAppend(String::from_str(file))),
                );
            },
        }
        ctx.add_child(command);
    }

    /// A spawn request for `name` with `args`, both streams still captured
    /// pipes.
    fn setup_command(&self, name: &str, args: &Vec<String>) -> (r: ProcSpec)
        ensures
            r@.name == name@,
            r@.args == args.deep_view(),
            r@.stdin == StdinV::Piped,
            r@.stdout == StdoutV::Piped,
    {
        let mut copied: Vec<String> = Vec::new();
        let mut i: usize = 0;
        proof {
            assert(copied.deep_view() =~= args.deep_view().take(0));
        }
        while i < args.len()
            invariant
                i <= args@.len(),
                copied.deep_view() == args.deep_view().take(i as int),
            decreases args@.len() - i,
        {
            let ghost before = copied.deep_view();
            copied.push(args[i].clone());
            proof {
                assert(copied.deep_view() =~= before.push(args@[i as int]@));
                assert(before.push(args@[i as int]@) =~= args.deep_view().take(i + 1));
            }
            i = i + 1;
        }
        proof {
            assert(args.deep_view().take(args@.len() as int) =~= args.deep_view());
        }
        ProcSpec {
            name: String::from_str(name),
            args: copied,
            stdin: StdinSpec::Piped,
            stdout: StdoutSpec::Piped,
        }
    }

    /// Substitute the given wirings on a spawn request; an absent wiring
    /// means a fresh captured pipe. Standard error is always captured.
    fn setup_io(&self, command: &mut ProcSpec, stdin: Option<StdinSpec>, stdout: Option<StdoutSpec>)
        ensures
            final(command).name == old(command).name,
            final(command).args == old(command).args,
            final(command)@.stdin == match stdin {
                Some(s) => s@,
                None => StdinV::Piped,
            },
            final(command)@.stdout == match stdout {
                Some(s) => s@,
                None => StdoutV::Piped,
            },
    {
        match stdin {
            Some(s) => {
                command.stdin = s;
            },
            None => {
                command.stdin = StdinSpec::Piped;
            },
        }
        match stdout {
            Some(s) => {
                command.stdout = s;
            },
            None => {
                command.stdout = StdoutSpec::Piped;
            },
        }
    }
}

} // verus!
