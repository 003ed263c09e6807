//! Recursive-descent parser for the shell's command language.
//!
//! The grammar: a command line is one simple command (a name followed by word
//! or quoted arguments) extended by trailing operators. A `|` parses the
//! whole remainder as the right-hand command, so chains lean right; `>` and
//! `<` take one following argument as the file name; `&` wraps the command
//! built so far. A quote delimiter switches to collecting every token,
//! operators and spaces included, as literal text until the matching quote.
//!
//! The functions `parse_spec`, `parse_command_spec`, `parse_ops_spec`,
//! `parse_simple_spec`, `parse_args_spec`, `parse_argument_spec` and
//! `parse_until_core` form a mathematical model of the parser over the
//! input's character sequence; `Parser::parse` is proved to return exactly
//! what `parse_spec` says for every input line.

use vstd::prelude::*;

use crate::token::{
    Token, TokenV, Tokenizer, is_white_char, lemma_token_len, skip_white, token_len, token_of,
    token_text,
};

verus! {

/// A rejected line: which lexical or grammatical rule failed.
#[derive(Debug)]
pub enum ParseError {
    /// A token appeared where an argument was required and it is neither
    /// word text nor a quote; carries the offending token's literal text.
    UnexpectedToken(String),
    /// The input ended inside a construct: an open quote, a trailing
    /// redirect operator, or a trailing pipe.
    UnexpectedEOF,
    /// Reserved for single-character diagnostics.
    UnexpectedChar(char),
    /// Reserved for line-boundary diagnostics.
    UnexpectedEOL,
}

/// Mathematical form of a parse error.
pub enum ParseErrorV {
    UnexpectedToken(Seq<char>),
    UnexpectedEOF,
    UnexpectedChar(char),
    UnexpectedEOL,
}

impl View for ParseError {
    type V = ParseErrorV;

    open spec fn view(&self) -> ParseErrorV {
        match self {
            ParseError::UnexpectedToken(s) => ParseErrorV::UnexpectedToken(s@),
            ParseError::UnexpectedEOF => ParseErrorV::UnexpectedEOF,
            ParseError::UnexpectedChar(c) => ParseErrorV::UnexpectedChar(*c),
            ParseError::UnexpectedEOL => ParseErrorV::UnexpectedEOL,
        }
    }
}

pub type ParseResult = Result<RshNode, ParseError>;

/// How the file of a redirect is opened: an existing file to read, a file
/// created or truncated to write, or a file created or extended to append.
#[derive(Debug, PartialEq, Eq, Structural, Clone, Copy)]
pub enum RedirectMode {
    Read,
    Write,
    Append,
}

/// Mathematical form of the command tree.
pub enum NodeV {
    Command { name: Seq<char>, args: Seq<Seq<char>> },
    Pipe { left: Box<NodeV>, right: Box<NodeV> },
    Redirect { command: Box<NodeV>, file: Seq<char>, mode: RedirectMode },
    Background { command: Box<NodeV> },
}

/// The command tree. Every non-leaf node exclusively owns its children; the
/// structure is a tree by construction.
#[derive(Debug)]
pub enum RshNode {
    /// A leaf: the command's name and its arguments in order, with quote
    /// delimiters stripped.
    Command { name: String, args: Vec<String> },
    /// `left`'s standard output feeds `right`'s standard input.
    Pipe { left: Box<RshNode>, right: Box<RshNode> },
    /// `command` with one standard stream replaced by the named file.
    Redirect { command: Box<RshNode>, file: String, mode: RedirectMode },
    /// `command`, marked to run without being waited on synchronously.
    Background { command: Box<RshNode> },
}

/// The mathematical tree that an executable tree stands for.
pub open spec fn node_view(n: RshNode) -> NodeV
    decreases n,
{
    match n {
        RshNode::Command { name, args } => NodeV::Command {
            name: name@,
            args: args.deep_view(),
        },
        RshNode::Pipe { left, right } => NodeV::Pipe {
            left: Box::new(node_view(*left)),
            right: Box::new(node_view(*right)),
        },
        RshNode::Redirect { command, file, mode } => NodeV::Redirect {
            command: Box::new(node_view(*command)),
            file: file@,
            mode,
        },
        RshNode::Background { command } => NodeV::Background {
            command: Box::new(node_view(*command)),
        },
    }
}

impl View for RshNode {
    type V = NodeV;

    open spec fn view(&self) -> NodeV {
        node_view(*self)
    }
}

/// The name of the command that a node runs: the leaf's first word, found
/// through redirect and background wrappers; a pipe has no single name.
pub open spec fn node_name(n: NodeV) -> Option<Seq<char>>
    decreases n,
{
    match n {
        NodeV::Command { name, .. } => Some(name),
        NodeV::Redirect { command, .. } => node_name(*command),
        NodeV::Background { command } => node_name(*command),
        NodeV::Pipe { .. } => None,
    }
}

/// The arguments of the command that a node runs, found as `node_name` is.
pub open spec fn node_args(n: NodeV) -> Option<Seq<Seq<char>>>
    decreases n,
{
    match n {
        NodeV::Command { args, .. } => Some(args),
        NodeV::Redirect { command, .. } => node_args(*command),
        NodeV::Background { command } => node_args(*command),
        NodeV::Pipe { .. } => None,
    }
}

impl RshNode {
    /// Whether the node is a background wrapper.
    pub fn is_background(&self) -> (r: bool)
        ensures
            r == (self@ matches NodeV::Background { .. }),
    {
        match self {
            RshNode::Background { .. } => true,
            _ => false,
        }
    }

    /// The name of the command this node runs, if it runs a single one.
    pub fn get_name(&self) -> (r: Option<&str>)
        ensures
            r matches Some(s) ==> node_name(self@) == Some(s@),
            r is None ==> node_name(self@) is None,
        decreases *self,
    {
        match self {
            RshNode::Command { name, .. } => Some(name.as_str()),
            RshNode::Redirect { command, .. } => command.get_name(),
            RshNode::Background { command } => command.get_name(),
            _ => None,
        }
    }

    /// The arguments of the command this node runs, if it runs a single one.
    pub fn get_args(&self) -> (r: Option<&Vec<String>>)
        ensures
            r matches Some(a) ==> node_args(self@) == Some(a.deep_view()),
            r is None ==> node_args(self@) is None,
        decreases *self,
    {
        match self {
            RshNode::Command { args, .. } => Some(args),
            RshNode::Redirect { command, .. } => command.get_args(),
            RshNode::Background { command } => command.get_args(),
            _ => None,
        }
    }
}

/// Element-for-element equality of two argument lists.
fn vec_str_eq(a: &Vec<String>, b: &Vec<String>) -> (r: bool)
    ensures
        r == (a.deep_view() == b.deep_view()),
{
    if a.len() != b.len() {
        assert(a.deep_view().len() != b.deep_view().len());
        return false;
    }
    let mut i: usize = 0;
    while i < a.len()
        invariant
            i <= a@.len(),
            a@.len() == b@.len(),
            forall|j: int| 0 <= j < i ==> a@[j]@ == b@[j]@,
        decreases a@.len() - i,
    {
        if !(a[i] == b[i]) {
            assert(a.deep_view()[i as int] != b.deep_view()[i as int]);
            return false;
        }
        i = i + 1;
    }
    proof {
        assert(a.deep_view() =~= b.deep_view());
    }
    true
}

/// Structural equality of two command trees.
fn node_eq(a: &RshNode, b: &RshNode) -> (r: bool)
    ensures
        r == (a@ == b@),
    decreases *a,
{
    proof {
        lemma_node_view_variants(*a, *b);
    }
    match (a, b) {
        (
            RshNode::Command { name: n1, args: a1 },
            RshNode::Command { name: n2, args: a2 },
        ) => *n1 == *n2 && vec_str_eq(a1, a2),
        (
            RshNode::Pipe { left: l1, right: r1 },
            RshNode::Pipe { left: l2, right: r2 },
        ) => node_eq(l1, l2) && node_eq(r1, r2),
        (
            RshNode::Redirect { command: c1, file: f1, mode: m1 },
            RshNode::Redirect { command: c2, file: f2, mode: m2 },
        ) => node_eq(c1, c2) && *f1 == *f2 && *m1 == *m2,
        (
            RshNode::Background { command: c1 },
            RshNode::Background { command: c2 },
        ) => node_eq(c1, c2),
        _ => false,
    }
}

/// Two trees of different variants have different mathematical forms.
proof fn lemma_node_view_variants(a: RshNode, b: RshNode)
    ensures
        a@ == b@ ==> match (a, b) {
            (RshNode::Command { .. }, RshNode::Command { .. }) => true,
            (RshNode::Pipe { .. }, RshNode::Pipe { .. }) => true,
            (RshNode::Redirect { .. }, RshNode::Redirect { .. }) => true,
            (RshNode::Background { .. }, RshNode::Background { .. }) => true,
            _ => false,
        },
{
    match a {
        RshNode::Command { .. } => match b {
            RshNode::Command { .. } => {},
            RshNode::Pipe { .. } => {},
            RshNode::Redirect { .. } => {},
            RshNode::Background { .. } => {},
        },
        RshNode::Pipe { .. } => match b {
            RshNode::Command { .. } => {},
            RshNode::Pipe { .. } => {},
            RshNode::Redirect { .. } => {},
            RshNode::Background { .. } => {},
        },
        RshNode::Redirect { .. } => match b {
            RshNode::Command { .. } => {},
            RshNode::Pipe { .. } => {},
            RshNode::Redirect { .. } => {},
            RshNode::Background { .. } => {},
        },
        RshNode::Background { .. } => match b {
            RshNode::Command { .. } => {},
            RshNode::Pipe { .. } => {},
            RshNode::Redirect { .. } => {},
            RshNode::Background { .. } => {},
        },
    }
}

impl PartialEq for RshNode {
    fn eq(&self, other: &RshNode) -> (r: bool) {
        node_eq(self, other)
    }
}

impl vstd::std_specs::cmp::PartialEqSpecImpl for RshNode {
    open spec fn obeys_eq_spec() -> bool {
        true
    }

    open spec fn eq_spec(&self, other: &RshNode) -> bool {
        self@ == other@
    }
}

/// Collect the literal text of every token before the closing token `q`,
/// starting on the first token inside the quotes; the rest begins after the
/// closing token. The input ending before `q` appears is a rejected line.
pub open spec fn parse_until_core(s: Seq<char>, q: TokenV) -> Result<(Seq<char>, Seq<char>), ParseErrorV>
    decreases s.len(),
{
    match token_of(s) {
        Option::None => Result::Err(ParseErrorV::UnexpectedEOF),
        Option::Some(t) => if t == q {
            Result::Ok((Seq::empty(), s.skip(token_len(s) as int)))
        } else {
            proof {
                lemma_token_len(s);
            }
            match parse_until_core(s.skip(token_len(s) as int), q) {
                Result::Ok((text, rest)) => Result::Ok((token_text(t) + text, rest)),
                Result::Err(e) => Result::Err(e),
            }
        },
    }
}

/// Collecting a quoted argument, starting on the opening token itself: the
/// opening token is consumed, an immediately exhausted input is rejected,
/// and the text up to the matching `q` becomes the argument.
pub open spec fn parse_until_full(s: Seq<char>, q: TokenV) -> Result<(Seq<char>, Seq<char>), ParseErrorV> {
    let after = s.skip(token_len(s) as int);
    if after.len() == 0 {
        Result::Err(ParseErrorV::UnexpectedEOF)
    } else {
        parse_until_core(after, q)
    }
}

/// One argument: leading white space is dropped; a quote collects literal
/// text until its matching quote; word text is the argument itself; any
/// other token, or exhausted input, is a rejected line.
pub open spec fn parse_argument_spec(s: Seq<char>) -> Result<(Seq<char>, Seq<char>), ParseErrorV> {
    let t = skip_white(s);
    match token_of(t) {
        Option::None => Result::Err(ParseErrorV::UnexpectedEOF),
        Option::Some(tok) => match tok {
            TokenV::SingleQuote => parse_until_full(t, TokenV::SingleQuote),
            TokenV::DoubleQuote => parse_until_full(t, TokenV::DoubleQuote),
            TokenV::Text(w) => Result::Ok((w, t.skip(token_len(t) as int))),
            _ => Result::Err(ParseErrorV::UnexpectedToken(token_text(tok))),
        },
    }
}

pub proof fn lemma_skip_white_len(s: Seq<char>)
    ensures
        skip_white(s).len() <= s.len(),
        s.len() > 0 && is_white_char(s[0]) ==> skip_white(s).len() < s.len(),
    decreases s.len(),
{
    if s.len() > 0 && is_white_char(s[0]) {
        lemma_skip_white_len(s.skip(1));
    }
}

pub proof fn lemma_parse_until_core_len(s: Seq<char>, q: TokenV)
    ensures
        parse_until_core(s, q) matches Result::Ok(p) ==> p.1.len() < s.len(),
    decreases s.len(),
{
    if token_of(s) is Some {
        lemma_token_len(s);
        let t = token_of(s)->Some_0;
        if t != q {
            lemma_parse_until_core_len(s.skip(token_len(s) as int), q);
        }
    }
}

pub proof fn lemma_parse_argument_len(s: Seq<char>)
    ensures
        parse_argument_spec(s) matches Result::Ok(p) ==> p.1.len() < s.len(),
{
    lemma_skip_white_len(s);
    let t = skip_white(s);
    lemma_token_len(t);
    match token_of(t) {
        Option::Some(tok) => match tok {
            TokenV::SingleQuote => {
                lemma_parse_until_core_len(t.skip(1), TokenV::SingleQuote);
            },
            TokenV::DoubleQuote => {
                lemma_parse_until_core_len(t.skip(1), TokenV::DoubleQuote);
            },
            _ => {},
        },
        Option::None => {},
    }
}

/// The arguments after the command name: word text and quoted arguments are
/// collected, runs of white space are dropped, and the first operator or
/// quote-less end of input ends the list.
pub open spec fn parse_args_spec(s: Seq<char>) -> Result<(Seq<Seq<char>>, Seq<char>), ParseErrorV>
    decreases s.len(),
{
    match token_of(s) {
        Option::Some(tok) => match tok {
            TokenV::Text(_) | TokenV::SingleQuote | TokenV::DoubleQuote => {
                match parse_argument_spec(s) {
                    Result::Ok((arg, rest)) => {
                        proof {
                            lemma_parse_argument_len(s);
                        }
                        match parse_args_spec(rest) {
                            Result::Ok((args, rest2)) => Result::Ok((seq![arg] + args, rest2)),
                            Result::Err(e) => Result::Err(e),
                        }
                    },
                    Result::Err(e) => Result::Err(e),
                }
            },
            TokenV::Space => {
                proof {
                    lemma_skip_white_len(s);
                }
                parse_args_spec(skip_white(s))
            },
            _ => Result::Ok((Seq::empty(), s)),
        },
        Option::None => Result::Ok((Seq::empty(), s)),
    }
}

/// One simple command: its name, then its arguments.
pub open spec fn parse_simple_spec(s: Seq<char>) -> Result<(NodeV, Seq<char>), ParseErrorV> {
    match parse_argument_spec(s) {
        Result::Err(e) => Result::Err(e),
        Result::Ok((name, rest)) => match parse_args_spec(rest) {
            Result::Err(e) => Result::Err(e),
            Result::Ok((args, rest2)) => Result::Ok((NodeV::Command { name, args }, rest2)),
        },
    }
}

pub proof fn lemma_parse_args_len(s: Seq<char>)
    ensures
        parse_args_spec(s) matches Result::Ok(p) ==> p.1.len() <= s.len(),
    decreases s.len(),
{
    match token_of(s) {
        Option::Some(tok) => match tok {
            TokenV::Text(_) | TokenV::SingleQuote | TokenV::DoubleQuote => {
                lemma_parse_argument_len(s);
                match parse_argument_spec(s) {
                    Result::Ok((arg, rest)) => {
                        lemma_parse_args_len(rest);
                    },
                    Result::Err(_) => {},
                }
            },
            TokenV::Space => {
                lemma_skip_white_len(s);
                lemma_parse_args_len(skip_white(s));
            },
            _ => {},
        },
        Option::None => {},
    }
}

pub proof fn lemma_parse_simple_len(s: Seq<char>)
    ensures
        parse_simple_spec(s) matches Result::Ok(p) ==> p.1.len() < s.len(),
{
    lemma_parse_argument_len(s);
    match parse_argument_spec(s) {
        Result::Ok((name, rest)) => {
            lemma_parse_args_len(rest);
        },
        Result::Err(_) => {},
    }
}

/// Whether the first token of `s` is one of the four trailing operators.
pub open spec fn starts_with_op(s: Seq<char>) -> bool {
    match token_of(s) {
        Option::Some(t) => t == TokenV::Pipe || t == TokenV::RedirectOutput || t
            == TokenV::RedirectInput || t == TokenV::Background,
        Option::None => false,
    }
}

/// The trailing-operator loop, with `acc` the command built so far: a pipe
/// parses the whole remainder as the right-hand command and ends the line;
/// a redirect operator takes one argument as the file name and binds to the
/// command built so far, as does a background mark; the first token that is
/// no operator ends the loop.
pub open spec fn parse_ops_spec(acc: NodeV, s: Seq<char>) -> Result<(NodeV, Seq<char>), ParseErrorV>
    decreases s.len(), 0nat,
{
    match token_of(s) {
        Option::Some(TokenV::Pipe) => match parse_command_spec(s.skip(1)) {
            Result::Err(e) => Result::Err(e),
            Result::Ok((right, rest)) => Result::Ok(
                (NodeV::Pipe { left: Box::new(acc), right: Box::new(right) }, rest),
            ),
        },
        Option::Some(TokenV::RedirectOutput) => match parse_argument_spec(s.skip(1)) {
            Result::Err(e) => Result::Err(e),
            Result::Ok((file, rest)) => {
                proof {
                    lemma_parse_argument_len(s.skip(1));
                }
                parse_ops_spec(
                    NodeV::Redirect {
                        command: Box::new(acc),
                        file,
                        mode: RedirectMode::Write,
                    },
                    rest,
                )
            },
        },
        Option::Some(TokenV::RedirectInput) => match parse_argument_spec(s.skip(1)) {
            Result::Err(e) => Result::Err(e),
            Result::Ok((file, rest)) => {
                proof {
                    lemma_parse_argument_len(s.skip(1));
                }
                parse_ops_spec(
                    NodeV::Redirect {
                        command: Box::new(acc),
                        file,
                        mode: RedirectMode::Read,
                    },
                    rest,
                )
            },
        },
        Option::Some(TokenV::Background) => parse_ops_spec(
            NodeV::Background { command: Box::new(acc) },
            s.skip(1),
        ),
        _ => Result::Ok((acc, s)),
    }
}

/// One command line: a simple command extended by its trailing operators.
pub open spec fn parse_command_spec(s: Seq<char>) -> Result<(NodeV, Seq<char>), ParseErrorV>
    decreases s.len(), 1nat,
{
    match parse_simple_spec(s) {
        Result::Err(e) => Result::Err(e),
        Result::Ok((cmd, rest)) => {
            proof {
                lemma_parse_simple_len(s);
            }
            parse_ops_spec(cmd, rest)
        },
    }
}

/// What parsing a whole line yields: the command tree of `parse_command_spec`.
pub open spec fn parse_spec(s: Seq<char>) -> Result<NodeV, ParseErrorV> {
    match parse_command_spec(s) {
        Result::Ok((node, _rest)) => Result::Ok(node),
        Result::Err(e) => Result::Err(e),
    }
}

pub proof fn lemma_parse_ops_len(acc: NodeV, s: Seq<char>)
    ensures
        parse_ops_spec(acc, s) matches Result::Ok(p) ==> p.1.len() <= s.len(),
    decreases s.len(), 0nat,
{
    match token_of(s) {
        Option::Some(TokenV::Pipe) => {
            lemma_parse_command_len(s.skip(1));
        },
        Option::Some(TokenV::RedirectOutput) => {
            lemma_parse_argument_len(s.skip(1));
            match parse_argument_spec(s.skip(1)) {
                Result::Ok((file, rest)) => {
                    lemma_parse_ops_len(
                        NodeV::Redirect { command: Box::new(acc), file, mode: RedirectMode::Write },
                        rest,
                    );
                },
                Result::Err(_) => {},
            }
        },
        Option::Some(TokenV::RedirectInput) => {
            lemma_parse_argument_len(s.skip(1));
            match parse_argument_spec(s.skip(1)) {
                Result::Ok((file, rest)) => {
                    lemma_parse_ops_len(
                        NodeV::Redirect { command: Box::new(acc), file, mode: RedirectMode::Read },
                        rest,
                    );
                },
                Result::Err(_) => {},
            }
        },
        Option::Some(TokenV::Background) => {
            lemma_parse_ops_len(NodeV::Background { command: Box::new(acc) }, s.skip(1));
        },
        _ => {},
    }
}

pub proof fn lemma_parse_command_len(s: Seq<char>)
    ensures
        parse_command_spec(s) matches Result::Ok(p) ==> p.1.len() < s.len(),
    decreases s.len(), 1nat,
{
    lemma_parse_simple_len(s);
    match parse_simple_spec(s) {
        Result::Ok((cmd, rest)) => {
            lemma_parse_ops_len(cmd, rest);
        },
        Result::Err(_) => {},
    }
}

/// A tree is safe to execute when every redirect and background wrapper
/// reaches a command leaf without crossing a pipe, so the command it wires
/// has a name and arguments.
pub open spec fn exec_wf(n: NodeV) -> bool
    decreases n,
{
    match n {
        NodeV::Command { .. } => true,
        NodeV::Pipe { left, right } => exec_wf(*left) && exec_wf(*right),
        NodeV::Redirect { command, .. } => node_name(*command) is Some && node_args(*command)
            is Some && exec_wf(*command),
        NodeV::Background { command } => exec_wf(*command),
    }
}

proof fn lemma_parse_ops_wf(acc: NodeV, s: Seq<char>)
    requires
        exec_wf(acc),
        node_name(acc) is Some,
        node_args(acc) is Some,
    ensures
        parse_ops_spec(acc, s) matches Result::Ok(p) ==> exec_wf(p.0),
    decreases s.len(), 0nat,
{
    match token_of(s) {
        Option::Some(TokenV::Pipe) => {
            lemma_parse_command_wf(s.skip(1));
        },
        Option::Some(TokenV::RedirectOutput) => {
            lemma_parse_argument_len(s.skip(1));
            match parse_argument_spec(s.skip(1)) {
                Result::Ok((file, rest)) => {
                    lemma_parse_ops_wf(
                        NodeV::Redirect { command: Box::new(acc), file, mode: RedirectMode::Write },
                        rest,
                    );
                },
                Result::Err(_) => {},
            }
        },
        Option::Some(TokenV::RedirectInput) => {
            lemma_parse_argument_len(s.skip(1));
            match parse_argument_spec(s.skip(1)) {
                Result::Ok((file, rest)) => {
                    lemma_parse_ops_wf(
                        NodeV::Redirect { command: Box::new(acc), file, mode: RedirectMode::Read },
                        rest,
                    );
                },
                Result::Err(_) => {},
            }
        },
        Option::Some(TokenV::Background) => {
            lemma_parse_ops_wf(NodeV::Background { command: Box::new(acc) }, s.skip(1));
        },
        _ => {},
    }
}

proof fn lemma_parse_command_wf(s: Seq<char>)
    ensures
        parse_command_spec(s) matches Result::Ok(p) ==> exec_wf(p.0),
    decreases s.len(), 1nat,
{
    lemma_parse_simple_len(s);
    match parse_simple_spec(s) {
        Result::Ok((cmd, rest)) => {
            lemma_parse_ops_wf(cmd, rest);
        },
        Result::Err(_) => {},
    }
}

/// Every tree the parser accepts is safe to execute: no redirect or
/// background wrapper sits directly on a pipe.
pub proof fn lemma_parse_spec_wf(s: Seq<char>)
    ensures
        parse_spec(s) matches Result::Ok(n) ==> exec_wf(n),
{
    lemma_parse_command_wf(s);
}

/// Parsing is deterministic: the command tree is a function of the line's
/// characters alone, so parsing one line twice yields structurally equal
/// trees.
pub proof fn lemma_parse_deterministic(
    s: Seq<char>,
    r1: Result<NodeV, ParseErrorV>,
    r2: Result<NodeV, ParseErrorV>,
)
    requires
        r1 == parse_spec(s),
        r2 == parse_spec(s),
    ensures
        r1 == r2,
{
}

/// The parser over one input line. Its view is the character sequence that
/// its tokenizer has not yet consumed. The parser mutates nothing outside
/// itself; a fresh parser over the same input parses the same tree.
pub struct Parser<'src> {
    tokenizer: Tokenizer<'src>,
}

impl<'src> View for Parser<'src> {
    type V = Seq<char>;

    closed spec fn view(&self) -> Seq<char> {
        self.tokenizer@
    }
}

impl<'src> Parser<'src> {
    pub fn new(input: &'src str) -> (p: Parser<'src>)
        ensures
            p@ == input@,
    {
        Parser { tokenizer: Tokenizer::new(input) }
    }

    /// Parse the whole line: the result is exactly `parse_spec` of the
    /// line's characters, a command tree or the first error.
    pub fn parse(&mut self) -> (r: ParseResult)
        ensures
            r matches Ok(node) ==> parse_spec(old(self)@) matches Result::Ok(nv) && node@ == nv,
            r matches Err(e) ==> parse_spec(old(self)@) matches Result::Err(pe) && e@ == pe,
    {
        self.parse_command()
    }

    fn parse_command(&mut self) -> (r: ParseResult)
        ensures
            r matches Ok(node) ==> parse_command_spec(old(self)@) matches Result::Ok(p) && node@
                == p.0 && final(self)@ == p.1 && !starts_with_op(p.1),
            r matches Err(e) ==> parse_command_spec(old(self)@) matches Result::Err(pe) && e@ == pe,
        decreases old(self)@.len(),
    {
        let ghost s0 = self@;
        let cmd0 = match self.parse_simple_command() {
            Ok(c) => c,
            Err(e) => {
                return Err(e);
            },
        };
        proof {
            lemma_parse_simple_len(s0);
        }
        let ghost rest0 = self@;
        let ghost cmd0v = cmd0@;
        let mut command = cmd0;
        loop
            invariant
                s0 == old(self)@,
                parse_ops_spec(command@, self@) == parse_ops_spec(cmd0v, rest0),
                parse_command_spec(s0) == parse_ops_spec(cmd0v, rest0),
                self@.len() <= rest0.len(),
                rest0.len() < s0.len(),
            ensures
                parse_ops_spec(cmd0v, rest0) == Result::<(NodeV, Seq<char>), ParseErrorV>::Ok(
                    (command@, self@),
                ),
                !starts_with_op(self@),
            decreases self@.len(),
        {
            let ghost cur = self@;
            let next = self.tokenizer.peek_next();
            match next {
                Some(Token::Pipe) => {
                    self.tokenizer.next_token();
                    let right = match self.parse_command() {
                        Ok(rn) => rn,
                        Err(e) => {
                            return Err(e);
                        },
                    };
                    proof {
                        lemma_parse_command_len(cur.skip(1));
                    }
                    command = RshNode::Pipe { left: Box::new(command), right: Box::new(right) };
                },
                Some(Token::RedirectOutput) => {
                    self.tokenizer.next_token();
                    let file = match self.parse_argument() {
                        Ok(f) => f,
                        Err(e) => {
                            return Err(e);
                        },
                    };
                    proof {
                        lemma_parse_argument_len(cur.skip(1));
                    }
                    command = RshNode::Redirect {
                        command: Box::new(command),
                        file,
                        mode: RedirectMode::Write,
                    };
                },
                Some(Token::RedirectInput) => {
                    self.tokenizer.next_token();
                    let file = match self.parse_argument() {
                        Ok(f) => f,
                        Err(e) => {
                            return Err(e);
                        },
                    };
                    proof {
                        lemma_parse_argument_len(cur.skip(1));
                    }
                    command = RshNode::Redirect {
                        command: Box::new(command),
                        file,
                        mode: RedirectMode::Read,
                    };
                },
                Some(Token::Background) => {
                    self.tokenizer.next_token();
                    command = RshNode::Background { command: Box::new(command) };
                },
                _ => {
                    break;
                },
            }
        }
        Ok(command)
    }

    fn parse_simple_command(&mut self) -> (r: ParseResult)
        ensures
            r matches Ok(node) ==> parse_simple_spec(old(self)@) matches Result::Ok(p) && node@
                == p.0 && final(self)@ == p.1,
            r matches Err(e) ==> parse_simple_spec(old(self)@) matches Result::Err(pe) && e@ == pe,
    {
        let ghost s0 = self@;
        let name = match self.parse_argument() {
            Ok(n) => n,
            Err(e) => {
                return Err(e);
            },
        };
        let ghost rest0 = self@;
        let mut args: Vec<String> = Vec::new();
        proof {
            assert(args.deep_view() =~= Seq::<Seq<char>>::empty());
            match parse_args_spec(rest0) {
                Result::Ok(p) => {
                    assert(args.deep_view() + p.0 =~= p.0);
                },
                Result::Err(_) => {},
            }
        }
        loop
            invariant
                s0 == old(self)@,
                parse_argument_spec(s0) matches Result::Ok(q) && q.0 == name@ && q.1 == rest0,
                match parse_args_spec(self@) {
                    Result::Ok(p) => parse_args_spec(rest0) == Result::<
                        (Seq<Seq<char>>, Seq<char>),
                        ParseErrorV,
                    >::Ok((args.deep_view() + p.0, p.1)),
                    Result::Err(e) => parse_args_spec(rest0) == Result::<
                        (Seq<Seq<char>>, Seq<char>),
                        ParseErrorV,
                    >::Err(e),
                },
                self@.len() <= rest0.len(),
            ensures
                parse_args_spec(rest0) == Result::<(Seq<Seq<char>>, Seq<char>), ParseErrorV>::Ok(
                    (args.deep_view(), self@),
                ),
            decreases self@.len(),
        {
            let ghost cur = self@;
            let ghost args0 = args.deep_view();
            let next = self.tokenizer.peek_next();
            match next {
                Some(Token::Text(_)) | Some(Token::SingleQuote) | Some(Token::DoubleQuote) => {
                    let a = match self.parse_argument() {
                        Ok(a) => a,
                        Err(e) => {
                            return Err(e);
                        },
                    };
                    proof {
                        lemma_parse_argument_len(cur);
                    }
                    args.push(a);
                    proof {
                        assert(args.deep_view() =~= args0.push(a@));
                        match parse_args_spec(self@) {
                            Result::Ok(p) => {
                                assert(args0 + (seq![a@] + p.0) =~= args0.push(a@) + p.0);
                            },
                            Result::Err(_) => {},
                        }
                    }
                },
                Some(Token::Space) => {
                    self.skip_whitespace();
                    proof {
                        lemma_skip_white_len(cur);
                    }
                },
                _ => {
                    proof {
                        assert(parse_args_spec(cur) == Result::<
                            (Seq<Seq<char>>, Seq<char>),
                            ParseErrorV,
                        >::Ok((Seq::empty(), cur)));
                        assert(args.deep_view() + Seq::<Seq<char>>::empty() =~= args.deep_view());
                    }
                    break;
                },
            }
        }
        Ok(RshNode::Command { name, args })
    }

    fn parse_argument(&mut self) -> (r: Result<String, ParseError>)
        ensures
            r matches Ok(arg) ==> parse_argument_spec(old(self)@) matches Result::Ok(p) && arg@
                == p.0 && final(self)@ == p.1,
            r matches Err(e) ==> parse_argument_spec(old(self)@) matches Result::Err(pe) && e@
                == pe,
    {
        self.skip_whitespace();
        if self.next_is(Token::SingleQuote) {
            return self.parse_until_next(Token::SingleQuote);
        }
        if self.next_is(Token::DoubleQuote) {
            return self.parse_until_next(Token::DoubleQuote);
        }
        if let Some(token) = self.tokenizer.next_token() {
            match token {
                Token::Text(txt) => Ok(String::from_str(txt)),
                _ => Err(ParseError::UnexpectedToken(token.to_string())),
            }
        } else {
            Err(ParseError::UnexpectedEOF)
        }
    }

    /// Collect the literal text of every token until the next `token`,
    /// which closes the quoted argument that the current token opens.
    fn parse_until_next(&mut self, token: Token<'src>) -> (r: Result<String, ParseError>)
        ensures
            r matches Ok(arg) ==> parse_until_full(old(self)@, token@) matches Result::Ok(p)
                && arg@ == p.0 && final(self)@ == p.1,
            r matches Err(e) ==> parse_until_full(old(self)@, token@) matches Result::Err(pe)
                && e@ == pe,
    {
        let ghost s0 = self@;
        self.tokenizer.next_token();
        let ghost after = self@;
        if self.tokenizer.is_empty() {
            return Err(ParseError::UnexpectedEOF);
        }
        let mut res = String::new();
        proof {
            match parse_until_core(after, token@) {
                Result::Ok(p) => {
                    assert(res@ + p.0 =~= p.0);
                },
                Result::Err(_) => {},
            }
        }
        loop
            invariant
                s0 == old(self)@,
                after.len() > 0,
                parse_until_full(s0, token@) == parse_until_core(after, token@),
                match parse_until_core(self@, token@) {
                    Result::Ok(p) => parse_until_core(after, token@) == Result::<
                        (Seq<char>, Seq<char>),
                        ParseErrorV,
                    >::Ok((res@ + p.0, p.1)),
                    Result::Err(e) => parse_until_core(after, token@) == Result::<
                        (Seq<char>, Seq<char>),
                        ParseErrorV,
                    >::Err(e),
                },
            decreases self@.len(),
        {
            let ghost cur = self@;
            proof {
                lemma_token_len(cur);
            }
            let next = self.tokenizer.next_token();
            match next {
                None => {
                    return Err(ParseError::UnexpectedEOF);
                },
                Some(t) => {
                    if t == token {
                        proof {
                            assert(res@ + Seq::<char>::empty() =~= res@);
                        }
                        return Ok(res);
                    }
                    let txt = t.to_string();
                    let ghost res0 = res@;
                    res.append(txt.as_str());
                    proof {
                        assert(res@ == res0 + token_text(t@));
                        match parse_until_core(self@, token@) {
                            Result::Ok(p) => {
                                assert(res0 + (token_text(t@) + p.0) =~= (res0 + token_text(t@))
                                    + p.0);
                            },
                            Result::Err(_) => {},
                        }
                    }
                },
            }
        }
    }

    fn next_is(&mut self, token: Token<'src>) -> (r: bool)
        ensures
            final(self)@ == old(self)@,
            r == (token_of(old(self)@) == Some(token@)),
    {
        if let Some(t) = self.tokenizer.peek_next() {
            t == token
        } else {
            false
        }
    }

    fn skip_whitespace(&mut self)
        ensures
            final(self)@ == skip_white(old(self)@),
    {
        self.tokenizer.skip_whitespace();
    }
}

} // verus!
