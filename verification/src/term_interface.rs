//! Line continuation over quotes and escapes.
//!
//! The interface collects the characters of a line while tracking whether
//! the line is still open: inside single quotes, inside double quotes, or
//! right after a backslash. Quote delimiters toggle their state and are
//! dropped from the collected text; a quote of the other kind inside an
//! open quote is kept literally; a backslash escapes the character after
//! it. A line is finished only when no quote and no escape is open; until
//! then the prompt is swapped for a continuation prompt. The surrounding
//! program reads the raw text and writes the prompts; the state machine
//! here decides.

use vstd::prelude::*;

verus! {

/// The collecting state: the text gathered so far and which constructs are
/// open.
pub struct TermStateV {
    pub buffer: Seq<char>,
    pub in_single: bool,
    pub in_double: bool,
    pub in_escape: bool,
}

/// One character's effect on the collecting state.
pub open spec fn term_step(st: TermStateV, c: char) -> TermStateV {
    if c == '\'' {
        if st.in_escape {
            TermStateV { buffer: st.buffer.push(c), in_escape: false, ..st }
        } else if st.in_double {
            TermStateV { buffer: st.buffer.push(c), ..st }
        } else {
            TermStateV { in_single: !st.in_single, ..st }
        }
    } else if c == '"' {
        if st.in_escape {
            TermStateV { buffer: st.buffer.push(c), in_escape: false, ..st }
        } else if st.in_single {
            TermStateV { buffer: st.buffer.push(c), ..st }
        } else {
            TermStateV { in_double: !st.in_double, ..st }
        }
    } else if c == '\\' {
        if st.in_escape {
            TermStateV { buffer: st.buffer.push(c), in_escape: false, ..st }
        } else {
            TermStateV { in_escape: true, ..st }
        }
    } else {
        TermStateV { buffer: st.buffer.push(c), ..st }
    }
}

/// A whole character run's effect, first character first.
pub open spec fn term_run(st: TermStateV, s: Seq<char>) -> TermStateV
    decreases s.len(),
{
    if s.len() == 0 {
        st
    } else {
        term_run(term_step(st, s[0]), s.skip(1))
    }
}

/// Reads one line of raw text at a time and collects it into a finished
/// command line, tracking open quotes and escapes across reads.
pub struct TermInterface {
    prompt: String,
    tmp_prompt: String,
    internal_buffer: String,
    in_double_quote: bool,
    in_single_quote: bool,
    in_escape: bool,
}

impl TermInterface {
    /// The collecting state.
    pub closed spec fn state(&self) -> TermStateV {
        TermStateV {
            buffer: self.internal_buffer@,
            in_single: self.in_single_quote,
            in_double: self.in_double_quote,
            in_escape: self.in_escape,
        }
    }

    /// The prompt that opens a fresh line.
    pub closed spec fn prompt_text(&self) -> Seq<char> {
        self.prompt@
    }

    /// The continuation prompt, shown before the prompt while a construct
    /// is open.
    pub closed spec fn tmp_prompt_text(&self) -> Seq<char> {
        self.tmp_prompt@
    }

    pub fn new(prompt: &str) -> (t: TermInterface)
        ensures
            t.state().buffer.len() == 0,
            !t.state().in_single,
            !t.state().in_double,
            !t.state().in_escape,
            t.prompt_text() == prompt@,
            t.tmp_prompt_text().len() == 0,
    {
        TermInterface {
            prompt: String::from_str(prompt),
            tmp_prompt: String::new(),
            internal_buffer: String::new(),
            in_single_quote: false,
            in_double_quote: false,
            in_escape: false,
        }
    }

    /// Feed one character through the collecting state.
    pub fn handle_char(&mut self, c: char)
        ensures
            final(self).state() == term_step(old(self).state(), c),
            final(self).prompt_text() == old(self).prompt_text(),
            final(self).tmp_prompt_text() == old(self).tmp_prompt_text(),
    {
        match c {
            '\'' => {
                if self.in_escape {
                    self.internal_buffer.push(c);
                    self.in_escape = false;
                } else if self.in_double_quote {
                    self.internal_buffer.push(c);
                } else {
                    self.in_single_quote = !self.in_single_quote;
                }
            },
            '"' => {
                if self.in_escape {
                    self.internal_buffer.push(c);
                    self.in_escape = false;
                } else if self.in_single_quote {
                    self.internal_buffer.push(c);
                } else {
                    self.in_double_quote = !self.in_double_quote;
                }
            },
            '\\' => {
                if self.in_escape {
                    self.internal_buffer.push(c);
                    self.in_escape = false;
                } else {
                    self.in_escape = true;
                }
            },
            _ => {
                self.internal_buffer.push(c);
            },
        }
    }

    /// Feed a whole run of characters through the collecting state.
    pub fn handle_chars(&mut self, line: &str)
        ensures
            final(self).state() == term_run(old(self).state(), line@),
            final(self).prompt_text() == old(self).prompt_text(),
            final(self).tmp_prompt_text() == old(self).tmp_prompt_text(),
    {
        let ghost st0 = self.state();
        let n = line.unicode_len();
        let mut i: usize = 0;
        proof {
            assert(line@.skip(0) =~= line@);
        }
        while i < n
            invariant
                i <= n,
                n == line@.len(),
                term_run(st0, line@) == term_run(self.state(), line@.skip(i as int)),
                self.prompt_text() == old(self).prompt_text(),
                self.tmp_prompt_text() == old(self).tmp_prompt_text(),
                st0 == old(self).state(),
            decreases n - i,
        {
            let c = line.get_char(i);
            proof {
                assert(line@.skip(i as int)[0] == line@[i as int]);
                assert(line@.skip(i as int).skip(1) =~= line@.skip(i as int + 1));
            }
            self.handle_char(c);
            i = i + 1;
        }
        proof {
            assert(line@.skip(n as int) =~= Seq::<char>::empty());
        }
    }

    /// Whether the collected line is finished: no quote and no escape open.
    pub fn is_terminated(&self) -> (r: bool)
        ensures
            r == (!self.state().in_single && !self.state().in_double && !self.state().in_escape),
    {
        !self.in_single_quote && !self.in_double_quote && !self.in_escape
    }

    /// The text collected so far.
    pub fn buffer_contents(&self) -> (r: String)
        ensures
            r@ == self.state().buffer,
    {
        self.internal_buffer.clone()
    }

    /// Swap in the continuation prompt that names the open construct.
    pub fn update_prompt(&mut self)
        ensures
            final(self).state() == old(self).state(),
            final(self).prompt_text() == old(self).prompt_text(),
            old(self).state().in_double || old(self).state().in_escape
                ==> final(self).tmp_prompt_text() == "dquote"@,
            !(old(self).state().in_double || old(self).state().in_escape)
                ==> final(self).tmp_prompt_text() == "quote"@,
    {
        if self.in_double_quote || self.in_escape {
            self.tmp_prompt = String::from_str("dquote");
        } else {
            self.tmp_prompt = String::from_str("quote");
        }
    }

    /// Forget the collected text and the continuation prompt, for the next
    /// line.
    pub fn reset_state(&mut self)
        ensures
            final(self).state().buffer.len() == 0,
            final(self).state().in_single == old(self).state().in_single,
            final(self).state().in_double == old(self).state().in_double,
            final(self).state().in_escape == old(self).state().in_escape,
            final(self).prompt_text() == old(self).prompt_text(),
            final(self).tmp_prompt_text().len() == 0,
    {
        self.internal_buffer = String::new();
        self.tmp_prompt = String::new();
    }
}

} // verus!
