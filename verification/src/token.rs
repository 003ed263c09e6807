//! Lexical analysis of a shell command line.
//!
//! The lexical language has eight token classes: a run of non-operator text,
//! the four operators `|`, `>`, `<`, `&`, the two quote delimiters, and a
//! single space. Every operator, quote, or space character is a token of its
//! own; a maximal run of the remaining characters is one text token.
//! Concatenating the literal text of the emitted tokens reproduces the input
//! exactly (`lemma_tokens_round_trip`).

use vstd::prelude::*;

verus! {

/// Mathematical form of a token: its class, with a text token carrying the
/// character sequence it covers.
pub enum TokenV {
    Text(Seq<char>),
    Pipe,
    RedirectOutput,
    RedirectInput,
    Background,
    SingleQuote,
    DoubleQuote,
    Space,
}

/// The characters that always form a single-character token.
pub open spec fn is_special_char(c: char) -> bool {
    c == '|' || c == '>' || c == '<' || c == '&' || c == '"' || c == '\'' || c == ' '
}

/// The token that a special character stands for.
pub open spec fn special_token_of(c: char) -> TokenV {
    if c == '|' {
        TokenV::Pipe
    } else if c == '>' {
        TokenV::RedirectOutput
    } else if c == '<' {
        TokenV::RedirectInput
    } else if c == '&' {
        TokenV::Background
    } else if c == '\'' {
        TokenV::SingleQuote
    } else if c == '"' {
        TokenV::DoubleQuote
    } else {
        TokenV::Space
    }
}

/// Length of the maximal leading run of non-special characters.
pub open spec fn text_len(s: Seq<char>) -> nat
    decreases s.len(),
{
    if s.len() == 0 || is_special_char(s[0]) {
        0
    } else {
        1 + text_len(s.skip(1))
    }
}

/// The first token of `s`, if `s` is not empty.
pub open spec fn token_of(s: Seq<char>) -> Option<TokenV> {
    if s.len() == 0 {
        None
    } else if is_special_char(s[0]) {
        Some(special_token_of(s[0]))
    } else {
        Some(TokenV::Text(s.take(text_len(s) as int)))
    }
}

/// How many characters the first token of `s` covers.
pub open spec fn token_len(s: Seq<char>) -> nat {
    if s.len() == 0 {
        0
    } else if is_special_char(s[0]) {
        1
    } else {
        text_len(s)
    }
}

/// The literal text that a token covers.
pub open spec fn token_text(t: TokenV) -> Seq<char> {
    match t {
        TokenV::Text(w) => w,
        TokenV::Pipe => seq!['|'],
        TokenV::RedirectOutput => seq!['>'],
        TokenV::RedirectInput => seq!['<'],
        TokenV::Background => seq!['&'],
        TokenV::SingleQuote => seq!['\''],
        TokenV::DoubleQuote => seq!['"'],
        TokenV::Space => seq![' '],
    }
}

/// The Unicode white-space characters, as `str::trim_start` removes them.
pub open spec fn is_white_char(c: char) -> bool {
    let u = c as u32;
    (9 <= u && u <= 13) || u == 32 || u == 0x85 || u == 0xA0 || u == 0x1680 || (0x2000 <= u
        && u <= 0x200A) || u == 0x2028 || u == 0x2029 || u == 0x202F || u == 0x205F || u == 0x3000
}

/// `s` without its leading white-space characters.
pub open spec fn skip_white(s: Seq<char>) -> Seq<char>
    decreases s.len(),
{
    if s.len() > 0 && is_white_char(s[0]) {
        skip_white(s.skip(1))
    } else {
        s
    }
}

/// What a fresh token covering the text `s` is: the seven one-character
/// special strings become their operator, quote or space token, anything
/// else is a text token.
pub open spec fn token_new_spec(s: Seq<char>) -> TokenV {
    if s.len() == 1 && is_special_char(s[0]) {
        special_token_of(s[0])
    } else {
        TokenV::Text(s)
    }
}

pub proof fn lemma_text_len_le(s: Seq<char>)
    ensures
        text_len(s) <= s.len(),
    decreases s.len(),
{
    if s.len() > 0 && !is_special_char(s[0]) {
        lemma_text_len_le(s.skip(1));
    }
}

/// The first token's length never exceeds the input, and is positive on a
/// non-empty input.
pub proof fn lemma_token_len(s: Seq<char>)
    ensures
        token_len(s) <= s.len(),
        s.len() > 0 ==> token_len(s) >= 1,
{
    lemma_text_len_le(s);
}

/// The whole input, as the sequence of tokens that repeated consuming reads.
pub open spec fn tokens_of(s: Seq<char>) -> Seq<TokenV>
    decreases s.len(),
{
    if s.len() == 0 {
        Seq::empty()
    } else {
        proof {
            lemma_token_len(s);
        }
        seq![token_of(s)->Some_0] + tokens_of(s.skip(token_len(s) as int))
    }
}

/// The literal text of a token sequence, concatenated in order.
pub open spec fn concat_token_texts(ts: Seq<TokenV>) -> Seq<char>
    decreases ts.len(),
{
    if ts.len() == 0 {
        Seq::empty()
    } else {
        token_text(ts[0]) + concat_token_texts(ts.skip(1))
    }
}

/// The first token's text is exactly the prefix of the input it covers.
pub proof fn lemma_token_text_is_prefix(s: Seq<char>)
    requires
        s.len() > 0,
    ensures
        token_text(token_of(s)->Some_0) == s.take(token_len(s) as int),
{
    if is_special_char(s[0]) {
        assert(token_text(special_token_of(s[0])) =~= s.take(1));
    }
}

/// Lossless tokenization: concatenating the literal text of every token of
/// `s`, in order, reconstructs `s` exactly.
pub proof fn lemma_tokens_round_trip(s: Seq<char>)
    ensures
        concat_token_texts(tokens_of(s)) == s,
    decreases s.len(),
{
    if s.len() == 0 {
        assert(concat_token_texts(tokens_of(s)) =~= s);
    } else {
        lemma_token_len(s);
        let tl = token_len(s) as int;
        let rest = s.skip(tl);
        lemma_tokens_round_trip(rest);
        lemma_token_text_is_prefix(s);
        let ts = tokens_of(s);
        assert(ts.skip(1) =~= tokens_of(rest));
        assert(concat_token_texts(ts) =~= s.take(tl) + rest);
        assert(s.take(tl) + rest =~= s);
    }
}

/// One lexical token, holding a view over the span of the input line that it
/// covers. A token owns no text; it lives no longer than the input it came
/// from.
#[derive(Debug)]
pub enum Token<'src> {
    Text(&'src str),
    Pipe,
    RedirectOutput,
    RedirectInput,
    Background,
    SingleQuote,
    DoubleQuote,
    Space,
}

impl<'src> View for Token<'src> {
    type V = TokenV;

    open spec fn view(&self) -> TokenV {
        match self {
            Token::Text(s) => TokenV::Text(s@),
            Token::Pipe => TokenV::Pipe,
            Token::RedirectOutput => TokenV::RedirectOutput,
            Token::RedirectInput => TokenV::RedirectInput,
            Token::Background => TokenV::Background,
            Token::SingleQuote => TokenV::SingleQuote,
            Token::DoubleQuote => TokenV::DoubleQuote,
            Token::Space => TokenV::Space,
        }
    }
}

/// Character-for-character equality of two string slices.
pub(crate) fn str_eq(a: &str, b: &str) -> (r: bool)
    ensures
        r == (a@ == b@),
{
    let a_len = a.unicode_len();
    let b_len = b.unicode_len();
    if a_len != b_len {
        assert(a@ != b@);
        return false;
    }
    let mut i: usize = 0;
    while i < a_len
        invariant
            i <= a_len,
            a_len == a@.len(),
            a_len == b@.len(),
            forall|j: int| 0 <= j < i ==> a@[j] == b@[j],
        decreases a_len - i,
    {
        if a.get_char(i) != b.get_char(i) {
            return false;
        }
        i = i + 1;
    }
    proof {
        assert(a@ =~= b@);
    }
    true
}

impl<'src> PartialEq for Token<'src> {
    fn eq(&self, other: &Token<'src>) -> (r: bool) {
        match (self, other) {
            (Token::Text(a), Token::Text(b)) => str_eq(a, b),
            (Token::Pipe, Token::Pipe) => true,
            (Token::RedirectOutput, Token::RedirectOutput) => true,
            (Token::RedirectInput, Token::RedirectInput) => true,
            (Token::Background, Token::Background) => true,
            (Token::SingleQuote, Token::SingleQuote) => true,
            (Token::DoubleQuote, Token::DoubleQuote) => true,
            (Token::Space, Token::Space) => true,
            _ => false,
        }
    }
}

impl<'src> vstd::std_specs::cmp::PartialEqSpecImpl for Token<'src> {
    open spec fn obeys_eq_spec() -> bool {
        true
    }

    open spec fn eq_spec(&self, other: &Token<'src>) -> bool {
        self@ == other@
    }
}

impl<'src> Token<'src> {
    /// Classify the text `token` as a token: each of the seven special
    /// one-character strings becomes its operator, quote or space token, and
    /// any other text becomes a text token.
    pub fn new(token: &'src str) -> (t: Token<'src>)
        ensures
            t@ == token_new_spec(token@),
    {
        if token.unicode_len() == 1 {
            match token.get_char(0) {
                '|' => Token::Pipe,
                '>' => Token::RedirectOutput,
                '<' => Token::RedirectInput,
                '&' => Token::Background,
                '\'' => Token::SingleQuote,
                '"' => Token::DoubleQuote,
                ' ' => Token::Space,
                _ => Token::Text(token),
            }
        } else {
            Token::Text(token)
        }
    }

    /// The literal text this token covers, as an owned string.
    pub fn to_string(&self) -> (r: String)
        ensures
            r@ == token_text(self@),
    {
        let s: String = match self {
            Token::Text(t) => String::from_str(t),
            Token::Pipe => String::from_str("|"),
            Token::RedirectOutput => String::from_str(">"),
            Token::RedirectInput => String::from_str("<"),
            Token::Background => String::from_str("&"),
            Token::SingleQuote => String::from_str("'"),
            Token::DoubleQuote => String::from_str("\""),
            Token::Space => String::from_str(" "),
        };
        proof {
            reveal_strlit("|");
            reveal_strlit(">");
            reveal_strlit("<");
            reveal_strlit("&");
            reveal_strlit("'");
            reveal_strlit("\"");
            reveal_strlit(" ");
            assert(seq!['|'] =~= "|"@);
            assert(seq!['>'] =~= ">"@);
            assert(seq!['<'] =~= "<"@);
            assert(seq!['&'] =~= "&"@);
            assert(seq!['\''] =~= "'"@);
            assert(seq!['"'] =~= "\""@);
            assert(seq![' '] =~= " "@);
        }
        s
    }
}

/// The tokenizer: a cursor over the not yet consumed suffix of the input
/// line. Its view is that remaining character sequence.
#[derive(Debug)]
pub struct Tokenizer<'src> {
    input: &'src str,
}

impl<'src> View for Tokenizer<'src> {
    type V = Seq<char>;

    closed spec fn view(&self) -> Seq<char> {
        self.input@
    }
}

/// Whether `c` is one of the Unicode white-space characters.
fn is_white_char_exec(c: char) -> (r: bool)
    ensures
        r == is_white_char(c),
{
    let u = c as u32;
    (9 <= u && u <= 13) || u == 32 || u == 0x85 || u == 0xA0 || u == 0x1680 || (0x2000 <= u
        && u <= 0x200A) || u == 0x2028 || u == 0x2029 || u == 0x202F || u == 0x205F || u == 0x3000
}

impl<'src> Tokenizer<'src> {
    pub fn new(input: &'src str) -> (t: Tokenizer<'src>)
        ensures
            t@ == input@,
    {
        Tokenizer { input }
    }

    /// Drop the leading white-space characters of the remaining input.
    pub fn skip_whitespace(&mut self)
        ensures
            final(self)@ == skip_white(old(self)@),
    {
        let ghost s = self.input@;
        let n = self.input.unicode_len();
        let mut i: usize = 0;
        proof {
            assert(s.skip(0) =~= s);
        }
        while i < n && is_white_char_exec(self.input.get_char(i))
            invariant
                i <= n,
                n == s.len(),
                self.input@ == s,
                skip_white(s) == skip_white(s.skip(i as int)),
            decreases n - i,
        {
            proof {
                assert(s.skip(i as int)[0] == s[i as int]);
                assert(s.skip(i as int).skip(1) =~= s.skip(i as int + 1));
            }
            i = i + 1;
        }
        proof {
            if i < n {
                assert(s.skip(i as int)[0] == s[i as int]);
                assert(skip_white(s.skip(i as int)) == s.skip(i as int));
            } else {
                assert(s.skip(i as int) =~= Seq::<char>::empty());
            }
        }
        self.input = self.input.substring_char(i, n);
        proof {
            assert(self.input@ =~= s.skip(i as int));
        }
    }

    /// Whether the whole input has been consumed.
    pub fn is_empty(&self) -> (r: bool)
        ensures
            r == (self@.len() == 0),
    {
        self.input.is_empty()
    }

    /// The next token, without consuming it.
    pub fn peek_next(&mut self) -> (r: Option<Token<'src>>)
        ensures
            final(self)@ == old(self)@,
            r is Some <==> token_of(old(self)@) is Some,
            r matches Some(t) ==> token_of(old(self)@) == Some(t@),
    {
        self.parse_next_token(false)
    }

    /// The next token, consuming the characters it covers.
    pub fn next_token(&mut self) -> (r: Option<Token<'src>>)
        ensures
            final(self)@ == old(self)@.skip(token_len(old(self)@) as int),
            r is Some <==> token_of(old(self)@) is Some,
            r matches Some(t) ==> token_of(old(self)@) == Some(t@),
    {
        self.parse_next_token(true)
    }

    /// Whether `c` always forms a single-character token.
    fn is_special_token(&self, c: char) -> (r: bool)
        ensures
            r == is_special_char(c),
    {
        match c {
            '|' | '>' | '<' | '&' | '"' | '\'' | ' ' => true,
            _ => false,
        }
    }

    /// Classify the first remaining character and read one token, advancing
    /// past it only when `advance_stream` is set.
    fn parse_next_token(&mut self, advance_stream: bool) -> (r: Option<Token<'src>>)
        ensures
            advance_stream ==> final(self)@ == old(self)@.skip(token_len(old(self)@) as int),
            !advance_stream ==> final(self)@ == old(self)@,
            r is Some <==> token_of(old(self)@) is Some,
            r matches Some(t) ==> token_of(old(self)@) == Some(t@),
    {
        if self.input.is_empty() {
            proof {
                assert(old(self)@.skip(0) =~= old(self)@);
            }
            return None;
        }
        let c = self.input.get_char(0);
        if self.is_special_token(c) {
            self.special_token(advance_stream)
        } else {
            self.text_token(advance_stream)
        }
    }

    /// Read a one-character token.
    fn special_token(&mut self, advance_stream: bool) -> (r: Option<Token<'src>>)
        requires
            old(self)@.len() > 0,
            is_special_char(old(self)@[0]),
        ensures
            advance_stream ==> final(self)@ == old(self)@.skip(1),
            !advance_stream ==> final(self)@ == old(self)@,
            r matches Some(t) && token_of(old(self)@) == Some(t@),
    {
        let ghost s = self.input@;
        let n = self.input.unicode_len();
        let one = self.input.substring_char(0, 1);
        proof {
            assert(one@ =~= s.take(1));
            assert(one@.len() == 1 && one@[0] == s[0]);
        }
        let toke = Token::new(one);
        if advance_stream {
            self.input = self.input.substring_char(1, n);
            proof {
                assert(self.input@ =~= s.skip(1));
            }
        }
        Some(toke)
    }

    /// Read a maximal run of non-special characters as one text token.
    fn text_token(&mut self, advance_stream: bool) -> (r: Option<Token<'src>>)
        requires
            old(self)@.len() > 0,
            !is_special_char(old(self)@[0]),
        ensures
            advance_stream ==> final(self)@ == old(self)@.skip(token_len(old(self)@) as int),
            !advance_stream ==> final(self)@ == old(self)@,
            r matches Some(t) && token_of(old(self)@) == Some(t@),
    {
        let ghost s = self.input@;
        let n = self.input.unicode_len();
        let mut end: usize = 1;
        while end < n && !self.is_special_token(self.input.get_char(end))
            invariant
                1 <= end <= n,
                n == s.len(),
                self.input@ == s,
                forall|j: int| 0 <= j < end ==> !is_special_char(s[j]),
            decreases n - end,
        {
            end = end + 1;
        }
        proof {
            lemma_text_len_run(s, end as int);
        }
        let text = self.input.substring_char(0, end);
        proof {
            assert(text@ =~= s.take(end as int));
            assert(text@.len() == end);
            if end == 1 {
                assert(text@[0] == s[0]);
            }
        }
        let toke = Token::new(text);
        if advance_stream {
            self.input = self.input.substring_char(end, n);
            proof {
                assert(self.input@ =~= s.skip(end as int));
            }
        }
        Some(toke)
    }
}

/// A run of non-special characters followed by the end of input or a special
/// character pins down `text_len` exactly.
proof fn lemma_text_len_run(s: Seq<char>, end: int)
    requires
        0 <= end <= s.len(),
        forall|j: int| 0 <= j < end ==> !is_special_char(s[j]),
        end == s.len() || is_special_char(s[end]),
    ensures
        text_len(s) == end,
    decreases s.len(),
{
    if end > 0 {
        let t = s.skip(1);
        assert(forall|j: int| 0 <= j < end - 1 ==> t[j] == s[j + 1] && !is_special_char(t[j]));
        if end - 1 < t.len() {
            assert(t[end - 1] == s[end]);
        }
        lemma_text_len_run(t, end - 1);
    }
}

} // verus!
