use vstd::prelude::*;

pub use token::{Token, TokenModel};

use crate::util::error::{ErrorKind, ShellError};
use crate::shell::interface::ShellTokenizer;
use crate::util::text::{chars_of, decimal, push_decimal};
use token::{models, serialized};

pub mod helpers;
pub mod laws;
pub mod token;

verus! {

/// What the tokenizer is in the middle of reading.
#[derive(PartialEq, Eq, Structural, Clone, Copy, Debug)]
pub enum ParseMode {
    Idle,
    Value,
    SingleQuote,
    DoubleQuote,
    SingleDashArg,
    DoubleDashArg,
}

/// The state of the tokenizer between two characters.
#[verifier::ext_equal]
pub struct ScanState {
    pub mode: ParseMode,
    /// Inside a double-quoted string, an odd number of `'` has been read.
    pub in_single: bool,
    /// The text of the token being read.
    pub buffer: Seq<char>,
    /// The tokens read so far.
    pub tokens: Seq<TokenModel>,
}

/// What one step of the tokenizer does.
pub enum Step {
    /// Go on at the given position in the given state.
    Next(nat, ScanState),
    /// Stop with an error of kind `InvalidInput` and this text.
    Fail(Seq<char>),
    /// A backslash ends the input where a character must follow it.
    Unfinished,
}

/// What tokenizing a whole line gives.
pub enum TokenizeOutcome {
    Tokens(Seq<TokenModel>),
    Fail(Seq<char>),
    /// The line ends in a backslash that needs a following character.
    Unfinished,
}

pub open spec fn is_alpha(ch: char) -> bool {
    ('a' <= ch && ch <= 'z') || ('A' <= ch && ch <= 'Z')
}

pub open spec fn is_digit(ch: char) -> bool {
    '0' <= ch && ch <= '9'
}

/// A character that may begin a bare word.
pub open spec fn starts_word(ch: char) -> bool {
    is_alpha(ch) || ch == '_' || ch == '.' || ch == '/' || ch == '~'
}

/// A character that may continue a bare word.
pub open spec fn continues_word(ch: char) -> bool {
    is_alpha(ch) || is_digit(ch) || ch == '_' || ch == '-' || ch == '.' || ch == '/'
}

/// A character that may continue an option name.
pub open spec fn continues_arg(ch: char) -> bool {
    is_alpha(ch) || is_digit(ch) || ch == '_' || ch == '-'
}

/// The message for a character that may not stand at position `i`.
pub open spec fn invalid_char_message(i: nat) -> Seq<char> {
    "Invalid character at "@ + decimal(i)
}

/// The token that the text read in `mode` makes.
pub open spec fn token_of(mode: ParseMode, value: Seq<char>) -> TokenModel {
    match mode {
        ParseMode::Value => TokenModel::Value(value),
        ParseMode::SingleQuote => TokenModel::String(value, false),
        ParseMode::DoubleQuote => TokenModel::String(value, true),
        ParseMode::SingleDashArg => TokenModel::Argument(value, false),
        _ => TokenModel::Argument(value, true),
    }
}

pub open spec fn start_state() -> ScanState {
    ScanState { mode: ParseMode::Idle, in_single: false, buffer: Seq::empty(), tokens: Seq::empty() }
}

/// `st` with the buffer grown by `ch`.
pub open spec fn with_char(st: ScanState, ch: char) -> ScanState {
    ScanState { buffer: st.buffer.push(ch), ..st }
}

/// `st` in `mode`.
pub open spec fn in_mode(st: ScanState, mode: ParseMode) -> ScanState {
    ScanState { mode, ..st }
}

/// `st` with `t` added to the tokens.
pub open spec fn with_token(st: ScanState, t: TokenModel) -> ScanState {
    ScanState { tokens: st.tokens.push(t), ..st }
}

/// The token being read is complete: it is added, and reading starts afresh.
pub open spec fn close_token(st: ScanState) -> ScanState {
    ScanState {
        mode: ParseMode::Idle,
        in_single: false,
        buffer: Seq::empty(),
        tokens: st.tokens.push(token_of(st.mode, st.buffer)),
    }
}

/// A redirection operator whose `>` stands just before position `j`, for the stream `prefix`.
pub open spec fn redirect_step(c: Seq<char>, j: nat, st: ScanState, prefix: char) -> Step {
    if j < c.len() && c[j as int] == '>' {
        Step::Next(j + 1, with_token(st, TokenModel::Appender(prefix)))
    } else if j < c.len() {
        Step::Next(j, with_token(st, TokenModel::Redirector(prefix)))
    } else {
        Step::Fail("No redirection target"@)
    }
}

/// One step of the tokenizer at position `i < c.len()`.
pub open spec fn step(c: Seq<char>, i: nat, st: ScanState) -> Step {
    let ch = c[i as int];
    let has_next = i + 1 < c.len();
    let next = c[i + 1 as int];
    match st.mode {
        ParseMode::Idle => {
            if ch == '\'' {
                Step::Next(i + 1, in_mode(st, ParseMode::SingleQuote))
            } else if ch == '"' {
                Step::Next(i + 1, in_mode(st, ParseMode::DoubleQuote))
            } else if ch == '\\' {
                if has_next {
                    Step::Next(i + 2, in_mode(with_char(st, next), ParseMode::Value))
                } else {
                    Step::Unfinished
                }
            } else if ch == '-' {
                if has_next && next == '-' {
                    Step::Next(i + 2, in_mode(st, ParseMode::DoubleDashArg))
                } else {
                    Step::Next(i + 1, in_mode(st, ParseMode::SingleDashArg))
                }
            } else if starts_word(ch) && st.buffer.len() == 0 {
                Step::Next(i + 1, in_mode(with_char(st, ch), ParseMode::Value))
            } else if is_digit(ch) && st.buffer.len() == 0 {
                if has_next && next == '>' {
                    redirect_step(c, i + 2, st, ch)
                } else {
                    Step::Next(i + 1, in_mode(with_char(st, ch), ParseMode::Value))
                }
            } else if ch == '>' {
                redirect_step(c, i + 1, st, '1')
            } else if ch == ' ' {
                if st.tokens.len() > 0 && st.tokens.last() is Space {
                    Step::Next(i + 1, st)
                } else {
                    Step::Next(i + 1, with_token(st, TokenModel::Space))
                }
            } else {
                Step::Fail(invalid_char_message(i))
            }
        },
        ParseMode::Value => {
            if continues_word(ch) {
                Step::Next(i + 1, with_char(st, ch))
            } else if ch == '\\' {
                if has_next {
                    Step::Next(i + 2, with_char(st, next))
                } else {
                    Step::Unfinished
                }
            } else if ch == ' ' {
                Step::Next(i + 1, with_token(close_token(st), TokenModel::Space))
            } else {
                Step::Fail(invalid_char_message(i))
            }
        },
        ParseMode::SingleQuote => {
            if ch == '\'' {
                Step::Next(i + 1, close_token(st))
            } else {
                Step::Next(i + 1, with_char(st, ch))
            }
        },
        ParseMode::DoubleQuote => {
            if ch == '"' {
                Step::Next(i + 1, close_token(st))
            } else if ch == '\\' {
                if st.in_single {
                    Step::Next(i + 1, with_char(st, ch))
                } else if has_next {
                    if next == '\\' || next == '$' || next == '"' {
                        Step::Next(i + 2, with_char(st, next))
                    } else {
                        Step::Next(i + 1, with_char(st, ch))
                    }
                } else {
                    Step::Unfinished
                }
            } else if ch == '\'' {
                Step::Next(i + 1, ScanState { in_single: !st.in_single, ..with_char(st, ch) })
            } else {
                Step::Next(i + 1, with_char(st, ch))
            }
        },
        _ => {
            if continues_arg(ch) {
                Step::Next(i + 1, with_char(st, ch))
            } else if ch == ' ' {
                Step::Next(i + 1, with_token(close_token(st), TokenModel::Space))
            } else {
                Step::Fail(invalid_char_message(i))
            }
        },
    }
}

/// What the end of the line makes of the state `st`.
pub open spec fn finish(st: ScanState) -> TokenizeOutcome {
    match st.mode {
        ParseMode::SingleQuote => TokenizeOutcome::Fail("Single quote didn't end."@),
        ParseMode::DoubleQuote => TokenizeOutcome::Fail("Double quote didn't end."@),
        ParseMode::Idle => TokenizeOutcome::Tokens(st.tokens),
        _ => TokenizeOutcome::Tokens(st.tokens.push(token_of(st.mode, st.buffer))),
    }
}

/// Tokenizing `c` from position `i` in state `st`.
pub open spec fn scan(c: Seq<char>, i: nat, st: ScanState) -> TokenizeOutcome
    decreases c.len() - i,
{
    if i >= c.len() {
        finish(st)
    } else {
        match step(c, i, st) {
            Step::Next(j, next) => scan(c, j, next),
            Step::Fail(msg) => TokenizeOutcome::Fail(msg),
            Step::Unfinished => TokenizeOutcome::Unfinished,
        }
    }
}

/// What tokenizing the line `input` gives.
pub open spec fn tokenize_spec(input: Seq<char>) -> TokenizeOutcome {
    scan(input, 0, start_state())
}

/// What reading a line gives, with the case where it cannot be finished.
#[derive(Debug)]
pub enum Scanned {
    Tokens(Vec<Token>),
    Error(ShellError),
    /// The line ends in a backslash that needs a following character.
    Unfinished,
}

/// Splits command lines into tokens.
pub struct Tokenizer {}

struct Scanner {
    mode: ParseMode,
    sub_single: bool,
    buffer: String,
    tokens: Vec<Token>,
}

fn invalid_character(i: usize) -> (e: ShellError)
    ensures
        e.kind == ErrorKind::InvalidInput,
        e.message@ == invalid_char_message(i as nat),
{
    let mut m = String::from_str("Invalid character at ");
    push_decimal(&mut m, i as u64);
    ShellError::new(ErrorKind::InvalidInput, m)
}

/// The token that the text read in `mode` makes.
fn generate_token(mode: ParseMode, value: &str) -> (t: Token)
    requires
        mode != ParseMode::Idle,
    ensures
        t@ == token_of(mode, value@),
{
    match mode {
        ParseMode::Value => Token::Value(String::from_str(value)),
        ParseMode::SingleQuote => Token::String(String::from_str(value), false),
        ParseMode::DoubleQuote => Token::String(String::from_str(value), true),
        ParseMode::SingleDashArg => Token::Argument(String::from_str(value), false),
        _ => Token::Argument(String::from_str(value), true),
    }
}

impl Scanner {
    spec fn state(&self) -> ScanState {
        ScanState {
            mode: self.mode,
            in_single: self.sub_single,
            buffer: self.buffer@,
            tokens: models(self.tokens@),
        }
    }

    fn new() -> (s: Self)
        ensures
            s.state() == start_state(),
    {
        let s = Scanner { mode: ParseMode::Idle, sub_single: false, buffer: String::new(), tokens: Vec::new() };
        assert(models(s.tokens@) =~= Seq::<TokenModel>::empty());
        s
    }

    fn push_token(&mut self, t: Token)
        ensures
            final(self).state() == with_token(old(self).state(), t@),
    {
        self.tokens.push(t);
        assert(models(self.tokens@) =~= models(old(self).tokens@).push(t@));
    }

    fn push_char(&mut self, ch: char)
        ensures
            final(self).state() == with_char(old(self).state(), ch),
    {
        self.buffer.push(ch);
    }

    fn set_mode(&mut self, mode: ParseMode)
        ensures
            final(self).state() == in_mode(old(self).state(), mode),
    {
        self.mode = mode;
    }

    /// Ends the token being read.
    fn close(&mut self)
        requires
            old(self).mode != ParseMode::Idle,
        ensures
            final(self).state() == close_token(old(self).state()),
    {
        let t = generate_token(self.mode, self.buffer.as_str());
        self.push_token(t);
        self.buffer = String::new();
        self.mode = ParseMode::Idle;
        self.sub_single = false;
    }

    fn last_is_space(&self) -> (b: bool)
        ensures
            b == (self.state().tokens.len() > 0 && self.state().tokens.last() is Space),
    {
        let n = self.tokens.len();
        n > 0 && self.tokens[n - 1].is_space()
    }

    fn redirect(&mut self, cs: &Vec<char>, j: usize, prefix: char) -> (r: Result<usize, Option<ShellError>>)
        requires
            j <= cs@.len(),
        ensures
            match redirect_step(cs@, j as nat, old(self).state(), prefix) {
                Step::Next(k, st) => r == Ok::<usize, Option<ShellError>>(k as usize) && final(self).state() == st,
                Step::Fail(msg) => r matches Err(Some(e)) && e.kind == ErrorKind::InvalidInput
                    && e.message@ == msg,
                Step::Unfinished => r matches Err(None),
            },
    {
        if j < cs.len() && cs[j] == '>' {
            self.push_token(Token::Appender(prefix));
            Ok(j + 1)
        } else if j < cs.len() {
            self.push_token(Token::Redirector(prefix));
            Ok(j)
        } else {
            Err(Some(ShellError::from_text(ErrorKind::InvalidInput, "No redirection target")))
        }
    }

    /// Reads the character at `i`.
    fn step(&mut self, cs: &Vec<char>, i: usize) -> (r: Result<usize, Option<ShellError>>)
        requires
            i < cs@.len(),
        ensures
            match step(cs@, i as nat, old(self).state()) {
                Step::Next(k, st) => r == Ok::<usize, Option<ShellError>>(k as usize) && final(self).state() == st,
                Step::Fail(msg) => r matches Err(Some(e)) && e.kind == ErrorKind::InvalidInput
                    && e.message@ == msg,
                Step::Unfinished => r matches Err(None),
            },
    {
        let ch = cs[i];
        let has_next = i < cs.len() - 1;
        match self.mode {
            ParseMode::Idle => {
                if ch == '\'' {
                    self.set_mode(ParseMode::SingleQuote);
                    Ok(i + 1)
                } else if ch == '"' {
                    self.set_mode(ParseMode::DoubleQuote);
                    Ok(i + 1)
                } else if ch == '\\' {
                    if has_next {
                        self.push_char(cs[i + 1]);
                        self.set_mode(ParseMode::Value);
                        Ok(i + 2)
                    } else {
                        Err(None)
                    }
                } else if ch == '-' {
                    if has_next && cs[i + 1] == '-' {
                        self.set_mode(ParseMode::DoubleDashArg);
                        Ok(i + 2)
                    } else {
                        self.set_mode(ParseMode::SingleDashArg);
                        Ok(i + 1)
                    }
                } else if (('a' <= ch && ch <= 'z') || ('A' <= ch && ch <= 'Z') || ch == '_'
                    || ch == '.' || ch == '/' || ch == '~') && self.buffer.as_str().is_empty() {
                    self.push_char(ch);
                    self.set_mode(ParseMode::Value);
                    Ok(i + 1)
                } else if '0' <= ch && ch <= '9' && self.buffer.as_str().is_empty() {
                    if has_next && cs[i + 1] == '>' {
                        self.redirect(cs, i + 2, ch)
                    } else {
                        self.push_char(ch);
                        self.set_mode(ParseMode::Value);
                        Ok(i + 1)
                    }
                } else if ch == '>' {
                    self.redirect(cs, i + 1, '1')
                } else if ch == ' ' {
                    if !self.last_is_space() {
                        self.push_token(Token::Space);
                    }
                    Ok(i + 1)
                } else {
                    Err(Some(invalid_character(i)))
                }
            },
            ParseMode::Value => {
                if ('a' <= ch && ch <= 'z') || ('A' <= ch && ch <= 'Z') || ('0' <= ch && ch <= '9')
                    || ch == '_' || ch == '-' || ch == '.' || ch == '/' {
                    self.push_char(ch);
                    Ok(i + 1)
                } else if ch == '\\' {
                    if has_next {
                        self.push_char(cs[i + 1]);
                        Ok(i + 2)
                    } else {
                        Err(None)
                    }
                } else if ch == ' ' {
                    self.close();
                    self.push_token(Token::Space);
                    Ok(i + 1)
                } else {
                    Err(Some(invalid_character(i)))
                }
            },
            ParseMode::SingleQuote => {
                if ch == '\'' {
                    self.close();
                } else {
                    self.push_char(ch);
                }
                Ok(i + 1)
            },
            ParseMode::DoubleQuote => {
                if ch == '"' {
                    self.close();
                    Ok(i + 1)
                } else if ch == '\\' {
                    if self.sub_single {
                        self.push_char(ch);
                        Ok(i + 1)
                    } else if has_next {
                        let next = cs[i + 1];
                        if next == '\\' || next == '$' || next == '"' {
                            self.push_char(next);
                            Ok(i + 2)
                        } else {
                            self.push_char(ch);
                            Ok(i + 1)
                        }
                    } else {
                        Err(None)
                    }
                } else if ch == '\'' {
                    self.push_char(ch);
                    self.sub_single = !self.sub_single;
                    Ok(i + 1)
                } else {
                    self.push_char(ch);
                    Ok(i + 1)
                }
            },
            _ => {
                if ('a' <= ch && ch <= 'z') || ('A' <= ch && ch <= 'Z') || ('0' <= ch && ch <= '9')
                    || ch == '_' || ch == '-' {
                    self.push_char(ch);
                    Ok(i + 1)
                } else if ch == ' ' {
                    self.close();
                    self.push_token(Token::Space);
                    Ok(i + 1)
                } else {
                    Err(Some(invalid_character(i)))
                }
            },
        }
    }
}

impl Tokenizer {
    /// Reads the line `input` as the shell's tokenizer does, telling apart the lines that
    /// end in a backslash that needs a following character.
    pub fn scan_line(input: &str) -> (r: Scanned)
        ensures
            match tokenize_spec(input@) {
                TokenizeOutcome::Tokens(ts) => r matches Scanned::Tokens(v) && models(v@) == ts,
                TokenizeOutcome::Fail(msg) => r matches Scanned::Error(e)
                    && e.kind == ErrorKind::InvalidInput && e.message@ == msg,
                TokenizeOutcome::Unfinished => r is Unfinished,
            },
    {
        let cs = chars_of(input);
        let mut sc = Scanner::new();
        let mut i: usize = 0;
        while i < cs.len()
            invariant
                i <= cs@.len(),
                cs@ == input@,
                scan(cs@, i as nat, sc.state()) == tokenize_spec(input@),
            decreases cs@.len() - i,
        {
            match sc.step(&cs, i) {
                Ok(j) => {
                    i = j;
                },
                Err(Some(e)) => {
                    return Scanned::Error(e);
                },
                Err(None) => {
                    return Scanned::Unfinished;
                },
            }
        }
        match sc.mode {
            ParseMode::SingleQuote => Scanned::Error(
                ShellError::from_text(ErrorKind::InvalidInput, "Single quote didn't end."),
            ),
            ParseMode::DoubleQuote => Scanned::Error(
                ShellError::from_text(ErrorKind::InvalidInput, "Double quote didn't end."),
            ),
            ParseMode::Idle => Scanned::Tokens(sc.tokens),
            _ => {
                sc.close();
                Scanned::Tokens(sc.tokens)
            },
        }
    }
}

impl ShellTokenizer<Token> for Tokenizer {
    /// A line splits unless it ends in a backslash that waits for another character.
    open spec fn splits(input: Seq<char>) -> bool {
        !(tokenize_spec(input) is Unfinished)
    }

    open spec fn split_as(input: Seq<char>, r: Result<Vec<Token>, ShellError>) -> bool {
        match tokenize_spec(input) {
            TokenizeOutcome::Tokens(ts) => r matches Ok(v) && models(v@) == ts,
            TokenizeOutcome::Fail(msg) => r matches Err(e) && e.kind == ErrorKind::InvalidInput
                && e.message@ == msg,
            TokenizeOutcome::Unfinished => false,
        }
    }

    /// Splits `input` into tokens.
    fn tokenize(input: &str) -> (r: Result<Vec<Token>, ShellError>) {
        match Self::scan_line(input) {
            Scanned::Tokens(v) => Ok(v),
            Scanned::Error(e) => Err(e),
            Scanned::Unfinished => Err(ShellError::from_text(ErrorKind::InvalidInput, "")),
        }
    }
}

} // verus!
