use vstd::prelude::*;

use crate::modules::tokenizer::token::{
    model_is_redirection, models, serialized, Token, TokenModel,
};
use crate::util::error::{ErrorKind, ShellError};
use crate::util::text::bytes_of;
use vstd::utf8::encode_utf8;

pub mod laws;
pub mod run;

verus! {

/// The token sends an output stream to a file.
pub open spec fn redirects_stream(t: TokenModel) -> bool {
    model_is_redirection(t)
}

/// The position of the first redirection among `ts`, or -1 when there is none.
pub open spec fn first_redirection(ts: Seq<TokenModel>) -> int
    decreases ts.len(),
{
    if ts.len() == 0 {
        -1
    } else if redirects_stream(ts[0]) {
        0
    } else {
        let r = first_redirection(ts.drop_first());
        if r < 0 {
            -1
        } else {
            r + 1
        }
    }
}

/// The text of the first word or quoted string among `ts`: the command to run.
pub open spec fn first_command(ts: Seq<TokenModel>) -> Option<Seq<char>>
    decreases ts.len(),
{
    if ts.len() == 0 {
        None
    } else {
        match ts[0] {
            TokenModel::Value(v) => Some(v),
            TokenModel::String(v, _) => Some(v),
            _ => first_command(ts.drop_first()),
        }
    }
}

/// One token more for the arguments of a program: a blank starts a new argument, and any
/// other token adds its text to the current one.
pub open spec fn group_step(gs: Seq<(bool, Seq<char>)>, t: TokenModel) -> Seq<(bool, Seq<char>)> {
    if t is Space {
        gs.push((false, seq![]))
    } else if gs.len() == 0 {
        seq![(true, serialized(t))]
    } else {
        gs.update(gs.len() - 1, (true, gs.last().1 + serialized(t)))
    }
}

/// The arguments being gathered from `ts`, each marked with whether a token went into it.
pub open spec fn arg_groups(ts: Seq<TokenModel>) -> Seq<(bool, Seq<char>)>
    decreases ts.len(),
{
    if ts.len() == 0 {
        seq![]
    } else {
        group_step(arg_groups(ts.drop_last()), ts.last())
    }
}

/// The texts of the groups that a token went into.
pub open spec fn filled_texts(gs: Seq<(bool, Seq<char>)>) -> Seq<Seq<char>>
    decreases gs.len(),
{
    if gs.len() == 0 {
        seq![]
    } else if gs.last().0 {
        filled_texts(gs.drop_last()).push(gs.last().1)
    } else {
        filled_texts(gs.drop_last())
    }
}

/// The arguments that a program gets: the tokens after the command and the blank that
/// follows it, split at blanks, each argument the joined texts of its tokens.
pub open spec fn program_arguments(ts: Seq<TokenModel>) -> Seq<Seq<char>> {
    filled_texts(arg_groups(after_command(ts)))
}

/// The tokens after the first two (none when there are fewer).
pub open spec fn after_command(ts: Seq<TokenModel>) -> Seq<TokenModel> {
    if ts.len() <= 2 {
        seq![]
    } else {
        ts.skip(2)
    }
}

/// The bytes without one final line feed.
pub open spec fn without_final_newline(b: Seq<u8>) -> Seq<u8> {
    if b.len() > 0 && b.last() == 10 {
        b.drop_last()
    } else {
        b
    }
}

/// The text without one final `\n`.
pub open spec fn without_final_newline_text(s: Seq<char>) -> Seq<char> {
    if s.len() > 0 && s.last() == '\n' {
        s.drop_last()
    } else {
        s
    }
}

/// What an interpreted line gives: bytes to show, or an error.
pub enum Outcome {
    Bytes(Seq<u8>),
    Fail(ErrorKind, Seq<char>),
}

pub open spec fn outcome_of(r: Result<Vec<u8>, ShellError>) -> Outcome {
    match r {
        Ok(b) => Outcome::Bytes(b@),
        Err(e) => Outcome::Fail(e.kind, e.message@),
    }
}

pub open spec fn error_model(e: Option<ShellError>) -> Option<(ErrorKind, Seq<char>)> {
    match e {
        Some(e) => Some((e.kind, e.message@)),
        None => None,
    }
}

pub open spec fn bytes_model(b: Option<Vec<u8>>) -> Option<Seq<u8>> {
    match b {
        Some(b) => Some(b@),
        None => None,
    }
}

/// What comes after running the builtin of a line without redirection.
#[derive(Debug)]
pub enum DirectNext {
    /// The line's outcome.
    Finish(Result<Vec<u8>, ShellError>),
    /// No builtin has that name: run the program of that name if there is one, and give
    /// this error otherwise.
    TryProgram(ShellError),
}

/// How a redirected line starts.
#[derive(Debug)]
pub enum RedirectStart {
    /// Nothing stands before the redirection: the line gives no output.
    Empty,
    /// The line cannot be run.
    Invalid(ShellError),
    /// Run this command.
    Command(String),
}

/// A write to a file.
#[derive(Debug)]
pub struct FileWrite {
    pub path: String,
    pub bytes: Vec<u8>,
    /// Add to the end of the file rather than replace it.
    pub append: bool,
}

/// What a redirection does: the write to make, and the outcome when it succeeds.
#[derive(Debug)]
pub struct RedirectPlan {
    pub write: Option<FileWrite>,
    pub result: Result<Vec<u8>, ShellError>,
}

pub open spec fn write_model(w: Option<FileWrite>) -> Option<(Seq<char>, Seq<u8>, bool)> {
    match w {
        Some(w) => Some((w.path@, w.bytes@, w.append)),
        None => None,
    }
}

/// The error if there is one, else no output.
pub open spec fn error_or_nothing(error: Option<(ErrorKind, Seq<char>)>) -> Outcome {
    match error {
        Some((k, m)) => Outcome::Fail(k, m),
        None => Outcome::Bytes(seq![]),
    }
}

/// The output if there is one, else no output.
pub open spec fn output_or_nothing(output: Option<Seq<u8>>) -> Outcome {
    match output {
        Some(b) => Outcome::Bytes(b),
        None => Outcome::Bytes(seq![]),
    }
}

/// The write that the redirection `t` to `path` makes.
pub open spec fn redirect_write(
    t: TokenModel,
    path: Seq<char>,
    output: Option<Seq<u8>>,
    error: Option<(ErrorKind, Seq<char>)>,
) -> Option<(Seq<char>, Seq<u8>, bool)> {
    match t {
        TokenModel::Redirector(c) => {
            if c == '1' {
                match output {
                    Some(b) => Some((path, b, false)),
                    None => None,
                }
            } else if c == '2' {
                match error {
                    Some((_, m)) => Some((path, encode_utf8(m), false)),
                    None => Some((path, seq![], false)),
                }
            } else {
                None
            }
        },
        TokenModel::Appender(c) => {
            if c == '1' {
                match output {
                    Some(b) => Some((path, b, true)),
                    None => Some((path, seq![], true)),
                }
            } else if c == '2' {
                match error {
                    Some((_, m)) => Some((path, encode_utf8(m), true)),
                    None => None,
                }
            } else {
                None
            }
        },
        _ => None,
    }
}

/// The outcome of the redirection `t` once its write has succeeded.
pub open spec fn redirect_outcome(
    t: TokenModel,
    output: Option<Seq<u8>>,
    error: Option<(ErrorKind, Seq<char>)>,
) -> Outcome {
    match t {
        TokenModel::Redirector(c) => {
            if c == '1' {
                error_or_nothing(error)
            } else if c == '2' {
                output_or_nothing(output)
            } else {
                Outcome::Fail(ErrorKind::InvalidInput, "error: invalid redirection"@)
            }
        },
        TokenModel::Appender(c) => {
            if c == '1' {
                error_or_nothing(error)
            } else if c == '2' {
                output_or_nothing(output)
            } else {
                Outcome::Fail(ErrorKind::InvalidInput, "error: invalid redirection"@)
            }
        },
        _ => Outcome::Fail(ErrorKind::InvalidInput, "error: invalid redirection"@),
    }
}

/// The contents of a file after `content` is added to it: a line feed separates it from
/// earlier contents; a file that could not be read gets `content` alone.
pub open spec fn appended(existing: Option<Seq<u8>>, content: Seq<u8>) -> Seq<u8> {
    match existing {
        Some(e) => if e.len() > 0 {
            e.push(10) + content
        } else {
            content
        },
        None => content,
    }
}

/// Runs command lines: decides what to run and where its output goes.
pub struct Interpreter {}

proof fn lemma_models_push(v: Seq<Token>, t: Token)
    ensures
        models(v.push(t)) == models(v).push(t@),
{
    assert(models(v.push(t)) =~= models(v).push(t@));
}

proof fn lemma_first_redirection(ts: Seq<TokenModel>)
    ensures
        -1 <= first_redirection(ts) < ts.len(),
        first_redirection(ts) >= 0 ==> redirects_stream(ts[first_redirection(ts)]),
        forall|j: int| 0 <= j < ts.len() && (first_redirection(ts) < 0 || j < first_redirection(ts))
            ==> !redirects_stream(#[trigger] ts[j]),
    decreases ts.len(),
{
    if ts.len() > 0 && !redirects_stream(ts[0]) {
        lemma_first_redirection(ts.drop_first());
        assert forall|j: int| 0 <= j < ts.len() && (first_redirection(ts) < 0 || j
            < first_redirection(ts)) implies !redirects_stream(#[trigger] ts[j]) by {
            if j > 0 {
                assert(ts[j] == ts.drop_first()[j - 1]);
            }
        }
    }
}

proof fn lemma_first_redirection_at(ts: Seq<TokenModel>, k: int)
    requires
        0 <= k < ts.len(),
        redirects_stream(ts[k]),
        forall|j: int| 0 <= j < k ==> !redirects_stream(#[trigger] ts[j]),
    ensures
        first_redirection(ts) == k,
{
    lemma_first_redirection(ts);
    if first_redirection(ts) < 0 || first_redirection(ts) > k {
        assert(!redirects_stream(ts[k]));
    } else if first_redirection(ts) < k {
        assert(!redirects_stream(ts[first_redirection(ts)]));
    }
}

proof fn lemma_first_command_skip(ts: Seq<TokenModel>, i: int)
    requires
        0 <= i <= ts.len(),
        forall|j: int| 0 <= j < i ==> !(#[trigger] ts[j] is Value) && !(ts[j] is String),
    ensures
        first_command(ts) == first_command(ts.skip(i)),
    decreases i,
{
    if i > 0 {
        assert forall|j: int| 0 <= j < i - 1 implies !(#[trigger] ts.drop_first()[j] is Value)
            && !(ts.drop_first()[j] is String) by {
            assert(ts.drop_first()[j] == ts[j + 1]);
        }
        lemma_first_command_skip(ts.drop_first(), i - 1);
        assert(ts.drop_first().skip(i - 1) =~= ts.skip(i));
    } else {
        assert(ts.skip(0) =~= ts);
    }
}

impl Interpreter {
    /// Whether the line redirects an output stream to a file.
    pub fn is_redirected(tokens: &[Token]) -> (b: bool)
        ensures
            b == (first_redirection(models(tokens@)) >= 0),
    {
        let ghost ms = models(tokens@);
        proof {
            lemma_first_redirection(ms);
        }
        let mut i: usize = 0;
        while i < tokens.len()
            invariant
                i <= tokens@.len(),
                ms == models(tokens@),
                forall|j: int| 0 <= j < i ==> !redirects_stream(#[trigger] ms[j]),
            decreases tokens@.len() - i,
        {
            if tokens[i].is_redirection_token() {
                assert(redirects_stream(ms[i as int]));
                proof {
                    lemma_first_redirection_at(ms, i as int);
                }
                return true;
            }
            i += 1;
        }
        proof {
            if first_redirection(ms) >= 0 {
                assert(!redirects_stream(ms[first_redirection(ms)]));
            }
        }
        false
    }

    /// The command of a line without redirection: its first word or quoted string.
    pub fn direct_command(tokens: &[Token]) -> (r: Result<String, ShellError>)
        ensures
            match first_command(models(tokens@)) {
                Some(c) => r matches Ok(s) && s@ == c,
                None => r matches Err(e) && e.kind == ErrorKind::InvalidInput && e.message@
                    == "error: no command provided"@,
            },
    {
        let ghost ms = models(tokens@);
        let mut i: usize = 0;
        while i < tokens.len()
            invariant
                i <= tokens@.len(),
                ms == models(tokens@),
                forall|j: int| 0 <= j < i ==> !(#[trigger] ms[j] is Value) && !(ms[j] is String),
            decreases tokens@.len() - i,
        {
            match &tokens[i] {
                Token::Value(cmd) => {
                    proof {
                        lemma_first_command_skip(ms, i as int);
                        assert(ms.skip(i as int)[0] == ms[i as int]);
                    }
                    return Ok(cmd.clone());
                },
                Token::String(cmd, _) => {
                    proof {
                        lemma_first_command_skip(ms, i as int);
                        assert(ms.skip(i as int)[0] == ms[i as int]);
                    }
                    return Ok(cmd.clone());
                },
                _ => {},
            }
            i += 1;
        }
        proof {
            lemma_first_command_skip(ms, i as int);
            assert(ms.skip(i as int).len() == 0);
        }
        Err(ShellError::from_text(ErrorKind::InvalidInput, "error: no command provided"))
    }

    /// What a line without redirection does with its builtin's answer: an answer is the
    /// output; an error of kind `NotFound` sends it to look for a program; another error is
    /// the outcome.
    pub fn after_builtin(result: Result<String, ShellError>) -> (r: DirectNext)
        ensures
            match result {
                Ok(s) => r matches DirectNext::Finish(Ok(b)) && b@ == encode_utf8(s@),
                Err(e) => if e.kind == ErrorKind::NotFound {
                    r matches DirectNext::TryProgram(e2) && e2.kind == e.kind && e2.message@
                        == e.message@
                } else {
                    r matches DirectNext::Finish(Err(e2)) && e2.kind == e.kind && e2.message@
                        == e.message@
                },
            },
    {
        match result {
            Ok(s) => DirectNext::Finish(Ok(bytes_of(&s))),
            Err(e) => {
                if e.kind == ErrorKind::NotFound {
                    DirectNext::TryProgram(e)
                } else {
                    DirectNext::Finish(Err(e))
                }
            },
        }
    }

    /// The outcome of a program run on a line without redirection: its output when it
    /// succeeds, else an error of kind `InvalidInput` with what it wrote to its error
    /// stream; one final line feed dropped from either.
    pub fn program_outcome(success: bool, stdout: Vec<u8>, stderr: String) -> (r: Result<
        Vec<u8>,
        ShellError,
    >)
        ensures
            success ==> outcome_of(r) == Outcome::Bytes(without_final_newline(stdout@)),
            !success ==> outcome_of(r) == Outcome::Fail(
                ErrorKind::InvalidInput,
                without_final_newline_text(stderr@),
            ),
    {
        if success {
            let mut out = stdout;
            let n = out.len();
            if n > 0 && out[n - 1] == 10 {
                out.pop();
            }
            return Ok(out);
        }
        let cs = crate::util::text::chars_of(stderr.as_str());
        let n = cs.len();
        let text = if n > 0 && cs[n - 1] == '\n' {
            let t = crate::util::text::sub_chars(cs.as_slice(), 0, n - 1);
            assert(t@ =~= stderr@.drop_last());
            t
        } else {
            cs
        };
        Err(ShellError::new(ErrorKind::InvalidInput, crate::util::text::string_of(text.as_slice())))
    }

    /// The arguments to run a program with.
    pub fn program_args(tokens: &[Token]) -> (r: Vec<String>)
        ensures
            r@.len() == program_arguments(models(tokens@)).len(),
            forall|k: int| 0 <= k < r@.len() ==> #[trigger] r@[k]@ == program_arguments(
                models(tokens@),
            )[k],
    {
        let ghost ms = models(tokens@);
        let ghost rest = after_command(ms);
        let mut flags: Vec<bool> = Vec::new();
        let mut texts: Vec<String> = Vec::new();
        let mut i: usize = 2;
        assert(rest.take(0) =~= seq![]);
        while i < tokens.len()
            invariant
                ms == models(tokens@),
                rest == after_command(ms),
                2 <= i <= tokens@.len() || (i == 2 && tokens@.len() < 2),
                flags@.len() == texts@.len(),
                flags@.len() == arg_groups(rest.take(i - 2)).len(),
                forall|k: int| 0 <= k < flags@.len() ==> (#[trigger] flags@[k], texts@[k]@) == arg_groups(
                    rest.take(i - 2),
                )[k],
            decreases tokens@.len() - i,
        {
            let ghost before = arg_groups(rest.take(i - 2));
            proof {
                assert(rest.take(i + 1 - 2).drop_last() =~= rest.take(i - 2));
                assert(rest.take(i + 1 - 2).last() == tokens@[i as int]@);
            }
            let t = &tokens[i];
            if t.is_space() {
                flags.push(false);
                texts.push(String::new());
            } else if flags.len() == 0 {
                flags.push(true);
                texts.push(t.serialize());
            } else {
                let mut last = texts.pop().unwrap();
                flags.pop();
                let s = t.serialize();
                last.append(s.as_str());
                flags.push(true);
                texts.push(last);
            }
            proof {
                let after = arg_groups(rest.take(i + 1 - 2));
                assert forall|k: int| 0 <= k < flags@.len() implies (#[trigger] flags@[k], texts@[k]@)
                    == after[k] by {
                    if k < before.len() - 1 || (k < before.len() && tokens@[i as int]@ is Space) {
                        assert(after[k] == before[k]);
                    }
                }
            }
            i += 1;
        }
        let ghost gs = arg_groups(rest);
        proof {
            if tokens@.len() > 2 {
                assert(rest.take(tokens@.len() - 2) =~= rest);
            } else {
                assert(rest.take(i - 2) =~= rest);
            }
        }
        let mut out: Vec<String> = Vec::new();
        let mut j: usize = 0;
        assert(gs.take(0) =~= seq![]);
        while j < flags.len()
            invariant
                j <= flags@.len(),
                flags@.len() == texts@.len(),
                flags@.len() == gs.len(),
                forall|k: int| 0 <= k < flags@.len() ==> (#[trigger] flags@[k], texts@[k]@) == gs[k],
                out@.len() == filled_texts(gs.take(j as int)).len(),
                forall|k: int| 0 <= k < out@.len() ==> #[trigger] out@[k]@ == filled_texts(
                    gs.take(j as int),
                )[k],
            decreases flags@.len() - j,
        {
            proof {
                assert(gs.take(j + 1).drop_last() =~= gs.take(j as int));
                assert(gs.take(j + 1).last() == gs[j as int]);
            }
            if flags[j] {
                out.push(texts[j].clone());
            }
            j += 1;
        }
        assert(gs.take(flags@.len() as int) =~= gs);
        out
    }

    /// Splits a redirected line at its first redirection.
    pub fn split_at_redirection(tokens: &[Token]) -> (r: (Vec<Token>, Vec<Token>))
        requires
            first_redirection(models(tokens@)) >= 0,
        ensures
            models(r.0@) == models(tokens@).take(first_redirection(models(tokens@))),
            models(r.1@) == models(tokens@).skip(first_redirection(models(tokens@))),
    {
        let ghost ms = models(tokens@);
        proof {
            lemma_first_redirection(ms);
        }
        let mut i: usize = 0;
        while i < tokens.len() && !tokens[i].is_redirection_token()
            invariant
                i <= tokens@.len(),
                ms == models(tokens@),
                first_redirection(ms) >= 0,
                forall|j: int| 0 <= j < i ==> !redirects_stream(#[trigger] ms[j]),
            decreases tokens@.len() - i,
        {
            i += 1;
        }
        proof {
            if i < tokens@.len() {
                lemma_first_redirection_at(ms, i as int);
            } else {
                assert(!redirects_stream(ms[first_redirection(ms)]));
            }
        }
        let mut head: Vec<Token> = Vec::new();
        let mut k: usize = 0;
        while k < i
            invariant
                k <= i <= tokens@.len(),
                ms == models(tokens@),
                models(head@) == ms.take(k as int),
            decreases i - k,
        {
            let t = tokens[k].clone();
            assert(t@ == ms[k as int]);
            let ghost old_head = head@;
            head.push(t);
            proof {
                lemma_models_push(old_head, t);
                assert(ms.take(k + 1) =~= ms.take(k as int).push(ms[k as int]));
            }
            k += 1;
        }
        let mut tail: Vec<Token> = Vec::new();
        let mut k: usize = i;
        while k < tokens.len()
            invariant
                i <= k <= tokens@.len(),
                ms == models(tokens@),
                models(tail@) == ms.subrange(i as int, k as int),
            decreases tokens@.len() - k,
        {
            let t = tokens[k].clone();
            assert(t@ == ms[k as int]);
            let ghost old_tail = tail@;
            tail.push(t);
            proof {
                lemma_models_push(old_tail, t);
                assert(ms.subrange(i as int, k + 1) =~= ms.subrange(i as int, k as int).push(
                    ms[k as int],
                ));
            }
            k += 1;
        }
        assert(ms.subrange(i as int, tokens@.len() as int) =~= ms.skip(i as int));
        (head, tail)
    }

    /// How the part of a redirected line before its redirection starts: its first token
    /// must be a word or a quoted string.
    pub fn redirected_start(command_tokens: &[Token]) -> (r: RedirectStart)
        ensures
            command_tokens@.len() == 0 ==> r is Empty,
            command_tokens@.len() > 0 ==> match command_tokens@[0]@ {
                TokenModel::Value(c) => r matches RedirectStart::Command(s) && s@ == c,
                TokenModel::String(c, _) => r matches RedirectStart::Command(s) && s@ == c,
                _ => r matches RedirectStart::Invalid(e) && e.kind == ErrorKind::InvalidInput
                    && e.message@ == "error: invalid input"@,
            },
    {
        if command_tokens.len() == 0 {
            return RedirectStart::Empty;
        }
        match &command_tokens[0] {
            Token::Value(cmd) => RedirectStart::Command(cmd.clone()),
            Token::String(cmd, _) => RedirectStart::Command(cmd.clone()),
            _ => RedirectStart::Invalid(
                ShellError::from_text(ErrorKind::InvalidInput, "error: invalid input"),
            ),
        }
    }

    /// The output and the error of a builtin run on a redirected line.
    pub fn builtin_streams(result: Result<String, ShellError>) -> (r: (
        Option<Vec<u8>>,
        Option<ShellError>,
    ))
        ensures
            match result {
                Ok(s) => bytes_model(r.0) == Some(encode_utf8(s@)) && r.1 is None,
                Err(e) => r.0 is None && error_model(r.1) == Some((e.kind, e.message@)),
            },
    {
        match result {
            Ok(s) => (Some(bytes_of(&s)), None),
            Err(e) => (None, Some(e)),
        }
    }

    /// The output and the error of a program run on a redirected line: its output, and
    /// what it wrote to its error stream, if anything, as an error of kind `Other`.
    pub fn program_streams(stdout: Vec<u8>, stderr: String) -> (r: (
        Option<Vec<u8>>,
        Option<ShellError>,
    ))
        ensures
            bytes_model(r.0) == Some(stdout@),
            stderr@.len() == 0 ==> r.1 is None,
            stderr@.len() > 0 ==> error_model(r.1) == Some((ErrorKind::Other, stderr@)),
    {
        if stderr.as_str().is_empty() {
            (Some(stdout), None)
        } else {
            (Some(stdout), Some(ShellError::new(ErrorKind::Other, stderr)))
        }
    }

    /// What the redirection at the head of `redirect_tokens` does with the output and the
    /// error of the command before it; the file is named by the token after the blank.
    pub fn plan_redirect(
        redirect_tokens: &[Token],
        output: Option<Vec<u8>>,
        error: Option<ShellError>,
    ) -> (r: RedirectPlan)
        requires
            redirect_tokens@.len() >= 3,
        ensures
            write_model(r.write) == redirect_write(
                redirect_tokens@[0]@,
                serialized(redirect_tokens@[2]@),
                bytes_model(output),
                error_model(error),
            ),
            outcome_of(r.result) == redirect_outcome(
                redirect_tokens@[0]@,
                bytes_model(output),
                error_model(error),
            ),
    {
        let path = redirect_tokens[2].serialize();
        let invalid = ShellError::from_text(ErrorKind::InvalidInput, "error: invalid redirection");
        let (c, append) = match &redirect_tokens[0] {
            Token::Redirector(c) => (*c, false),
            Token::Appender(c) => (*c, true),
            _ => {
                return RedirectPlan { write: None, result: Err(invalid) };
            },
        };
        if c == '1' {
            let result: Result<Vec<u8>, ShellError> = match error {
                Some(e) => Err(e),
                None => Ok(Vec::new()),
            };
            let write = match output {
                Some(b) => Some(FileWrite { path, bytes: b, append }),
                None => if append {
                    Some(FileWrite { path, bytes: Vec::new(), append })
                } else {
                    None
                },
            };
            RedirectPlan { write, result }
        } else if c == '2' {
            let result: Result<Vec<u8>, ShellError> = match output {
                Some(b) => Ok(b),
                None => Ok(Vec::new()),
            };
            let write = match error {
                Some(e) => Some(FileWrite { path, bytes: bytes_of(&e.message), append }),
                None => if append {
                    None
                } else {
                    Some(FileWrite { path, bytes: Vec::new(), append })
                },
            };
            RedirectPlan { write, result }
        } else {
            RedirectPlan { write: None, result: Err(invalid) }
        }
    }

    /// The contents of a file after `content` is added to it; `existing` is what reading
    /// the file gave, if it could be read.
    pub fn appended_contents(existing: Option<Vec<u8>>, content: Vec<u8>) -> (r: Vec<u8>)
        ensures
            r@ == appended(bytes_model(existing), content@),
    {
        match existing {
            Some(e) => {
                if e.len() > 0 {
                    let mut all = e;
                    all.push(10);
                    let mut c = content;
                    let ghost before = all@;
                    all.append(&mut c);
                    all
                } else {
                    content
                }
            },
            None => content,
        }
    }
}

} // verus!
