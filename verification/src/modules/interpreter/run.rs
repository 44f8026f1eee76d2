use vstd::prelude::*;

use crate::modules::auto_complete::texts;
use crate::modules::interpreter::{
    bytes_model, error_model, first_command, first_redirection, outcome_of, program_arguments,
    redirect_outcome, redirect_write, without_final_newline, without_final_newline_text,
    write_model, DirectNext, FileWrite, Interpreter, Outcome, RedirectStart,
};
use crate::modules::tokenizer::token::{models, serialized, Token, TokenModel};
use crate::util::error::{ErrorKind, ShellError};
use vstd::utf8::encode_utf8;

verus! {

/// What a program that ran gave.
#[derive(Debug)]
pub struct ProgramOutput {
    pub success: bool,
    pub stdout: Vec<u8>,
    /// Its standard error, as text.
    pub stderr: String,
}

/// How running a line goes on once the builtin has answered.
#[derive(Debug)]
pub enum BuiltinNext {
    /// A line without redirection: where no builtin has the name, the program `cmd` is
    /// tried with the arguments `args`.
    Direct { cmd: String, args: Vec<String> },
    /// A redirected line: the answer goes through the redirection `redirect`.
    Redirected { redirect: Vec<Token> },
}

/// How running a line goes on once the program has been looked for on the search path.
#[derive(Debug)]
pub enum LookupNext {
    /// A line without redirection whose name no builtin has: without the program, the
    /// builtin's `error` is the outcome.
    Direct { cmd: String, args: Vec<String>, error: ShellError },
    /// A redirected line: the program, or else the builtin, runs `command`.
    Redirected { cmd: String, command: Vec<Token>, redirect: Vec<Token> },
}

/// How running a line goes on once the program has run.
#[derive(Debug)]
pub enum ProgramNext {
    /// A line without redirection: the program's outcome is the line's. Its standard error
    /// is read as text only when it fails.
    Direct,
    /// A redirected line: the output goes through the redirection `redirect`.
    Redirected { redirect: Vec<Token> },
}

/// What running a command line needs next.
#[derive(Debug)]
#[allow(inconsistent_fields)]
pub enum RunAction {
    /// Run the builtin `cmd` on `tokens`; its answer goes to `Interpreter::builtin_answered`
    /// with `next`.
    RunBuiltin { cmd: String, tokens: Vec<Token>, next: BuiltinNext },
    /// Look for the program `cmd` on the search path; whether it is there goes to
    /// `Interpreter::program_looked_up` with `next`.
    FindProgram { cmd: String, next: LookupNext },
    /// Run the program `cmd` with `args`; what it gives goes to `Interpreter::program_ran`
    /// with `next`.
    RunProgram { cmd: String, args: Vec<String>, next: ProgramNext },
    /// Make the write; how it went goes to `Interpreter::written` with `then`, the line's
    /// outcome once the write is made.
    Write { write: FileWrite, then: Result<Vec<u8>, ShellError> },
    /// The line's outcome.
    Finish(Result<Vec<u8>, ShellError>),
    /// The redirection names no file: the line stops the program.
    Crash,
}

/// The action ends the line with the outcome `o`.
pub open spec fn finishes(a: RunAction, o: Outcome) -> bool {
    a matches RunAction::Finish(r) && outcome_of(r) == o
}

/// What a redirection to `redirect` asks for when the command gave `output` and `error`: the
/// write it makes, then its outcome; the line stops the program when no file is named.
pub open spec fn redirected_to(
    a: RunAction,
    redirect: Seq<TokenModel>,
    output: Option<Seq<u8>>,
    error: Option<(ErrorKind, Seq<char>)>,
) -> bool {
    if redirect.len() < 3 {
        a is Crash
    } else {
        match redirect_write(redirect[0], serialized(redirect[2]), output, error) {
            Some(w) => a matches RunAction::Write { write, then } && write_model(Some(write))
                == Some(w) && outcome_of(then) == redirect_outcome(redirect[0], output, error),
            None => finishes(a, redirect_outcome(redirect[0], output, error)),
        }
    }
}

/// How a redirected line starts: with nothing before the redirection it gives no output; a
/// command there is looked for on the search path.
pub open spec fn redirect_started(ms: Seq<TokenModel>, a: RunAction) -> bool {
    let command = ms.take(first_redirection(ms));
    let redirect = ms.skip(first_redirection(ms));
    if command.len() == 0 {
        finishes(a, Outcome::Bytes(seq![]))
    } else {
        match command[0] {
            TokenModel::Value(c) => a matches RunAction::FindProgram {
                cmd,
                next: LookupNext::Redirected { cmd: c2, command: ct, redirect: rt },
            } && cmd@ == c && c2@ == c && models(ct@) == command && models(rt@) == redirect,
            TokenModel::String(c, _) => a matches RunAction::FindProgram {
                cmd,
                next: LookupNext::Redirected { cmd: c2, command: ct, redirect: rt },
            } && cmd@ == c && c2@ == c && models(ct@) == command && models(rt@) == redirect,
            _ => finishes(a, Outcome::Fail(ErrorKind::InvalidInput, "error: invalid input"@)),
        }
    }
}

/// The standard error of a program, as a redirection sees it: none when it is empty.
pub open spec fn program_error(stderr: Seq<char>) -> Option<(ErrorKind, Seq<char>)> {
    if stderr.len() == 0 {
        None
    } else {
        Some((ErrorKind::Other, stderr))
    }
}

/// The output and error of a builtin's answer, as a redirection sees them.
pub open spec fn answer_streams(answer: Result<String, ShellError>) -> (
    Option<Seq<u8>>,
    Option<(ErrorKind, Seq<char>)>,
) {
    match answer {
        Ok(s) => (Some(encode_utf8(s@)), None),
        Err(e) => (None, Some((e.kind, e.message@))),
    }
}

impl Interpreter {
    /// The arguments of a program, with their texts.
    fn arguments(tokens: &[Token]) -> (args: Vec<String>)
        ensures
            texts(args@) == program_arguments(models(tokens@)),
    {
        let args = Self::program_args(tokens);
        assert(texts(args@) =~= program_arguments(models(tokens@)));
        args
    }

    /// What the redirection asks for when the command gave `output` and `error`.
    fn through_redirect(redirect: Vec<Token>, output: Option<Vec<u8>>, error: Option<ShellError>) -> (a:
        RunAction)
        ensures
            redirected_to(a, models(redirect@), bytes_model(output), error_model(error)),
    {
        if redirect.len() < 3 {
            return RunAction::Crash;
        }
        let plan = Self::plan_redirect(redirect.as_slice(), output, error);
        match plan.write {
            Some(write) => RunAction::Write { write, then: plan.result },
            None => RunAction::Finish(plan.result),
        }
    }

    /// Starts running the command line `tokens`. A line without redirection runs the builtin
    /// its first word names; a redirected line first looks for its command on the search
    /// path.
    pub fn start(tokens: Vec<Token>) -> (a: RunAction)
        ensures
            first_redirection(models(tokens@)) < 0 ==> match first_command(models(tokens@)) {
                Some(c) => a matches RunAction::RunBuiltin {
                    cmd,
                    tokens: ts,
                    next: BuiltinNext::Direct { cmd: c2, args },
                } && cmd@ == c && models(ts@) == models(tokens@) && c2@ == c && texts(args@)
                    == program_arguments(models(tokens@)),
                None => finishes(
                    a,
                    Outcome::Fail(ErrorKind::InvalidInput, "error: no command provided"@),
                ),
            },
            first_redirection(models(tokens@)) >= 0 ==> redirect_started(models(tokens@), a),
    {
        if !Self::is_redirected(tokens.as_slice()) {
            return match Self::direct_command(tokens.as_slice()) {
                Err(e) => RunAction::Finish(Err(e)),
                Ok(cmd) => {
                    let args = Self::arguments(tokens.as_slice());
                    RunAction::RunBuiltin {
                        cmd: cmd.clone(),
                        tokens,
                        next: BuiltinNext::Direct { cmd, args },
                    }
                },
            };
        }
        let ghost ms = models(tokens@);
        let (command, redirect) = Self::split_at_redirection(tokens.as_slice());
        proof {
            if command@.len() > 0 {
                assert(models(command@)[0] == command@[0]@);
            }
        }
        match Self::redirected_start(command.as_slice()) {
            RedirectStart::Empty => RunAction::Finish(Ok(Vec::new())),
            RedirectStart::Invalid(e) => RunAction::Finish(Err(e)),
            RedirectStart::Command(cmd) => RunAction::FindProgram {
                cmd: cmd.clone(),
                next: LookupNext::Redirected { cmd, command, redirect },
            },
        }
    }

    /// Goes on once the builtin has answered `answer`. Without redirection the answer is the
    /// outcome, unless no builtin has the name: then the program of that name is looked for.
    pub fn builtin_answered(next: BuiltinNext, answer: Result<String, ShellError>) -> (a: RunAction)
        ensures
            match next {
                BuiltinNext::Direct { cmd, args } => match answer {
                    Ok(s) => finishes(a, Outcome::Bytes(encode_utf8(s@))),
                    Err(e) => if e.kind == ErrorKind::NotFound {
                        a matches RunAction::FindProgram {
                            cmd: c,
                            next: LookupNext::Direct { cmd: c2, args: a2, error },
                        } && c@ == cmd@ && c2@ == cmd@ && texts(a2@) == texts(args@)
                            && error.kind == e.kind && error.message@ == e.message@
                    } else {
                        finishes(a, Outcome::Fail(e.kind, e.message@))
                    },
                },
                BuiltinNext::Redirected { redirect } => redirected_to(
                    a,
                    models(redirect@),
                    answer_streams(answer).0,
                    answer_streams(answer).1,
                ),
            },
    {
        match next {
            BuiltinNext::Direct { cmd, args } => match Self::after_builtin(answer) {
                DirectNext::Finish(r) => RunAction::Finish(r),
                DirectNext::TryProgram(error) => RunAction::FindProgram {
                    cmd: cmd.clone(),
                    next: LookupNext::Direct { cmd, args, error },
                },
            },
            BuiltinNext::Redirected { redirect } => {
                let (output, error) = Self::builtin_streams(answer);
                Self::through_redirect(redirect, output, error)
            },
        }
    }

    /// Goes on once the program has been looked for: `found` tells whether it is on the
    /// search path. A redirected line runs the builtin where there is no such program.
    pub fn program_looked_up(next: LookupNext, found: bool) -> (a: RunAction)
        ensures
            match next {
                LookupNext::Direct { cmd, args, error } => if found {
                    a matches RunAction::RunProgram { cmd: c, args: a2, next: ProgramNext::Direct }
                        && c@ == cmd@ && texts(a2@) == texts(args@)
                } else {
                    finishes(a, Outcome::Fail(error.kind, error.message@))
                },
                LookupNext::Redirected { cmd, command, redirect } => if found {
                    a matches RunAction::RunProgram {
                        cmd: c,
                        args,
                        next: ProgramNext::Redirected { redirect: r },
                    } && c@ == cmd@ && texts(args@) == program_arguments(models(command@))
                        && models(r@) == models(redirect@)
                } else {
                    a matches RunAction::RunBuiltin {
                        cmd: c,
                        tokens,
                        next: BuiltinNext::Redirected { redirect: r },
                    } && c@ == cmd@ && models(tokens@) == models(command@) && models(r@)
                        == models(redirect@)
                },
            },
    {
        match next {
            LookupNext::Direct { cmd, args, error } => {
                if found {
                    RunAction::RunProgram { cmd, args, next: ProgramNext::Direct }
                } else {
                    RunAction::Finish(Err(error))
                }
            },
            LookupNext::Redirected { cmd, command, redirect } => {
                if found {
                    let args = Self::arguments(command.as_slice());
                    RunAction::RunProgram {
                        cmd,
                        args,
                        next: ProgramNext::Redirected { redirect },
                    }
                } else {
                    RunAction::RunBuiltin {
                        cmd,
                        tokens: command,
                        next: BuiltinNext::Redirected { redirect },
                    }
                }
            },
        }
    }

    /// Goes on once the program has run, or could not be started (`ran` is then the error).
    pub fn program_ran(next: ProgramNext, ran: Result<ProgramOutput, ShellError>) -> (a: RunAction)
        ensures
            match ran {
                Err(e) => finishes(a, Outcome::Fail(e.kind, e.message@)),
                Ok(o) => match next {
                    ProgramNext::Direct => if o.success {
                        finishes(a, Outcome::Bytes(without_final_newline(o.stdout@)))
                    } else {
                        finishes(
                            a,
                            Outcome::Fail(
                                ErrorKind::InvalidInput,
                                without_final_newline_text(o.stderr@),
                            ),
                        )
                    },
                    ProgramNext::Redirected { redirect } => redirected_to(
                        a,
                        models(redirect@),
                        Some(o.stdout@),
                        program_error(o.stderr@),
                    ),
                },
            },
    {
        match ran {
            Err(e) => RunAction::Finish(Err(e)),
            Ok(o) => match next {
                ProgramNext::Direct => RunAction::Finish(
                    Self::program_outcome(o.success, o.stdout, o.stderr),
                ),
                ProgramNext::Redirected { redirect } => {
                    let (output, error) = Self::program_streams(o.stdout, o.stderr);
                    Self::through_redirect(redirect, output, error)
                },
            },
        }
    }

    /// Goes on once the redirection's write was made: its failure is the outcome, and
    /// otherwise `then` is.
    pub fn written(then: Result<Vec<u8>, ShellError>, result: Result<(), ShellError>) -> (a:
        RunAction)
        ensures
            match result {
                Err(e) => finishes(a, Outcome::Fail(e.kind, e.message@)),
                Ok(_) => finishes(a, outcome_of(then)),
            },
    {
        match result {
            Err(e) => RunAction::Finish(Err(e)),
            Ok(_) => RunAction::Finish(then),
        }
    }
}

} // verus!
