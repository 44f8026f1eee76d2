use vstd::prelude::*;

use crate::modules::provider::builtin::echo::{echo_step, Echo};
use crate::modules::provider::builtin::exit::{exit_step, Exit};
use crate::modules::provider::builtin::history::{history_step, History};
use crate::modules::provider::builtin::pwd::Pwd;
use crate::modules::provider::builtin::type_::{type_step, Type};
use crate::modules::service_container::ServiceContainer;
use crate::modules::tokenizer::token::{models, serialized, Token, TokenModel};
use crate::shell::interface::{ShellCommand, ShellCommandProvider};
use crate::util::error::{ErrorKind, ShellError};

pub mod builtin;
pub mod laws;

verus! {

/// What running a builtin command needs next, or its answer.
#[derive(Debug)]
pub enum CommandStep {
    /// The command's answer.
    Done(Result<String, ShellError>),
    /// `type`: find where the program of this name lies on the search path.
    FindProgram(String),
    /// `pwd`: read the working directory.
    CurrentDir,
    /// `cd`: change the working directory to this target, if one is given.
    ChangeDir(Option<String>),
    /// `history -r`: read the history file at this path.
    LoadHistory(String),
    /// `history -w`: write the history to the file at this path.
    SaveHistory(String),
}

/// What a command step holds, with texts as sequences of characters; `Crash` stands for the
/// inputs on which the command stops the program.
pub enum StepModel {
    Reply(Seq<char>),
    Fail(ErrorKind, Seq<char>),
    FindProgram(Seq<char>),
    CurrentDir,
    ChangeDir(Option<Seq<char>>),
    LoadHistory(Seq<char>),
    SaveHistory(Seq<char>),
    Crash,
}

impl View for CommandStep {
    type V = StepModel;

    open spec fn view(&self) -> StepModel {
        match self {
            CommandStep::Done(Ok(s)) => StepModel::Reply(s@),
            CommandStep::Done(Err(e)) => StepModel::Fail(e.kind, e.message@),
            CommandStep::FindProgram(s) => StepModel::FindProgram(s@),
            CommandStep::CurrentDir => StepModel::CurrentDir,
            CommandStep::ChangeDir(Some(s)) => StepModel::ChangeDir(Some(s@)),
            CommandStep::ChangeDir(None) => StepModel::ChangeDir(None),
            CommandStep::LoadHistory(s) => StepModel::LoadHistory(s@),
            CommandStep::SaveHistory(s) => StepModel::SaveHistory(s@),
        }
    }
}

/// The view of a command's answer.
pub open spec fn answer_model(r: Result<String, ShellError>) -> StepModel {
    match r {
        Ok(s) => StepModel::Reply(s@),
        Err(e) => StepModel::Fail(e.kind, e.message@),
    }
}

/// The builtin command names, in the order `type` tries them.
pub open spec fn builtin_names() -> Seq<Seq<char>> {
    seq!["echo"@, "type"@, "exit"@, "pwd"@, "cd"@, "history"@]
}

/// `cd`: its target is the text of the token after the name and a blank.
pub open spec fn cd_step(ts: Seq<TokenModel>) -> StepModel {
    if ts.len() > 2 {
        StepModel::ChangeDir(Some(serialized(ts[2])))
    } else {
        StepModel::ChangeDir(None)
    }
}

/// What the builtin `cmd` does with the tokens `ts`, for the history commands `cmds`.
pub open spec fn command_step(cmd: Seq<char>, ts: Seq<TokenModel>, cmds: Seq<Seq<char>>) -> StepModel {
    if cmd == "echo"@ {
        echo_step(ts)
    } else if cmd == "history"@ {
        history_step(ts, cmds)
    } else if cmd == "type"@ {
        type_step(ts)
    } else if cmd == "exit"@ {
        exit_step(ts)
    } else if cmd == "pwd"@ {
        StepModel::CurrentDir
    } else if cmd == "cd"@ {
        cd_step(ts)
    } else {
        StepModel::Fail(ErrorKind::NotFound, cmd + ": command not found"@)
    }
}

proof fn lemma_builtin_names()
    ensures
        "echo"@ == seq!['e', 'c', 'h', 'o'],
        "type"@ == seq!['t', 'y', 'p', 'e'],
        "exit"@ == seq!['e', 'x', 'i', 't'],
        "pwd"@ == seq!['p', 'w', 'd'],
        "cd"@ == seq!['c', 'd'],
        "history"@ == seq!['h', 'i', 's', 't', 'o', 'r', 'y'],
{
    reveal_strlit("echo");
    reveal_strlit("type");
    reveal_strlit("exit");
    reveal_strlit("pwd");
    reveal_strlit("cd");
    reveal_strlit("history");
    assert("echo"@ =~= seq!['e', 'c', 'h', 'o']);
    assert("type"@ =~= seq!['t', 'y', 'p', 'e']);
    assert("exit"@ =~= seq!['e', 'x', 'i', 't']);
    assert("pwd"@ =~= seq!['p', 'w', 'd']);
    assert("cd"@ =~= seq!['c', 'd']);
    assert("history"@ =~= seq!['h', 'i', 's', 't', 'o', 'r', 'y']);
}

/// Whether `s` holds exactly the text `lit`.
pub fn str_is(s: &str, lit: &str) -> (b: bool)
    ensures
        b == (s@ == lit@),
{
    String::from_str(s) == String::from_str(lit)
}

/// Runs the shell's builtin commands.
pub struct CommandProvider {}

impl CommandProvider {
    /// Whether running `cmd` with these tokens would stop the program.
    pub fn would_crash(cmd: &str, tokens: &[Token], services: &ServiceContainer) -> (b: bool)
        ensures
            b == (command_step(cmd@, models(tokens@), services.history_handler.commands())
                is Crash),
    {
        proof {
            lemma_builtin_names();
        }
        if str_is(cmd, "history") {
            History::would_crash(tokens, &services.history_handler)
        } else if str_is(cmd, "exit") {
            !Exit::exits(tokens)
        } else {
            false
        }
    }
}

impl ShellCommandProvider<Token, ServiceContainer> for CommandProvider {
    open spec fn outcome(cmd: Seq<char>, tokens: Seq<Token>, services: ServiceContainer) -> StepModel {
        command_step(cmd, models(tokens), services.history_handler.commands())
    }

    open spec fn command_names() -> Seq<Seq<char>> {
        builtin_names()
    }

    /// The names of the builtin commands.
    fn get_commands() -> (r: Vec<&'static str>) {
        let r = vec!["echo", "type", "exit", "pwd", "cd", "history"];
        proof {
            assert(r@[0]@ == builtin_names()[0]);
            assert(r@[1]@ == builtin_names()[1]);
            assert(r@[2]@ == builtin_names()[2]);
            assert(r@[3]@ == builtin_names()[3]);
            assert(r@[4]@ == builtin_names()[4]);
            assert(r@[5]@ == builtin_names()[5]);
        }
        r
    }

    /// Runs the builtin `cmd`; the name of no builtin is an error of kind `NotFound`.
    fn run(cmd: &str, tokens: &[Token], services: &ServiceContainer) -> (r: CommandStep) {
        if str_is(cmd, "echo") {
            Echo::run(tokens, services)
        } else if str_is(cmd, "history") {
            History::run(tokens, services)
        } else if str_is(cmd, "type") {
            Type::run(tokens, services)
        } else if str_is(cmd, "exit") {
            Exit::run(tokens, services)
        } else if str_is(cmd, "pwd") {
            Pwd::run(tokens, services)
        } else if str_is(cmd, "cd") {
            if tokens.len() > 2 {
                CommandStep::ChangeDir(Some(tokens[2].serialize()))
            } else {
                CommandStep::ChangeDir(None)
            }
        } else {
            let mut m = String::from_str(cmd);
            m.append(": command not found");
            CommandStep::Done(Err(ShellError::new(ErrorKind::NotFound, m)))
        }
    }
}

} // verus!
