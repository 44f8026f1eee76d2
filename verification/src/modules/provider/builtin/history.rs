use vstd::prelude::*;

use crate::modules::history_handler::HistoryHandler;
use crate::modules::provider::{answer_model, CommandStep, StepModel};
use crate::modules::tokenizer::helpers::{
    arg_value_of, has_prefix, text_starts_append, text_starts_redirect, Argument, HasArguments,
    Redirectable,
};
use crate::modules::service_container::ServiceContainer;
use crate::modules::tokenizer::token::{models, Token, TokenModel};
use crate::shell::interface::{ShellCommand, ShellHistoryHandler};
use crate::util::error::{ErrorKind, ShellError};
use crate::util::text::{decimal, join_lines, join_with_newlines, parse_usize, push_decimal, unsigned_value};

verus! {

/// A path given to `history -r` or `-w` that is neither an option nor a redirection.
pub open spec fn usable_path(p: Seq<char>) -> bool {
    !has_prefix(p, seq!['-']) && !(text_starts_redirect(p) && !text_starts_append(p))
}

/// The numbered lines of the history from entry `from` on: `<number> <command>`, counting
/// from 1.
pub open spec fn listing(cmds: Seq<Seq<char>>, from: nat) -> Seq<char> {
    join_lines(
        Seq::new(
            (cmds.len() - from) as nat,
            |k: int| decimal((from + k + 1) as nat) + seq![' '] + cmds[from + k],
        ),
    )
}

/// `history`: `-r <path>` reads a history file, `-w <path>` writes one, a final number `n`
/// lists the last `n` entries, and nothing lists them all. Asking for more entries than
/// there are stops the program.
pub open spec fn history_step(ts: Seq<TokenModel>, cmds: Seq<Seq<char>>) -> StepModel {
    let r = arg_value_of(ts, "r"@);
    let w = arg_value_of(ts, "w"@);
    if r is Some {
        if usable_path(r->0) {
            StepModel::LoadHistory(r->0)
        } else {
            StepModel::Fail(ErrorKind::InvalidData, "Invalid data"@)
        }
    } else if w is Some && usable_path(w->0) {
        StepModel::SaveHistory(w->0)
    } else if ts.len() > 2 {
        match ts.last() {
            TokenModel::Value(s) => match unsigned_value(s) {
                Some(n) => {
                    if n > usize::MAX {
                        StepModel::Fail(ErrorKind::InvalidData, "Argument is invalid"@)
                    } else if n > cmds.len() {
                        StepModel::Crash
                    } else {
                        StepModel::Reply(listing(cmds, (cmds.len() - n) as nat))
                    }
                },
                None => StepModel::Fail(ErrorKind::InvalidData, "Argument is invalid"@),
            },
            _ => StepModel::Fail(ErrorKind::InvalidData, "Argument is invalid"@),
        }
    } else {
        StepModel::Reply(listing(cmds, 0))
    }
}

/// The answer of `history -r` or `-w` once the file has been read or written.
pub open spec fn history_done(r: Result<(), ShellError>) -> StepModel {
    match r {
        Ok(_) => StepModel::Reply(""@),
        Err(e) => StepModel::Fail(ErrorKind::InvalidData, "Error: "@ + e.message@),
    }
}

enum Plan {
    Load(String),
    Save(String),
    List(usize),
    Fail(ShellError),
    Overdraw,
}

/// The builtin `history`.
pub struct History {}

impl History {
    fn plan(tokens: &[Token], h: &HistoryHandler) -> (p: Plan)
        ensures
            match history_step(models(tokens@), h.commands()) {
                StepModel::LoadHistory(path) => p matches Plan::Load(s) && s@ == path,
                StepModel::SaveHistory(path) => p matches Plan::Save(s) && s@ == path,
                StepModel::Reply(text) => p matches Plan::List(from) && from <= h.commands().len()
                    && text == listing(h.commands(), from as nat),
                StepModel::Fail(kind, m) => p matches Plan::Fail(e) && e.kind == kind && e.message@
                    == m,
                StepModel::Crash => p is Overdraw,
                _ => false,
            },
    {
        proof {
            reveal_strlit("r");
            reveal_strlit("w");
        }
        let ts: &[Token] = tokens;
        assert(Seq::new(ts@.len(), |k: int| ts@[k]@) =~= models(tokens@));
        match ts.get_arg_value("r") {
            Some(path) => {
                if !path.is_arg() && !path.is_redirect() {
                    return Plan::Load(path);
                } else {
                    return Plan::Fail(ShellError::from_text(ErrorKind::InvalidData, "Invalid data"));
                }
            },
            None => {},
        }
        match ts.get_arg_value("w") {
            Some(path) => {
                if !path.is_arg() && !path.is_redirect() {
                    return Plan::Save(path);
                }
            },
            None => {},
        }
        let n = h.commands_len();
        if tokens.len() > 2 {
            let last = &tokens[tokens.len() - 1];
            assert(models(tokens@).last() == last@);
            match last {
                Token::Value(count_str) => match parse_usize(count_str.as_str()) {
                    Some(count) => {
                        if count > n {
                            return Plan::Overdraw;
                        }
                        return Plan::List(n - count);
                    },
                    None => {
                        return Plan::Fail(
                            ShellError::from_text(ErrorKind::InvalidData, "Argument is invalid"),
                        );
                    },
                },
                _ => {
                    return Plan::Fail(ShellError::from_text(ErrorKind::InvalidData, "Argument is invalid"));
                },
            }
        }
        Plan::List(0)
    }

    /// Whether `history` would stop the program on these tokens.
    pub fn would_crash(tokens: &[Token], h: &HistoryHandler) -> (b: bool)
        ensures
            b == (history_step(models(tokens@), h.commands()) is Crash),
    {
        match Self::plan(tokens, h) {
            Plan::Overdraw => true,
            _ => false,
        }
    }

    /// The numbered lines of the history from entry `from` on.
    fn listing(h: &HistoryHandler, from: usize) -> (s: String)
        requires
            from <= h.commands().len(),
        ensures
            s@ == listing(h.commands(), from as nat),
    {
        let cmds = h.get_all();
        let mut parts: Vec<String> = Vec::new();
        let mut k: usize = from;
        while k < cmds.len()
            invariant
                from <= k <= cmds@.len(),
                cmds@.len() == h.commands().len(),
                forall|j: int| 0 <= j < cmds@.len() ==> #[trigger] cmds@[j]@ == h.commands()[j],
                parts@.len() == k - from,
                forall|j: int| 0 <= j < parts@.len() ==> #[trigger] parts@[j]@ == decimal(
                    (from + j + 1) as nat,
                ) + seq![' '] + h.commands()[from + j],
            decreases cmds@.len() - k,
        {
            let mut line = String::new();
            push_decimal(&mut line, (k + 1) as u64);
            line.push(' ');
            line.append(cmds[k].as_str());
            parts.push(line);
            k += 1;
        }
        let s = join_with_newlines(&parts);
        assert(Seq::new(parts@.len(), |j: int| parts@[j]@) =~= Seq::new(
            (h.commands().len() - from) as nat,
            |j: int| decimal((from + j + 1) as nat) + seq![' '] + h.commands()[from + j],
        ));
        s
    }

    /// The answer once the history file has been read or written.
    pub fn finish(result: Result<(), ShellError>) -> (r: Result<String, ShellError>)
        ensures
            answer_model(r) == history_done(result),
    {
        match result {
            Ok(_) => {
                proof {
                    reveal_strlit("");
                }
                assert(""@ =~= Seq::<char>::empty());
                Ok(String::new())
            },
            Err(e) => {
                let mut m = String::from_str("Error: ");
                m.append(e.message.as_str());
                Err(ShellError::new(ErrorKind::InvalidData, m))
            },
        }
    }
}

impl ShellCommand<Token, ServiceContainer> for History {
    open spec fn outcome(tokens: Seq<Token>, services: ServiceContainer) -> StepModel {
        history_step(models(tokens), services.history_handler.commands())
    }

    fn run(tokens: &[Token], services: &ServiceContainer) -> (r: CommandStep) {
        let h = &services.history_handler;
        match Self::plan(tokens, h) {
            Plan::Load(path) => CommandStep::LoadHistory(path),
            Plan::Save(path) => CommandStep::SaveHistory(path),
            Plan::List(from) => CommandStep::Done(Ok(Self::listing(h, from))),
            Plan::Fail(e) => CommandStep::Done(Err(e)),
            Plan::Overdraw => CommandStep::Done(Err(ShellError::from_text(ErrorKind::Other, ""))),
        }
    }
}

} // verus!
