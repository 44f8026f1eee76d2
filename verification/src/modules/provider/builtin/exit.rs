use vstd::prelude::*;

use crate::modules::provider::{CommandStep, StepModel};
use crate::modules::service_container::ServiceContainer;
use crate::modules::tokenizer::token::{models, Token, TokenModel};
use crate::shell::interface::ShellCommand;
use crate::util::error::{ErrorKind, ShellError};
use crate::util::text::text_is;

verus! {

/// `exit` alone or `exit 0` ends the shell (an error of kind `Interrupted`); any other form
/// stops the program while it spells out its error message.
pub open spec fn exit_step(ts: Seq<TokenModel>) -> StepModel {
    if (ts.len() > 2 && ts[2] == TokenModel::Value("0"@)) || ts.len() == 1 {
        StepModel::Fail(ErrorKind::Interrupted, ""@)
    } else {
        StepModel::Crash
    }
}

/// The builtin `exit`.
pub struct Exit {}

impl Exit {
    /// Whether the tokens are a form of `exit` that ends the shell.
    pub fn exits(tokens: &[Token]) -> (b: bool)
        ensures
            b == !(exit_step(models(tokens@)) is Crash),
    {
        if tokens.len() == 1 {
            return true;
        }
        if tokens.len() > 2 {
            match &tokens[2] {
                Token::Value(v) => {
                    proof {
                        reveal_strlit("0");
                        assert(tokens@[2]@ == TokenModel::Value(v@));
                    }
                    return text_is(v, "0");
                },
                _ => {},
            }
        }
        false
    }
}

impl ShellCommand<Token, ServiceContainer> for Exit {
    open spec fn outcome(tokens: Seq<Token>, services: ServiceContainer) -> StepModel {
        exit_step(models(tokens))
    }

    fn run(tokens: &[Token], services: &ServiceContainer) -> (r: CommandStep) {
        CommandStep::Done(Err(ShellError::from_text(ErrorKind::Interrupted, "")))
    }
}

} // verus!
