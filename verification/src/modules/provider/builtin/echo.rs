use vstd::prelude::*;

use crate::modules::provider::{CommandStep, StepModel};
use crate::modules::service_container::ServiceContainer;
use crate::modules::tokenizer::token::{joined_texts, models, Token, TokenModel};
use crate::shell::interface::{ShellCommand, ShellTokenSerializer};
use crate::util::error::{ErrorKind, ShellError};

verus! {

/// `echo`: the text of everything after the name and the blank that follows it.
pub open spec fn echo_step(ts: Seq<TokenModel>) -> StepModel {
    if ts.len() < 3 {
        StepModel::Fail(ErrorKind::InvalidInput, "No string input found."@)
    } else {
        StepModel::Reply(joined_texts(ts.skip(2)))
    }
}

/// The builtin `echo`.
pub struct Echo {}

impl ShellCommand<Token, ServiceContainer> for Echo {
    open spec fn outcome(tokens: Seq<Token>, services: ServiceContainer) -> StepModel {
        echo_step(models(tokens))
    }

    fn run(tokens: &[Token], services: &ServiceContainer) -> (r: CommandStep) {
        if tokens.len() < 3 {
            return CommandStep::Done(
                Err(ShellError::from_text(ErrorKind::InvalidInput, "No string input found.")),
            );
        }
        CommandStep::Done(Ok(tokens.serialize(2)))
    }
}

} // verus!
