use vstd::prelude::*;

use crate::modules::provider::{CommandStep, StepModel};
use crate::modules::service_container::ServiceContainer;
use crate::modules::tokenizer::token::Token;
use crate::shell::interface::ShellCommand;

verus! {

/// The builtin `pwd`.
pub struct Pwd {}

impl ShellCommand<Token, ServiceContainer> for Pwd {
    /// `pwd` answers with the working directory, whatever follows it.
    open spec fn outcome(tokens: Seq<Token>, services: ServiceContainer) -> StepModel {
        StepModel::CurrentDir
    }

    fn run(tokens: &[Token], services: &ServiceContainer) -> (r: CommandStep) {
        CommandStep::CurrentDir
    }
}

} // verus!
