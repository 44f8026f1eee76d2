use vstd::prelude::*;

use crate::modules::provider::{answer_model, builtin_names, CommandProvider, CommandStep, StepModel};
use crate::modules::service_container::ServiceContainer;
use crate::modules::tokenizer::token::{models, Token, TokenModel};
use crate::shell::interface::{ShellCommand, ShellCommandProvider};
use crate::util::error::{ErrorKind, ShellError};
use crate::util::text::text_option;

verus! {

/// The first token of `ts` that is neither a blank nor an option.
pub open spec fn first_operand(ts: Seq<TokenModel>) -> Option<TokenModel>
    decreases ts.len(),
{
    if ts.len() == 0 {
        None
    } else if ts[0] is Space || ts[0] is Argument {
        first_operand(ts.drop_first())
    } else {
        Some(ts[0])
    }
}

/// `type <name>`: the name is the first word or quoted string after the command, past
/// blanks and options. A builtin is named as such; for another name the program is looked
/// for.
pub open spec fn type_step(ts: Seq<TokenModel>) -> StepModel {
    let operand = if ts.len() == 0 {
        None
    } else {
        first_operand(ts.drop_first())
    };
    match operand {
        None => StepModel::Fail(ErrorKind::InvalidInput, "This command needs argument."@),
        Some(TokenModel::Value(v)) => if builtin_names().contains(v) {
            StepModel::Reply(v + " is a shell builtin"@)
        } else {
            StepModel::FindProgram(v)
        },
        Some(TokenModel::String(v, _)) => StepModel::FindProgram(v),
        Some(_) => StepModel::Fail(
            ErrorKind::InvalidInput,
            "bash: syntax error near unexpected token 'newline'"@,
        ),
    }
}

/// The answer of `type` once the program `input` has been looked for.
pub open spec fn type_found(input: Seq<char>, path: Option<Seq<char>>) -> StepModel {
    match path {
        Some(p) => StepModel::Reply(input + " is "@ + p),
        None => StepModel::Fail(ErrorKind::InvalidInput, input + " not found"@),
    }
}

/// The builtin `type`.
pub struct Type {}

impl Type {
    /// Whether the token is an option (`-x` or `--name`).
    fn is_option(t: &Token) -> (b: bool)
        ensures
            b == (t@ is Argument),
    {
        match t {
            Token::Argument(_, _) => true,
            _ => false,
        }
    }

    /// The answer of `type` once the program `input` has been looked for; `path` is where
    /// it was found.
    pub fn found(input: &str, path: Option<String>) -> (r: Result<String, ShellError>)
        ensures
            answer_model(r) == type_found(input@, text_option(path)),
    {
        match path {
            Some(p) => {
                let mut m = String::from_str(input);
                m.append(" is ");
                m.append(p.as_str());
                Ok(m)
            },
            None => {
                let mut m = String::from_str(input);
                m.append(" not found");
                Err(ShellError::new(ErrorKind::InvalidInput, m))
            },
        }
    }
}

impl ShellCommand<Token, ServiceContainer> for Type {
    open spec fn outcome(tokens: Seq<Token>, services: ServiceContainer) -> StepModel {
        type_step(models(tokens))
    }

    fn run(tokens: &[Token], services: &ServiceContainer) -> (r: CommandStep) {
        let ghost ms = models(tokens@);
        if tokens.len() == 0 {
            return CommandStep::Done(
                Err(ShellError::from_text(ErrorKind::InvalidInput, "This command needs argument.")),
            );
        }
        let mut k: usize = 1;
        assert(ms.skip(1) =~= ms.drop_first());
        while k < tokens.len() && (tokens[k].is_space() || Self::is_option(&tokens[k]))
            invariant
                1 <= k <= tokens@.len(),
                ms == models(tokens@),
                first_operand(ms.drop_first()) == first_operand(ms.skip(k as int)),
            decreases tokens@.len() - k,
        {
            assert(ms.skip(k as int)[0] == tokens@[k as int]@);
            assert(ms.skip(k as int).drop_first() =~= ms.skip(k + 1));
            k += 1;
        }
        if k == tokens.len() {
            assert(ms.skip(k as int).len() == 0);
            return CommandStep::Done(
                Err(ShellError::from_text(ErrorKind::InvalidInput, "This command needs argument.")),
            );
        }
        assert(ms.skip(k as int)[0] == tokens@[k as int]@);
        let ghost operand = tokens@[k as int]@;
        assert(first_operand(ms.drop_first()) == Some(operand));
        let names = CommandProvider::get_commands();
        let mut i: usize = 0;
        while i < names.len()
            invariant
                i <= names@.len(),
                names@.len() == builtin_names().len(),
                forall|j: int| 0 <= j < names@.len() ==> #[trigger] names@[j]@ == builtin_names()[j],
                k < tokens@.len(),
                operand == tokens@[k as int]@,
                ms == models(tokens@),
                tokens@.len() > 0,
                first_operand(ms.drop_first()) == Some(operand),
                forall|j: int| 0 <= j < i ==> !(operand == TokenModel::Value(#[trigger] builtin_names()[j])),
            decreases names@.len() - i,
        {
            match &tokens[k] {
                Token::Value(v) => {
                    if *v == String::from_str(names[i]) {
                        assert(builtin_names().contains(v@)) by {
                            assert(builtin_names()[i as int] == v@);
                        }
                        let mut m = String::from_str(names[i]);
                        m.append(" is a shell builtin");
                        return CommandStep::Done(Ok(m));
                    }
                },
                _ => {},
            }
            i += 1;
        }
        proof {
            match operand {
                TokenModel::Value(v) => {
                    if builtin_names().contains(v) {
                        let j = choose|j: int| 0 <= j < builtin_names().len() && builtin_names()[j] == v;
                        assert(!(operand == TokenModel::Value(builtin_names()[j])));
                    }
                },
                _ => {},
            }
        }
        match &tokens[k] {
            Token::Value(input) => CommandStep::FindProgram(input.clone()),
            Token::String(input, _) => CommandStep::FindProgram(input.clone()),
            _ => CommandStep::Done(
                Err(
                    ShellError::from_text(
                        ErrorKind::InvalidInput,
                        "bash: syntax error near unexpected token 'newline'",
                    ),
                ),
            ),
        }
    }
}

} // verus!
