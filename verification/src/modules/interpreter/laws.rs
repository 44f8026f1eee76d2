use vstd::prelude::*;

use crate::modules::interpreter::redirect_write;
use crate::modules::tokenizer::token::TokenModel;
use crate::util::error::ErrorKind;
use vstd::utf8::encode_utf8;

verus! {

/// A redirection writes to the file it names; `>>` (with or without a stream digit) adds to
/// the file's end, `>` replaces it; only a redirection operator writes at all.
pub proof fn law_redirect_write_follows_operator(
    t: TokenModel,
    path: Seq<char>,
    output: Option<Seq<u8>>,
    error: Option<(ErrorKind, Seq<char>)>,
)
    ensures
        redirect_write(t, path, output, error) matches Some(w) ==> w.0 == path && w.2 == (
        t is Appender),
        !(t is Redirector || t is Appender) ==> redirect_write(t, path, output, error) is None,
{
}

/// Redirecting the standard output (`>`, `1>`, `>>`, `1>>`) of a command that gave output
/// writes exactly that output; redirecting the standard error (`2>`, `2>>`) of a command
/// that failed writes exactly its message.
pub proof fn law_redirect_writes_the_stream(
    t: TokenModel,
    path: Seq<char>,
    output: Option<Seq<u8>>,
    error: Option<(ErrorKind, Seq<char>)>,
)
    ensures
        (t == TokenModel::Redirector('1') || t == TokenModel::Appender('1')) && output is Some
            ==> redirect_write(t, path, output, error) == Some(
            (path, output->Some_0, t is Appender),
        ),
        (t == TokenModel::Redirector('2') || t == TokenModel::Appender('2')) && error is Some
            ==> redirect_write(t, path, output, error) == Some(
            (path, encode_utf8(error->Some_0.1), t is Appender),
        ),
{
}

} // verus!
