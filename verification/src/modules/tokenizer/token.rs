use vstd::prelude::*;

use crate::modules::tokenizer::helpers::{Argument, Redirectable};
use crate::shell::interface::ShellTokenSerializer;
use crate::util::text::text_is;

verus! {

/// A lexical unit of a command line.
#[derive(PartialEq, Eq, Debug)]
pub enum Token {
    /// A bare word.
    Value(String),
    /// One or more blanks between words.
    Space,
    /// A quoted string; `true` for double quotes.
    String(String, bool),
    /// An option; `true` for the `--name` form, `false` for `-name`.
    Argument(String, bool),
    /// `>` with the stream digit it redirects (`'1'` when none is written).
    Redirector(char),
    /// `>>` with the stream digit it appends (`'1'` when none is written).
    Appender(char),
}

/// What a token holds, with its text as a sequence of characters.
pub enum TokenModel {
    Value(Seq<char>),
    Space,
    String(Seq<char>, bool),
    Argument(Seq<char>, bool),
    Redirector(char),
    Appender(char),
}

impl View for Token {
    type V = TokenModel;

    open spec fn view(&self) -> TokenModel {
        match self {
            Token::Value(v) => TokenModel::Value(v@),
            Token::Space => TokenModel::Space,
            Token::String(v, d) => TokenModel::String(v@, *d),
            Token::Argument(v, d) => TokenModel::Argument(v@, *d),
            Token::Redirector(c) => TokenModel::Redirector(*c),
            Token::Appender(c) => TokenModel::Appender(*c),
        }
    }
}

/// The text that a token stands for on a command line.
pub open spec fn serialized(t: TokenModel) -> Seq<char> {
    match t {
        TokenModel::Value(v) => v,
        TokenModel::Space => seq![' '],
        TokenModel::String(v, _) => v,
        TokenModel::Argument(v, double) => if double { seq!['-', '-'] + v } else { seq!['-'] + v },
        TokenModel::Redirector(c) => seq![c, '>'],
        TokenModel::Appender(c) => seq![c, '>', '>'],
    }
}

/// The token views of a sequence of tokens.
pub open spec fn models(ts: Seq<Token>) -> Seq<TokenModel> {
    Seq::new(ts.len(), |k: int| ts[k]@)
}

/// The texts of the tokens, one after another.
pub open spec fn joined_texts(ts: Seq<TokenModel>) -> Seq<char>
    decreases ts.len(),
{
    if ts.len() == 0 {
        seq![]
    } else {
        joined_texts(ts.drop_last()) + serialized(ts.last())
    }
}

pub open spec fn is_value_text(t: TokenModel, s: Seq<char>) -> bool {
    t matches TokenModel::Value(v) && v == s
}

/// A `>` written as a bare word: `>`, `1>` or `2>`.
pub open spec fn model_redirects(t: TokenModel) -> bool {
    ||| is_value_text(t, seq!['>'])
    ||| is_value_text(t, seq!['1', '>'])
    ||| is_value_text(t, seq!['2', '>'])
}

/// A `>>` written as a bare word: `>>`, `1>>` or `2>>`.
pub open spec fn model_appends(t: TokenModel) -> bool {
    ||| is_value_text(t, seq!['>', '>'])
    ||| is_value_text(t, seq!['1', '>', '>'])
    ||| is_value_text(t, seq!['2', '>', '>'])
}

/// A bare word that redirects the standard output stream.
pub open spec fn model_redirects_output(t: TokenModel) -> bool {
    ||| is_value_text(t, seq!['>'])
    ||| is_value_text(t, seq!['1', '>'])
    ||| is_value_text(t, seq!['>', '>'])
    ||| is_value_text(t, seq!['1', '>', '>'])
}

/// A bare word that redirects the standard error stream.
pub open spec fn model_redirects_error(t: TokenModel) -> bool {
    ||| is_value_text(t, seq!['2', '>'])
    ||| is_value_text(t, seq!['2', '>', '>'])
}

/// A redirection operator that the tokenizer read: `>` or `>>` with its stream digit.
pub open spec fn model_is_redirection(t: TokenModel) -> bool {
    t is Redirector || t is Appender
}

proof fn lemma_redirect_literals()
    ensures
        ">"@ == seq!['>'],
        "1>"@ == seq!['1', '>'],
        "2>"@ == seq!['2', '>'],
        ">>"@ == seq!['>', '>'],
        "1>>"@ == seq!['1', '>', '>'],
        "2>>"@ == seq!['2', '>', '>'],
{
    reveal_strlit(">");
    assert(">"@ =~= seq!['>']);
    reveal_strlit("1>");
    assert("1>"@ =~= seq!['1', '>']);
    reveal_strlit("2>");
    assert("2>"@ =~= seq!['2', '>']);
    reveal_strlit(">>");
    assert(">>"@ =~= seq!['>', '>']);
    reveal_strlit("1>>");
    assert("1>>"@ =~= seq!['1', '>', '>']);
    reveal_strlit("2>>");
    assert("2>>"@ =~= seq!['2', '>', '>']);
}

impl Token {
    /// The text that the token stands for on a command line.
    pub fn serialize(&self) -> (s: String)
        ensures
            s@ == serialized(self@),
    {
        match self {
            Token::Value(val) => val.clone(),
            Token::Space => {
                let mut s = String::new();
                s.push(' ');
                s
            },
            Token::String(val, _) => val.clone(),
            Token::Argument(val, double) => {
                let mut s = String::new();
                s.push('-');
                if *double {
                    s.push('-');
                }
                s.append(val.as_str());
                s
            },
            Token::Redirector(c) => {
                let mut s = String::new();
                s.push(*c);
                s.push('>');
                s
            },
            Token::Appender(c) => {
                let mut s = String::new();
                s.push(*c);
                s.push('>');
                s.push('>');
                s
            },
        }
    }

    pub fn is_empty(&self) -> (b: bool)
        ensures
            b == (serialized(self@).len() == 0),
    {
        self.serialize().as_str().is_empty()
    }

    /// Whether the token is a redirection operator that the tokenizer read (`>` or `>>`
    /// with its stream digit).
    pub fn is_redirection_token(&self) -> (b: bool)
        ensures
            b == model_is_redirection(self@),
    {
        match self {
            Token::Redirector(_) | Token::Appender(_) => true,
            _ => false,
        }
    }

    /// Whether the token is a blank between words.
    pub fn is_space(&self) -> (b: bool)
        ensures
            b == (self@ is Space),
    {
        match self {
            Token::Space => true,
            _ => false,
        }
    }
}

impl Clone for Token {
    fn clone(&self) -> (r: Self)
        ensures
            r@ == self@,
    {
        match self {
            Token::Value(v) => Token::Value(v.clone()),
            Token::Space => Token::Space,
            Token::String(v, d) => Token::String(v.clone(), *d),
            Token::Argument(v, d) => Token::Argument(v.clone(), *d),
            Token::Redirector(c) => Token::Redirector(*c),
            Token::Appender(c) => Token::Appender(*c),
        }
    }
}

impl Redirectable for Token {
    open spec fn redirects(&self) -> bool {
        model_redirects(self@)
    }

    open spec fn appends(&self) -> bool {
        model_appends(self@)
    }

    open spec fn redirects_output(&self) -> bool {
        model_redirects_output(self@)
    }

    open spec fn redirects_error(&self) -> bool {
        model_redirects_error(self@)
    }

    fn is_redirect(&self) -> (b: bool) {
        proof {
            lemma_redirect_literals();
        }
        match self {
            Token::Value(val) => text_is(val, ">") || text_is(val, "1>") || text_is(val, "2>"),
            _ => false,
        }
    }

    fn is_append(&self) -> (b: bool) {
        proof {
            lemma_redirect_literals();
        }
        match self {
            Token::Value(val) => text_is(val, ">>") || text_is(val, "1>>") || text_is(val, "2>>"),
            _ => false,
        }
    }

    fn is_redirecting_ok(&self) -> (b: bool) {
        proof {
            lemma_redirect_literals();
        }
        match self {
            Token::Value(val) => text_is(val, ">") || text_is(val, "1>") || text_is(val, ">>")
                || text_is(val, "1>>"),
            _ => false,
        }
    }

    fn is_redirecting_err(&self) -> (b: bool) {
        proof {
            lemma_redirect_literals();
        }
        match self {
            Token::Value(val) => text_is(val, "2>") || text_is(val, "2>>"),
            _ => false,
        }
    }
}

impl Argument for Token {
    open spec fn spec_is_arg(&self) -> bool {
        self@ matches TokenModel::Value(v) && v.len() > 0 && v[0] == '-'
    }

    fn is_arg(&self) -> (b: bool) {
        match self {
            Token::Value(val) => {
                let s = val.as_str();
                s.unicode_len() > 0 && s.get_char(0) == '-'
            },
            _ => false,
        }
    }
}

impl ShellTokenSerializer for [Token] {
    /// The texts of the tokens after the first `skip`, one after another.
    open spec fn text_from(&self, skip: nat) -> Seq<char> {
        joined_texts(models(self@).skip(if skip <= self@.len() { skip as int } else { self@.len() as int }))
    }

    fn serialize(&self, skip: usize) -> (out: String) {
        let ghost ms = models(self@);
        let mut out = String::new();
        let start: usize = if skip <= self.len() { skip } else { self.len() };
        let mut i: usize = start;
        assert(ms.skip(start as int).take(0) =~= seq![]);
        while i < self.len()
            invariant
                start <= i <= self@.len(),
                ms == models(self@),
                out@ == joined_texts(ms.skip(start as int).take(i - start)),
            decreases self@.len() - i,
        {
            let t = self[i].serialize();
            out.append(t.as_str());
            proof {
                assert(ms.skip(start as int).take(i + 1 - start).drop_last() =~= ms.skip(
                    start as int,
                ).take(i - start));
                assert(ms.skip(start as int).take(i + 1 - start).last() == self@[i as int]@);
            }
            i += 1;
        }
        assert(ms.skip(start as int).take(self@.len() - start) =~= ms.skip(start as int));
        out
    }
}

} // verus!
