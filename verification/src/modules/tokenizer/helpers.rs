use vstd::prelude::*;

use crate::modules::tokenizer::token::{serialized, Token, TokenModel};
use crate::util::text::chars_of;

verus! {

/// `s` begins with `p`.
pub open spec fn has_prefix(s: Seq<char>, p: Seq<char>) -> bool {
    p.len() <= s.len() && s.take(p.len() as int) == p
}

/// Whether `s` begins with `p`, as `str::starts_with` does.
pub fn starts_with_text(s: &str, p: &str) -> (b: bool)
    ensures
        b == has_prefix(s@, p@),
{
    let sc = chars_of(s);
    let pc = chars_of(p);
    if pc.len() > sc.len() {
        return false;
    }
    let mut i: usize = 0;
    while i < pc.len()
        invariant
            pc@ == p@,
            sc@ == s@,
            pc@.len() <= sc@.len(),
            i <= pc@.len(),
            forall|k: int| 0 <= k < i ==> sc@[k] == pc@[k],
        decreases pc@.len() - i,
    {
        if sc[i] != pc[i] {
            assert(s@.take(p@.len() as int)[i as int] != p@[i as int]);
            return false;
        }
        i += 1;
    }
    assert(s@.take(p@.len() as int) =~= p@);
    true
}

/// Finding options among tokens.
pub trait HasArguments {
    /// Some bare word is `--arg` or `-arg`.
    spec fn has_arg(&self, arg: Seq<char>) -> bool;

    /// The text of the token after the first token whose text is `arg`, if both exist.
    spec fn arg_value(&self, arg: Seq<char>) -> Option<Seq<char>>;

    fn contains_arg(&self, arg: &str) -> (b: bool)
        ensures
            b == self.has_arg(arg@),
    ;

    fn get_arg_value(&self, arg: &str) -> (r: Option<String>)
        ensures
            r is Some <==> self.arg_value(arg@) is Some,
            r matches Some(v) ==> self.arg_value(arg@) == Some(v@),
    ;
}

/// A word that names an option.
pub trait Argument {
    spec fn spec_is_arg(&self) -> bool;

    fn is_arg(&self) -> (b: bool)
        ensures
            b == self.spec_is_arg(),
    ;
}

/// A word that redirects an output stream.
pub trait Redirectable {
    /// Redirects by overwriting.
    spec fn redirects(&self) -> bool;

    /// Redirects by appending.
    spec fn appends(&self) -> bool;

    /// Redirects the standard output stream.
    spec fn redirects_output(&self) -> bool;

    /// Redirects the standard error stream.
    spec fn redirects_error(&self) -> bool;

    fn is_redirector(&self) -> (b: bool)
        ensures
            b == (self.appends() || self.redirects()),
    {
        self.is_append() || self.is_redirect()
    }

    fn is_redirect(&self) -> (b: bool)
        ensures
            b == self.redirects(),
    ;

    fn is_append(&self) -> (b: bool)
        ensures
            b == self.appends(),
    ;

    fn is_redirecting_ok(&self) -> (b: bool)
        ensures
            b == self.redirects_output(),
    ;

    fn is_redirecting_err(&self) -> (b: bool)
        ensures
            b == self.redirects_error(),
    ;
}

/// The bare word is `--arg` or `-arg`.
pub open spec fn names_arg(t: TokenModel, arg: Seq<char>) -> bool {
    t matches TokenModel::Value(v) && (v == seq!['-', '-'] + arg || v == seq!['-'] + arg)
}

/// The text of the token after the first token whose text is `arg`.
pub open spec fn arg_value_of(ts: Seq<TokenModel>, arg: Seq<char>) -> Option<Seq<char>>
    decreases ts.len(),
{
    if ts.len() == 0 {
        None
    } else if serialized(ts[0]) == arg {
        if ts.len() > 1 {
            Some(serialized(ts[1]))
        } else {
            None
        }
    } else {
        arg_value_of(ts.drop_first(), arg)
    }
}

impl HasArguments for &[Token] {
    open spec fn has_arg(&self, arg: Seq<char>) -> bool {
        exists|k: int| 0 <= k < self@.len() && names_arg(#[trigger] self@[k]@, arg)
    }

    open spec fn arg_value(&self, arg: Seq<char>) -> Option<Seq<char>> {
        arg_value_of(Seq::new(self@.len(), |k: int| self@[k]@), arg)
    }

    fn contains_arg(&self, arg: &str) -> (b: bool) {
        let mut m1 = String::from_str("--");
        m1.append(arg);
        let mut m2 = String::from_str("-");
        m2.append(arg);
        proof {
            reveal_strlit("--");
            assert("--"@ =~= seq!['-', '-']);
            reveal_strlit("-");
            assert("-"@ =~= seq!['-']);
        }
        let mut i: usize = 0;
        while i < self.len()
            invariant
                i <= self@.len(),
                m1@ == seq!['-', '-'] + arg@,
                m2@ == seq!['-'] + arg@,
                forall|k: int| 0 <= k < i ==> !names_arg(#[trigger] self@[k]@, arg@),
            decreases self@.len() - i,
        {
            match &self[i] {
                Token::Value(val) => {
                    if *val == m1 || *val == m2 {
                        assert(names_arg(self@[i as int]@, arg@));
                        return true;
                    }
                },
                _ => {},
            }
            i += 1;
        }
        false
    }

    fn get_arg_value(&self, arg: &str) -> (r: Option<String>) {
        let ghost ms = Seq::new(self@.len(), |k: int| self@[k]@);
        let target = String::from_str(arg);
        let mut i: usize = 0;
        assert(ms.skip(0) == ms);
        while i < self.len()
            invariant
                i <= self@.len(),
                ms == Seq::new(self@.len(), |k: int| self@[k]@),
                target@ == arg@,
                arg_value_of(ms, arg@) == arg_value_of(ms.skip(i as int), arg@),
            decreases self@.len() - i,
        {
            let ghost rest = ms.skip(i as int);
            assert(rest[0] == self@[i as int]@);
            if self[i].serialize() == target {
                if i + 1 < self.len() {
                    assert(rest[1] == self@[i + 1]@);
                    return Some(self[i + 1].serialize());
                }
                return None;
            }
            assert(rest.drop_first() == ms.skip(i + 1));
            i += 1;
        }
        None
    }
}

impl Argument for String {
    open spec fn spec_is_arg(&self) -> bool {
        has_prefix(self@, seq!['-'])
    }

    fn is_arg(&self) -> (b: bool) {
        proof {
            reveal_strlit("-");
            assert("-"@ =~= seq!['-']);
        }
        starts_with_text(self.as_str(), "-")
    }
}

/// The text begins with `>`, `1>` or `2>`.
pub open spec fn text_starts_redirect(s: Seq<char>) -> bool {
    has_prefix(s, seq!['>']) || has_prefix(s, seq!['1', '>']) || has_prefix(s, seq!['2', '>'])
}

/// The text begins with `>>`, `1>>` or `2>>`.
pub open spec fn text_starts_append(s: Seq<char>) -> bool {
    has_prefix(s, seq!['>', '>']) || has_prefix(s, seq!['1', '>', '>']) || has_prefix(
        s,
        seq!['2', '>', '>'],
    )
}

impl Redirectable for String {
    open spec fn redirects(&self) -> bool {
        text_starts_redirect(self@) && !text_starts_append(self@)
    }

    open spec fn appends(&self) -> bool {
        text_starts_append(self@)
    }

    open spec fn redirects_output(&self) -> bool {
        has_prefix(self@, seq!['>']) || has_prefix(self@, seq!['1', '>'])
    }

    open spec fn redirects_error(&self) -> bool {
        has_prefix(self@, seq!['2', '>'])
    }

    fn is_redirect(&self) -> (b: bool) {
        proof {
            reveal_strlit(">");
            assert(">"@ =~= seq!['>']);
            reveal_strlit("1>");
            assert("1>"@ =~= seq!['1', '>']);
            reveal_strlit("2>");
            assert("2>"@ =~= seq!['2', '>']);
        }
        let s = self.as_str();
        (starts_with_text(s, ">") || starts_with_text(s, "1>") || starts_with_text(s, "2>"))
            && !self.is_append()
    }

    fn is_append(&self) -> (b: bool) {
        proof {
            reveal_strlit(">>");
            assert(">>"@ =~= seq!['>', '>']);
            reveal_strlit("1>>");
            assert("1>>"@ =~= seq!['1', '>', '>']);
            reveal_strlit("2>>");
            assert("2>>"@ =~= seq!['2', '>', '>']);
        }
        let s = self.as_str();
        starts_with_text(s, ">>") || starts_with_text(s, "1>>") || starts_with_text(s, "2>>")
    }

    fn is_redirecting_ok(&self) -> (b: bool) {
        proof {
            reveal_strlit(">");
            assert(">"@ =~= seq!['>']);
            reveal_strlit("1>");
            assert("1>"@ =~= seq!['1', '>']);
        }
        let s = self.as_str();
        starts_with_text(s, ">") || starts_with_text(s, "1>")
    }

    fn is_redirecting_err(&self) -> (b: bool) {
        proof {
            reveal_strlit("2>");
            assert("2>"@ =~= seq!['2', '>']);
        }
        starts_with_text(self.as_str(), "2>")
    }
}

} // verus!
