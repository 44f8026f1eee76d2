use vstd::prelude::*;

use crate::modules::provider::builtin::echo::echo_step;
use crate::modules::provider::builtin::type_::{first_operand, type_step};
use crate::modules::provider::{builtin_names, command_step, lemma_builtin_names, StepModel};
use crate::modules::tokenizer::token::{joined_texts, serialized, TokenModel};

verus! {

/// `type` names each builtin (`echo`, `type`, `exit`, `pwd`, `cd`, `history`) as a shell
/// builtin, also past options, whatever the history holds.
pub proof fn law_type_names_builtins(n: Seq<char>, a: Seq<char>, double: bool, cmds: Seq<Seq<char>>)
    requires
        n == "echo"@ || n == "type"@ || n == "exit"@ || n == "pwd"@ || n == "cd"@ || n
            == "history"@,
    ensures
        type_step(seq![TokenModel::Value("type"@), TokenModel::Space, TokenModel::Value(n)])
            == StepModel::Reply(n + " is a shell builtin"@),
        type_step(
            seq![
                TokenModel::Value("type"@),
                TokenModel::Space,
                TokenModel::Argument(a, double),
                TokenModel::Space,
                TokenModel::Value(n),
            ],
        ) == StepModel::Reply(n + " is a shell builtin"@),
        command_step(
            "type"@,
            seq![TokenModel::Value("type"@), TokenModel::Space, TokenModel::Value(n)],
            cmds,
        ) == StepModel::Reply(n + " is a shell builtin"@),
{
    lemma_builtin_names();
    let k: int = if n == "echo"@ {
        0
    } else if n == "type"@ {
        1
    } else if n == "exit"@ {
        2
    } else if n == "pwd"@ {
        3
    } else if n == "cd"@ {
        4
    } else {
        5
    };
    assert(builtin_names()[k] == n);
    assert(builtin_names().contains(n));
    let ts1 = seq![TokenModel::Value("type"@), TokenModel::Space, TokenModel::Value(n)];
    assert(ts1.drop_first().drop_first() =~= seq![TokenModel::Value(n)]);
    assert(ts1.drop_first()[0] == TokenModel::Space);
    let ts2 = seq![
        TokenModel::Value("type"@),
        TokenModel::Space,
        TokenModel::Argument(a, double),
        TokenModel::Space,
        TokenModel::Value(n),
    ];
    assert(ts2.drop_first().drop_first() =~= seq![
        TokenModel::Argument(a, double),
        TokenModel::Space,
        TokenModel::Value(n),
    ]);
    assert(ts2.drop_first().drop_first().drop_first().drop_first() =~= seq![TokenModel::Value(n)]);
    assert(ts2.drop_first().drop_first().drop_first() =~= seq![
        TokenModel::Space,
        TokenModel::Value(n),
    ]);
    let last = seq![TokenModel::Value(n)];
    assert(first_operand(last) == Some(TokenModel::Value(n)));
    assert(first_operand(ts1.drop_first()) == first_operand(last));
    assert(first_operand(ts2.drop_first().drop_first().drop_first()) == first_operand(last));
    assert(first_operand(ts2.drop_first().drop_first()) == first_operand(last));
    assert(first_operand(ts2.drop_first()) == first_operand(last));
}

/// `echo` fails exactly when nothing follows the name and its blank; with one token after
/// them it answers that token's text, and each further token adds its text to the answer.
pub proof fn law_echo_answers_the_rest(ts: Seq<TokenModel>, t: TokenModel)
    ensures
        (echo_step(ts) is Fail) <==> ts.len() < 3,
        ts.len() == 3 ==> echo_step(ts) == StepModel::Reply(serialized(ts[2])),
        ts.len() >= 3 ==> (echo_step(ts) matches StepModel::Reply(x) && echo_step(ts.push(t))
            == StepModel::Reply(x + serialized(t))),
{
    if ts.len() == 3 {
        assert(ts.skip(2) =~= seq![ts[2]]);
        assert(seq![ts[2]].drop_last() =~= Seq::<TokenModel>::empty());
        assert(joined_texts(Seq::<TokenModel>::empty()) + serialized(ts[2]) =~= serialized(ts[2]));
    }
    if ts.len() >= 3 {
        assert(ts.push(t).skip(2) =~= ts.skip(2).push(t));
        assert(ts.skip(2).push(t).drop_last() =~= ts.skip(2));
    }
}

} // verus!
