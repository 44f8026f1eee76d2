use vstd::prelude::*;

use crate::modules::auto_complete::{
    common_prefix, common_prefix_of, completion, completion_prefix, is_prefix, TabState,
};
use crate::shell::interface::QueryModel;

verus! {

proof fn lemma_pair_prefix(a: Seq<char>, b: Seq<char>)
    ensures
        is_prefix(common_prefix(a, b), a),
        is_prefix(common_prefix(a, b), b),
        forall|p: Seq<char>| is_prefix(p, a) && is_prefix(p, b) ==> is_prefix(
            p,
            #[trigger] common_prefix(a, b),
        ),
    decreases a.len(),
{
    let c = common_prefix(a, b);
    if a.len() == 0 || b.len() == 0 || a[0] != b[0] {
        assert(a.take(0) =~= c);
        assert(b.take(0) =~= c);
        assert forall|p: Seq<char>| is_prefix(p, a) && is_prefix(p, b) implies is_prefix(
            p,
            #[trigger] common_prefix(a, b),
        ) by {
            if p.len() > 0 {
                assert(p[0] == a.take(p.len() as int)[0]);
                assert(p[0] == b.take(p.len() as int)[0]);
                assert(a.take(p.len() as int)[0] == a[0]);
                assert(b.take(p.len() as int)[0] == b[0]);
            } else {
                assert(c.take(0) =~= p);
            }
        }
    } else {
        let a1 = a.drop_first();
        let b1 = b.drop_first();
        lemma_pair_prefix(a1, b1);
        let c1 = common_prefix(a1, b1);
        assert(a.take(c.len() as int) =~= seq![a[0]] + a1.take(c1.len() as int));
        assert(b.take(c.len() as int) =~= seq![b[0]] + b1.take(c1.len() as int));
        assert forall|p: Seq<char>| is_prefix(p, a) && is_prefix(p, b) implies is_prefix(
            p,
            #[trigger] common_prefix(a, b),
        ) by {
            if p.len() > 0 {
                let p1 = p.drop_first();
                assert(a1.take(p1.len() as int) =~= a.take(p.len() as int).drop_first());
                assert(b1.take(p1.len() as int) =~= b.take(p.len() as int).drop_first());
                assert(is_prefix(p1, a1) && is_prefix(p1, b1));
                assert(is_prefix(p1, c1));
                assert(p[0] == a[0]) by {
                    assert(p[0] == a.take(p.len() as int)[0]);
                }
                assert(c.take(p.len() as int) =~= seq![a[0]] + c1.take(p1.len() as int));
                assert(p =~= seq![p[0]] + p1);
            } else {
                assert(c.take(0) =~= p);
            }
        }
    }
}

proof fn lemma_prefix_trans(p: Seq<char>, q: Seq<char>, s: Seq<char>)
    requires
        is_prefix(p, q),
        is_prefix(q, s),
    ensures
        is_prefix(p, s),
{
    assert(s.take(p.len() as int) =~= q.take(p.len() as int)) by {
        assert forall|i: int| 0 <= i < p.len() implies s[i] == q[i] by {
            assert(s.take(q.len() as int)[i] == s[i]);
        }
    }
}

/// The common beginning that `find_common_prefix` gives is a beginning of every string, and
/// it is the longest such: every beginning that all the strings share is a beginning of it.
pub proof fn law_common_prefix_is_longest_shared(ss: Seq<Seq<char>>)
    ensures
        forall|k: int| 0 <= k < ss.len() ==> is_prefix(common_prefix_of(ss), #[trigger] ss[k]),
        ss.len() > 0 ==> forall|p: Seq<char>|
            (forall|k: int| 0 <= k < ss.len() ==> is_prefix(p, #[trigger] ss[k])) ==> is_prefix(
                p,
                common_prefix_of(ss),
            ),
    decreases ss.len(),
{
    if ss.len() == 0 {
    } else if ss.len() == 1 {
        assert(ss[0].take(ss[0].len() as int) =~= ss[0]);
    } else {
        let init = ss.drop_last();
        law_common_prefix_is_longest_shared(init);
        let c0 = common_prefix_of(init);
        let c = common_prefix_of(ss);
        lemma_pair_prefix(c0, ss.last());
        assert forall|k: int| 0 <= k < ss.len() implies is_prefix(c, #[trigger] ss[k]) by {
            if k < ss.len() - 1 {
                assert(ss[k] == init[k]);
                lemma_prefix_trans(c, c0, ss[k]);
            }
        }
        assert forall|p: Seq<char>|
            (forall|k: int| 0 <= k < ss.len() ==> is_prefix(p, #[trigger] ss[k])) implies is_prefix(
            p,
            c,
        ) by {
            assert forall|k: int| 0 <= k < init.len() implies is_prefix(p, #[trigger] init[k]) by {
                assert(init[k] == ss[k]);
            }
            assert(is_prefix(p, ss[ss.len() - 1]));
        }
    }
}

/// Where every name shares the non-empty beginning `q`, the completion fold gives the
/// longest beginning of all the names.
proof fn lemma_completion_prefix_shared(q: Seq<char>, ns: Seq<Seq<char>>)
    requires
        q.len() > 0,
        forall|k: int| 0 <= k < ns.len() ==> is_prefix(q, #[trigger] ns[k]),
    ensures
        completion_prefix(ns) == common_prefix_of(ns),
    decreases ns.len(),
{
    if ns.len() > 1 {
        let init = ns.drop_last();
        assert forall|k: int| 0 <= k < init.len() implies is_prefix(q, #[trigger] init[k]) by {
            assert(init[k] == ns[k]);
        }
        lemma_completion_prefix_shared(q, init);
        law_common_prefix_is_longest_shared(init);
        assert(is_prefix(q, common_prefix_of(init)));
        assert(completion_prefix(init).len() > 0);
        assert(completion_prefix(ns) == common_prefix(completion_prefix(init), ns.last()));
    } else if ns.len() == 1 {
        assert(ns.drop_last().len() == 0);
        assert(completion_prefix(ns.drop_last()).len() == 0);
        assert(completion_prefix(ns) == ns.last());
    }
}

/// On the first press of the tab key, when every name found begins with the non-empty
/// query, a common-beginning answer is a beginning of every name found, and every beginning
/// that all the names share is a beginning of it.
pub proof fn law_completion_offers_shared_beginning(q: Seq<char>, names: Seq<Seq<char>>)
    requires
        q.len() > 0,
        forall|k: int| 0 <= k < names.len() ==> is_prefix(q, #[trigger] names[k]),
    ensures
        completion(q, names, TabState::Idle).0 matches QueryModel::CommonPrefix(c) ==> {
            &&& forall|k: int| 0 <= k < names.len() ==> is_prefix(c, #[trigger] names[k])
            &&& forall|p: Seq<char>|
                (forall|k: int| 0 <= k < names.len() ==> is_prefix(p, #[trigger] names[k]))
                    ==> is_prefix(p, c)
        },
{
    lemma_completion_prefix_shared(q, names);
    law_common_prefix_is_longest_shared(names);
}

} // verus!
