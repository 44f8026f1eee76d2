use vstd::prelude::*;

use crate::shell::interface::{QueryModel, QueryResult, ShellAutoComplete};
use crate::util::text::{trim, trim_str};
use vstd::utf8::encode_utf8;

pub mod laws;

verus! {

/// How many times the tab key has been pressed for the current query.
#[derive(PartialEq, Eq, Structural, Clone, Copy, Debug)]
pub enum TabState {
    Idle,
    ClickedOnce,
    ClickedMultipleTimes,
}

/// Completes command names with the tab key.
pub struct AutoComplete {
    query: String,
    is_tab_clicked: bool,
    tab_state: TabState,
}

/// The longest common beginning of `a` and `b`.
pub open spec fn common_prefix(a: Seq<char>, b: Seq<char>) -> Seq<char>
    decreases a.len(),
{
    if a.len() == 0 || b.len() == 0 || a[0] != b[0] {
        seq![]
    } else {
        seq![a[0]] + common_prefix(a.drop_first(), b.drop_first())
    }
}

/// The longest beginning that all of `ss` share (empty for no strings).
pub open spec fn common_prefix_of(ss: Seq<Seq<char>>) -> Seq<char>
    decreases ss.len(),
{
    if ss.len() == 0 {
        seq![]
    } else if ss.len() == 1 {
        ss[0]
    } else {
        common_prefix(common_prefix_of(ss.drop_last()), ss.last())
    }
}

/// The common beginning that completion offers for the names `ss`: each name narrows the
/// beginning of those before it, and a name that follows an empty beginning starts afresh.
pub open spec fn completion_prefix(ss: Seq<Seq<char>>) -> Seq<char>
    decreases ss.len(),
{
    if ss.len() == 0 {
        seq![]
    } else {
        let acc = completion_prefix(ss.drop_last());
        if acc.len() == 0 {
            ss.last()
        } else {
            common_prefix(acc, ss.last())
        }
    }
}

/// The length in bytes of the UTF-8 encoding of `s`, as `str::len` gives it.
pub open spec fn byte_len(s: Seq<char>) -> usize {
    encode_utf8(s).len() as usize
}

pub open spec fn texts(v: Seq<String>) -> Seq<Seq<char>> {
    Seq::new(v.len(), |k: int| v[k]@)
}

/// `p` is a beginning of `s`.
pub open spec fn is_prefix(p: Seq<char>, s: Seq<char>) -> bool {
    p.len() <= s.len() && s.take(p.len() as int) == p
}

proof fn lemma_common_prefix_take(a: Seq<char>, b: Seq<char>, i: int)
    requires
        0 <= i <= a.len(),
        i <= b.len(),
        forall|j: int| 0 <= j < i ==> a[j] == b[j],
        i == a.len() || i == b.len() || a[i] != b[i],
    ensures
        common_prefix(a, b) == a.take(i),
    decreases i,
{
    if i == 0 {
        assert(a.take(0) =~= seq![]);
    } else {
        lemma_common_prefix_take(a.drop_first(), b.drop_first(), i - 1);
        assert(seq![a[0]] + a.drop_first().take(i - 1) =~= a.take(i));
    }
}

/// The longest common beginning of `a` and `b`.
fn common_prefix_pair(a: &String, b: &String) -> (r: String)
    ensures
        r@ == common_prefix(a@, b@),
{
    let ac = crate::util::text::chars_of(a.as_str());
    let bc = crate::util::text::chars_of(b.as_str());
    let mut i: usize = 0;
    while i < ac.len() && i < bc.len() && ac[i] == bc[i]
        invariant
            ac@ == a@,
            bc@ == b@,
            i <= ac@.len(),
            i <= bc@.len(),
            forall|j: int| 0 <= j < i ==> ac@[j] == bc@[j],
        decreases ac@.len() - i,
    {
        i += 1;
    }
    proof {
        lemma_common_prefix_take(a@, b@, i as int);
    }
    let p = crate::util::text::sub_chars(ac.as_slice(), 0, i);
    assert(p@ =~= a@.take(i as int));
    crate::util::text::string_of(p.as_slice())
}

/// The longest beginning that all of `strings` share.
pub fn find_common_prefix(strings: &[String]) -> (r: String)
    ensures
        r@ == common_prefix_of(texts(strings@)),
{
    let ghost ts = texts(strings@);
    if strings.len() == 0 {
        return String::new();
    }
    let mut prefix = strings[0].clone();
    let mut i: usize = 1;
    assert(ts.take(1).len() == 1);
    while i < strings.len()
        invariant
            1 <= i <= strings@.len(),
            ts == texts(strings@),
            prefix@ == common_prefix_of(ts.take(i as int)),
        decreases strings@.len() - i,
    {
        let new_prefix = common_prefix_pair(&prefix, &strings[i]);
        proof {
            assert(ts.take(i + 1).drop_last() =~= ts.take(i as int));
            assert(ts.take(i + 1).last() == strings@[i as int]@);
        }
        prefix = new_prefix;
        i += 1;
        if prefix.as_str().is_empty() {
            proof {
                lemma_common_prefix_of_empty_stays(ts, i as int);
            }
            assert(ts.take(strings@.len() as int) =~= ts);
            return prefix;
        }
    }
    assert(ts.take(strings@.len() as int) =~= ts);
    prefix
}

proof fn lemma_common_prefix_of_empty_stays(ts: Seq<Seq<char>>, i: int)
    requires
        1 <= i <= ts.len(),
        common_prefix_of(ts.take(i)).len() == 0,
    ensures
        common_prefix_of(ts).len() == 0,
    decreases ts.len() - i,
{
    if i < ts.len() {
        assert(ts.take(i + 1).drop_last() =~= ts.take(i));
        lemma_common_prefix_of_empty_stays(ts, i + 1);
    } else {
        assert(ts.take(i) =~= ts);
    }
}

/// What pressing the tab key gives for the query `q` when the program names found are
/// `names`, in tab state `st`; and the tab state after.
pub open spec fn completion(q: Seq<char>, names: Seq<Seq<char>>, st: TabState) -> (QueryModel, TabState) {
    if names.len() == 0 {
        (QueryModel::NoMatch, st)
    } else if st == TabState::Idle {
        let r = if names.contains(q) {
            QueryModel::ExactMatch(q)
        } else if names.len() == 1 {
            QueryModel::SingleMatch(names[0])
        } else if byte_len(completion_prefix(names)) > byte_len(q) {
            QueryModel::CommonPrefix(completion_prefix(names))
        } else {
            QueryModel::Bell
        };
        (r, TabState::ClickedOnce)
    } else if st == TabState::ClickedOnce {
        let r = if names.len() == 1 {
            QueryModel::SingleMatch(names[0])
        } else {
            QueryModel::MultipleMatches(names)
        };
        (r, TabState::ClickedMultipleTimes)
    } else {
        (QueryModel::Bell, st)
    }
}

impl AutoComplete {
    /// The command name being completed.
    pub closed spec fn query_text(&self) -> Seq<char> {
        self.query@
    }

    pub closed spec fn state(&self) -> TabState {
        self.tab_state
    }
}

impl ShellAutoComplete for AutoComplete {
    open spec fn pending_query(&self) -> Seq<char> {
        self.query_text()
    }

    open spec fn at_rest(&self) -> bool {
        self.state() == TabState::Idle
    }

    open spec fn completes(before: Self, names: Seq<Seq<char>>, r: QueryModel, after: Self) -> bool {
        (r, after.state()) == completion(before.query_text(), names, before.state())
    }

    fn new() -> (a: Self)
        ensures
            a.query_text() == Seq::<char>::empty(),
            a.state() == TabState::Idle,
    {
        AutoComplete { query: String::new(), is_tab_clicked: false, tab_state: TabState::Idle }
    }

    /// Forgets the query and the presses of the tab key.
    fn reset(&mut self)
        ensures
            final(self).query_text() == Seq::<char>::empty(),
            final(self).state() == TabState::Idle,
    {
        self.query = String::new();
        self.is_tab_clicked = false;
        self.tab_state = TabState::Idle;
    }

    /// Takes the trimmed `command` as the query unless a query is already held, and gives
    /// the query that program names are searched for.
    fn begin_query(&mut self, command: &str) -> (q: String)
        ensures
            old(self).query_text().len() == 0 ==> final(self).query_text() == trim(command@),
            old(self).query_text().len() > 0 ==> final(self).query_text() == old(self).query_text(),
            final(self).state() == old(self).state(),
            q@ == final(self).query_text(),
    {
        if self.query.as_str().is_empty() {
            self.query = trim_str(command);
        }
        self.query.clone()
    }

    /// Decides the completion from the program names found for the query.
    fn complete_query(&mut self, search_result: Vec<String>) -> (r: QueryResult)
        ensures
            final(self).query_text() == old(self).query_text(),
            (r@, final(self).state()) == completion(old(self).query_text(), texts(search_result@), old(self).state()),
    {
        let ghost names = texts(search_result@);
        let mut search_result = search_result;
        if search_result.len() == 0 {
            return QueryResult::NoMatch;
        }
        if self.tab_state == TabState::Idle {
            self.tab_state = TabState::ClickedOnce;
            let mut k: usize = 0;
            while k < search_result.len() && !(search_result[k] == self.query)
                invariant
                    k <= search_result@.len(),
                    names == texts(search_result@),
                    forall|j: int| 0 <= j < k ==> names[j] != self.query@,
                decreases search_result@.len() - k,
            {
                k += 1;
            }
            if k < search_result.len() {
                assert(names[k as int] == self.query@);
                assert(names.contains(old(self).query_text()));
                return QueryResult::ExactMatch(search_result[k].clone());
            }
            assert(!names.contains(self.query@));
            if search_result.len() == 1 {
                let only = search_result.pop().unwrap();
                return QueryResult::SingleMatch(only);
            }
            let mut acc = String::new();
            let mut i: usize = 0;
            while i < search_result.len()
                invariant
                    i <= search_result@.len(),
                    names == texts(search_result@),
                    self.query@ == old(self).query_text(),
                    self.tab_state == TabState::ClickedOnce,
                    old(self).state() == TabState::Idle,
                    !names.contains(self.query@),
                    names.len() > 1,
                    acc@ == completion_prefix(names.take(i as int)),
                decreases search_result@.len() - i,
            {
                proof {
                    assert(names.take(i + 1).drop_last() =~= names.take(i as int));
                }
                if acc.as_str().is_empty() {
                    acc = search_result[i].clone();
                } else {
                    acc = common_prefix_pair(&acc, &search_result[i]);
                }
                i += 1;
            }
            assert(names.take(search_result@.len() as int) =~= names);
            assert(names.len() != 1);
            assert(!names.contains(old(self).query_text()));
            assert(acc@ == completion_prefix(names));
            if acc.as_str().len() > self.query.as_str().len() {
                return QueryResult::CommonPrefix(acc);
            } else {
                return QueryResult::Bell;
            }
        }
        if self.tab_state == TabState::ClickedOnce {
            self.tab_state = TabState::ClickedMultipleTimes;
            if search_result.len() == 1 {
                let only = search_result.pop().unwrap();
                return QueryResult::SingleMatch(only);
            }
            return QueryResult::MultipleMatches(search_result);
        }
        QueryResult::Bell
    }
}

} // verus!
