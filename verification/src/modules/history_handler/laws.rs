use vstd::prelude::*;

use crate::modules::history_handler::{
    entry_line, parse_history_text, parse_line, parse_lines, prepend_entries, recorded,
    saved_text, stepped_back, stepped_forward, HistoryHandler, HistoryParse, LineParse,
};
use crate::util::text::{
    all_digits, decimal, first_index, is_digit, join_lines, lemma_decimal_digits,
    lemma_first_index_at, lemma_first_index_none, lines, strip_cr,
};

verus! {

/// After a command line is recorded, stepping back gives that command line and leaves the
/// cursor on the last entry.
pub proof fn law_step_back_after_record(
    h0: HistoryHandler,
    h1: HistoryHandler,
    h2: HistoryHandler,
    entry: Seq<char>,
    r: Option<Seq<char>>,
)
    requires
        recorded(h0, h1, entry),
        stepped_back(h1, h2, r),
    ensures
        r == Some(entry),
        h2.cursor() == h0.entries().len(),
{
}

/// Stepping back and then forward from inside the history returns to the same entry.
pub proof fn law_back_then_forward(
    h0: HistoryHandler,
    h1: HistoryHandler,
    h2: HistoryHandler,
    r1: Option<Seq<char>>,
    r2: Option<Seq<char>>,
)
    requires
        0 < h0.cursor() < h0.entries().len(),
        stepped_back(h0, h1, r1),
        stepped_forward(h1, h2, r2),
    ensures
        h2.cursor() == h0.cursor(),
        r2 == Some(h0.commands()[h0.cursor() as int]),
        h2.entries() == h0.entries(),
{
}

/// The command holds no line break.
pub open spec fn single_line(c: Seq<char>) -> bool {
    forall|k: int| 0 <= k < c.len() ==> #[trigger] c[k] != '\n' && c[k] != '\r'
}

proof fn lemma_entry_line_parses(e: (nat, Seq<char>))
    requires
        e.0 <= u64::MAX,
    ensures
        parse_line(entry_line(e)) == LineParse::Entry(e.0, e.1),
{
    let d = decimal(e.0);
    let l = entry_line(e);
    lemma_decimal_digits(e.0);
    assert forall|j: int| 0 <= j < d.len() implies l[j] != ' ' by {
        assert(l[j] == d[j]);
        assert(is_digit(d[j]));
    }
    assert(l[d.len() as int] == ' ');
    lemma_first_index_at(l, ' ', d.len() as int);
    assert(l.take(d.len() as int) =~= d);
    assert(l.skip(d.len() + 1 as int) =~= e.1);
}

proof fn lemma_entry_line_one_line(e: (nat, Seq<char>))
    requires
        single_line(e.1),
    ensures
        forall|j: int| 0 <= j < entry_line(e).len() ==> #[trigger] entry_line(e)[j] != '\n',
        entry_line(e).len() > 0,
        entry_line(e).last() != '\r',
{
    let d = decimal(e.0);
    let l = entry_line(e);
    lemma_decimal_digits(e.0);
    assert forall|j: int| 0 <= j < l.len() implies #[trigger] l[j] != '\n' by {
        if j < d.len() {
            assert(l[j] == d[j]);
            assert(is_digit(d[j]));
        } else if j > d.len() {
            assert(l[j] == e.1[j - d.len() - 1]);
        }
    }
    if e.1.len() > 0 {
        assert(l.last() == e.1[e.1.len() - 1]);
    }
}

proof fn lemma_lines_of_joined(ls: Seq<Seq<char>>)
    requires
        forall|k: int| 0 <= k < ls.len() ==> (#[trigger] ls[k]).len() > 0 && ls[k].last() != '\r'
            && forall|j: int| 0 <= j < ls[k].len() ==> ls[k][j] != '\n',
    ensures
        lines(join_lines(ls)) == ls,
    decreases ls.len(),
{
    if ls.len() == 0 {
        assert(lines(join_lines(ls)) =~= ls);
    } else if ls.len() == 1 {
        let a = ls[0];
        lemma_first_index_none(a, '\n');
        assert(lines(a) =~= ls);
    } else {
        let a = ls[0];
        let rest = ls.drop_first();
        assert forall|k: int| 0 <= k < rest.len() implies (#[trigger] rest[k]).len() > 0
            && rest[k].last() != '\r' && forall|j: int| 0 <= j < rest[k].len() ==> rest[k][j]
            != '\n' by {
            assert(rest[k] == ls[k + 1]);
        }
        lemma_lines_of_joined(rest);
        let s = a + seq!['\n'] + join_lines(rest);
        assert forall|j: int| 0 <= j < a.len() implies s[j] != '\n' by {
            assert(s[j] == a[j]);
        }
        lemma_first_index_at(s, '\n', a.len() as int);
        assert(s.take(a.len() as int) =~= a);
        assert(strip_cr(a) == a);
        assert(s.skip(a.len() + 1 as int) =~= join_lines(rest));
        assert(lines(s) =~= seq![a] + rest);
        assert(seq![a] + rest =~= ls);
    }
}

proof fn lemma_parse_entry_lines(es: Seq<(nat, Seq<char>)>)
    requires
        forall|k: int| 0 <= k < es.len() ==> (#[trigger] es[k]).0 <= i64::MAX,
    ensures
        parse_lines(Seq::new(es.len(), |k: int| entry_line(es[k]))) == HistoryParse::Entries(es),
    decreases es.len(),
{
    let ls = Seq::new(es.len(), |k: int| entry_line(es[k]));
    if es.len() == 0 {
        assert(es =~= seq![]);
    } else {
        let rest = es.drop_first();
        assert forall|k: int| 0 <= k < rest.len() implies (#[trigger] rest[k]).0 <= i64::MAX by {
            assert(rest[k] == es[k + 1]);
        }
        lemma_parse_entry_lines(rest);
        assert(ls.drop_first() =~= Seq::new(rest.len(), |k: int| entry_line(rest[k])));
        assert(es[0].0 <= i64::MAX);
        lemma_entry_line_parses(es[0]);
        assert(seq![es[0]] + rest =~= es);
    }
}

/// What saving a history writes reads back as the same entries, when no command holds a
/// line break and every time lies within the system clock's range.
pub proof fn law_saved_history_reads_back(es: Seq<(nat, Seq<char>)>)
    requires
        forall|k: int| 0 <= k < es.len() ==> (#[trigger] es[k]).0 <= i64::MAX && single_line(
            es[k].1,
        ),
    ensures
        parse_history_text(saved_text(es)) == HistoryParse::Entries(es),
{
    let ls = Seq::new(es.len(), |k: int| entry_line(es[k]));
    assert forall|k: int| 0 <= k < ls.len() implies (#[trigger] ls[k]).len() > 0 && ls[k].last()
        != '\r' && forall|j: int| 0 <= j < ls[k].len() ==> ls[k][j] != '\n' by {
        lemma_entry_line_one_line(es[k]);
    }
    lemma_lines_of_joined(ls);
    lemma_parse_entry_lines(es);
}

} // verus!
