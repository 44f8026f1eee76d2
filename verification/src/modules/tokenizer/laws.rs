use vstd::prelude::*;

use crate::modules::tokenizer::token::{
    joined_texts, model_appends, model_redirects, model_redirects_error, model_redirects_output,
    serialized, TokenModel,
};
use crate::modules::tokenizer::{
    close_token, finish, in_mode, is_alpha, is_digit, scan, start_state, step, token_of,
    tokenize_spec, with_char, with_token, ParseMode, ScanState, Step, TokenizeOutcome,
};

verus! {

/// No two neighbouring tokens are both blanks.
pub open spec fn no_adjacent_spaces(ts: Seq<TokenModel>) -> bool {
    forall|k: int| 0 <= k < ts.len() - 1 ==> !(#[trigger] ts[k] is Space && ts[k + 1] is Space)
}

proof fn lemma_step_keeps_single_spaces(c: Seq<char>, i: nat, st: ScanState)
    requires
        i < c.len(),
        no_adjacent_spaces(st.tokens),
    ensures
        step(c, i, st) matches Step::Next(_, next) ==> no_adjacent_spaces(next.tokens),
{
    let ts = st.tokens;
    match step(c, i, st) {
        Step::Next(_, next) => {
            let nt = next.tokens;
            assert forall|k: int| 0 <= k < nt.len() - 1 implies !(#[trigger] nt[k] is Space
                && nt[k + 1] is Space) by {
                if k < ts.len() - 1 {
                    assert(nt[k] == ts[k] && nt[k + 1] == ts[k + 1]);
                } else if k == ts.len() - 1 {
                    assert(nt[k] == ts[k]);
                }
            }
        },
        _ => {},
    }
}

proof fn lemma_scan_keeps_single_spaces(c: Seq<char>, i: nat, st: ScanState)
    requires
        no_adjacent_spaces(st.tokens),
    ensures
        scan(c, i, st) matches TokenizeOutcome::Tokens(ts) ==> no_adjacent_spaces(ts),
    decreases c.len() - i,
{
    if i >= c.len() {
        let ts = st.tokens;
        if st.mode != ParseMode::Idle && st.mode != ParseMode::SingleQuote && st.mode
            != ParseMode::DoubleQuote {
            match finish(st) {
                TokenizeOutcome::Tokens(nt) => {
                    assert forall|k: int| 0 <= k < nt.len() - 1 implies !(#[trigger] nt[k] is Space
                        && nt[k + 1] is Space) by {
                        if k < ts.len() - 1 {
                            assert(nt[k] == ts[k] && nt[k + 1] == ts[k + 1]);
                        }
                    }
                },
                _ => {},
            }
        }
    } else {
        lemma_step_keeps_single_spaces(c, i, st);
        match step(c, i, st) {
            Step::Next(j, next) => {
                lemma_scan_keeps_single_spaces(c, j, next);
            },
            _ => {},
        }
    }
}

/// Blanks between words collapse: a tokenized line never holds two blank tokens in a row.
pub proof fn law_blanks_collapse(input: Seq<char>)
    ensures
        tokenize_spec(input) matches TokenizeOutcome::Tokens(ts) ==> no_adjacent_spaces(ts),
{
    lemma_scan_keeps_single_spaces(input, 0, start_state());
}

proof fn lemma_single_quoted_run(c: Seq<char>, i: nat, j: nat, st: ScanState)
    requires
        st.mode == ParseMode::SingleQuote,
        i <= j <= c.len(),
        forall|k: int| i <= k < j ==> c[k] != '\'',
    ensures
        scan(c, i, st) == scan(c, j, ScanState { buffer: st.buffer + c.subrange(i as int, j as int), ..st }),
    decreases j - i,
{
    if i < j {
        let next = with_char(st, c[i as int]);
        lemma_single_quoted_run(c, i + 1, j, next);
        assert(next.buffer + c.subrange(i + 1 as int, j as int) =~= st.buffer + c.subrange(
            i as int,
            j as int,
        ));
    } else {
        assert(st.buffer + c.subrange(i as int, j as int) =~= st.buffer);
    }
}

/// The text `s` has neither character of `bad`.
pub open spec fn lacks(s: Seq<char>, a: char, b: char) -> bool {
    forall|k: int| 0 <= k < s.len() ==> #[trigger] s[k] != a && s[k] != b
}

/// Text between single quotes is taken as it stands, whatever it holds.
pub proof fn law_single_quotes_verbatim(s: Seq<char>)
    requires
        lacks(s, '\'', '\''),
    ensures
        tokenize_spec(seq!['\''] + s + seq!['\'']) == TokenizeOutcome::Tokens(
            seq![TokenModel::String(s, false)],
        ),
{
    let c = seq!['\''] + s + seq!['\''];
    let n: nat = s.len();
    assert(c[0] == '\'');
    let st1 = in_mode(start_state(), ParseMode::SingleQuote);
    assert(step(c, 0, start_state()) == Step::Next(1, st1));
    assert forall|k: int| 1 <= k < n + 1 implies c[k] != '\'' by {
        assert(c[k] == s[k - 1]);
    }
    lemma_single_quoted_run(c, 1, n + 1, st1);
    assert(c.subrange(1, n + 1 as int) =~= s);
    let st2 = ScanState { buffer: st1.buffer + c.subrange(1, n + 1 as int), ..st1 };
    assert(st2.buffer =~= s);
    assert(c[n + 1 as int] == '\'');
    assert(step(c, n + 1, st2) == Step::Next(n + 2, close_token(st2)));
    assert(close_token(st2).tokens =~= seq![TokenModel::String(s, false)]);
    assert(scan(c, 0, start_state()) == scan(c, 1, st1));
    assert(scan(c, n + 1, st2) == scan(c, n + 2, close_token(st2)));
    assert(scan(c, n + 2, close_token(st2)) == finish(close_token(st2)));
}

/// A single quote that is never closed makes the line an error.
pub proof fn law_unclosed_single_quote(s: Seq<char>)
    requires
        lacks(s, '\'', '\''),
    ensures
        tokenize_spec(seq!['\''] + s) == TokenizeOutcome::Fail("Single quote didn't end."@),
{
    let c = seq!['\''] + s;
    let n: nat = s.len();
    assert(c[0] == '\'');
    let st1 = in_mode(start_state(), ParseMode::SingleQuote);
    assert(step(c, 0, start_state()) == Step::Next(1, st1));
    assert forall|k: int| 1 <= k < n + 1 implies c[k] != '\'' by {
        assert(c[k] == s[k - 1]);
    }
    lemma_single_quoted_run(c, 1, n + 1, st1);
}

proof fn lemma_double_quoted_run(c: Seq<char>, i: nat, j: nat, st: ScanState)
    requires
        st.mode == ParseMode::DoubleQuote,
        i <= j < c.len(),
        c[j as int] == '"',
        forall|k: int| i <= k < j ==> c[k] != '"' && c[k] != '\\',
    ensures
        scan(c, i, st) == scan(
            c,
            j + 1,
            close_token(ScanState { buffer: st.buffer + c.subrange(i as int, j as int), ..st }),
        ),
    decreases j - i,
{
    if i < j {
        let ch = c[i as int];
        let next = if ch == '\'' {
            ScanState { in_single: !st.in_single, ..with_char(st, ch) }
        } else {
            with_char(st, ch)
        };
        assert(step(c, i, st) == Step::Next(i + 1, next));
        lemma_double_quoted_run(c, i + 1, j, next);
        assert(next.buffer + c.subrange(i + 1 as int, j as int) =~= st.buffer + c.subrange(
            i as int,
            j as int,
        ));
    } else {
        assert(st.buffer + c.subrange(i as int, j as int) =~= st.buffer);
        assert(step(c, i, st) == Step::Next(i + 1, close_token(st)));
    }
}

/// Text between double quotes that holds no backslash or double quote is taken as it
/// stands.
pub proof fn law_double_quotes_verbatim(s: Seq<char>)
    requires
        lacks(s, '"', '\\'),
    ensures
        tokenize_spec(seq!['"'] + s + seq!['"']) == TokenizeOutcome::Tokens(
            seq![TokenModel::String(s, true)],
        ),
{
    let c = seq!['"'] + s + seq!['"'];
    let n: nat = s.len();
    assert(c[0] == '"');
    let st1 = in_mode(start_state(), ParseMode::DoubleQuote);
    assert(step(c, 0, start_state()) == Step::Next(1, st1));
    assert forall|k: int| 1 <= k < n + 1 implies c[k] != '"' && c[k] != '\\' by {
        assert(c[k] == s[k - 1]);
    }
    assert(c[n + 1 as int] == '"');
    lemma_double_quoted_run(c, 1, n + 1, st1);
    assert(c.subrange(1, n + 1 as int) =~= s);
    let st2 = ScanState { buffer: st1.buffer + c.subrange(1, n + 1 as int), ..st1 };
    assert(st2.buffer =~= s);
    assert(close_token(st2).tokens =~= seq![TokenModel::String(s, true)]);
    assert(scan(c, 0, start_state()) == scan(c, 1, st1));
    assert(scan(c, n + 2, close_token(st2)) == finish(close_token(st2)));
}

/// A character of a plain line: a letter, a digit, an underscore or a blank.
pub open spec fn plain_char(ch: char) -> bool {
    is_alpha(ch) || is_digit(ch) || ch == '_' || ch == ' '
}

/// Two blanks stand together at position `k` of `c`.
pub open spec fn blank_pair(c: Seq<char>, k: int) -> bool {
    c[k] == ' ' && c[k + 1] == ' '
}

/// What the scan of a plain line has read up to position `i`: in a word, the tokens so
/// far and the word's beginning spell the line read; between words, the tokens spell it,
/// and a blank token last stands for the blank just read.
spec fn plain_progress(c: Seq<char>, i: nat, st: ScanState) -> bool {
    &&& i <= c.len()
    &&& (st.mode == ParseMode::Idle || st.mode == ParseMode::Value)
    &&& st.mode == ParseMode::Idle ==> {
        &&& st.buffer.len() == 0
        &&& joined_texts(st.tokens) == c.take(i as int)
        &&& (st.tokens.len() > 0 && st.tokens.last() is Space) ==> i > 0 && c[i - 1] == ' '
    }
    &&& st.mode == ParseMode::Value ==> joined_texts(st.tokens) + st.buffer == c.take(i as int)
}

proof fn lemma_joined_push(ts: Seq<TokenModel>, t: TokenModel)
    ensures
        joined_texts(ts.push(t)) == joined_texts(ts) + serialized(t),
{
    assert(ts.push(t).drop_last() =~= ts);
}

proof fn lemma_scan_plain(c: Seq<char>, i: nat, st: ScanState)
    requires
        forall|k: int| 0 <= k < c.len() ==> plain_char(#[trigger] c[k]),
        forall|k: int| 0 <= k < c.len() - 1 ==> !(#[trigger] blank_pair(c, k)),
        plain_progress(c, i, st),
    ensures
        scan(c, i, st) matches TokenizeOutcome::Tokens(ts) && joined_texts(ts) == c,
    decreases c.len() - i,
{
    if i >= c.len() {
        assert(c.take(i as int) =~= c);
        if st.mode == ParseMode::Value {
            lemma_joined_push(st.tokens, token_of(st.mode, st.buffer));
        }
    } else {
        let ch = c[i as int];
        assert(plain_char(ch));
        assert(c.take((i + 1) as int) =~= c.take(i as int).push(ch));
        if st.mode == ParseMode::Idle {
            if ch == ' ' {
                if st.tokens.len() > 0 && st.tokens.last() is Space {
                    assert(blank_pair(c, i - 1));
                }
                let next = with_token(st, TokenModel::Space);
                assert(next.tokens.last() == TokenModel::Space);
                lemma_joined_push(st.tokens, TokenModel::Space);
                assert(serialized(TokenModel::Space) =~= seq![' ']);
                assert(step(c, i, st) == Step::Next(i + 1, next));
                assert(joined_texts(next.tokens) =~= c.take((i + 1) as int));
                assert(c[(i + 1) - 1] == ' ');
                lemma_scan_plain(c, i + 1, next);
            } else {
                if is_digit(ch) && i + 1 < c.len() {
                    assert(plain_char(c[(i + 1) as int]));
                }
                let next = in_mode(with_char(st, ch), ParseMode::Value);
                assert(step(c, i, st) == Step::Next(i + 1, next));
                assert(next.buffer =~= seq![ch]);
                assert(next.tokens == st.tokens);
                assert(joined_texts(next.tokens) + next.buffer =~= c.take((i + 1) as int));
                lemma_scan_plain(c, i + 1, next);
            }
        } else {
            if ch == ' ' {
                let closed = close_token(st);
                let next = with_token(closed, TokenModel::Space);
                lemma_joined_push(st.tokens, TokenModel::Value(st.buffer));
                lemma_joined_push(closed.tokens, TokenModel::Space);
                assert(serialized(TokenModel::Space) =~= seq![' ']);
                assert(step(c, i, st) == Step::Next(i + 1, next));
                assert(next.tokens.last() == TokenModel::Space);
                assert(closed.tokens == st.tokens.push(TokenModel::Value(st.buffer)));
                assert(serialized(TokenModel::Value(st.buffer)) == st.buffer);
                assert(joined_texts(next.tokens) =~= c.take((i + 1) as int));
                assert(c[(i + 1) - 1] == ' ');
                lemma_scan_plain(c, i + 1, next);
            } else {
                let next = with_char(st, ch);
                assert(step(c, i, st) == Step::Next(i + 1, next));
                assert(joined_texts(st.tokens) + next.buffer =~= (joined_texts(st.tokens)
                    + st.buffer).push(ch));
                lemma_scan_plain(c, i + 1, next);
            }
        }
    }
}

/// A line of words made of letters, digits and underscores, with single blanks around
/// them, splits without error, and writing its tokens out one after another gives the
/// line back.
pub proof fn law_plain_line_round_trip(c: Seq<char>)
    requires
        forall|k: int| 0 <= k < c.len() ==> plain_char(#[trigger] c[k]),
        forall|k: int| 0 <= k < c.len() - 1 ==> !(#[trigger] blank_pair(c, k)),
    ensures
        tokenize_spec(c) matches TokenizeOutcome::Tokens(ts) && joined_texts(ts) == c,
{
    assert(c.take(0) =~= Seq::<char>::empty());
    assert(joined_texts(start_state().tokens) == Seq::<char>::empty());
    lemma_scan_plain(c, 0, start_state());
}

/// A redirection written as a bare word names exactly one stream, the standard output or
/// the standard error; any other token, a quoted `>` among them, redirects no stream.
pub proof fn law_redirect_words_name_one_stream(t: TokenModel)
    ensures
        (model_redirects(t) || model_appends(t)) ==> (model_redirects_output(t)
            != model_redirects_error(t)),
        !(model_redirects(t) || model_appends(t)) ==> !model_redirects_output(t)
            && !model_redirects_error(t),
        t is String ==> !(model_redirects(t) || model_appends(t)),
{
}

/// A character that may begin a bare word: a letter, `_`, `.` or `/`.
pub open spec fn word_start(ch: char) -> bool {
    ('a' <= ch && ch <= 'z') || ('A' <= ch && ch <= 'Z') || ch == '_' || ch == '.' || ch == '/'
}

/// A character that may go on in a bare word: a letter, a digit, `_`, `-`, `.` or `/`.
pub open spec fn word_rest(ch: char) -> bool {
    ('a' <= ch && ch <= 'z') || ('A' <= ch && ch <= 'Z') || ('0' <= ch && ch <= '9') || ch
        == '_' || ch == '-' || ch == '.' || ch == '/'
}

/// A bare word, such as a command name or a path: a first character that may begin a word,
/// then characters that may go on in one.
pub open spec fn bare_word(w: Seq<char>) -> bool {
    &&& w.len() > 0
    &&& word_start(w[0])
    &&& forall|k: int| 1 <= k < w.len() ==> word_rest(#[trigger] w[k])
}

proof fn lemma_word_rest_run(c: Seq<char>, i: nat, j: nat, st: ScanState)
    requires
        st.mode == ParseMode::Value,
        i <= j <= c.len(),
        forall|k: int| i <= k < j ==> word_rest(#[trigger] c[k]),
    ensures
        scan(c, i, st) == scan(c, j, ScanState { buffer: st.buffer + c.subrange(i as int, j as int), ..st }),
    decreases j - i,
{
    if i < j {
        let next = with_char(st, c[i as int]);
        assert(word_rest(c[i as int]));
        assert(step(c, i, st) == Step::Next(i + 1, next));
        lemma_word_rest_run(c, i + 1, j, next);
        assert(next.buffer + c.subrange(i + 1 as int, j as int) =~= st.buffer + c.subrange(
            i as int,
            j as int,
        ));
    } else {
        assert(st.buffer + c.subrange(i as int, j as int) =~= st.buffer);
    }
}

/// Reading the bare word that stands in `c` from `i` to `j`, between tokens.
proof fn lemma_bare_word_at(c: Seq<char>, i: nat, j: nat, st: ScanState)
    requires
        st.mode == ParseMode::Idle,
        st.buffer.len() == 0,
        i < j <= c.len(),
        bare_word(c.subrange(i as int, j as int)),
    ensures
        scan(c, i, st) == scan(
            c,
            j,
            ScanState { mode: ParseMode::Value, buffer: c.subrange(i as int, j as int), ..st },
        ),
{
    let w = c.subrange(i as int, j as int);
    assert(w[0] == c[i as int]);
    assert(word_start(c[i as int]));
    let first = in_mode(with_char(st, c[i as int]), ParseMode::Value);
    assert(step(c, i, st) == Step::Next(i + 1, first));
    assert forall|k: int| i + 1 <= k < j implies word_rest(#[trigger] c[k]) by {
        assert(c[k] == w[k - i]);
    }
    lemma_word_rest_run(c, i + 1, j, first);
    assert(first.buffer + c.subrange(i + 1 as int, j as int) =~= w);
}

/// A bare word alone on the line, paths among them, is one word token holding exactly that
/// text.
pub proof fn law_bare_word(w: Seq<char>)
    requires
        bare_word(w),
    ensures
        tokenize_spec(w) == TokenizeOutcome::Tokens(seq![TokenModel::Value(w)]),
{
    assert(w.subrange(0, w.len() as int) =~= w);
    lemma_bare_word_at(w, 0, w.len(), start_state());
    let st = ScanState { mode: ParseMode::Value, buffer: w, ..start_state() };
    assert(finish(st) == TokenizeOutcome::Tokens(seq![TokenModel::Value(w)])) by {
        assert(start_state().tokens.push(TokenModel::Value(w)) =~= seq![TokenModel::Value(w)]);
    }
}

/// Two bare words with a blank between them, paths among them, are the first word, a
/// blank and the second word.
pub proof fn law_two_bare_words(w1: Seq<char>, w2: Seq<char>)
    requires
        bare_word(w1),
        bare_word(w2),
    ensures
        tokenize_spec(w1 + seq![' '] + w2) == TokenizeOutcome::Tokens(
            seq![TokenModel::Value(w1), TokenModel::Space, TokenModel::Value(w2)],
        ),
{
    let c = w1 + seq![' '] + w2;
    let n1 = w1.len();
    let n = c.len();
    assert(c.subrange(0, n1 as int) =~= w1);
    assert(c.subrange((n1 + 1) as int, n as int) =~= w2);
    lemma_bare_word_at(c, 0, n1, start_state());
    let st1 = ScanState { mode: ParseMode::Value, buffer: w1, ..start_state() };
    assert(c[n1 as int] == ' ');
    let st2 = with_token(close_token(st1), TokenModel::Space);
    assert(step(c, n1, st1) == Step::Next(n1 + 1, st2));
    assert(st2.tokens =~= seq![TokenModel::Value(w1), TokenModel::Space]);
    lemma_bare_word_at(c, n1 + 1, n, st2);
    let st3 = ScanState { mode: ParseMode::Value, buffer: w2, ..st2 };
    assert(scan(c, n1, st1) == scan(c, n1 + 1, st2));
    assert(finish(st3) == TokenizeOutcome::Tokens(
        seq![TokenModel::Value(w1), TokenModel::Space, TokenModel::Value(w2)],
    )) by {
        assert(st2.tokens.push(TokenModel::Value(w2)) =~= seq![
            TokenModel::Value(w1),
            TokenModel::Space,
            TokenModel::Value(w2),
        ]);
    }
}

} // verus!
