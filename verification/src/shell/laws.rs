use vstd::prelude::*;

use crate::modules::auto_complete::byte_len;
use crate::shell::{can_erase, can_type, erased, typed, OpModel, Shell};
use crate::util::text::{byte_offset, lemma_byte_offset_before_end};

verus! {

/// Typing a character and then pressing backspace leaves the line as it was, when the cursor
/// stood where a character of the line begins or at its end; and backspace can be pressed
/// there.
pub proof fn law_type_then_erase(
    a: Shell,
    b: Shell,
    c: Shell,
    ch: char,
    k: int,
    typed_ops: Seq<OpModel>,
    erase_ops: Seq<OpModel>,
)
    requires
        0 <= k <= a.buffer@.len(),
        byte_offset(a.buffer@, k) == a.cursor_x - 2,
        vstd::utf8::encode_utf8(a.buffer@).len() <= usize::MAX,
        can_type(a),
        typed(a, b, ch, typed_ops),
        erased(b, c, b.cursor_x, erase_ops),
    ensures
        can_erase(b, b.cursor_x),
        c.buffer@ == a.buffer@,
{
    let rel = a.cursor_x - 2;
    if rel < byte_len(a.buffer@) {
        assert(b.buffer@ == a.buffer@.insert(k, ch));
    } else {
        if k < a.buffer@.len() {
            lemma_byte_offset_before_end(a.buffer@, k);
        }
        assert(k == a.buffer@.len());
        assert(b.buffer@ == a.buffer@.push(ch));
        assert(a.buffer@.push(ch) =~= a.buffer@.insert(k, ch));
    }
    assert(b.buffer@.take(k) =~= a.buffer@.take(k));
    assert(byte_offset(b.buffer@, k) == b.cursor_x - 3);
    assert(0 <= k < b.buffer@.len());
    assert(c.buffer@ == b.buffer@.remove(k));
    assert(b.buffer@.remove(k) =~= a.buffer@);
}

} // verus!
