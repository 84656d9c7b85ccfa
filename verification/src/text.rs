//! The line model of a byte stream.
//!
//! A decompressed stream is split at newline bytes (0x0A), each complete
//! line keeping its terminator. In UTF-8 the byte 0x0A only ever encodes
//! the newline character, so splitting bytes before decoding is faithful.

use vstd::prelude::*;

verus! {

/// True when some byte of `b` is a newline.
pub open spec fn has_nl(b: Seq<u8>) -> bool {
    exists|i: int| 0 <= i < b.len() && b[i] == 10u8
}

/// Index of the first newline of `b`, or `b.len()` when there is none.
pub open spec fn first_nl(b: Seq<u8>) -> int
    decreases b.len(),
{
    if b.len() == 0 {
        0
    } else if b[0] == 10u8 {
        0
    } else {
        1 + first_nl(b.drop_first())
    }
}

/// The basic facts about `first_nl`: it lies in `0 ..= b.len()`, points at a
/// newline exactly when one exists, and nothing before it is a newline.
pub proof fn lemma_first_nl(b: Seq<u8>)
    ensures
        0 <= first_nl(b) <= b.len(),
        first_nl(b) < b.len() ==> b[first_nl(b)] == 10u8,
        forall|j: int| 0 <= j < first_nl(b) ==> b[j] != 10u8,
        has_nl(b) <==> first_nl(b) < b.len(),
    decreases b.len(),
{
    if b.len() == 0 {
    } else if b[0] == 10u8 {
    } else {
        lemma_first_nl(b.drop_first());
        assert(forall|j: int|
            1 <= j < first_nl(b) ==> b[j] == b.drop_first()[j - 1] && b.drop_first()[j - 1]
                != 10u8);
        if has_nl(b) {
            let i = choose|i: int| 0 <= i < b.len() && b[i] == 10u8;
            assert(b.drop_first()[i - 1] == 10u8);
        }
        if first_nl(b) < b.len() {
            assert(b[first_nl(b)] == b.drop_first()[first_nl(b) - 1]);
        }
    }
}

/// `first_nl` is pinned by any index that is a newline with none before it.
pub proof fn lemma_first_nl_is(b: Seq<u8>, i: int)
    requires
        0 <= i < b.len(),
        b[i] == 10u8,
        forall|j: int| 0 <= j < i ==> b[j] != 10u8,
    ensures
        first_nl(b) == i,
    decreases b.len(),
{
    if i == 0 {
    } else {
        assert(b[0] != 10u8);
        assert(b.drop_first()[i - 1] == 10u8);
        assert(forall|j: int| 0 <= j < i - 1 ==> b.drop_first()[j] == b[j + 1] && b[j + 1] != 10u8);
        lemma_first_nl_is(b.drop_first(), i - 1);
    }
}

/// The complete (terminated) lines of `b`, in order, each including its
/// final newline byte.
pub open spec fn complete_lines(b: Seq<u8>) -> Seq<Seq<u8>>
    decreases b.len(),
{
    if 0 <= first_nl(b) < b.len() {
        seq![b.take(first_nl(b) + 1)] + complete_lines(b.skip(first_nl(b) + 1))
    } else {
        seq![]
    }
}

/// What is left of `b` after its complete lines: the trailing bytes with no
/// newline among them.
pub open spec fn line_rest(b: Seq<u8>) -> Seq<u8>
    decreases b.len(),
{
    if 0 <= first_nl(b) < b.len() {
        line_rest(b.skip(first_nl(b) + 1))
    } else {
        b
    }
}

/// A byte sequence without a newline has no complete line and is all rest.
pub proof fn lemma_lines_no_nl(b: Seq<u8>)
    requires
        !has_nl(b),
    ensures
        complete_lines(b) == Seq::<Seq<u8>>::empty(),
        line_rest(b) == b,
{
    lemma_first_nl(b);
}

/// Splitting a stream into chunks does not change its lines: the lines of
/// `a + c` are the lines of `a` followed by the lines of `a`'s rest glued to
/// `c`, and the rests agree. This is what makes feeding a stream piecewise
/// equivalent to feeding it whole.
pub proof fn lemma_lines_concat(a: Seq<u8>, c: Seq<u8>)
    ensures
        complete_lines(a + c) == complete_lines(a) + complete_lines(line_rest(a) + c),
        line_rest(a + c) == line_rest(line_rest(a) + c),
    decreases a.len(),
{
    lemma_first_nl(a);
    if 0 <= first_nl(a) < a.len() {
        let i = first_nl(a);
        assert(forall|j: int| 0 <= j <= i ==> (a + c)[j] == a[j]);
        lemma_first_nl_is(a + c, i);
        assert((a + c).take(i + 1) =~= a.take(i + 1));
        assert((a + c).skip(i + 1) =~= a.skip(i + 1) + c);
        lemma_lines_concat(a.skip(i + 1), c);
        assert(complete_lines(a + c) == seq![a.take(i + 1)] + complete_lines(a.skip(i + 1) + c));
        assert(complete_lines(a) + complete_lines(line_rest(a) + c) == seq![a.take(i + 1)] + (
        complete_lines(a.skip(i + 1)) + complete_lines(line_rest(a.skip(i + 1)) + c)));
    } else {
        assert(!has_nl(a));
        lemma_lines_no_nl(a);
        assert(complete_lines(a) + complete_lines(line_rest(a) + c) == complete_lines(a + c));
        assert(line_rest(a) + c == a + c);
    }
}

} // verus!
