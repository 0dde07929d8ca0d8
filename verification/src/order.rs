//! The order of the units in a run of messages, by their sequence
//! numbers.

use crate::message::Message;
use vstd::prelude::*;

verus! {

/// The units in `s` carry strictly increasing sequence numbers, in the
/// order in which they stand. Control events may stand anywhere.
pub open spec fn ordered(s: Seq<Message>) -> bool {
    forall|i: int, j: int|
        0 <= i < j < s.len() && (#[trigger] s[i]) is Frame && (#[trigger] s[j]) is Frame
            ==> s[i]->count < s[j]->count
}

/// Every unit in `s` carries a sequence number greater than `n`.
pub open spec fn above(s: Seq<Message>, n: int) -> bool {
    forall|i: int| 0 <= i < s.len() && (#[trigger] s[i]) is Frame ==> s[i]->count > n
}

/// The sequence numbers of the units in `s`, in the order in which they
/// stand.
pub open spec fn numbers(s: Seq<Message>) -> Seq<int>
    decreases s.len(),
{
    if s.len() == 0 {
        Seq::empty()
    } else if s.last() is Frame {
        numbers(s.drop_last()).push(s.last()->count as int)
    } else {
        numbers(s.drop_last())
    }
}

/// Every unit in `s` carries a sequence number less than `n`.
pub open spec fn below(s: Seq<Message>, n: int) -> bool {
    forall|i: int| 0 <= i < s.len() && (#[trigger] s[i]) is Frame ==> s[i]->count < n
}

/// `s` holds control events only.
pub open spec fn unitless(s: Seq<Message>) -> bool {
    forall|i: int| 0 <= i < s.len() ==> !((#[trigger] s[i]) is Frame)
}

/// The sequence number of `m` if it is a unit, and `-1`, which lies below
/// every sequence number, if it is a control event.
pub open spec fn number(m: Message) -> int {
    match m {
        Message::Frame { count, .. } => count as int,
        _ => -1,
    }
}

/// The numbers of two sequences, one after the other, are the numbers of
/// the first followed by the numbers of the second.
pub proof fn lemma_numbers_concat(a: Seq<Message>, b: Seq<Message>)
    ensures
        numbers(a + b) == numbers(a) + numbers(b),
    decreases b.len(),
{
    if b.len() == 0 {
        assert(a + b =~= a);
        assert(numbers(a) + numbers(b) =~= numbers(a));
    } else {
        lemma_numbers_concat(a, b.drop_last());
        assert((a + b).drop_last() =~= a + b.drop_last());
        assert((a + b).last() == b.last());
        if b.last() is Frame {
            assert(numbers(a + b) =~= numbers(a) + numbers(b));
        }
    }
}

/// Control events carry no numbers.
pub proof fn lemma_numbers_unitless(s: Seq<Message>)
    requires
        unitless(s),
    ensures
        numbers(s) == Seq::<int>::empty(),
    decreases s.len(),
{
    if s.len() > 0 {
        assert forall|i: int| 0 <= i < s.drop_last().len()
            implies !((#[trigger] s.drop_last()[i]) is Frame) by {
            assert(s.drop_last()[i] == s[i]);
        }
        lemma_numbers_unitless(s.drop_last());
        assert(s.last() == s[s.len() - 1]);
    }
}

/// Taking items away from the front and from the middle of an ordered
/// sequence leaves it ordered.
pub proof fn lemma_ordered_without(a: Seq<Message>, b: Seq<Message>, c: Seq<Message>)
    requires
        ordered(a + b + c),
    ensures
        ordered(a + c),
        ordered(c),
        ordered(a),
{
    let whole = a + b + c;
    let rest = a + c;
    assert forall|i: int, j: int|
        0 <= i < j < rest.len() && (#[trigger] rest[i]) is Frame && (#[trigger] rest[j]) is Frame
        implies rest[i]->count < rest[j]->count by {
        let from_i = if i < a.len() {
            i
        } else {
            i + b.len()
        };
        let from_j = if j < a.len() {
            j
        } else {
            j + b.len()
        };
        assert(whole[from_i] == rest[i]);
        assert(whole[from_j] == rest[j]);
    }
    assert forall|i: int, j: int|
        0 <= i < j < c.len() && (#[trigger] c[i]) is Frame && (#[trigger] c[j]) is Frame
            implies c[i]->count < c[j]->count by {
        assert(whole[a.len() + b.len() + i] == c[i]);
        assert(whole[a.len() + b.len() + j] == c[j]);
    }
    assert forall|i: int, j: int|
        0 <= i < j < a.len() && (#[trigger] a[i]) is Frame && (#[trigger] a[j]) is Frame
            implies a[i]->count < a[j]->count by {
        assert(whole[i] == a[i]);
        assert(whole[j] == a[j]);
    }
}

/// In an ordered sequence, what follows a unit lies above its number.
pub proof fn lemma_ordered_tail_above(m: Message, s: Seq<Message>)
    requires
        ordered(seq![m] + s),
    ensures
        ordered(s),
        above(s, number(m)),
{
    let whole = seq![m] + s;
    assert forall|i: int| 0 <= i < s.len() && (#[trigger] s[i]) is Frame implies s[i]->count
        > number(m) by {
        assert(whole[0] == m);
        assert(whole[i + 1] == s[i]);
    }
    assert forall|i: int, j: int|
        0 <= i < j < s.len() && (#[trigger] s[i]) is Frame && (#[trigger] s[j]) is Frame
            implies s[i]->count < s[j]->count by {
        assert(whole[i + 1] == s[i]);
        assert(whole[j + 1] == s[j]);
    }
}

/// An item in front of an ordered sequence that lies above its number
/// gives an ordered sequence.
pub proof fn lemma_ordered_cons(m: Message, s: Seq<Message>)
    requires
        ordered(s),
        above(s, number(m)),
    ensures
        ordered(seq![m] + s),
{
    let whole = seq![m] + s;
    assert forall|i: int, j: int|
        0 <= i < j < whole.len() && (#[trigger] whole[i]) is Frame && (#[trigger] whole[j]) is Frame
            implies whole[i]->count < whole[j]->count by {
        assert(whole[j] == s[j - 1]);
        if i > 0 {
            assert(whole[i] == s[i - 1]);
        }
    }
}

/// Two ordered sequences, the units of the first below a number and the
/// units of the second not below it, give an ordered sequence.
pub proof fn lemma_ordered_concat(a: Seq<Message>, b: Seq<Message>, n: int)
    requires
        ordered(a),
        ordered(b),
        below(a, n),
        above(b, n - 1),
    ensures
        ordered(a + b),
{
    let whole = a + b;
    assert forall|i: int, j: int|
        0 <= i < j < whole.len() && (#[trigger] whole[i]) is Frame && (#[trigger] whole[j]) is Frame
        implies whole[i]->count < whole[j]->count by {
        if j < a.len() {
            assert(whole[i] == a[i]);
            assert(whole[j] == a[j]);
        } else if i < a.len() {
            assert(whole[i] == a[i]);
            assert(whole[j] == b[j - a.len()]);
        } else {
            assert(whole[i] == b[i - a.len()]);
            assert(whole[j] == b[j - a.len()]);
        }
    }
}

/// Control events in front of an ordered sequence leave it ordered.
pub proof fn lemma_ordered_after_unitless(a: Seq<Message>, s: Seq<Message>)
    requires
        unitless(a),
        ordered(s),
    ensures
        ordered(a + s),
{
    let whole = a + s;
    assert forall|i: int, j: int|
        0 <= i < j < whole.len() && (#[trigger] whole[i]) is Frame && (#[trigger] whole[j]) is Frame
            implies whole[i]->count < whole[j]->count by {
        if i < a.len() {
            assert(whole[i] == a[i]);
        } else {
            assert(whole[i] == s[i - a.len()]);
            assert(whole[j] == s[j - a.len()]);
        }
    }
}

} // verus!
