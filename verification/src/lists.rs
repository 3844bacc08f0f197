//! Sequences of values that may be missing.

use vstd::prelude::*;

verus! {

/// The values that are there, in order.
pub open spec fn present<T>(values: Seq<Option<T>>) -> Seq<T>
    decreases values.len(),
{
    if values.len() == 0 {
        seq![]
    } else {
        match values.last() {
            Some(value) => present(values.drop_last()).push(value),
            None => present(values.drop_last()),
        }
    }
}

/// The next value of a sequence is added to those that are there, if it is there.
pub proof fn present_of_a_longer_part<T>(values: Seq<Option<T>>, count: int)
    requires
        0 <= count < values.len(),
    ensures
        present(values.take(count + 1)) == (match values[count] {
            Some(value) => present(values.take(count)).push(value),
            None => present(values.take(count)),
        }),
{
    let longer = values.take(count + 1);
    assert(longer.drop_last() =~= values.take(count));
    assert(longer.last() == values[count]);
}

/// One more value is added to those that are there, if it is there.
pub proof fn present_of_one_more<T>(values: Seq<Option<T>>, value: Option<T>)
    ensures
        present(values.push(value)) == (match value {
            Some(found) => present(values).push(found),
            None => present(values),
        }),
{
    assert(values.push(value).drop_last() =~= values);
}

/// The values that are there come out one by one, each at its place: none is lost, none
/// is added, and those of two sequences follow each other.
pub proof fn present_values_are_kept_in_order<T>(a: Seq<Option<T>>, b: Seq<Option<T>>, value: T)
    ensures
        present(a + b) == present(a) + present(b),
        present(seq![Some(value)]) == seq![value],
        present(seq![None::<T>]) == Seq::<T>::empty(),
        present(Seq::<Option<T>>::empty()) == Seq::<T>::empty(),
    decreases b.len(),
{
    let none = Seq::<Option<T>>::empty();
    present_of_one_more(none, Some(value));
    present_of_one_more(none, None::<T>);
    assert(none.push(Some(value)) =~= seq![Some(value)]);
    assert(none.push(None::<T>) =~= seq![None::<T>]);
    assert(present(none).push(value) =~= seq![value]);
    if b.len() == 0 {
        assert(a + b =~= a);
        assert(present(a) + present(b) =~= present(a));
    } else {
        present_values_are_kept_in_order(a, b.drop_last(), value);
        assert((a + b).drop_last() =~= a + b.drop_last());
        assert((a + b).last() == b.last());
        if let Some(last) = b.last() {
            assert(present(a) + present(b.drop_last()).push(last) =~= (present(a) + present(
                b.drop_last(),
            )).push(last));
        }
    }
}

/// Only values that are there come out.
pub proof fn present_values_are_there<T>(values: Seq<Option<T>>, value: T)
    ensures
        present(values).contains(value) <==> values.contains(Some(value)),
        present(values).len() <= values.len(),
    decreases values.len(),
{
    if values.len() > 0 {
        let earlier = values.drop_last();
        present_values_are_there(earlier, value);
        let last = values[values.len() - 1];
        if present(values).contains(value) {
            if last == Some(value) {
                assert(values.contains(last));
            } else {
                let i = present(values).index_of(value);
                if last is Some {
                    assert(i < present(earlier).len());
                }
                assert(present(earlier)[i] == value);
                assert(present(earlier).contains(value));
                let k = earlier.index_of(Some(value));
                assert(values[k] == Some(value));
            }
        }
        if values.contains(Some(value)) {
            let k = values.index_of(Some(value));
            if k < earlier.len() {
                assert(earlier[k] == Some(value));
                assert(present(earlier).contains(value));
                let i = present(earlier).index_of(value);
                assert(present(values)[i] == value);
            } else {
                assert(present(values)[present(earlier).len() as int] == value);
            }
        }
    }
}

} // verus!
