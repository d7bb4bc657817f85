//! Small verified helpers on vectors.

use vstd::prelude::*;

verus! {

/// Appends every item of `items`, in order, to the end of `out`.
pub fn push_all<T: Copy>(out: &mut Vec<T>, items: &[T])
    ensures
        final(out)@ == old(out)@ + items@,
{
    let ghost start = out@;
    let n = items.len();
    let mut i: usize = 0;
    while i < n
        invariant
            n == items@.len(),
            i <= n,
            out@ == start + items@.take(i as int),
        decreases n - i,
    {
        out.push(items[i]);
        assert(items@.take(i as int + 1) =~= items@.take(i as int).push(items@[i as int]));
        i = i + 1;
    }
    assert(items@.take(n as int) =~= items@);
}

/// Appends `count` copies of `item` to the end of `out`.
pub fn push_repeated<T: Copy>(out: &mut Vec<T>, item: T, count: usize)
    ensures
        final(out)@ == old(out)@ + Seq::new(count as nat, |_i: int| item),
{
    let ghost start = out@;
    let mut i: usize = 0;
    while i < count
        invariant
            i <= count,
            out@ == start + Seq::new(i as nat, |_j: int| item),
        decreases count - i,
    {
        out.push(item);
        assert(Seq::new((i + 1) as nat, |_j: int| item) =~= Seq::new(i as nat, |_j: int| item).push(
            item,
        ));
        i = i + 1;
    }
}

/// Whether two byte sequences hold the same bytes.
pub fn bytes_equal(a: &[u8], b: &[u8]) -> (r: bool)
    ensures
        r == (a@ == b@),
{
    if a.len() != b.len() {
        return false;
    }
    let n = a.len();
    let mut i: usize = 0;
    while i < n
        invariant
            n == a@.len(),
            n == b@.len(),
            i <= n,
            forall|j: int| 0 <= j < i ==> a@[j] == b@[j],
        decreases n - i,
    {
        if a[i] != b[i] {
            return false;
        }
        i = i + 1;
    }
    assert(a@ =~= b@);
    true
}

} // verus!
