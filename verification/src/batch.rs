//! Cutting a sequence into batches of a fixed size.

use vstd::prelude::*;
use vstd::slice::slice_subrange;

verus! {

/// Number of batches that `len` items make at `size` items a batch.
pub open spec fn batch_count(len: nat, size: nat) -> nat {
    if size == 0 {
        0
    } else {
        ((len + size - 1) / (size as int)) as nat
    }
}

/// Position behind the last item of batch `k`.
pub open spec fn batch_end(len: nat, size: nat, k: int) -> int {
    if (k + 1) * size <= len {
        (k + 1) * size
    } else {
        len as int
    }
}

/// Batch `k`: the items from position `k * size` on, `size` of them or as
/// many as are left.
pub open spec fn batch_at<T>(items: Seq<T>, size: nat, k: int) -> Seq<T> {
    items.subrange(k * size, batch_end(items.len(), size, k))
}

/// The items cut into batches of `size`, in order.
pub open spec fn batches_of<T>(items: Seq<T>, size: nat) -> Seq<Seq<T>> {
    Seq::new(batch_count(items.len(), size), |k: int| batch_at(items, size, k))
}

/// Batch `k` exists exactly when it starts before the end of the items.
pub proof fn lemma_batch_count(len: nat, size: nat, k: int)
    requires
        size >= 1,
        0 <= k,
    ensures
        k < batch_count(len, size) <==> k * size < len,
        k * size < len <= (k + 1) * size ==> batch_count(len, size) == k + 1,
        len == 0 ==> batch_count(len, size) == 0,
{
    let c = (len + size - 1) / (size as int);
    assert(c * size <= len + size - 1 < (c + 1) * size) by (nonlinear_arith)
        requires
            size >= 1,
            c == (len + size - 1) / (size as int),
    ;
    assert(k < c <==> k * size < len) by (nonlinear_arith)
        requires
            size >= 1,
            0 <= k,
            c * size <= len + size - 1 < (c + 1) * size,
    ;
    if k * size < len && len <= (k + 1) * size {
        assert(c == k + 1) by (nonlinear_arith)
            requires
                size >= 1,
                k * size < len <= (k + 1) * size,
                c * size <= len + size - 1 < (c + 1) * size,
        ;
    }
    if len == 0 {
        assert(c == 0) by (nonlinear_arith)
            requires
                size >= 1,
                len == 0,
                c * size <= len + size - 1 < (c + 1) * size,
        ;
    }
}

/// Every batch but the last holds `size` items; the last holds what is
/// left, at least one item and at most `size`.
pub proof fn lemma_batch_sizes<T>(items: Seq<T>, size: nat, k: int)
    requires
        size >= 1,
        0 <= k < batch_count(items.len(), size),
    ensures
        batches_of(items, size)[k] == batch_at(items, size, k),
        k + 1 < batch_count(items.len(), size) ==> batch_at(items, size, k).len() == size,
        k + 1 == batch_count(items.len(), size) ==> batch_at(items, size, k).len() == items.len()
            - k * size,
        1 <= batch_at(items, size, k).len() <= size,
        0 <= k * size < batch_end(items.len(), size, k) <= items.len(),
        batch_at(items, size, k).len() == batch_end(items.len(), size, k) - k * size,
{
    lemma_batch_count(items.len(), size, k);
    lemma_batch_count(items.len(), size, k + 1);
    assert((k + 1) * size == k * size + size) by (nonlinear_arith);
    assert(0 <= k * size) by (nonlinear_arith)
        requires
            0 <= k,
    ;
}

/// The first `k` batches, laid end to end, are the items up to the end of
/// batch `k - 1`.
proof fn lemma_batches_prefix<T>(items: Seq<T>, size: nat, k: int)
    requires
        size >= 1,
        0 <= k <= batch_count(items.len(), size),
    ensures
        batches_of(items, size).take(k).flatten() == items.take(
            if k == 0 {
                0
            } else {
                batch_end(items.len(), size, k - 1)
            },
        ),
    decreases k,
{
    let all = batches_of(items, size);
    if k > 0 {
        lemma_batches_prefix(items, size, k - 1);
        lemma_batch_sizes(items, size, k - 1);
        let start = (k - 1) * size;
        let end = batch_end(items.len(), size, k - 1);
        assert(k * size == start + size && (k - 1 + 1) * size == start + size && (k - 2 + 1)
            * size == start) by (nonlinear_arith)
            requires
                start == (k - 1) * size,
        ;
        let before = all.take(k - 1);
        let last = all[k - 1];
        assert(all.take(k) =~= before.push(last));
        before.lemma_flatten_push(last);
    }
}

/// Batching neither drops nor reorders: the batches laid end to end are the
/// items.
pub proof fn lemma_batches_cover<T>(items: Seq<T>, size: nat)
    requires
        size >= 1,
    ensures
        batches_of(items, size).flatten() == items,
{
    let all = batches_of(items, size);
    let count = batch_count(items.len(), size) as int;
    lemma_batches_prefix(items, size, count);
    assert(all.take(count) =~= all);
    if count == 0 {
        lemma_batch_count(items.len(), size, 0);
    } else {
        lemma_batch_sizes(items, size, count - 1);
        lemma_batch_count(items.len(), size, count);
    }
}

/// Cuts `items` into batches of `batch_size`, the last one holding what is
/// left. The batches follow one another without gap or overlap.
pub fn batches<'a, T>(items: &'a [T], batch_size: usize) -> (cut: Vec<&'a [T]>)
    requires
        batch_size >= 1,
    ensures
        cut.len() == batch_count(items@.len(), batch_size as nat),
        forall|k: int| 0 <= k < cut.len() ==> (#[trigger] cut[k])@ == batch_at(items@, batch_size as nat, k),
{
    let len = items.len();
    let mut cut: Vec<&'a [T]> = Vec::new();
    let mut start: usize = 0;
    proof {
        lemma_batch_count(len as nat, batch_size as nat, 0);
    }
    while start < len
        invariant
            len == items@.len(),
            batch_size >= 1,
            start <= len,
            cut.len() <= batch_count(len as nat, batch_size as nat),
            start < len ==> start == cut.len() * batch_size,
            start == len ==> cut.len() == batch_count(len as nat, batch_size as nat),
            forall|k: int|
                0 <= k < cut.len() ==> (#[trigger] cut[k])@ == batch_at(
                    items@,
                    batch_size as nat,
                    k,
                ),
        decreases len - start,
    {
        let ghost k = cut.len() as int;
        let end = if len - start <= batch_size {
            len
        } else {
            start + batch_size
        };
        proof {
            lemma_batch_count(len as nat, batch_size as nat, k);
            lemma_batch_count(len as nat, batch_size as nat, k + 1);
            assert((k + 1) * batch_size == k * batch_size + batch_size) by (nonlinear_arith);
        }
        cut.push(slice_subrange(items, start, end));
        start = end;
    }
    cut
}

} // verus!
