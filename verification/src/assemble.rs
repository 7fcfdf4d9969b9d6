//! Laying the predictions of all sentences end to end.

use vstd::prelude::*;
use crate::schema::{TextImagerPrediction, TextImagerResponse};

verus! {

/// Position in the assembled list of entry `j` of list `i`: behind all
/// entries of the lists before `i`, and behind the first `j` of list `i`.
pub open spec fn position<A>(lists: Seq<Seq<A>>, i: int, j: int) -> int {
    lists.take(i).flatten().len() + j
}

/// The lists up to and including list `i` open the assembled list.
proof fn lemma_flatten_prefix<A>(lists: Seq<Seq<A>>, i: int)
    requires
        0 <= i < lists.len(),
    ensures
        lists.take(i + 1).flatten() == lists.take(i).flatten() + lists[i],
        lists.take(i + 1).flatten().len() <= lists.flatten().len(),
        lists.flatten().take(lists.take(i + 1).flatten().len() as int) == lists.take(
            i + 1,
        ).flatten(),
{
    let head = lists.take(i + 1);
    let tail = lists.skip(i + 1);
    assert(head =~= lists.take(i).push(lists[i]));
    lists.take(i).lemma_flatten_push(lists[i]);
    assert(lists =~= head + tail);
    vstd::seq_lib::lemma_flatten_concat(head, tail);
    assert((head.flatten() + tail.flatten()).take(head.flatten().len() as int)
        =~= head.flatten());
}

/// Order preservation, part one: every entry of every list stands in the
/// assembled list, at the position that counts the entries before it.
pub proof fn lemma_order_preserved<A>(lists: Seq<Seq<A>>, i: int, j: int)
    requires
        0 <= i < lists.len(),
        0 <= j < lists[i].len(),
    ensures
        0 <= position(lists, i, j) < lists.flatten().len(),
        lists.flatten()[position(lists, i, j)] == lists[i][j],
{
    lemma_flatten_prefix(lists, i);
    let upto = lists.take(i + 1).flatten();
    assert(lists.flatten().take(upto.len() as int)[position(lists, i, j)] == lists.flatten()[
        position(lists, i, j)]);
}

/// The lists before `a` hold no more entries than the lists before `b`.
proof fn lemma_prefix_grows<A>(lists: Seq<Seq<A>>, a: int, b: int)
    requires
        0 <= a <= b <= lists.len(),
    ensures
        lists.take(a).flatten().len() <= lists.take(b).flatten().len(),
    decreases b - a,
{
    if a < b {
        lemma_prefix_grows(lists, a, b - 1);
        lemma_flatten_prefix(lists, b - 1);
    }
}

/// Order preservation, part two: an entry that comes earlier, by list and
/// then by place in its list, stands earlier in the assembled list.
pub proof fn lemma_order_monotonic<A>(lists: Seq<Seq<A>>, i: int, j: int, i2: int, j2: int)
    requires
        0 <= i <= i2 < lists.len(),
        0 <= j < lists[i].len(),
        0 <= j2 < lists[i2].len(),
        i < i2 || j < j2,
    ensures
        position(lists, i, j) < position(lists, i2, j2),
{
    if i < i2 {
        lemma_flatten_prefix(lists, i);
        lemma_prefix_grows(lists, i + 1, i2);
    }
}

/// Order preservation, part three: every place of the assembled list holds
/// an entry of one of the lists.
pub proof fn lemma_every_position_has_source<A>(lists: Seq<Seq<A>>, p: int) -> (source: (int, int))
    requires
        0 <= p < lists.flatten().len(),
    ensures
        0 <= source.0 < lists.len(),
        0 <= source.1 < lists[source.0].len(),
        position(lists, source.0, source.1) == p,
    decreases lists.len(),
{
    let last = lists.len() - 1;
    lemma_flatten_prefix(lists, last);
    assert(lists.take(last + 1) =~= lists);
    let before = lists.take(last);
    if p < before.flatten().len() {
        let (i, j) = lemma_every_position_has_source(before, p);
        assert(before.take(i) =~= lists.take(i));
        (i, j)
    } else {
        (last, p - before.flatten().len())
    }
}

/// Lays the lists of predictions end to end, in the order of the lists and,
/// inside each list, in the order given, and wraps the result as a response
/// without meta data. Nothing is sorted, merged or left out.
pub fn assemble(lists: Vec<Vec<TextImagerPrediction>>) -> (response: TextImagerResponse)
    ensures
        response.predictions.deep_view() == lists.deep_view().flatten(),
        response.meta is None,
{
    let ghost views = lists.deep_view();
    let mut lists = lists;
    let mut predictions: Vec<TextImagerPrediction> = Vec::new();
    let mut i: usize = 0;
    while i < lists.len()
        invariant
            i <= lists.len(),
            lists.len() == views.len(),
            forall|k: int| i <= k < lists.len() ==> (#[trigger] lists[k]).deep_view() == views[k],
            predictions.deep_view() == views.take(i as int).flatten(),
        decreases lists.len() - i,
    {
        let ghost before = predictions.deep_view();
        proof {
            assert(views.take(i as int + 1) =~= views.take(i as int).push(views[i as int]));
            views.take(i as int).lemma_flatten_push(views[i as int]);
        }
        predictions.append(&mut lists[i]);
        i = i + 1;
    }
    assert(views.take(i as int) =~= views);
    TextImagerResponse::new(predictions)
}

} // verus!
