//! Conversations by recency.

use crate::history::{all_wf, Conversation};
use crate::order::{
    is_order, law_order_is_unique, lemma_order_is_distinct, order_by_key, rearrange, rearranged,
};
use vstd::prelude::*;

verus! {

/// The keys by which conversations are put newest first.
pub open spec fn recency_keys(convs: Seq<Conversation>) -> Seq<i128> {
    convs.map_values(|c: Conversation| (-c.timestamp.instant()) as i128)
}

/// The order that puts the newest conversation first and leaves equally new ones as they stand.
pub open spec fn recency_order(convs: Seq<Conversation>) -> Seq<usize> {
    choose|o: Seq<usize>| is_order(recency_keys(convs), o)
}

/// The conversations with their positions written into them.
pub open spec fn numbered(convs: Seq<Conversation>) -> Seq<Conversation> {
    convs.map(|i: int, c: Conversation| Conversation { index: i as usize, ..c })
}

/// Rearranging keeps the times in the calendar.
pub(crate) proof fn lemma_rearranged_wf(convs: Seq<Conversation>, order: Seq<usize>)
    requires
        all_wf(convs),
        forall|i: int| 0 <= i < order.len() ==> #[trigger] order[i] < convs.len(),
    ensures
        all_wf(rearranged(convs, order)),
{
    assert forall|i: int| 0 <= i < rearranged(convs, order).len() implies (#[trigger] rearranged(
        convs,
        order,
    )[i]).wf() by {
        assert(convs[order[i] as int].wf());
    }
}

/// The order that puts the newest conversation first.
pub(crate) fn newest_first_order(convs: &Vec<Conversation>) -> (r: Vec<usize>)
    requires
        all_wf(convs@),
    ensures
        r@ == recency_order(convs@),
        is_order(recency_keys(convs@), r@),
        r@.no_duplicates(),
{
    let mut keys: Vec<i128> = Vec::new();
    for i in 0..convs.len()
        invariant
            all_wf(convs@),
            keys@ == recency_keys(convs@).take(i as int),
    {
        assert(convs@[i as int].wf());
        let key: i128 = -convs[i].timestamp.rank();
        keys.push(key);
        assert(keys@ =~= recency_keys(convs@).take(i + 1));
    }
    assert(keys@ =~= recency_keys(convs@));
    let order: Vec<usize> = order_by_key(keys.as_slice());
    proof {
        law_order_is_unique(keys@, order@, recency_order(convs@));
        lemma_order_is_distinct(keys@, order@);
    }
    order
}

/// Writes into each conversation its position.
pub(crate) fn number_conversations(convs: Vec<Conversation>) -> (r: Vec<Conversation>)
    requires
        all_wf(convs@),
    ensures
        r@ == numbered(convs@),
        all_wf(r@),
{
    let ghost plain = convs@;
    let mut sorted: Vec<Conversation> = convs;
    let count: usize = sorted.len();
    for i in 0..count
        invariant
            count == plain.len(),
            sorted@.len() == plain.len(),
            forall|k: int| 0 <= k < i ==> #[trigger] sorted@[k] == numbered(plain)[k],
            forall|k: int| i <= k < plain.len() ==> #[trigger] sorted@[k] == plain[k],
    {
        sorted[i].index = i;
    }
    assert(sorted@ =~= numbered(plain));
    assert forall|i: int| 0 <= i < plain.len() implies (#[trigger] numbered(plain)[i]).wf() by {
        assert(plain[i].wf());
    }
    sorted
}

/// The conversations newest first, with their positions written into them.
pub open spec fn newest_first_numbered(convs: Seq<Conversation>) -> Seq<Conversation> {
    numbered(rearranged(convs, recency_order(convs)))
}

/// Puts the newest conversation first, and writes their positions into the conversations.
pub fn sort_newest_first(convs: Vec<Conversation>) -> (r: Vec<Conversation>)
    requires
        all_wf(convs@),
    ensures
        r@ == newest_first_numbered(convs@),
        r@.len() == convs@.len(),
        all_wf(r@),
{
    let order: Vec<usize> = newest_first_order(&convs);
    proof {
        lemma_rearranged_wf(convs@, order@);
    }
    number_conversations(rearrange(convs, order.as_slice()))
}

/// Conversations put newest first are the same conversations, each once and with its position
/// written into it; none stands before a newer one, and equally new ones stand as they stood.
pub proof fn law_newest_first_is_the_same_conversations(convs: Seq<Conversation>)
    requires
        all_wf(convs),
        convs.len() <= usize::MAX,
    ensures
        ({
            let sorted = newest_first_numbered(convs);
            let order = recency_order(convs);
            &&& sorted.len() == convs.len()
            &&& order.len() == convs.len()
            &&& order.no_duplicates()
            &&& forall|i: int| 0 <= i < order.len() ==> (#[trigger] order[i]) < convs.len()
            &&& forall|k: usize| k < convs.len() ==> #[trigger] order.contains(k)
            &&& forall|i: int|
                0 <= i < sorted.len() ==> #[trigger] sorted[i] == (Conversation {
                    index: i as usize,
                    ..convs[order[i] as int]
                })
            &&& forall|i: int, j: int|
                0 <= i < j < sorted.len() ==> {
                    ||| (#[trigger] sorted[i]).timestamp.instant() > (
                    #[trigger] sorted[j]).timestamp.instant()
                    ||| sorted[i].timestamp.instant() == sorted[j].timestamp.instant() && order[i]
                        < order[j]
                }
        }),
{
    let keys = recency_keys(convs);
    let order = recency_order(convs);
    crate::order::law_order_exists(keys);
    assert(is_order(keys, order));
    lemma_order_is_distinct(keys, order);
    let sorted = newest_first_numbered(convs);
    assert forall|i: int, j: int| 0 <= i < j < sorted.len() implies {
        ||| (#[trigger] sorted[i]).timestamp.instant() > (
        #[trigger] sorted[j]).timestamp.instant()
        ||| sorted[i].timestamp.instant() == sorted[j].timestamp.instant() && order[i] < order[j]
    } by {
        assert(crate::order::comes_before(keys, order[i], order[j]));
        let a = convs[order[i] as int];
        let b = convs[order[j] as int];
        assert(a.wf());
        assert(b.wf());
        assert(keys[order[i] as int] == -a.timestamp.instant());
        assert(keys[order[j] as int] == -b.timestamp.instant());
    }
}

} // verus!
