//! Stable sorting, as an order of positions.

use vstd::prelude::*;

verus! {

/// Whether position `i` comes before position `j`: by smaller key, and by position where the
/// keys are equal.
pub open spec fn comes_before(keys: Seq<i128>, i: usize, j: usize) -> bool {
    keys[i as int] < keys[j as int] || keys[i as int] == keys[j as int] && i < j
}

pub open spec fn is_sorted_by(keys: Seq<i128>, v: Seq<usize>) -> bool {
    forall|i: int, j: int|
        0 <= i < j < v.len() ==> comes_before(keys, #[trigger] v[i], #[trigger] v[j])
}

/// Whether `v` lists the positions from `lo` up to, not including, `hi`.
pub open spec fn lists_range(v: Seq<usize>, lo: int, hi: int) -> bool {
    &&& v.len() == hi - lo
    &&& forall|i: int| 0 <= i < v.len() ==> lo <= #[trigger] v[i] < hi
    &&& forall|k: usize| lo <= k < hi ==> #[trigger] v.contains(k)
}

/// Whether `v` is the stable order of the positions of `keys`, smallest key first.
pub open spec fn is_order(keys: Seq<i128>, v: Seq<usize>) -> bool {
    is_sorted_by(keys, v) && lists_range(v, 0, keys.len() as int)
}

/// How many of the first `n` positions of a sorted list have a key up to `key`.
spec fn count_up_to(keys: Seq<i128>, v: Seq<usize>, key: i128, n: nat) -> nat
    decreases n,
{
    if n == 0 {
        0
    } else if keys[v[n - 1] as int] <= key {
        n
    } else {
        count_up_to(keys, v, key, (n - 1) as nat)
    }
}

proof fn lemma_count_up_to(keys: Seq<i128>, v: Seq<usize>, key: i128, n: nat)
    requires
        is_sorted_by(keys, v),
        n <= v.len(),
    ensures
        count_up_to(keys, v, key, n) <= n,
        forall|k: int|
            0 <= k < count_up_to(keys, v, key, n) ==> keys[#[trigger] v[k] as int] <= key,
        forall|k: int|
            count_up_to(keys, v, key, n) <= k < n ==> keys[#[trigger] v[k] as int] > key,
    decreases n,
{
    if n > 0 {
        if keys[v[n - 1] as int] <= key {
            assert forall|k: int| 0 <= k < n implies keys[#[trigger] v[k] as int] <= key by {
                if k < n - 1 {
                    assert(comes_before(keys, v[k], v[n - 1]));
                }
            }
        } else {
            lemma_count_up_to(keys, v, key, (n - 1) as nat);
        }
    }
}

proof fn lemma_order_of_first(keys: Seq<i128>, n: nat) -> (v: Seq<usize>)
    requires
        n <= keys.len() <= usize::MAX,
    ensures
        is_sorted_by(keys, v),
        lists_range(v, 0, n as int),
    decreases n,
{
    if n == 0 {
        Seq::empty()
    } else {
        let m = (n - 1) as nat;
        let u = lemma_order_of_first(keys, m);
        let key = keys[m as int];
        lemma_count_up_to(keys, u, key, m);
        let p = count_up_to(keys, u, key, m) as int;
        let v = u.insert(p, m as usize);
        assert forall|i: int, j: int| 0 <= i < j < v.len() implies comes_before(
            keys,
            #[trigger] v[i],
            #[trigger] v[j],
        ) by {
            let a = if i < p {
                i
            } else {
                i - 1
            };
            let b = if j < p {
                j
            } else {
                j - 1
            };
            if i != p {
                assert(v[i] == u[a]);
            }
            if j != p {
                assert(v[j] == u[b]);
            }
            if i != p && j != p {
                assert(comes_before(keys, u[a], u[b]));
            }
        }
        assert forall|k: usize| 0 <= k < n implies #[trigger] v.contains(k) by {
            if k < m {
                assert(u.contains(k));
                let w = choose|w: int| 0 <= w < u.len() && u[w] == k;
                if w < p {
                    assert(v[w] == k);
                } else {
                    assert(v[w + 1] == k);
                }
            } else {
                assert(v[p] == k);
            }
        }
        v
    }
}

/// Every list of keys has a stable order.
pub proof fn law_order_exists(keys: Seq<i128>)
    requires
        keys.len() <= usize::MAX,
    ensures
        exists|v: Seq<usize>| is_order(keys, v),
{
    let v = lemma_order_of_first(keys, keys.len());
    assert(is_order(keys, v));
}

/// There is only one stable order.
pub proof fn law_order_is_unique(keys: Seq<i128>, a: Seq<usize>, b: Seq<usize>)
    requires
        is_order(keys, a),
        is_order(keys, b),
    ensures
        a == b,
{
    assert forall|i: int| 0 <= i < a.len() implies a[i] == b[i] by {
        lemma_same_at(keys, a, b, i);
    }
    assert(a =~= b);
}

proof fn lemma_same_at(keys: Seq<i128>, a: Seq<usize>, b: Seq<usize>, i: int)
    requires
        is_order(keys, a),
        is_order(keys, b),
        0 <= i < a.len(),
    ensures
        a[i] == b[i],
    decreases i,
{
    assert forall|k: int| 0 <= k < i implies a[k] == b[k] by {
        lemma_same_at(keys, a, b, k);
    }
    if a[i] != b[i] {
        assert(b.contains(a[i]));
        let j = choose|j: int| 0 <= j < b.len() && b[j] == a[i];
        if j < i {
            assert(comes_before(keys, a[j], a[i]));
        }
        assert(comes_before(keys, b[i], b[j]));
        assert(a.contains(b[i]));
        let l = choose|l: int| 0 <= l < a.len() && a[l] == b[i];
        if l < i {
            assert(comes_before(keys, b[l], b[i]));
        }
        assert(comes_before(keys, a[i], a[l]));
    }
}

fn merge(
    keys: &[i128],
    a: &[usize],
    b: &[usize],
    Ghost(lo): Ghost<int>,
    Ghost(mid): Ghost<int>,
    Ghost(hi): Ghost<int>,
) -> (r: Vec<usize>)
    requires
        0 <= lo <= mid <= hi <= keys@.len(),
        is_sorted_by(keys@, a@),
        is_sorted_by(keys@, b@),
        lists_range(a@, lo, mid),
        lists_range(b@, mid, hi),
    ensures
        is_sorted_by(keys@, r@),
        lists_range(r@, lo, hi),
{
    let mut out: Vec<usize> = Vec::new();
    let mut i: usize = 0;
    let mut j: usize = 0;
    while i < a.len() || j < b.len()
        invariant
            0 <= lo <= mid <= hi <= keys@.len(),
            is_sorted_by(keys@, a@),
            is_sorted_by(keys@, b@),
            lists_range(a@, lo, mid),
            lists_range(b@, mid, hi),
            i <= a@.len(),
            j <= b@.len(),
            out@.len() == i + j,
            is_sorted_by(keys@, out@),
            forall|k: int| 0 <= k < out@.len() ==> lo <= #[trigger] out@[k] < hi,
            forall|k: int, l: int|
                0 <= k < out@.len() && i <= l < a@.len() ==> comes_before(
                    keys@,
                    #[trigger] out@[k],
                    #[trigger] a@[l],
                ),
            forall|k: int, l: int|
                0 <= k < out@.len() && j <= l < b@.len() ==> comes_before(
                    keys@,
                    #[trigger] out@[k],
                    #[trigger] b@[l],
                ),
            forall|k: int| 0 <= k < i ==> out@.contains(#[trigger] a@[k]),
            forall|k: int| 0 <= k < j ==> out@.contains(#[trigger] b@[k]),
        decreases a@.len() - i + b@.len() - j,
    {
        let take_left: bool = if i >= a.len() {
            false
        } else if j >= b.len() {
            true
        } else {
            keys[a[i]] <= keys[b[j]]
        };
        let ghost before = out@;
        if take_left {
            out.push(a[i]);
            proof {
                lemma_push_contains(before, a@[i as int]);
                if j < b@.len() {
                    assert(comes_before(keys@, a@[i as int], b@[j as int]));
                    assert forall|l: int| j <= l < b@.len() implies comes_before(
                        keys@,
                        a@[i as int],
                        #[trigger] b@[l],
                    ) by {
                        if l > j {
                            assert(comes_before(keys@, b@[j as int], b@[l]));
                        }
                    }
                }
            }
            i = i + 1;
        } else {
            out.push(b[j]);
            proof {
                lemma_push_contains(before, b@[j as int]);
                if i < a@.len() {
                    assert(comes_before(keys@, b@[j as int], a@[i as int]));
                    assert forall|l: int| i <= l < a@.len() implies comes_before(
                        keys@,
                        b@[j as int],
                        #[trigger] a@[l],
                    ) by {
                        if l > i {
                            assert(comes_before(keys@, a@[i as int], a@[l]));
                        }
                    }
                }
            }
            j = j + 1;
        }
    }
    proof {
        assert forall|k: usize| lo <= k < hi implies #[trigger] out@.contains(k) by {
            if k < mid {
                assert(a@.contains(k));
                let l = choose|l: int| 0 <= l < a@.len() && a@[l] == k;
                assert(out@.contains(a@[l]));
            } else {
                assert(b@.contains(k));
                let l = choose|l: int| 0 <= l < b@.len() && b@[l] == k;
                assert(out@.contains(b@[l]));
            }
        }
    }
    out
}

proof fn lemma_push_contains(s: Seq<usize>, x: usize)
    ensures
        s.push(x).contains(x),
        forall|y: usize| #[trigger] s.contains(y) ==> s.push(x).contains(y),
{
    assert(s.push(x)[s.len() as int] == x);
    assert forall|y: usize| #[trigger] s.contains(y) implies s.push(x).contains(y) by {
        let k = choose|k: int| 0 <= k < s.len() && s[k] == y;
        assert(s.push(x)[k] == y);
    }
}

fn sort_range(keys: &[i128], lo: usize, hi: usize) -> (r: Vec<usize>)
    requires
        lo <= hi <= keys@.len(),
    ensures
        is_sorted_by(keys@, r@),
        lists_range(r@, lo as int, hi as int),
    decreases hi - lo,
{
    let mut out: Vec<usize> = Vec::new();
    if lo == hi {
        return out;
    }
    if hi - lo == 1 {
        out.push(lo);
        assert(out@[0] == lo);
        assert forall|k: usize| lo <= k < hi implies #[trigger] out@.contains(k) by {
            assert(out@[0] == k);
        }
        return out;
    }
    let mid: usize = lo + (hi - lo) / 2;
    let a: Vec<usize> = sort_range(keys, lo, mid);
    let b: Vec<usize> = sort_range(keys, mid, hi);
    merge(keys, a.as_slice(), b.as_slice(), Ghost(lo as int), Ghost(mid as int), Ghost(hi as int))
}

/// The positions of `keys` in stable order, smallest key first.
pub fn order_by_key(keys: &[i128]) -> (r: Vec<usize>)
    ensures
        is_order(keys@, r@),
{
    sort_range(keys, 0, keys.len())
}

/// `v` taken in the order that `order` gives.
pub open spec fn rearranged<T>(v: Seq<T>, order: Seq<usize>) -> Seq<T> {
    order.map_values(|i: usize| v[i as int])
}

/// `v` taken in the order that `order` gives.
pub fn rearrange<T>(v: Vec<T>, order: &[usize]) -> (r: Vec<T>)
    requires
        order@.no_duplicates(),
        forall|i: int| 0 <= i < order@.len() ==> #[trigger] order@[i] < v@.len(),
    ensures
        r@ == rearranged(v@, order@),
{
    let ghost all = v@;
    let mut slots: Vec<Option<T>> = Vec::new();
    for x in it: v
        invariant
            it.seq() == all,
            slots@.len() == it.index(),
            forall|k: int| 0 <= k < slots@.len() ==> #[trigger] slots@[k] == Some(all[k]),
    {
        slots.push(Some(x));
    }
    let mut out: Vec<T> = Vec::new();
    for n in 0..order.len()
        invariant
            order@.no_duplicates(),
            slots@.len() == all.len(),
            forall|i: int| 0 <= i < order@.len() ==> #[trigger] order@[i] < all.len(),
            forall|i: int| n <= i < order@.len() ==> slots@[#[trigger] order@[i] as int] == Some(
                all[order@[i] as int],
            ),
            out@ == rearranged(all, order@.take(n as int)),
    {
        let i: usize = order[n];
        let taken: Option<T> = slots[i].take();
        match taken {
            Some(x) => {
                out.push(x);
            },
            None => {
                assert(false);
            },
        }
        proof {
            assert(out@ =~= rearranged(all, order@.take(n + 1)));
            assert forall|k: int| n + 1 <= k < order@.len() implies slots@[#[trigger] order@[k] as int]
                == Some(all[order@[k] as int]) by {
                assert(order@[k] != order@[n as int]);
            }
        }
    }
    assert(order@.take(order@.len() as int) =~= order@);
    out
}

/// An order lists no position twice.
pub proof fn lemma_order_is_distinct(keys: Seq<i128>, order: Seq<usize>)
    requires
        is_sorted_by(keys, order),
    ensures
        order.no_duplicates(),
{
    assert forall|i: int, j: int| 0 <= i < order.len() && 0 <= j < order.len() && i != j implies order[i]
        != order[j] by {
        if i < j {
            assert(comes_before(keys, order[i], order[j]));
        } else {
            assert(comes_before(keys, order[j], order[i]));
        }
    }
}

} // verus!
