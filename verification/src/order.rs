//! Putting things in order by a number of theirs, and taking a page of them.
use vstd::prelude::*;

use crate::totals::total;

verus! {

/// `order` lists the positions of `keys` from the largest key to the smallest, equal keys from
/// the first position to the last.
pub open spec fn descending(keys: Seq<int>, order: Seq<int>) -> bool {
    &&& order.len() == keys.len()
    &&& forall|i: int| 0 <= i < order.len() ==> 0 <= #[trigger] order[i] < keys.len()
    &&& forall|i: int, j: int|
        0 <= i < j < order.len() ==> ahead(keys, #[trigger] order[i], #[trigger] order[j])
}

/// Position `a` comes before position `b`.
pub open spec fn ahead(keys: Seq<int>, a: int, b: int) -> bool {
    keys[a] > keys[b] || (keys[a] == keys[b] && a < b)
}

/// The integers of a list of machine integers.
pub open spec fn ints(list: Seq<i128>) -> Seq<int> {
    Seq::new(list.len(), |i: int| list[i] as int)
}

/// The positions of a list as integers.
pub open spec fn positions(list: Seq<usize>) -> Seq<int> {
    Seq::new(list.len(), |i: int| list[i] as int)
}

/// The positions of keys from the largest key to the smallest.
pub open spec fn descending_order(keys: Seq<int>) -> Seq<int> {
    choose|order: Seq<int>| descending(keys, order)
}

/// The items of a list from the largest key to the smallest.
pub open spec fn arranged<T>(list: Seq<T>, keys: Seq<int>) -> Seq<T> {
    Seq::new(list.len(), |i: int| list[descending_order(keys)[i]])
}

/// Lists the positions of keys from the largest key to the smallest.
pub fn sort_descending(keys: &Vec<i128>) -> (r: Vec<usize>)
    ensures
        descending(ints(keys@), positions(r@)),
        positions(r@) == descending_order(ints(keys@)),
        r@.len() == keys@.len(),
        forall|i: int| 0 <= i < r@.len() ==> #[trigger] r@[i] < keys@.len(),
{
    let mut order: Vec<usize> = Vec::new();
    let mut k: usize = 0;
    while k < keys.len()
        invariant
            k <= keys.len(),
            order@.len() == k,
            forall|i: int| 0 <= i < k ==> #[trigger] order@[i] < k,
            forall|i: int, j: int|
                0 <= i < j < k ==> ahead(ints(keys@), #[trigger] order@[i] as int, #[trigger]
                    order@[j] as int),
        decreases keys.len() - k,
    {
        let key: i128 = keys[k];
        let mut low: usize = 0;
        let mut high: usize = order.len();
        while low < high
            invariant
                k < keys.len(),
                key == keys@[k as int],
                order@.len() == k,
                low <= high <= k,
                forall|i: int| 0 <= i < k ==> #[trigger] order@[i] < k,
                forall|i: int, j: int|
                    0 <= i < j < k ==> ahead(ints(keys@), #[trigger] order@[i] as int, #[trigger]
                        order@[j] as int),
                forall|i: int| 0 <= i < low ==> keys@[#[trigger] order@[i] as int] >= key,
                forall|i: int| high <= i < k ==> keys@[#[trigger] order@[i] as int] < key,
            decreases high - low,
        {
            let middle: usize = low + (high - low) / 2;
            let at: i128 = keys[order[middle]];
            if at >= key {
                proof {
                    assert forall|i: int| 0 <= i <= middle implies keys@[#[trigger] order@[i] as int]
                        >= key by {
                        if i < middle {
                            assert(ahead(
                                ints(keys@),
                                order@[i] as int,
                                order@[middle as int] as int,
                            ));
                        }
                    }
                }
                low = middle + 1;
            } else {
                proof {
                    assert forall|i: int| middle <= i < k implies keys@[#[trigger] order@[i] as int]
                        < key by {
                        if i > middle {
                            assert(ahead(
                                ints(keys@),
                                order@[middle as int] as int,
                                order@[i] as int,
                            ));
                        }
                    }
                }
                high = middle;
            }
        }
        let ghost before = order@;
        order.insert(low, k);
        proof {
            assert forall|i: int, j: int| 0 <= i < j < k + 1 implies ahead(
                ints(keys@),
                #[trigger] order@[i] as int,
                #[trigger] order@[j] as int,
            ) by {
                let a = if i < low {
                    i
                } else {
                    i - 1
                };
                let b = if j < low {
                    j
                } else {
                    j - 1
                };
                if i == low {
                    assert(order@[j] == before[b]);
                } else if j == low {
                    assert(order@[i] == before[a]);
                } else {
                    assert(order@[i] == before[a]);
                    assert(order@[j] == before[b]);
                }
            }
        }
        k = k + 1;
    }
    proof {
        assert forall|i: int, j: int| 0 <= i < j < order@.len() implies ahead(
            ints(keys@),
            #[trigger] positions(order@)[i],
            #[trigger] positions(order@)[j],
        ) by {
            assert(ahead(ints(keys@), order@[i] as int, order@[j] as int));
        }
        assert(descending(ints(keys@), positions(order@)));
        descending_unique(ints(keys@), positions(order@), descending_order(ints(keys@)));
    }
    order
}

/// Puts a list in order, from the largest key to the smallest.
pub fn arrange<T>(list: Vec<T>, keys: &Vec<i128>) -> (r: Vec<T>)
    requires
        list@.len() == keys@.len(),
    ensures
        r@ == arranged(list@, ints(keys@)),
{
    let order = sort_descending(keys);
    let ghost items = list@;
    let mut slots: Vec<Option<T>> = Vec::new();
    for item in it: list
        invariant
            it.seq() == items,
            slots@.len() == it.index(),
            forall|j: int| 0 <= j < slots@.len() ==> #[trigger] slots@[j] == Some(items[j]),
    {
        slots.push(Some(item));
    }
    let mut sorted: Vec<T> = Vec::new();
    let mut k: usize = 0;
    proof {
        assert forall|p: int, q: int| 0 <= p < q < order@.len() implies #[trigger] order@[p]
            != #[trigger] order@[q] by {
            assert(positions(order@)[p] == order@[p]);
            assert(positions(order@)[q] == order@[q]);
            assert(ahead(ints(keys@), positions(order@)[p], positions(order@)[q]));
        }
    }
    while k < order.len()
        invariant
            k <= order@.len(),
            order@.len() == items.len(),
            slots@.len() == items.len(),
            sorted@.len() == k,
            forall|p: int, q: int|
                0 <= p < q < order@.len() ==> #[trigger] order@[p] != #[trigger] order@[q],
            forall|p: int| 0 <= p < order@.len() ==> #[trigger] order@[p] < items.len(),
            forall|p: int|
                k <= p < order@.len() ==> slots@[#[trigger] order@[p] as int] == Some(
                    items[order@[p] as int],
                ),
            forall|p: int| 0 <= p < k ==> #[trigger] sorted@[p] == items[order@[p] as int],
        decreases order@.len() - k,
    {
        let at: usize = order[k];
        let mut taken: Option<T> = None;
        slots.set_and_swap(at, &mut taken);
        if let Some(item) = taken {
            sorted.push(item);
        }
        k = k + 1;
    }
    proof {
        assert forall|i: int| 0 <= i < items.len() implies #[trigger] sorted@[i] == arranged(
            items,
            ints(keys@),
        )[i] by {
            assert(positions(order@)[i] == order@[i]);
        }
        assert(sorted@ =~= arranged(items, ints(keys@)));
    }
    sorted
}

/// There is such an order of any keys.
pub proof fn descending_exists(keys: Seq<int>)
    ensures
        descending(keys, descending_order(keys)),
    decreases keys.len(),
{
    if keys.len() == 0 {
        assert(descending(keys, Seq::empty()));
    } else {
        let front = keys.drop_last();
        descending_exists(front);
        let order = descending_order(front);
        let place = insertion_place(keys, order, order.len() as int);
        insertion_place_fits(keys, order, order.len() as int);
        let longer = order.insert(place, keys.len() - 1);
        assert(descending(keys, longer)) by {
            assert forall|i: int, j: int| 0 <= i < j < longer.len() implies ahead(
                keys,
                #[trigger] longer[i],
                #[trigger] longer[j],
            ) by {
                if i < place && j < place {
                    assert(ahead(front, order[i], order[j]));
                } else if i < place && j > place {
                    assert(ahead(front, order[i], order[j - 1]));
                } else if i > place {
                    assert(ahead(front, order[i - 1], order[j - 1]));
                } else if j == place {
                    assert(keys[order[i]] >= keys.last());
                } else {
                    assert(keys[order[j - 1]] < keys.last());
                }
            }
        }
    }
}

/// The place in an order behind the keys that are at least the last one.
spec fn insertion_place(keys: Seq<int>, order: Seq<int>, n: int) -> int
    decreases n,
{
    if n <= 0 || keys[order[n - 1]] >= keys.last() {
        n
    } else {
        insertion_place(keys, order, n - 1)
    }
}

proof fn insertion_place_fits(keys: Seq<int>, order: Seq<int>, n: int)
    requires
        keys.len() > 0,
        descending(keys.drop_last(), order),
        0 <= n <= order.len(),
        forall|i: int| n <= i < order.len() ==> keys[#[trigger] order[i]] < keys.last(),
    ensures
        ({
            let place = insertion_place(keys, order, n);
            &&& 0 <= place <= n
            &&& forall|i: int| 0 <= i < place ==> keys[#[trigger] order[i]] >= keys.last()
            &&& forall|i: int| place <= i < order.len() ==> keys[#[trigger] order[i]] < keys.last()
        }),
    decreases n,
{
    if n > 0 {
        if keys[order[n - 1]] >= keys.last() {
            assert forall|i: int| 0 <= i < n implies keys[#[trigger] order[i]] >= keys.last() by {
                if i < n - 1 {
                    assert(ahead(keys.drop_last(), order[i], order[n - 1]));
                }
            }
        } else {
            insertion_place_fits(keys, order, n - 1);
        }
    }
}

/// There is only one such order.
pub proof fn descending_unique(keys: Seq<int>, a: Seq<int>, b: Seq<int>)
    requires
        descending(keys, a),
        descending(keys, b),
    ensures
        a == b,
{
    positions_covered(keys, a);
    positions_covered(keys, b);
    assert forall|n: int| 0 <= n < keys.len() implies #[trigger] a[n] == b[n] by {
        orders_agree(keys, a, b, n);
    }
    assert(a =~= b);
}

/// Each position occurs in an order.
pub proof fn positions_covered(keys: Seq<int>, order: Seq<int>)
    requires
        descending(keys, order),
    ensures
        forall|p: int| 0 <= p < keys.len() ==> #[trigger] order.contains(p),
{
    let all = vstd::set_lib::set_int_range(0, keys.len() as int);
    vstd::set_lib::lemma_int_range(0, keys.len() as int);
    assert(order.no_duplicates()) by {
        assert forall|i: int, j: int| 0 <= i < order.len() && 0 <= j < order.len() && i != j implies
            order[i] != order[j] by {
            if i < j {
                assert(ahead(keys, order[i], order[j]));
            } else {
                assert(ahead(keys, order[j], order[i]));
            }
        }
    }
    order.unique_seq_to_set();
    assert(order.to_set().subset_of(all)) by {
        assert forall|p: int| #[trigger] order.to_set().contains(p) implies all.contains(p) by {
            let i = choose|i: int| 0 <= i < order.len() && order[i] == p;
            assert(0 <= order[i] < keys.len());
        }
    }
    vstd::set_lib::lemma_len_subset(order.to_set(), all);
    vstd::set_lib::lemma_subset_equality(order.to_set(), all);
    assert forall|p: int| 0 <= p < keys.len() implies #[trigger] order.contains(p) by {
        assert(all.contains(p));
        assert(order.to_set().contains(p));
    }
}

/// Two orders agree at each place.
proof fn orders_agree(keys: Seq<int>, a: Seq<int>, b: Seq<int>, n: int)
    requires
        descending(keys, a),
        descending(keys, b),
        0 <= n < keys.len(),
        forall|p: int| 0 <= p < keys.len() ==> #[trigger] a.contains(p),
        forall|p: int| 0 <= p < keys.len() ==> #[trigger] b.contains(p),
    ensures
        a[n] == b[n],
    decreases n,
{
    assert forall|m: int| 0 <= m < n implies #[trigger] a[m] == b[m] by {
        orders_agree(keys, a, b, m);
    }
    assert(a.contains(b[n]));
    assert(b.contains(a[n]));
    let i = choose|i: int| 0 <= i < a.len() && a[i] == b[n];
    let j = choose|j: int| 0 <= j < b.len() && b[j] == a[n];
    if i < n {
        assert(a[i] == b[i]);
        assert(ahead(keys, b[i], b[n]));
    } else if i > n {
        assert(ahead(keys, a[n], a[i]));
    }
    if j < n {
        assert(a[j] == b[j]);
        assert(ahead(keys, a[j], a[n]));
    } else if j > n {
        assert(ahead(keys, b[n], b[j]));
    }
}

/// The part of a list that a page shows: so many items after so many.
pub open spec fn page_of<T>(list: Seq<T>, start: int, per_page: int) -> Seq<T> {
    let from = if start < list.len() {
        start
    } else {
        list.len() as int
    };
    let to = if from + per_page < list.len() {
        from + per_page
    } else {
        list.len() as int
    };
    list.subrange(from, to)
}

/// Takes the part of a list that a page shows.
pub fn take_page<T>(list: Vec<T>, start: usize, per_page: usize) -> (r: Vec<T>)
    ensures
        r@ == page_of(list@, start as int, per_page as int),
{
    let mut front = list;
    let from: usize = if start < front.len() {
        start
    } else {
        front.len()
    };
    let mut page: Vec<T> = front.split_off(from);
    if per_page < page.len() {
        let _rest: Vec<T> = page.split_off(per_page);
    }
    proof {
        assert(page@ =~= page_of(list@, start as int, per_page as int));
    }
    page
}

/// Pages in a row show every item once: what the pages before a place show, followed by the page
/// at that place, is what the pages up to the next place show.
pub proof fn pages_follow_on<T>(list: Seq<T>, start: int, per_page: int)
    requires
        0 <= start,
        0 <= per_page,
    ensures
        page_of(list, 0, start) + page_of(list, start, per_page) == page_of(
            list,
            0,
            start + per_page,
        ),
        start + per_page >= list.len() ==> page_of(list, 0, start) + page_of(list, start, per_page)
            == list,
{
    assert(page_of(list, 0, start) + page_of(list, start, per_page) =~= page_of(
        list,
        0,
        start + per_page,
    ));
    if start + per_page >= list.len() {
        assert(page_of(list, 0, start + per_page) =~= list);
    }
}

/// Putting summands in another order leaves their sum as it is.
proof fn permuted_total(values: Seq<int>, order: Seq<int>)
    requires
        order.len() == values.len(),
        order.no_duplicates(),
        forall|i: int| 0 <= i < order.len() ==> 0 <= #[trigger] order[i] < values.len(),
        forall|p: int| 0 <= p < values.len() ==> #[trigger] order.contains(p),
    ensures
        total(Seq::new(order.len(), |i: int| values[order[i]])) == total(values),
    decreases values.len(),
{
    let mixed = Seq::new(order.len(), |i: int| values[order[i]]);
    if values.len() > 0 {
        let last = values.len() - 1;
        assert(order.contains(last));
        let k = choose|k: int| 0 <= k < order.len() && order[k] == last;
        let rest = order.remove(k);
        let front = values.drop_last();
        assert forall|i: int| 0 <= i < rest.len() implies 0 <= #[trigger] rest[i] < front.len() by {
            let j = if i < k {
                i
            } else {
                i + 1
            };
            assert(rest[i] == order[j]);
            assert(order[j] != order[k]);
        }
        assert forall|p: int| 0 <= p < front.len() implies #[trigger] rest.contains(p) by {
            assert(order.contains(p));
            let j = choose|j: int| 0 <= j < order.len() && order[j] == p;
            let i = if j < k {
                j
            } else {
                j - 1
            };
            assert(rest[i] == p);
        }
        assert(rest.no_duplicates()) by {
            assert forall|i: int, j: int|
                0 <= i < rest.len() && 0 <= j < rest.len() && i != j implies rest[i] != rest[j] by {
                let x = if i < k {
                    i
                } else {
                    i + 1
                };
                let y = if j < k {
                    j
                } else {
                    j + 1
                };
                assert(order[x] != order[y]);
            }
        }
        permuted_total(front, rest);
        crate::totals::total_remove(mixed, k);
        assert(mixed.remove(k) =~= Seq::new(rest.len(), |i: int| front[rest[i]]));
    } else {
        assert(mixed =~= values);
    }
}

/// What the items of a list add up to does not depend on the keys by which it is put in order.
pub proof fn arranged_total<T>(list: Seq<T>, keys: Seq<int>, amount: spec_fn(T) -> int)
    requires
        keys.len() == list.len(),
    ensures
        total(Seq::new(arranged(list, keys).len(), |i: int| amount(arranged(list, keys)[i])))
            == total(Seq::new(list.len(), |i: int| amount(list[i]))),
{
    let order = descending_order(keys);
    descending_exists(keys);
    positions_covered(keys, order);
    assert(order.no_duplicates()) by {
        assert forall|i: int, j: int| 0 <= i < order.len() && 0 <= j < order.len() && i != j implies
            order[i] != order[j] by {
            if i < j {
                assert(ahead(keys, order[i], order[j]));
            } else {
                assert(ahead(keys, order[j], order[i]));
            }
        }
    }
    let values = Seq::new(list.len(), |i: int| amount(list[i]));
    permuted_total(values, order);
    assert(Seq::new(order.len(), |i: int| values[order[i]]) =~= Seq::new(
        arranged(list, keys).len(),
        |i: int| amount(arranged(list, keys)[i]),
    ));
}

} // verus!
