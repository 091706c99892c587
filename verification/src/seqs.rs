//! Selecting from sequences.
use vstd::prelude::*;

verus! {

/// What `f` makes of the elements, in order, without those of which it makes nothing.
pub open spec fn filter_map<A, B>(s: Seq<A>, f: spec_fn(A) -> Option<B>) -> Seq<B>
    decreases s.len(),
{
    if s.len() == 0 {
        Seq::empty()
    } else {
        let before = filter_map(s.drop_last(), f);
        match f(s.last()) {
            Some(b) => before.push(b),
            None => before,
        }
    }
}

/// One element more at the end.
pub proof fn lemma_filter_map_step<A, B>(s: Seq<A>, i: int, f: spec_fn(A) -> Option<B>)
    requires
        0 <= i < s.len(),
    ensures
        filter_map(s.take(i + 1), f) == (match f(s[i]) {
            Some(b) => filter_map(s.take(i), f).push(b),
            None => filter_map(s.take(i), f),
        }),
{
    assert(s.take(i + 1).drop_last() == s.take(i));
}

/// The positions, in order, at which `f` holds.
pub open spec fn positions<A>(s: Seq<A>, f: spec_fn(A) -> bool) -> Seq<int>
    decreases s.len(),
{
    if s.len() == 0 {
        Seq::empty()
    } else if f(s.last()) {
        positions(s.drop_last(), f).push(s.len() - 1)
    } else {
        positions(s.drop_last(), f)
    }
}

/// One element more at the end.
pub proof fn lemma_positions_step<A>(s: Seq<A>, i: int, f: spec_fn(A) -> bool)
    requires
        0 <= i < s.len(),
    ensures
        positions(s.take(i + 1), f) == (if f(s[i]) {
            positions(s.take(i), f).push(i)
        } else {
            positions(s.take(i), f)
        }),
{
    assert(s.take(i + 1).drop_last() == s.take(i));
}

/// Whole numbers of the machine as mathematical ones.
pub open spec fn ints(v: Seq<usize>) -> Seq<int> {
    v.map_values(|n: usize| n as int)
}

/// The last `n` elements, or all where there are fewer.
pub open spec fn last_n<A>(s: Seq<A>, n: nat) -> Seq<A> {
    if s.len() <= n {
        s
    } else {
        s.skip(s.len() - n)
    }
}

/// What is filtered out of a sequence are the elements that are kept, and no others.
pub proof fn lemma_filter_members<A>(s: Seq<A>, keep: spec_fn(A) -> bool, x: A)
    ensures
        s.filter(keep).contains(x) <==> s.contains(x) && keep(x),
    decreases s.len(),
{
    reveal(Seq::filter);
    if s.len() > 0 {
        let init = s.drop_last();
        let rest = init.filter(keep);
        lemma_filter_members(init, keep, x);
        assert(s == init.push(s.last()));
        if s.contains(x) && x != s.last() {
            let i = choose|i: int| 0 <= i < s.len() && s[i] == x;
            assert(init[i] == x);
        }
        if init.contains(x) {
            let i = choose|i: int| 0 <= i < init.len() && init[i] == x;
            assert(s[i] == x);
        }
        if keep(s.last()) {
            let all = rest.push(s.last());
            assert(s.filter(keep) == all);
            assert(all[rest.len() as int] == s.last());
            if rest.contains(x) {
                let i = choose|i: int| 0 <= i < rest.len() && rest[i] == x;
                assert(all[i] == x);
            }
            if all.contains(x) && x != s.last() {
                let i = choose|i: int| 0 <= i < all.len() && all[i] == x;
                assert(rest[i] == x);
            }
        }
        assert(s[s.len() - 1] == s.last());
    }
}

/// Where a number stands first in a sequence.
pub open spec fn place_of(s: Seq<int>, x: int) -> Option<int>
    decreases s.len(),
{
    if s.len() == 0 {
        None
    } else {
        match place_of(s.drop_last(), x) {
            Some(i) => Some(i),
            None => if s.last() == x {
                Some(s.len() - 1)
            } else {
                None
            },
        }
    }
}

/// Where a number stands first in a list.
pub fn find_place(v: &Vec<usize>, x: usize) -> (r: Option<usize>)
    ensures
        match r {
            Some(i) => i < v@.len() && place_of(ints(v@), x as int) == Some(i as int),
            None => place_of(ints(v@), x as int) is None,
        },
{
    let ghost all = ints(v@);
    let mut i: usize = 0;
    assert(all.take(0) == Seq::<int>::empty());
    while i < v.len()
        invariant
            i <= v@.len(),
            all == ints(v@),
            place_of(all.take(i as int), x as int) is None,
        decreases v@.len() - i,
    {
        assert(all.take(i + 1).drop_last() == all.take(i as int));
        if v[i] == x {
            proof {
                lemma_place_stays(all, i + 1, x as int);
            }
            return Some(i);
        }
        i += 1;
    }
    assert(all.take(i as int) == all);
    None
}

proof fn lemma_place_stays(s: Seq<int>, n: int, x: int)
    requires
        0 <= n <= s.len(),
        place_of(s.take(n), x) is Some,
    ensures
        place_of(s, x) == place_of(s.take(n), x),
    decreases s.len() - n,
{
    if n < s.len() {
        assert(s.take(n + 1).drop_last() == s.take(n));
        lemma_place_stays(s, n + 1, x);
    } else {
        assert(s.take(n) == s);
    }
}

/// The positions at which something holds lie within the sequence, and in ascending order.
pub proof fn lemma_positions_bounds<A>(s: Seq<A>, f: spec_fn(A) -> bool)
    ensures
        forall|i: int|
            #![trigger positions(s, f)[i]]
            0 <= i < positions(s, f).len() ==> 0 <= positions(s, f)[i] < s.len() && f(
                s[positions(s, f)[i]],
            ),
        forall|i: int, j: int|
            0 <= i < j < positions(s, f).len() ==> positions(s, f)[i] < positions(s, f)[j],
        positions(s, f).len() <= s.len(),
    decreases s.len(),
{
    if s.len() > 0 {
        let init = s.drop_last();
        lemma_positions_bounds(init, f);
        let p = positions(init, f);
        assert forall|i: int| 0 <= i < p.len() implies 0 <= p[i] < init.len() && f(s[p[i]]) by {
            assert(s[p[i]] == init[p[i]]);
        }
    }
}

/// The positions are all those at which something holds.
pub proof fn lemma_positions_hold<A>(s: Seq<A>, f: spec_fn(A) -> bool, k: int)
    requires
        0 <= k < s.len(),
    ensures
        positions(s, f).contains(k) <==> f(s[k]),
    decreases s.len(),
{
    let init = s.drop_last();
    let p = positions(init, f);
    lemma_positions_bounds(init, f);
    if k < s.len() - 1 {
        lemma_positions_hold(init, f, k);
        assert(init[k] == s[k]);
        if p.contains(k) {
            let i = choose|i: int| 0 <= i < p.len() && p[i] == k;
            assert(positions(s, f)[i] == k);
        }
        if positions(s, f).contains(k) {
            let i = choose|i: int| 0 <= i < positions(s, f).len() && positions(s, f)[i] == k;
            assert(p[i] == k);
        }
    } else if f(s.last()) {
        assert(positions(s, f)[p.len() as int] == k);
    } else if p.contains(k) {
        let i = choose|i: int| 0 <= i < p.len() && p[i] == k;
        assert(p[i] < init.len());
    }
}

/// Of a sequence that is scrolled by so many elements from its end, the last `height` that show.
pub open spec fn window<A>(s: Seq<A>, scroll: int, height: int) -> Seq<A> {
    let end = if s.len() >= scroll {
        s.len() - scroll
    } else {
        0
    };
    let start = if end >= height {
        end - height
    } else {
        0
    };
    s.subrange(start, end)
}

/// Where the part of a list begins and ends that shows when it is scrolled from its end.
pub fn window_bounds(len: usize, scroll: usize, height: usize) -> (r: (usize, usize))
    ensures
        r.0 <= r.1 <= len,
        r.1 == (if len >= scroll {
            len - scroll
        } else {
            0
        }),
        r.0 == (if r.1 >= height {
            r.1 - height
        } else {
            0
        }),
{
    let end: usize = len.saturating_sub(scroll);
    (end.saturating_sub(height), end)
}

// ── Ranking ──

/// Numbers of the machine as mathematical ones.
pub open spec fn values(v: Seq<u64>) -> Seq<int> {
    v.map_values(|n: u64| n as int)
}

/// How many of the first positions hold a key that is no less than `key`.
pub open spec fn rank_before(order: Seq<int>, keys: Seq<int>, key: int) -> int
    decreases order.len(),
{
    if order.len() == 0 || keys[order[0]] < key {
        0
    } else {
        1 + rank_before(order.drop_first(), keys, key)
    }
}

/// The positions of some keys, from the greatest key to the least; equal keys keep their order.
pub open spec fn ranked(keys: Seq<int>) -> Seq<int>
    decreases keys.len(),
{
    if keys.len() == 0 {
        Seq::empty()
    } else {
        let order = ranked(keys.drop_last());
        order.insert(rank_before(order, keys, keys.last()), keys.len() - 1)
    }
}

proof fn lemma_rank_before_bounds(order: Seq<int>, keys: Seq<int>, key: int)
    ensures
        0 <= rank_before(order, keys, key) <= order.len(),
        forall|k: int| 0 <= k < rank_before(order, keys, key) ==> keys[#[trigger] order[k]] >= key,
        rank_before(order, keys, key) < order.len() ==> keys[order[rank_before(order, keys, key)]]
            < key,
    decreases order.len(),
{
    if order.len() > 0 && keys[order[0]] >= key {
        let rest = order.drop_first();
        lemma_rank_before_bounds(rest, keys, key);
        let n = rank_before(order, keys, key);
        assert forall|k: int| 0 <= k < n implies keys[#[trigger] order[k]] >= key by {
            if k > 0 {
                assert(rest[k - 1] == order[k]);
            }
        }
        if n < order.len() {
            assert(rest[n - 1] == order[n]);
        }
    }
}

proof fn lemma_rank_before(order: Seq<int>, keys: Seq<int>, key: int, n: int)
    requires
        0 <= n <= order.len(),
        forall|k: int| 0 <= k < n ==> keys[#[trigger] order[k]] >= key,
        n < order.len() ==> keys[order[n]] < key,
    ensures
        rank_before(order, keys, key) == n,
    decreases order.len(),
{
    if n > 0 {
        let rest = order.drop_first();
        assert forall|k: int| 0 <= k < n - 1 implies keys[#[trigger] rest[k]] >= key by {
            assert(rest[k] == order[k + 1]);
        }
        assert(keys[order[0]] >= key);
        lemma_rank_before(rest, keys, key, n - 1);
    }
}

proof fn lemma_rank_same_keys(order: Seq<int>, keys: Seq<int>, more: Seq<int>, key: int)
    requires
        keys.len() <= more.len(),
        forall|i: int| 0 <= i < keys.len() ==> keys[i] == more[i],
        forall|k: int| 0 <= k < order.len() ==> 0 <= #[trigger] order[k] < keys.len(),
    ensures
        rank_before(order, keys, key) == rank_before(order, more, key),
    decreases order.len(),
{
    if order.len() > 0 {
        let rest = order.drop_first();
        assert forall|k: int| 0 <= k < rest.len() implies 0 <= #[trigger] rest[k] < keys.len() by {
            assert(rest[k] == order[k + 1]);
        }
        assert(0 <= order[0] < keys.len());
        lemma_rank_same_keys(rest, keys, more, key);
    }
}

/// A ranking names every position once, puts greater keys first, and keeps the order of equal ones.
pub proof fn law_ranking(keys: Seq<int>)
    ensures
        ranked(keys).len() == keys.len(),
        forall|k: int| 0 <= k < keys.len() ==> 0 <= #[trigger] ranked(keys)[k] < keys.len(),
        forall|i: int| 0 <= i < keys.len() ==> #[trigger] ranked(keys).contains(i),
        forall|a: int, b: int|
            0 <= a < b < keys.len() ==> keys[#[trigger] ranked(keys)[a]] > keys[#[trigger] ranked(
                keys,
            )[b]] || (keys[ranked(keys)[a]] == keys[ranked(keys)[b]] && ranked(keys)[a]
                < ranked(keys)[b]),
    decreases keys.len(),
{
    if keys.len() > 0 {
        let init = keys.drop_last();
        law_ranking(init);
        let order = ranked(init);
        let key = keys.last();
        let last = keys.len() - 1;
        lemma_rank_before_bounds(order, keys, key);
        let p = rank_before(order, keys, key);
        let all = order.insert(p, last);
        assert(all == ranked(keys));
        assert forall|k: int| 0 <= k < all.len() implies 0 <= #[trigger] all[k] < keys.len() by {
            if k < p {
                assert(all[k] == order[k]);
            } else if k > p {
                assert(all[k] == order[k - 1]);
            }
        }
        assert forall|i: int| 0 <= i < keys.len() implies #[trigger] all.contains(i) by {
            if i == last {
                assert(all[p] == i);
            } else {
                assert(order.contains(i));
                let k = choose|k: int| 0 <= k < order.len() && order[k] == i;
                if k < p {
                    assert(all[k] == i);
                } else {
                    assert(all[k + 1] == i);
                }
            }
        }
        assert forall|a: int, b: int| 0 <= a < b < keys.len() implies keys[#[trigger] all[a]]
            > keys[#[trigger] all[b]] || (keys[all[a]] == keys[all[b]] && all[a] < all[b]) by {
            let x = if a < p {
                a
            } else {
                a - 1
            };
            let y = if b < p {
                b
            } else {
                b - 1
            };
            if a != p && b != p {
                assert(all[a] == order[x] && all[b] == order[y]);
                assert(init[order[x]] == keys[order[x]] && init[order[y]] == keys[order[y]]);
            } else if a == p {
                // everything behind the place of the new key is less
                assert(all[b] == order[y]);
                assert(init[order[y]] == keys[order[y]]);
                assert(init[order[p]] == keys[order[p]]);
                if y > p {
                    assert(init[order[p]] >= init[order[y]]);
                }
            } else {
                assert(all[a] == order[a]);
                assert(keys[order[a]] >= key);
            }
        }
    }
}

/// The positions of some keys, from the greatest key to the least; equal keys keep their order.
pub fn rank(keys: &Vec<u64>) -> (order: Vec<usize>)
    ensures
        ints(order@) == ranked(values(keys@)),
        order@.len() == keys@.len(),
        forall|k: int| 0 <= k < order@.len() ==> #[trigger] ints(order@)[k] < keys@.len(),
{
    let ghost all = values(keys@);
    let mut order: Vec<usize> = Vec::new();
    let mut i: usize = 0;
    assert(all.take(0) == Seq::<int>::empty());
    assert(ints(order@) =~= Seq::<int>::empty());
    while i < keys.len()
        invariant
            i <= keys@.len(),
            all == values(keys@),
            ints(order@) == ranked(all.take(i as int)),
            order@.len() == i,
        decreases keys@.len() - i,
    {
        let ghost before = order@;
        proof {
            law_ranking(all.take(i as int));
            assert(all.take(i + 1).drop_last() == all.take(i as int));
            assert forall|k: int| 0 <= k < i implies (#[trigger] before[k]) < i by {
                assert(ints(before)[k] == before[k] as int);
            }
        }
        let key: u64 = keys[i];
        let mut at: usize = 0;
        while at < order.len() && keys[order[at]] >= key
            invariant
                at <= order@.len(),
                order@ == before,
                order@.len() == i < keys@.len(),
                all == values(keys@),
                ints(before) == ranked(all.take(i as int)),
                forall|k: int| 0 <= k < i ==> 0 <= #[trigger] ints(before)[k] < i,
                forall|k: int| 0 <= k < i ==> (#[trigger] before[k]) < i,
                forall|k: int| 0 <= k < at ==> all[#[trigger] ints(before)[k]] >= key,
            decreases order@.len() - at,
        {
            assert(ints(before)[at as int] == before[at as int] as int);
            at += 1;
        }
        proof {
            assert(at < i ==> ints(before)[at as int] == before[at as int] as int);
            lemma_rank_before(ints(before), all, key as int, at as int);
            let grown = all.take(i + 1);
            lemma_rank_same_keys(ints(before), all.take(i + 1), all, key as int);
            assert(grown.last() == key);
        }
        order.insert(at, i);
        assert(ints(order@) =~= ints(before).insert(at as int, i as int));
        i += 1;
    }
    proof {
        assert(all.take(i as int) == all);
        law_ranking(all);
    }
    order
}

// ── Laws ──

/// What is made of two sequences one after the other is what is made of the first, and what is
/// made of the second after it. Of a single element it is what `f` makes of it, or nothing.
pub proof fn law_filter_map_goes_part_by_part<A, B>(
    a: Seq<A>,
    b: Seq<A>,
    x: A,
    f: spec_fn(A) -> Option<B>,
)
    ensures
        filter_map(a + b, f) == filter_map(a, f) + filter_map(b, f),
        f(x) matches Some(y) ==> filter_map(seq![x], f) == seq![y],
        f(x) is None ==> filter_map(seq![x], f) == Seq::<B>::empty(),
    decreases b.len(),
{
    if b.len() == 0 {
        assert(a + b == a);
        assert(filter_map(b, f) == Seq::<B>::empty());
    } else {
        law_filter_map_goes_part_by_part(a, b.drop_last(), x, f);
        assert((a + b).drop_last() == a + b.drop_last());
        match f(b.last()) {
            Some(y) => {
                assert(filter_map(a, f) + filter_map(b.drop_last(), f).push(y) == (filter_map(a, f)
                    + filter_map(b.drop_last(), f)).push(y));
            },
            None => {},
        }
    }
    assert(seq![x].drop_last() == Seq::<A>::empty());
    assert(filter_map(Seq::<A>::empty(), f) == Seq::<B>::empty());
}

/// Nothing that `f` makes of an element is left out, and nothing else is there.
pub proof fn law_filter_map_has_what_is_made<A, B>(s: Seq<A>, f: spec_fn(A) -> Option<B>, i: int)
    requires
        0 <= i < s.len(),
    ensures
        f(s[i]) matches Some(y) ==> filter_map(s, f).contains(y),
        filter_map(s, f).len() <= s.len(),
        (filter_map(s, f).len() == s.len() <==> forall|k: int|
            0 <= k < s.len() ==> f(#[trigger] s[k]) is Some),
        (filter_map(s, f).len() == 0 <==> forall|k: int|
            0 <= k < s.len() ==> f(#[trigger] s[k]) is None),
    decreases s.len(),
{
    let init = s.drop_last();
    let before = filter_map(init, f);
    let all = filter_map(s, f);
    assert forall|k: int| 0 <= k < init.len() implies init[k] == s[k] by {}
    if init.len() > 0 {
        law_filter_map_has_what_is_made(
            init,
            f,
            if i < init.len() {
                i
            } else {
                0
            },
        );
    }
    match f(s.last()) {
        Some(y) => {
            assert(all == before.push(y));
            assert(all[before.len() as int] == y);
            if i < init.len() {
                if let Some(z) = f(s[i]) {
                    let k = choose|k: int| 0 <= k < before.len() && before[k] == z;
                    assert(all[k] == z);
                }
            }
            if all.len() == s.len() {
                assert forall|k: int| 0 <= k < s.len() implies f(#[trigger] s[k]) is Some by {
                    if k < init.len() {
                        assert(f(init[k]) is Some);
                    }
                }
            }
            if forall|k: int| 0 <= k < s.len() ==> f(#[trigger] s[k]) is Some {
                assert forall|k: int| 0 <= k < init.len() implies f(#[trigger] init[k]) is Some by {
                    assert(f(s[k]) is Some);
                }
            }
            assert(f(s[s.len() - 1]) is Some);
        },
        None => {
            assert(f(s[s.len() - 1]) is None);
            if all.len() == 0 {
                assert forall|k: int| 0 <= k < s.len() implies f(#[trigger] s[k]) is None by {
                    if k < init.len() {
                        assert(f(init[k]) is None);
                    }
                }
            }
            if forall|k: int| 0 <= k < s.len() ==> f(#[trigger] s[k]) is None {
                assert forall|k: int| 0 <= k < init.len() implies f(#[trigger] init[k]) is None by {
                    assert(f(s[k]) is None);
                }
            }
        },
    }
}

/// Where `f` makes something of every element, the results stand where the elements stood.
pub proof fn law_filter_map_keeps_the_places<A, B>(s: Seq<A>, f: spec_fn(A) -> Option<B>, i: int)
    requires
        0 <= i < s.len(),
        forall|k: int| 0 <= k < s.len() ==> f(#[trigger] s[k]) is Some,
    ensures
        filter_map(s, f).len() == s.len(),
        f(s[i]) == Some(filter_map(s, f)[i]),
    decreases s.len(),
{
    let init = s.drop_last();
    assert(s.last() == s[s.len() - 1]);
    assert(f(s.last()) is Some);
    assert forall|k: int| 0 <= k < init.len() implies f(#[trigger] init[k]) is Some by {
        assert(f(s[k]) is Some);
    }
    if i < init.len() {
        law_filter_map_keeps_the_places(init, f, i);
        assert(init[i] == s[i]);
    } else if init.len() > 0 {
        law_filter_map_keeps_the_places(init, f, 0);
    } else {
        assert(filter_map(init, f).len() == 0);
    }
    assert(filter_map(s, f) == filter_map(init, f).push(f(s.last())->0));
}

/// A window ends as many elements before the end as it is scrolled, and shows the elements before
/// that in their order: as many as it is high, or all there are.
pub proof fn law_window<A>(s: Seq<A>, scroll: int, height: int, i: int)
    requires
        0 <= scroll,
        0 <= height,
    ensures
        window(s, scroll, height).len() <= height,
        scroll + height <= s.len() ==> window(s, scroll, height).len() == height,
        scroll <= s.len() <= scroll + height ==> window(s, scroll, height).len() == s.len()
            - scroll,
        s.len() <= scroll ==> window(s, scroll, height).len() == 0,
        0 <= i < window(s, scroll, height).len() ==> window(s, scroll, height)[window(
            s,
            scroll,
            height,
        ).len() - 1 - i] == s[s.len() - scroll - 1 - i],
{
}

/// The last elements are the end of the sequence: as many as are asked for, or all.
pub proof fn law_last_n<A>(s: Seq<A>, n: nat, i: int)
    ensures
        last_n(s, n).len() == (if s.len() < n {
            s.len()
        } else {
            n
        }),
        0 <= i < last_n(s, n).len() ==> last_n(s, n)[last_n(s, n).len() - 1 - i] == s[s.len() - 1
            - i],
{
}

}
