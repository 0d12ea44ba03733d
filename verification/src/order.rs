//! Stable orderings, given as the positions of the items in their new order.

use crate::text::{lemma_lex_total, lex_le, str_le};
use vstd::prelude::*;

verus! {

/// The order with `x` put behind the last position that `le` allows it to follow.
pub open spec fn insert_position(
    order: Seq<int>,
    le: spec_fn(int, int) -> bool,
    x: int,
) -> Seq<int>
    decreases order.len(),
{
    if order.len() == 0 {
        seq![x]
    } else if le(order.last(), x) {
        order.push(x)
    } else {
        insert_position(order.drop_last(), le, x).push(order.last())
    }
}

/// The positions `0..n` in ascending order under `le`; equal ones keep their
/// places relative to each other.
pub open spec fn sorted_positions(n: nat, le: spec_fn(int, int) -> bool) -> Seq<int>
    decreases n,
{
    if n == 0 {
        Seq::empty()
    } else {
        insert_position(sorted_positions((n - 1) as nat, le), le, n - 1)
    }
}

/// The items of `s` in the given order.
pub open spec fn arranged<T>(s: Seq<T>, order: Seq<int>) -> Seq<T> {
    order.map_values(|i: int| s[i])
}

/// `le` compares any two positions below `n`, and does so consistently.
pub open spec fn is_preorder(n: nat, le: spec_fn(int, int) -> bool) -> bool {
    &&& forall|a: int, b: int| 0 <= a < n && 0 <= b < n ==> #[trigger] le(a, b) || le(b, a)
    &&& forall|a: int, b: int, c: int|
        0 <= a < n && 0 <= b < n && 0 <= c < n && #[trigger] le(a, b) && #[trigger] le(b, c)
            ==> le(a, c)
}

/// `a` comes strictly before `b`: it is smaller, or equal and earlier in the list.
pub open spec fn comes_before(le: spec_fn(int, int) -> bool, a: int, b: int) -> bool {
    le(a, b) && (le(b, a) ==> a < b)
}

/// What it means to be the stable ascending order of `0..n`.
pub open spec fn is_stable_order(
    order: Seq<int>,
    n: nat,
    le: spec_fn(int, int) -> bool,
) -> bool {
    &&& order.len() == n
    &&& forall|i: int| 0 <= i < n ==> 0 <= #[trigger] order[i] < n
    &&& forall|x: int| 0 <= x < n ==> #[trigger] order.contains(x)
    &&& forall|i: int, j: int|
        0 <= i < j < n ==> comes_before(le, #[trigger] order[i], #[trigger] order[j])
}

proof fn lemma_insert_splits(order: Seq<int>, le: spec_fn(int, int) -> bool, x: int, at: int)
    requires
        0 <= at <= order.len(),
        at > 0 ==> le(order[at - 1], x),
        forall|j: int| at <= j < order.len() ==> !le(#[trigger] order[j], x),
    ensures
        insert_position(order, le, x) == order.insert(at, x),
    decreases order.len(),
{
    if order.len() == 0 {
        assert(order.insert(at, x) =~= seq![x]);
    } else if at == order.len() {
        assert(order.insert(at, x) =~= order.push(x));
    } else {
        let front = order.drop_last();
        assert(!le(order[order.len() - 1], x));
        assert forall|j: int| at <= j < front.len() implies !le(#[trigger] front[j], x) by {
            assert(front[j] == order[j]);
        }
        lemma_insert_splits(front, le, x, at);
        assert(order.insert(at, x) =~= front.insert(at, x).push(order.last()));
    }
}

proof fn lemma_insert_keeps_stable(
    order: Seq<int>,
    n: nat,
    le: spec_fn(int, int) -> bool,
    at: int,
)
    requires
        is_preorder(n + 1, le),
        is_stable_order(order, n, le),
        0 <= at <= n,
        at > 0 ==> le(order[at - 1], n as int),
        forall|j: int| at <= j < order.len() ==> !le(#[trigger] order[j], n as int),
    ensures
        is_stable_order(order.insert(at, n as int), n + 1, le),
{
    let x = n as int;
    let next = order.insert(at, x);
    assert forall|i: int| 0 <= i < n + 1 implies 0 <= #[trigger] next[i] < n + 1 by {
        if i < at {
            assert(next[i] == order[i]);
        } else if i > at {
            assert(next[i] == order[i - 1]);
        }
    }
    assert forall|y: int| 0 <= y < n + 1 implies #[trigger] next.contains(y) by {
        if y == x {
            assert(next[at] == x);
        } else {
            assert(order.contains(y));
            let k = choose|k: int| 0 <= k < order.len() && order[k] == y;
            if k < at {
                assert(next[k] == y);
            } else {
                assert(next[k + 1] == y);
            }
        }
    }
    assert forall|i: int, j: int| 0 <= i < j < n + 1 implies comes_before(
        le,
        #[trigger] next[i],
        #[trigger] next[j],
    ) by {
        if j < at {
            assert(next[i] == order[i] && next[j] == order[j]);
        } else if j == at {
            assert(next[i] == order[i]);
            assert(le(order[at - 1], x));
            if i < at - 1 {
                assert(comes_before(le, order[i], order[at - 1]));
                assert(le(order[i], order[at - 1]));
            }
            assert(le(order[i], x));
            assert(0 <= order[i] < n);
        } else {
            assert(next[j] == order[j - 1]);
            if i < at {
                assert(next[i] == order[i]);
            } else if i == at {
                assert(!le(order[j - 1], x));
                assert(0 <= order[j - 1] < n);
                assert(le(x, order[j - 1]));
            } else {
                assert(next[i] == order[i - 1]);
            }
        }
    }
}

/// There is a place at which insertion puts the new position.
proof fn lemma_insert_place(order: Seq<int>, le: spec_fn(int, int) -> bool, x: int) -> (at: int)
    ensures
        0 <= at <= order.len(),
        at > 0 ==> le(order[at - 1], x),
        forall|j: int| at <= j < order.len() ==> !le(#[trigger] order[j], x),
    decreases order.len(),
{
    if order.len() == 0 {
        0
    } else if le(order.last(), x) {
        order.len() as int
    } else {
        let at = lemma_insert_place(order.drop_last(), le, x);
        assert forall|j: int| at <= j < order.len() implies !le(#[trigger] order[j], x) by {
            if j < order.len() - 1 {
                assert(order.drop_last()[j] == order[j]);
            }
        }
        at
    }
}

/// Where `le` is a consistent comparison, the sorted positions are a permutation
/// of all positions, ascending, and equal items keep the order they had.
pub proof fn law_sorted_positions_stable(n: nat, le: spec_fn(int, int) -> bool)
    requires
        is_preorder(n, le),
    ensures
        is_stable_order(sorted_positions(n, le), n, le),
    decreases n,
{
    if n > 0 {
        let m = (n - 1) as nat;
        law_sorted_positions_stable(m, le);
        let order = sorted_positions(m, le);
        let at = lemma_insert_place(order, le, m as int);
        lemma_insert_splits(order, le, m as int, at);
        lemma_insert_keeps_stable(order, m, le, at);
    }
}

/// There is only one stable ascending order.
pub proof fn law_stable_order_unique(
    a: Seq<int>,
    b: Seq<int>,
    n: nat,
    le: spec_fn(int, int) -> bool,
)
    requires
        is_preorder(n, le),
        is_stable_order(a, n, le),
        is_stable_order(b, n, le),
    ensures
        a == b,
{
    assert forall|i: int| 0 <= i < n implies a[i] == b[i] by {
        lemma_stable_prefix(a, b, n, le, i);
    }
    assert(a =~= b);
}

proof fn lemma_stable_prefix(
    a: Seq<int>,
    b: Seq<int>,
    n: nat,
    le: spec_fn(int, int) -> bool,
    i: int,
)
    requires
        is_preorder(n, le),
        is_stable_order(a, n, le),
        is_stable_order(b, n, le),
        0 <= i < n,
    ensures
        a[i] == b[i],
        forall|k: int| 0 <= k < i ==> a[k] == b[k],
    decreases i,
{
    if i > 0 {
        lemma_stable_prefix(a, b, n, le, i - 1);
    }
    let x = a[i];
    let y = b[i];
    if x != y {
        assert(b.contains(x));
        let p = choose|p: int| 0 <= p < b.len() && b[p] == x;
        assert(a.contains(y));
        let q = choose|q: int| 0 <= q < a.len() && a[q] == y;
        if p < i {
            assert(a[p] == b[p]);
            assert(comes_before(le, a[p], a[i]));
        }
        if q < i {
            assert(a[q] == b[q]);
            assert(comes_before(le, b[q], b[i]));
        }
        assert(comes_before(le, b[i], b[p]));
        assert(comes_before(le, a[i], a[q]));
    }
}

/// Ascending keys.
pub open spec fn by_key(keys: Seq<i64>) -> spec_fn(int, int) -> bool {
    |a: int, b: int| keys[a] <= keys[b]
}

/// Positions of the keys in ascending order, equal ones in the order they had.
pub fn positions_by_key(keys: &Vec<i64>) -> (res: Vec<usize>)
    ensures
        res@.map_values(|i: usize| i as int) == sorted_positions(keys@.len(), by_key(keys@)),
        res@.len() == keys@.len(),
        forall|i: int| 0 <= i < res@.len() ==> #[trigger] res@[i] < keys@.len(),
{
    let ghost le = by_key(keys@);
    let mut order: Vec<usize> = Vec::new();
    let mut x: usize = 0;
    assert(order@.map_values(|i: usize| i as int) =~= sorted_positions(0, le));
    while x < keys.len()
        invariant
            x <= keys@.len(),
            le == by_key(keys@),
            order@.len() == x,
            order@.map_values(|i: usize| i as int) == sorted_positions(x as nat, le),
            forall|i: int| 0 <= i < order@.len() ==> #[trigger] order@[i] < x,
        decreases keys@.len() - x,
    {
        let ghost ints = order@.map_values(|i: usize| i as int);
        let mut at: usize = x;
        while at > 0 && keys[order[at - 1]] > keys[x]
            invariant
                x < keys@.len(),
                le == by_key(keys@),
                order@.len() == x,
                at <= x,
                ints == order@.map_values(|i: usize| i as int),
                forall|i: int| 0 <= i < order@.len() ==> #[trigger] order@[i] < x,
                forall|j: int| at <= j < ints.len() ==> !le(#[trigger] ints[j], x as int),
            decreases at,
        {
            assert(ints[at - 1] == order@[at - 1]);
            at = at - 1;
        }
        proof {
            if at > 0 {
                assert(ints[at - 1] == order@[at - 1]);
            }
            lemma_insert_splits(ints, le, x as int, at as int);
        }
        let ghost before = order@;
        order.insert(at, x);
        proof {
            assert(order@.map_values(|i: usize| i as int) =~= ints.insert(at as int, x as int));
        }
        x = x + 1;
    }
    order
}

/// Ascending texts, character by character.
pub open spec fn by_text(texts: Seq<Seq<char>>) -> spec_fn(int, int) -> bool {
    |a: int, b: int| lex_le(texts[a], texts[b])
}

/// Comparing by an integer key is a consistent comparison.
pub proof fn lemma_by_key_preorder(keys: Seq<i64>)
    ensures
        is_preorder(keys.len(), by_key(keys)),
{
}

/// Comparing texts is a consistent comparison.
pub proof fn lemma_by_text_preorder(texts: Seq<Seq<char>>)
    ensures
        is_preorder(texts.len(), by_text(texts)),
{
    let le = by_text(texts);
    let n = texts.len();
    assert forall|a: int, b: int| 0 <= a < n && 0 <= b < n implies #[trigger] le(a, b) || le(
        b,
        a,
    ) by {
        lemma_lex_total(texts[a], texts[b], texts[b]);
    }
    assert forall|a: int, b: int, c: int|
        0 <= a < n && 0 <= b < n && 0 <= c < n && #[trigger] le(a, b) && #[trigger] le(
            b,
            c,
        ) implies le(a, c) by {
        lemma_lex_total(texts[a], texts[b], texts[c]);
    }
}

/// Positions of the texts in ascending order, equal ones in the order they had.
pub fn positions_by_text(texts: &Vec<&str>) -> (res: Vec<usize>)
    ensures
        res@.map_values(|i: usize| i as int) == sorted_positions(
            texts@.len(),
            by_text(crate::text::views(texts@)),
        ),
        res@.len() == texts@.len(),
        forall|i: int| 0 <= i < res@.len() ==> #[trigger] res@[i] < texts@.len(),
{
    let ghost le = by_text(crate::text::views(texts@));
    let mut order: Vec<usize> = Vec::new();
    let mut x: usize = 0;
    assert(order@.map_values(|i: usize| i as int) =~= sorted_positions(0, le));
    while x < texts.len()
        invariant
            x <= texts@.len(),
            le == by_text(crate::text::views(texts@)),
            order@.len() == x,
            order@.map_values(|i: usize| i as int) == sorted_positions(x as nat, le),
            forall|i: int| 0 <= i < order@.len() ==> #[trigger] order@[i] < x,
        decreases texts@.len() - x,
    {
        let ghost ints = order@.map_values(|i: usize| i as int);
        let mut at: usize = x;
        while at > 0 && !str_le(texts[order[at - 1]], texts[x])
            invariant
                x < texts@.len(),
                le == by_text(crate::text::views(texts@)),
                order@.len() == x,
                at <= x,
                ints == order@.map_values(|i: usize| i as int),
                forall|i: int| 0 <= i < order@.len() ==> #[trigger] order@[i] < x,
                forall|j: int| at <= j < ints.len() ==> !le(#[trigger] ints[j], x as int),
            decreases at,
        {
            assert(ints[at - 1] == order@[at - 1]);
            at = at - 1;
        }
        proof {
            if at > 0 {
                assert(ints[at - 1] == order@[at - 1]);
            }
            lemma_insert_splits(ints, le, x as int, at as int);
        }
        order.insert(at, x);
        proof {
            assert(order@.map_values(|i: usize| i as int) =~= ints.insert(at as int, x as int));
        }
        x = x + 1;
    }
    order
}

proof fn lemma_arranged_contents<T>(s: Seq<T>, le: spec_fn(int, int) -> bool, n: nat)
    requires
        n <= s.len(),
    ensures
        sorted_positions(n, le).len() == n,
        arranged(s, sorted_positions(n, le)).to_multiset() == s.take(n as int).to_multiset(),
    decreases n,
{
    broadcast use vstd::seq_lib::group_to_multiset_ensures;

    if n == 0 {
        assert(arranged(s, sorted_positions(n, le)) =~= s.take(0));
    } else {
        let m = (n - 1) as nat;
        lemma_arranged_contents(s, le, m);
        let order = sorted_positions(m, le);
        let at = lemma_insert_place(order, le, m as int);
        lemma_insert_splits(order, le, m as int, at);
        assert(arranged(s, order.insert(at, m as int)) =~= arranged(s, order).insert(
            at,
            s[m as int],
        ));
        assert(s.take(n as int) =~= s.take(m as int).push(s[m as int]));
    }
}

/// Items arranged by their keys are the same items, in ascending order of the keys,
/// and items with equal keys stay in the order they had.
pub proof fn law_arranged_by_key<T>(s: Seq<T>, keys: Seq<i64>)
    requires
        keys.len() == s.len(),
    ensures
        ({
            let order = sorted_positions(s.len(), by_key(keys));
            &&& arranged(s, order).len() == s.len()
            &&& arranged(s, order).to_multiset() == s.to_multiset()
            &&& forall|i: int, j: int|
                0 <= i < j < s.len() ==> keys[#[trigger] order[i]] <= keys[#[trigger] order[j]] && (
                keys[order[i]] == keys[order[j]] ==> order[i] < order[j])
            &&& forall|i: int|
                0 <= i < s.len() ==> 0 <= #[trigger] order[i] < s.len() && arranged(s, order)[i]
                    == s[order[i]]
        }),
{
    let le = by_key(keys);
    let order = sorted_positions(s.len(), le);
    lemma_by_key_preorder(keys);
    law_sorted_positions_stable(s.len(), le);
    lemma_arranged_contents(s, le, s.len());
    assert(s.take(s.len() as int) =~= s);
    assert forall|i: int, j: int| 0 <= i < j < s.len() implies keys[#[trigger] order[i]]
        <= keys[#[trigger] order[j]] && (keys[order[i]] == keys[order[j]] ==> order[i]
        < order[j]) by {
        assert(comes_before(le, order[i], order[j]));
    }
}

/// Texts arranged in ascending order are the same texts, in ascending order.
pub proof fn law_arranged_by_text(texts: Seq<Seq<char>>)
    ensures
        ({
            let sorted = arranged(texts, sorted_positions(texts.len(), by_text(texts)));
            &&& sorted.len() == texts.len()
            &&& sorted.to_multiset() == texts.to_multiset()
            &&& forall|i: int, j: int|
                0 <= i < j < sorted.len() ==> lex_le(#[trigger] sorted[i], #[trigger] sorted[j])
        }),
{
    let le = by_text(texts);
    let order = sorted_positions(texts.len(), le);
    lemma_by_text_preorder(texts);
    law_sorted_positions_stable(texts.len(), le);
    lemma_arranged_contents(texts, le, texts.len());
    assert(texts.take(texts.len() as int) =~= texts);
    let sorted = arranged(texts, order);
    assert forall|i: int, j: int| 0 <= i < j < sorted.len() implies lex_le(
        #[trigger] sorted[i],
        #[trigger] sorted[j],
    ) by {
        assert(comes_before(le, order[i], order[j]));
    }
}

} // verus!
