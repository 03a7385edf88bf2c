//! Ordering texts: the lexicographic order on sequences of characters, and
//! the stable arrangement of a list of keys in that order.

use vstd::prelude::*;

verus! {

/// Whether `a` comes before `b`, or equals it, in the lexicographic order
/// by character: the first character in which they differ decides, and a
/// text comes before every text that it begins.
pub open spec fn lex_le(a: Seq<char>, b: Seq<char>) -> bool
    decreases a.len(),
{
    if a.len() == 0 {
        true
    } else if b.len() == 0 {
        false
    } else if a[0] != b[0] {
        a[0] < b[0]
    } else {
        lex_le(a.skip(1), b.skip(1))
    }
}

/// The texts that a vector of keys holds.
pub open spec fn texts(keys: Seq<Vec<char>>) -> Seq<Seq<char>> {
    Seq::new(keys.len(), |i: int| keys[i]@)
}

/// The integers that a vector of indices holds.
pub open spec fn indices(order: Seq<usize>) -> Seq<int> {
    Seq::new(order.len(), |i: int| order[i] as int)
}

/// Where the key at index `i` goes into `order`, an arrangement of earlier
/// indices: behind the last index whose key does not come after it.
pub open spec fn insert_position(order: Seq<int>, keys: Seq<Seq<char>>, i: int) -> int
    decreases order.len(),
{
    if order.len() == 0 {
        0
    } else if lex_le(keys[order.last()], keys[i]) {
        order.len() as int
    } else {
        insert_position(order.drop_last(), keys, i)
    }
}

/// The stable arrangement of the first `n` keys: their indices, ordered by
/// key, with equal keys in the order in which they stand in `keys`.
pub open spec fn stable_order_of(keys: Seq<Seq<char>>, n: nat) -> Seq<int>
    decreases n,
{
    if n == 0 {
        Seq::empty()
    } else {
        let before = stable_order_of(keys, (n - 1) as nat);
        before.insert(insert_position(before, keys, n - 1), n - 1)
    }
}

/// The stable arrangement of all of `keys`.
pub open spec fn stable_order(keys: Seq<Seq<char>>) -> Seq<int> {
    stable_order_of(keys, keys.len())
}

/// Whether `order` holds each of the indices `0..n` exactly once.
pub open spec fn is_arrangement(order: Seq<int>, n: nat) -> bool {
    &&& order.len() == n
    &&& forall|a: int| 0 <= a < order.len() ==> 0 <= #[trigger] order[a] < n
    &&& forall|a: int, b: int|
        0 <= a < b < order.len() ==> #[trigger] order[a] != #[trigger] order[b]
    &&& forall|i: int| 0 <= i < n ==> #[trigger] order.contains(i)
}

/// Whether the key at index `x` may stand before the key at index `y`: it
/// does not come after it, and between equal keys the earlier index comes
/// first.
pub open spec fn may_precede(keys: Seq<Seq<char>>, x: int, y: int) -> bool {
    lex_le(keys[x], keys[y]) && (lex_le(keys[y], keys[x]) ==> x < y)
}

/// Whether every index in `order` may stand before all that follow it.
pub open spec fn is_ordered(order: Seq<int>, keys: Seq<Seq<char>>) -> bool {
    forall|a: int, b: int|
        0 <= a < b < order.len() ==> may_precede(keys, #[trigger] order[a], #[trigger] order[b])
}

/// Every text comes before or equals itself.
pub proof fn lemma_lex_le_reflexive(a: Seq<char>)
    ensures
        lex_le(a, a),
    decreases a.len(),
{
    if a.len() > 0 {
        lemma_lex_le_reflexive(a.skip(1));
    }
}

/// Of two texts, one comes before or equals the other.
pub proof fn lemma_lex_le_total(a: Seq<char>, b: Seq<char>)
    ensures
        lex_le(a, b) || lex_le(b, a),
    decreases a.len(),
{
    if a.len() > 0 && b.len() > 0 && a[0] == b[0] {
        lemma_lex_le_total(a.skip(1), b.skip(1));
    }
}

/// The order is transitive.
pub proof fn lemma_lex_le_transitive(a: Seq<char>, b: Seq<char>, c: Seq<char>)
    requires
        lex_le(a, b),
        lex_le(b, c),
    ensures
        lex_le(a, c),
    decreases a.len(),
{
    if a.len() > 0 && b.len() > 0 && c.len() > 0 && a[0] == b[0] && b[0] == c[0] {
        lemma_lex_le_transitive(a.skip(1), b.skip(1), c.skip(1));
    }
}

/// Two texts each of which comes before or equals the other are the same
/// text.
pub proof fn lemma_lex_le_antisymmetric(a: Seq<char>, b: Seq<char>)
    requires
        lex_le(a, b),
        lex_le(b, a),
    ensures
        a == b,
    decreases a.len(),
{
    if a.len() > 0 && b.len() > 0 {
        lemma_lex_le_antisymmetric(a.skip(1), b.skip(1));
        assert(a == seq![a[0]] + a.skip(1));
        assert(b == seq![b[0]] + b.skip(1));
    } else {
        assert(a =~= b);
    }
}

/// The position at which a key is inserted lies behind every key that
/// does not come after it and before every key that does.
pub proof fn lemma_insert_position(order: Seq<int>, keys: Seq<Seq<char>>, i: int)
    ensures
        ({
            let p = insert_position(order, keys, i);
            &&& 0 <= p <= order.len()
            &&& p > 0 ==> lex_le(keys[order[p - 1]], keys[i])
            &&& forall|q: int| p <= q < order.len() ==> !lex_le(keys[#[trigger] order[q]], keys[i])
        }),
    decreases order.len(),
{
    if order.len() > 0 && !lex_le(keys[order.last()], keys[i]) {
        lemma_insert_position(order.drop_last(), keys, i);
        let p = insert_position(order, keys, i);
        assert forall|q: int| p <= q < order.len() implies !lex_le(
            keys[#[trigger] order[q]],
            keys[i],
        ) by {
            if q < order.len() - 1 {
                assert(order.drop_last()[q] == order[q]);
            }
        }
    }
}

/// The only position with the two properties of the insert position is
/// the insert position.
pub proof fn lemma_insert_position_is_unique(
    order: Seq<int>,
    keys: Seq<Seq<char>>,
    i: int,
    p: int,
)
    requires
        0 <= p <= order.len(),
        p > 0 ==> lex_le(keys[order[p - 1]], keys[i]),
        forall|q: int| p <= q < order.len() ==> !lex_le(keys[#[trigger] order[q]], keys[i]),
    ensures
        p == insert_position(order, keys, i),
    decreases order.len(),
{
    if order.len() > 0 {
        if lex_le(keys[order.last()], keys[i]) {
            if p < order.len() {
                assert(!lex_le(keys[order[order.len() - 1]], keys[i]));
            }
        } else {
            let shorter = order.drop_last();
            assert forall|q: int| p <= q < shorter.len() implies !lex_le(
                keys[#[trigger] shorter[q]],
                keys[i],
            ) by {
                assert(shorter[q] == order[q]);
            }
            lemma_insert_position_is_unique(shorter, keys, i, p);
        }
    }
}

/// The stable arrangement of `n` keys holds each index below `n` once, and
/// in it every index may stand before all that follow it: keys ascend, and
/// equal keys keep the order in which they were given.
pub proof fn lemma_stable_order_is_sorted(keys: Seq<Seq<char>>, n: nat)
    requires
        n <= keys.len(),
    ensures
        is_arrangement(stable_order_of(keys, n), n),
        is_ordered(stable_order_of(keys, n), keys),
    decreases n,
{
    if n > 0 {
        let i = n - 1;
        let before = stable_order_of(keys, i as nat);
        let p = insert_position(before, keys, i);
        let after = before.insert(p, i);
        lemma_stable_order_is_sorted(keys, i as nat);
        lemma_insert_position(before, keys, i);
        assert forall|a: int, b: int| 0 <= a < b < after.len() implies may_precede(
            keys,
            #[trigger] after[a],
            #[trigger] after[b],
        ) && after[a] != after[b] by {
            if b < p {
                assert(after[a] == before[a] && after[b] == before[b]);
            } else if a > p {
                assert(after[a] == before[a - 1] && after[b] == before[b - 1]);
            } else if a < p && b > p {
                assert(after[a] == before[a] && after[b] == before[b - 1]);
            } else if b == p {
                assert(after[a] == before[a] && after[b] == i);
                if a < p - 1 {
                    assert(may_precede(keys, before[a], before[p - 1]));
                    lemma_lex_le_transitive(keys[before[a]], keys[before[p - 1]], keys[i]);
                }
            } else {
                assert(after[a] == i && after[b] == before[b - 1]);
                lemma_lex_le_total(keys[before[b - 1]], keys[i]);
            }
        }
        assert forall|a: int| 0 <= a < after.len() implies 0 <= #[trigger] after[a] < n by {
            if a < p {
                assert(after[a] == before[a]);
            } else if a > p {
                assert(after[a] == before[a - 1]);
            }
        }
        assert forall|x: int| 0 <= x < n implies #[trigger] after.contains(x) by {
            if x == i {
                assert(after[p] == x);
            } else {
                assert(before.contains(x));
                let a = choose|a: int| 0 <= a < before.len() && before[a] == x;
                if a < p {
                    assert(after[a] == x);
                } else {
                    assert(after[a + 1] == x);
                }
            }
        }
    }
}

/// There is one arrangement only in which every index may stand before
/// all that follow it: whatever arranges keys in ascending order and keeps
/// equal keys in their places gives the stable arrangement.
pub proof fn lemma_stable_order_is_the_only_one(keys: Seq<Seq<char>>, n: nat, order: Seq<int>)
    requires
        n <= keys.len(),
        is_arrangement(order, n),
        is_ordered(order, keys),
    ensures
        order == stable_order_of(keys, n),
    decreases n,
{
    if n == 0 {
        assert(order =~= stable_order_of(keys, n));
    } else {
        let i = n - 1;
        assert(order.contains(i));
        let p = choose|p: int| 0 <= p < order.len() && order[p] == i;
        let rest = order.remove(p);
        assert forall|a: int| 0 <= a < rest.len() implies 0 <= #[trigger] rest[a] < i by {
            if a < p {
                assert(rest[a] == order[a]);
            } else {
                assert(rest[a] == order[a + 1]);
            }
        }
        assert forall|a: int, b: int| 0 <= a < b < rest.len() implies #[trigger] rest[a]
            != #[trigger] rest[b] && may_precede(keys, rest[a], rest[b]) by {
            let a0 = if a < p {
                a
            } else {
                a + 1
            };
            let b0 = if b < p {
                b
            } else {
                b + 1
            };
            assert(rest[a] == order[a0] && rest[b] == order[b0]);
        }
        assert forall|x: int| 0 <= x < i implies #[trigger] rest.contains(x) by {
            assert(order.contains(x));
            let a = choose|a: int| 0 <= a < order.len() && order[a] == x;
            if a < p {
                assert(rest[a] == x);
            } else {
                assert(rest[a - 1] == x);
            }
        }
        lemma_stable_order_is_the_only_one(keys, i as nat, rest);
        if p > 0 {
            assert(may_precede(keys, order[p - 1], order[p]));
            assert(rest[p - 1] == order[p - 1]);
        }
        assert forall|q: int| p <= q < rest.len() implies !lex_le(
            keys[#[trigger] rest[q]],
            keys[i],
        ) by {
            assert(rest[q] == order[q + 1]);
            assert(may_precede(keys, order[p], order[q + 1]));
        }
        lemma_insert_position_is_unique(rest, keys, i, p);
        assert(order =~= rest.insert(p, i));
    }
}

/// Decides whether `a` comes before `b` or equals it.
pub fn lex_le_chars(a: &Vec<char>, b: &Vec<char>) -> (le: bool)
    ensures
        le == lex_le(a@, b@),
{
    let mut i: usize = 0;
    assert(a@.skip(0) == a@ && b@.skip(0) == b@);
    while i < a.len() && i < b.len()
        invariant
            i <= a.len(),
            i <= b.len(),
            lex_le(a@, b@) == lex_le(a@.skip(i as int), b@.skip(i as int)),
        decreases a.len() - i,
    {
        if a[i] != b[i] {
            return a[i] < b[i];
        }
        assert(a@.skip(i as int).skip(1) == a@.skip(i + 1));
        assert(b@.skip(i as int).skip(1) == b@.skip(i + 1));
        i = i + 1;
    }
    i == a.len()
}

/// Arranges the indices of `keys` by key, ascending; equal keys keep the
/// order in which they stand in `keys`.
pub fn order_by_keys(keys: &Vec<Vec<char>>) -> (order: Vec<usize>)
    ensures
        indices(order@) == stable_order(texts(keys@)),
        order.len() == keys.len(),
        forall|k: int| 0 <= k < order.len() ==> #[trigger] order[k] < keys.len(),
{
    let mut order: Vec<usize> = Vec::new();
    let mut i: usize = 0;
    assert(indices(order@) =~= stable_order_of(texts(keys@), 0));
    while i < keys.len()
        invariant
            i <= keys.len(),
            order.len() == i,
            forall|k: int| 0 <= k < order.len() ==> #[trigger] order[k] < i,
            indices(order@) == stable_order_of(texts(keys@), i as nat),
        decreases keys.len() - i,
    {
        let ghost before = indices(order@);
        let ghost all = texts(keys@);
        let mut p: usize = order.len();
        while p > 0 && !lex_le_chars(&keys[order[p - 1]], &keys[i])
            invariant
                p <= order.len(),
                i < keys.len(),
                before == indices(order@),
                all == texts(keys@),
                forall|k: int| 0 <= k < order.len() ==> #[trigger] order[k] < i,
                forall|q: int|
                    p <= q < before.len() ==> !lex_le(all[#[trigger] before[q]], all[i as int]),
            decreases p,
        {
            p = p - 1;
        }
        proof {
            if p > 0 {
                assert(all[before[p - 1]] == keys@[order@[p - 1] as int]@);
            }
            lemma_insert_position_is_unique(before, all, i as int, p as int);
        }
        order.insert(p, i);
        assert(indices(order@) =~= before.insert(p as int, i as int));
        i = i + 1;
    }
    order
}

} // verus!
