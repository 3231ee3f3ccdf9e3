use vstd::prelude::*;

use std::cmp::Ordering;

verus! {

/// The first `n` items of `s`.
pub open spec fn prefix<A>(s: Seq<A>, n: usize) -> Seq<A> {
    s.take(n as int)
}

/// The index after `i`.
pub open spec fn succ(i: usize) -> usize {
    (i + 1) as usize
}

/// The item of `s` at `i`.
pub open spec fn item<A>(s: Seq<A>, i: usize) -> A {
    s[i as int]
}

/// The product-order verdict on a list of per-component comparisons.
///
/// Equal when every component is equal (or there is none), Less when some
/// component is less and none is greater, Greater in the mirror case, and
/// no verdict (`None`) when one component is less and another greater.
pub open spec fn product_verdict(s: Seq<Ordering>) -> Option<Ordering> {
    let less = s.contains(Ordering::Less);
    let greater = s.contains(Ordering::Greater);
    if less && greater {
        None
    } else if less {
        Some(Ordering::Less)
    } else if greater {
        Some(Ordering::Greater)
    } else {
        Some(Ordering::Equal)
    }
}

/// Verdict on a pair of comparisons.
pub open spec fn pair_verdict(o1: Ordering, o2: Ordering) -> Option<Ordering> {
    product_verdict(seq![o1, o2])
}

proof fn lemma_pair_contains(o1: Ordering, o2: Ordering, x: Ordering)
    ensures
        seq![o1, o2].contains(x) <==> (o1 == x || o2 == x),
{
    let s = seq![o1, o2];
    if o1 == x {
        assert(s[0] == x);
    }
    if o2 == x {
        assert(s[1] == x);
    }
}

/// Combines two comparisons by product order: Equal only when both are
/// Equal, Less when there is a Less and otherwise only Equal, Greater in the
/// mirror case, and `None` for a Less together with a Greater.
pub fn combine_ordering(o1: Ordering, o2: Ordering) -> (r: Option<Ordering>)
    ensures
        r == pair_verdict(o1, o2),
{
    proof {
        lemma_pair_contains(o1, o2, Ordering::Less);
        lemma_pair_contains(o1, o2, Ordering::Greater);
    }
    match (o1, o2) {
        (Ordering::Equal, x) => Some(x),
        (x, Ordering::Equal) => Some(x),
        (Ordering::Less, Ordering::Less) => Some(Ordering::Less),
        (Ordering::Greater, Ordering::Greater) => Some(Ordering::Greater),
        _ => None,
    }
}

proof fn lemma_prefix_step(s: Seq<Ordering>, i: usize, x: Ordering)
    requires
        i < s.len() <= usize::MAX,
    ensures
        prefix(s, succ(i)).contains(x) <==> (prefix(s, i).contains(x) || item(
            s,
            i,
        ) == x),
{
    let p = prefix(s, i);
    let q = prefix(s, succ(i));
    assert(succ(i) == i + 1);
    assert(q =~= p.push(item(s, i)));
    if p.contains(x) {
        let k = choose|k: int| 0 <= k < p.len() && p[k] == x;
        assert(q[k] == x);
    }
    if item(s, i) == x {
        assert(item(q, i) == x);
    }
}

/// Reduces a list of comparisons to one product-order verdict, as
/// [`combine_ordering`] does for two. The order of the list does not matter.
pub fn combine_orderings(items: &[Ordering]) -> (r: Option<Ordering>)
    ensures
        r == product_verdict(items@),
{
    let mut acc = Ordering::Equal;
    let mut i: usize = 0;
    proof {
        assert(prefix(items@, 0) =~= Seq::<Ordering>::empty());
    }
    while i < items.len()
        invariant
            i <= items.len(),
            product_verdict(prefix(items@, i)) == Some(acc),
        decreases items.len() - i,
    {
        let next = items[i];
        proof {
            lemma_prefix_step(items@, i, Ordering::Less);
            lemma_prefix_step(items@, i, Ordering::Greater);
            assert(next == item(items@, i));
        }
        match combine_ordering(acc, next) {
            Some(x) => {
                proof {
                    lemma_pair_contains(acc, next, Ordering::Less);
                    lemma_pair_contains(acc, next, Ordering::Greater);
                }
                acc = x;
            },
            None => {
                proof {
                    lemma_pair_contains(acc, next, Ordering::Less);
                    lemma_pair_contains(acc, next, Ordering::Greater);
                    lemma_verdict_none_extends(items@, succ(i));
                }
                return None;
            },
        }
        i = i + 1;
    }
    proof {
        assert(prefix(items@, i) =~= items@);
    }
    Some(acc)
}

proof fn lemma_verdict_none_extends(s: Seq<Ordering>, n: usize)
    requires
        n <= s.len(),
        product_verdict(prefix(s, n)) is None,
    ensures
        product_verdict(s) is None,
{
    let p = prefix(s, n);
    let kl = choose|k: int| 0 <= k < p.len() && p[k] == Ordering::Less;
    let kg = choose|k: int| 0 <= k < p.len() && p[k] == Ordering::Greater;
    assert(s[kl] == Ordering::Less);
    assert(s[kg] == Ordering::Greater);
}

/// Combining two comparisons is commutative.
pub proof fn lemma_combine_commutative(o1: Ordering, o2: Ordering)
    ensures
        pair_verdict(o1, o2) == pair_verdict(o2, o1),
{
    lemma_pair_contains(o1, o2, Ordering::Less);
    lemma_pair_contains(o1, o2, Ordering::Greater);
    lemma_pair_contains(o2, o1, Ordering::Less);
    lemma_pair_contains(o2, o1, Ordering::Greater);
}

/// The verdict is Equal exactly when every comparison is Equal.
pub proof fn lemma_equal_only_when_all_equal(s: Seq<Ordering>)
    ensures
        product_verdict(s) == Some(Ordering::Equal) <==> (forall|i: int|
            0 <= i < s.len() ==> s[i] == Ordering::Equal),
{
    if product_verdict(s) == Some(Ordering::Equal) {
        assert forall|i: int| 0 <= i < s.len() implies s[i] == Ordering::Equal by {
            match s[i] {
                Ordering::Less => assert(s.contains(Ordering::Less)),
                Ordering::Greater => assert(s.contains(Ordering::Greater)),
                Ordering::Equal => {},
            }
        }
    }
}

/// The order of the comparisons does not matter: two lists that hold each
/// comparison equally often get one verdict.
pub proof fn lemma_order_irrelevant(s1: Seq<Ordering>, s2: Seq<Ordering>)
    requires
        s1.to_multiset() == s2.to_multiset(),
    ensures
        product_verdict(s1) == product_verdict(s2),
{
    broadcast use vstd::seq_lib::group_to_multiset_ensures;

    assert(s1.contains(Ordering::Less) <==> s1.to_multiset().count(Ordering::Less) > 0);
    assert(s2.contains(Ordering::Less) <==> s2.to_multiset().count(Ordering::Less) > 0);
    assert(s1.contains(Ordering::Greater) <==> s1.to_multiset().count(Ordering::Greater) > 0);
    assert(s2.contains(Ordering::Greater) <==> s2.to_multiset().count(Ordering::Greater) > 0);
}

} // verus!
