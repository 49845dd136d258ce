//! Ordering rows by a strict "comes before" relation.
use vstd::prelude::*;

verus! {

/// Rows with a strict order of precedence.
pub trait Ranked: Sized {
    /// `self` comes before `other`.
    spec fn before(self, other: Self) -> bool;

    /// The order is asymmetric and transitive.
    proof fn lemma_before(a: Self, b: Self, c: Self)
        ensures
            Self::before(a, b) ==> !Self::before(b, a),
            Self::before(a, b) && Self::before(b, c) ==> Self::before(a, c),
    ;

    fn comes_before(&self, other: &Self) -> (r: bool)
        ensures
            r == Self::before(*self, *other),
    ;
}

/// No row comes before one listed ahead of it.
pub open spec fn ranked_sorted<T: Ranked>(s: Seq<T>) -> bool {
    forall|i: int, j: int| 0 <= i < j < s.len() ==> !T::before(#[trigger] s[j], #[trigger] s[i])
}

/// The first row that `x` comes before, or the count.
pub open spec fn first_after<T: Ranked>(rows: Seq<T>, x: T) -> int
    decreases rows.len(),
{
    if rows.len() == 0 {
        0
    } else if T::before(x, rows[0]) {
        0
    } else {
        1 + first_after(rows.drop_first(), x)
    }
}

/// The first `n` rows placed one after another, each just before the first
/// row placed earlier that it comes before: rows neither of which comes
/// before the other keep their order.
pub open spec fn ranked_order<T: Ranked>(items: Seq<T>, n: nat) -> Seq<T>
    decreases n,
{
    if n == 0 || n > items.len() {
        Seq::empty()
    } else {
        let placed = ranked_order(items, (n - 1) as nat);
        placed.insert(first_after(placed, items[n - 1]), items[n - 1])
    }
}

proof fn lemma_first_after<T: Ranked>(rows: Seq<T>, x: T, p: int)
    requires
        0 <= p <= rows.len(),
        forall|k: int| 0 <= k < p ==> !T::before(x, #[trigger] rows[k]),
        p < rows.len() ==> T::before(x, rows[p]),
    ensures
        first_after(rows, x) == p,
    decreases rows.len(),
{
    if rows.len() > 0 && p > 0 {
        assert forall|k: int| 0 <= k < p - 1 implies !T::before(x, #[trigger] rows.drop_first()[k]) by {
            assert(rows.drop_first()[k] == rows[k + 1]);
        }
        lemma_first_after(rows.drop_first(), x, p - 1);
    }
}

/// Orders rows, moving them; rows neither of which comes before the other
/// keep the order they had.
pub fn sort_ranked<T: Ranked>(items: Vec<T>) -> (r: Vec<T>)
    ensures
        ranked_sorted(r@),
        r@.len() == items@.len(),
        r@.to_multiset() == items@.to_multiset(),
        r@ == ranked_order(items@, items@.len()),
{
    let ghost all = items@;
    let mut rest = items;
    let mut out: Vec<T> = Vec::new();
    proof {
        broadcast use vstd::multiset::group_multiset_axioms;
        vstd::seq_lib::to_multiset_len(out@);
        vstd::multiset::lemma_multiset_empty_len(out@.to_multiset());
        assert(out@.to_multiset().add(rest@.to_multiset()) =~= items@.to_multiset());
    }
    while rest.len() > 0
        invariant
            ranked_sorted(out@),
            out@.to_multiset().add(rest@.to_multiset()) == items@.to_multiset(),
            all == items@,
            all.len() == out@.len() + rest@.len(),
            rest@ == all.skip(out@.len() as int),
            out@ == ranked_order(all, out@.len() as nat),
        decreases rest@.len(),
    {
        let ghost before = rest@;
        let ghost out_before = out@;
        let x = rest.remove(0);
        assert(before =~= rest@.insert(0, x));
        let mut p: usize = 0;
        loop
            invariant
                p <= out@.len(),
                forall|k: int| 0 <= k < p ==> !T::before(x, #[trigger] out@[k]),
            ensures
                p <= out@.len(),
                forall|k: int| 0 <= k < p ==> !T::before(x, #[trigger] out@[k]),
                p < out@.len() ==> T::before(x, out@[p as int]),
            decreases out@.len() - p,
        {
            if p >= out.len() {
                break;
            }
            if x.comes_before(&out[p]) {
                break;
            }
            p = p + 1;
        }
        let ghost old_out = out@;
        let ghost xv = x;
        proof {
            lemma_first_after(old_out, xv, p as int);
            assert(xv == all[old_out.len() as int]) by {
                assert(before[0] == all.skip(old_out.len() as int)[0]);
            }
            assert(rest@ =~= all.skip(old_out.len() as int + 1));
        }
        out.insert(p, x);
        proof {
            broadcast use vstd::multiset::group_multiset_axioms;
            vstd::seq_lib::to_multiset_insert(rest@, 0, xv);
            vstd::seq_lib::to_multiset_insert(old_out, p as int, xv);
            assert(out@.to_multiset().add(rest@.to_multiset()) =~= out_before.to_multiset().add(before.to_multiset()));
        }
        assert forall|i: int, j: int| 0 <= i < j < out@.len() implies !T::before(#[trigger] out@[j], #[trigger] out@[i]) by {
            if i < p && j == p {
            } else if i == p && j > p {
                let y = old_out[j - 1];
                T::lemma_before(xv, old_out[p as int], y);
                T::lemma_before(y, xv, old_out[p as int]);
                if j - 1 > p {
                    assert(!T::before(y, old_out[p as int]));
                }
            } else if i < p && j > p {
                assert(!T::before(old_out[j - 1], old_out[i]));
            } else if i > p {
                assert(!T::before(old_out[j - 1], old_out[i - 1]));
            } else {
                assert(!T::before(old_out[j], old_out[i]));
            }
        }
    }
    proof {
        broadcast use vstd::multiset::group_multiset_axioms;
        vstd::seq_lib::to_multiset_len(rest@);
        vstd::multiset::lemma_multiset_empty_len(rest@.to_multiset());
        assert(out@.to_multiset().add(rest@.to_multiset()) =~= out@.to_multiset());
        vstd::seq_lib::to_multiset_len(out@);
        vstd::seq_lib::to_multiset_len(items@);
    }
    out
}


/// Rearranging a list and then mapping it gives a rearrangement of the mapped list.
pub proof fn lemma_map_multiset<A, B>(s: Seq<A>, t: Seq<A>, f: spec_fn(A) -> B)
    requires
        s.to_multiset() == t.to_multiset(),
    ensures
        s.map_values(f).to_multiset() == t.map_values(f).to_multiset(),
    decreases s.len(),
{
    broadcast use vstd::multiset::group_multiset_axioms;
    broadcast use vstd::seq_lib::group_to_multiset_ensures;

    if s.len() == 0 {
        assert(t.to_multiset().len() == 0);
        assert(t.len() == 0);
        assert(s.map_values(f) =~= Seq::<B>::empty());
        assert(t.map_values(f) =~= Seq::<B>::empty());
    } else {
        let x = s[0];
        assert(s.contains(x));
        assert(s.to_multiset().count(x) > 0);
        assert(t.to_multiset().count(x) > 0);
        assert(t.contains(x));
        let k = choose|k: int| 0 <= k < t.len() && t[k] == x;
        let s2 = s.remove(0);
        let t2 = t.remove(k);
        assert(s2.to_multiset() == s.to_multiset().remove(x));
        assert(t2.to_multiset() == t.to_multiset().remove(x));
        lemma_map_multiset(s2, t2, f);
        assert(s.map_values(f).remove(0) =~= s2.map_values(f));
        assert(t.map_values(f).remove(k) =~= t2.map_values(f));
        assert(s.map_values(f).to_multiset().remove(f(x)) == s2.map_values(f).to_multiset());
        assert(t.map_values(f).to_multiset().remove(f(x)) == t2.map_values(f).to_multiset());
        assert(s.map_values(f).contains(f(x))) by {
            assert(s.map_values(f)[0] == f(x));
        }
        assert(t.map_values(f).contains(f(x))) by {
            assert(t.map_values(f)[k] == f(x));
        }
        assert(s.map_values(f).to_multiset() =~= t.map_values(f).to_multiset()) by {
            assert forall|y: B| #[trigger] s.map_values(f).to_multiset().count(y) == t.map_values(f).to_multiset().count(y) by {
                let ms = s.map_values(f).to_multiset();
                let mt = t.map_values(f).to_multiset();
                assert(ms.remove(f(x)).count(y) == mt.remove(f(x)).count(y));
                assert(vstd::multiset::Multiset::singleton(f(x)).count(f(x)) == 1);
                if y == f(x) {
                    assert(s.map_values(f).to_multiset().count(y) > 0);
                    assert(t.map_values(f).to_multiset().count(y) > 0);
                }
            }
        }
    }
}

} // verus!
