//! Stable sorting, and the order of texts.
use vstd::prelude::*;
use vstd::seq_lib::*;

verus! {

/// Values that can be put in order.
pub trait Ranked: Sized {
    /// This value may stand before the other.
    spec fn ranks(self, other: Self) -> bool;

    /// Of two values one may stand before the other.
    proof fn total(a: Self, b: Self)
        ensures
            a.ranks(b) || b.ranks(a),
    ;

    /// What may stand before a value may stand before all that the value may stand before.
    proof fn transitive(a: Self, b: Self, c: Self)
        requires
            a.ranks(b),
            b.ranks(c),
        ensures
            a.ranks(c),
    ;

    /// Whether this value may stand before the other.
    fn at_most(&self, other: &Self) -> (r: bool)
        ensures
            r == self.ranks(*other),
    ;
}

/// A value put in its place among values in order: behind all that may stand before it.
pub open spec fn inserted<T: Ranked>(s: Seq<T>, e: T) -> Seq<T>
    decreases s.len(),
{
    if s.len() == 0 || s.last().ranks(e) {
        s.push(e)
    } else {
        inserted(s.drop_last(), e).push(s.last())
    }
}

/// The values in order. Those of the same rank keep the order in which they came.
pub open spec fn sorted_of<T: Ranked>(s: Seq<T>) -> Seq<T>
    decreases s.len(),
{
    if s.len() == 0 {
        Seq::empty()
    } else {
        inserted(sorted_of(s.drop_last()), s.last())
    }
}

/// Each value may stand before those behind it.
pub open spec fn in_order<T: Ranked>(s: Seq<T>) -> bool {
    forall|i: int, j: int|
        #![trigger s[i], s[j]]
        0 <= i < j < s.len() ==> s[i].ranks(s[j])
}

proof fn lemma_inserted<T: Ranked>(s: Seq<T>, e: T)
    requires
        in_order(s),
    ensures
        in_order(inserted(s, e)),
        inserted(s, e).to_multiset() == s.to_multiset().insert(e),
        inserted(s, e).len() == s.len() + 1,
    decreases s.len(),
{
    broadcast use group_to_multiset_ensures;

    let r = inserted(s, e);
    if s.len() == 0 || s.last().ranks(e) {
        assert forall|i: int, j: int| 0 <= i < j < r.len() implies #[trigger] r[i].ranks(
            #[trigger] r[j],
        ) by {
            if j == s.len() {
                if i < s.len() - 1 {
                    assert(s[i].ranks(s[s.len() - 1]));
                    T::transitive(s[i], s.last(), e);
                }
            } else {
                assert(s[i].ranks(s[j]));
            }
        }
    } else {
        let less = s.drop_last();
        let last = s.last();
        assert forall|i: int, j: int| 0 <= i < j < less.len() implies #[trigger] less[i].ranks(
            #[trigger] less[j],
        ) by {
            assert(s[i].ranks(s[j]));
        }
        lemma_inserted(less, e);
        let q = inserted(less, e);
        T::total(last, e);
        lemma_inserted_members(less, e);
        assert forall|i: int, j: int| 0 <= i < j < r.len() implies #[trigger] r[i].ranks(
            #[trigger] r[j],
        ) by {
            if j == q.len() {
                assert(r[j] == last);
                assert(r[i] == q[i]);
                if q[i] == e {
                } else {
                    let k = choose|k: int| 0 <= k < less.len() && less[k] == q[i];
                    assert(s[k].ranks(s[s.len() - 1]));
                }
            } else {
                assert(q[i].ranks(q[j]));
            }
        }
        assert(s =~= less.push(last));
        assert(less.push(last).to_multiset() =~= less.to_multiset().insert(last));
        assert(r.to_multiset() =~= q.to_multiset().insert(last));
        assert(r.to_multiset() =~= s.to_multiset().insert(e));
    }
}

proof fn lemma_inserted_members<T: Ranked>(s: Seq<T>, e: T)
    ensures
        inserted(s, e).len() == s.len() + 1,
        forall|i: int|
            0 <= i < inserted(s, e).len() ==> (#[trigger] inserted(s, e)[i] == e || exists|k: int|
                0 <= k < s.len() && s[k] == inserted(s, e)[i]),
    decreases s.len(),
{
    let r = inserted(s, e);
    if s.len() == 0 || s.last().ranks(e) {
        assert forall|i: int| 0 <= i < r.len() implies (#[trigger] r[i] == e || exists|k: int|
            0 <= k < s.len() && s[k] == r[i]) by {
            if i < s.len() {
                assert(s[i] == r[i]);
            }
        }
    } else {
        let less = s.drop_last();
        lemma_inserted_members(less, e);
        let q = inserted(less, e);
        assert forall|i: int| 0 <= i < r.len() implies (#[trigger] r[i] == e || exists|k: int|
            0 <= k < s.len() && s[k] == r[i]) by {
            if i < q.len() {
                assert(r[i] == q[i]);
                if q[i] != e {
                    let k = choose|k: int| 0 <= k < less.len() && less[k] == q[i];
                    assert(s[k] == r[i]);
                }
            } else {
                assert(s[s.len() - 1] == r[i]);
            }
        }
    }
}

/// Sorting puts the same values in order.
pub proof fn law_sorting_orders<T: Ranked>(s: Seq<T>)
    ensures
        in_order(sorted_of(s)),
        sorted_of(s).to_multiset() == s.to_multiset(),
        sorted_of(s).len() == s.len(),
    decreases s.len(),
{
    broadcast use group_to_multiset_ensures;

    if s.len() > 0 {
        let less = s.drop_last();
        law_sorting_orders(less);
        lemma_inserted(sorted_of(less), s.last());
        assert(s =~= less.push(s.last()));
        assert(s.to_multiset() =~= less.to_multiset().insert(s.last()));
    } else {
        assert(s =~= Seq::empty());
    }
}

/// Values that are in order stay as they are.
pub proof fn lemma_sorted_is_fixed<T: Ranked>(s: Seq<T>)
    requires
        in_order(s),
    ensures
        sorted_of(s) == s,
    decreases s.len(),
{
    if s.len() > 0 {
        let less = s.drop_last();
        assert forall|i: int, j: int| 0 <= i < j < less.len() implies #[trigger] less[i].ranks(
            #[trigger] less[j],
        ) by {
            assert(s[i].ranks(s[j]));
        }
        lemma_sorted_is_fixed(less);
        if less.len() > 0 {
            assert(s[s.len() - 2].ranks(s[s.len() - 1]));
        }
        assert(less.push(s.last()) =~= s);
    } else {
        assert(s =~= Seq::empty());
    }
}

proof fn lemma_insert_at<T: Ranked>(s: Seq<T>, e: T, k: int)
    requires
        0 <= k <= s.len(),
        k == 0 || s[k - 1].ranks(e),
        forall|i: int| k <= i < s.len() ==> !(#[trigger] s[i].ranks(e)),
    ensures
        inserted(s, e) == s.insert(k, e),
    decreases s.len(),
{
    if k == s.len() {
        assert(s.insert(k, e) =~= s.push(e));
    } else {
        let less = s.drop_last();
        assert(!s[s.len() - 1].ranks(e));
        assert forall|i: int| k <= i < less.len() implies !(#[trigger] less[i].ranks(e)) by {
            assert(!s[i].ranks(e));
        }
        lemma_insert_at(less, e, k);
        assert(s.insert(k, e) =~= less.insert(k, e).push(s.last()));
    }
}

/// Puts the values in order. Those of the same rank keep the order in which they came.
pub fn sort<T: Ranked>(items: Vec<T>) -> (r: Vec<T>)
    ensures
        r@ == sorted_of(items@),
{
    let mut out: Vec<T> = Vec::new();
    let ghost all = items@;
    for item in it: items
        invariant
            it.seq() == all,
            out@ == sorted_of(all.take(it.index() as int)),
    {
        let ghost before = out@;
        let mut k: usize = out.len();
        while k > 0 && !out[k - 1].at_most(&item)
            invariant
                0 <= k <= out@.len(),
                out@ == before,
                forall|i: int| k <= i < out@.len() ==> !(#[trigger] out@[i].ranks(item)),
            decreases k,
        {
            k = k - 1;
        }
        proof {
            lemma_insert_at(before, item, k as int);
            let n = it.index() as int;
            assert(all.take(n + 1).drop_last() =~= all.take(n));
            assert(all.take(n + 1).last() == item);
        }
        out.insert(k, item);
    }
    proof {
        assert(all.take(all.len() as int) =~= all);
    }
    out
}

/// The order of byte strings: byte by byte, a beginning of another before the other.
pub open spec fn bytes_at_most(a: Seq<u8>, b: Seq<u8>) -> bool
    decreases a.len(),
{
    if a.len() == 0 {
        true
    } else if b.len() == 0 {
        false
    } else if a[0] != b[0] {
        a[0] < b[0]
    } else {
        bytes_at_most(a.skip(1), b.skip(1))
    }
}

pub proof fn lemma_bytes_total(a: Seq<u8>, b: Seq<u8>)
    ensures
        bytes_at_most(a, b) || bytes_at_most(b, a),
    decreases a.len(),
{
    if a.len() > 0 && b.len() > 0 && a[0] == b[0] {
        lemma_bytes_total(a.skip(1), b.skip(1));
    }
}

pub proof fn lemma_bytes_transitive(a: Seq<u8>, b: Seq<u8>, c: Seq<u8>)
    requires
        bytes_at_most(a, b),
        bytes_at_most(b, c),
    ensures
        bytes_at_most(a, c),
    decreases a.len(),
{
    if a.len() > 0 && b.len() > 0 && c.len() > 0 && a[0] == b[0] && b[0] == c[0] {
        lemma_bytes_transitive(a.skip(1), b.skip(1), c.skip(1));
    }
}

pub proof fn lemma_bytes_antisymmetric(a: Seq<u8>, b: Seq<u8>)
    requires
        bytes_at_most(a, b),
        bytes_at_most(b, a),
    ensures
        a == b,
    decreases a.len(),
{
    if a.len() > 0 && b.len() > 0 {
        lemma_bytes_antisymmetric(a.skip(1), b.skip(1));
        assert(a =~= seq![a[0]] + a.skip(1));
        assert(b =~= seq![b[0]] + b.skip(1));
    } else {
        assert(a =~= b);
    }
}

/// The order of texts: that of their bytes in UTF-8.
pub open spec fn text_at_most(a: Seq<char>, b: Seq<char>) -> bool {
    bytes_at_most(vstd::utf8::encode_utf8(a), vstd::utf8::encode_utf8(b))
}

/// Whether a byte string may stand before another.
pub fn bytes_le(x: &[u8], y: &[u8]) -> (r: bool)
    ensures
        r == bytes_at_most(x@, y@),
{
    let mut i: usize = 0;
    proof {
        assert(x@.skip(0) =~= x@);
        assert(y@.skip(0) =~= y@);
    }
    loop
        invariant
            i <= x@.len(),
            i <= y@.len(),
            bytes_at_most(x@, y@) == bytes_at_most(x@.skip(i as int), y@.skip(i as int)),
        decreases x@.len() - i,
    {
        if i == x.len() {
            return true;
        }
        if i == y.len() {
            return false;
        }
        if x[i] != y[i] {
            return x[i] < y[i];
        }
        proof {
            assert(x@.skip(i as int).skip(1) =~= x@.skip(i + 1));
            assert(y@.skip(i as int).skip(1) =~= y@.skip(i + 1));
        }
        i = i + 1;
    }
}

/// Whether a text may stand before another.
pub fn text_le(a: &str, b: &str) -> (r: bool)
    ensures
        r == text_at_most(a@, b@),
{
    bytes_le(a.as_bytes(), b.as_bytes())
}

/// What is in order already stays as it is, so that values of the same rank keep their order.
pub proof fn law_what_is_in_order_stays<T: Ranked>(s: Seq<T>)
    requires
        in_order(s),
    ensures
        sorted_of(s) == s,
    decreases s.len(),
{
    if s.len() > 0 {
        let less = s.drop_last();
        assert forall|i: int, j: int|
            #![trigger less[i], less[j]]
            0 <= i < j < less.len() implies less[i].ranks(less[j]) by {
            assert(s[i].ranks(s[j]));
        }
        law_what_is_in_order_stays(less);
        if less.len() > 0 {
            assert(s[less.len() - 1].ranks(s[s.len() - 1]));
        }
        assert(less.push(s.last()) =~= s);
    } else {
        assert(s =~= Seq::empty());
    }
}

} // verus!
