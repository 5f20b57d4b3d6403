//! The order of texts: by character, from the left.
use crate::text::basic::{chars_of, texts};
use vstd::prelude::*;

verus! {

/// Whether `a` stands before `b`: at the first difference it has the smaller character, or it
/// ends first.
pub open spec fn before(a: Seq<char>, b: Seq<char>) -> bool
    decreases a.len(),
{
    if b.len() == 0 {
        false
    } else if a.len() == 0 {
        true
    } else if a[0] != b[0] {
        a[0] < b[0]
    } else {
        before(a.drop_first(), b.drop_first())
    }
}

/// Whether the texts of a list stand in strictly increasing order.
pub open spec fn increasing(s: Seq<Seq<char>>) -> bool {
    forall|i: int, j: int| 0 <= i < j < s.len() ==> before(#[trigger] s[i], #[trigger] s[j])
}

/// Whether `a` stands before `b`.
pub fn is_before(a: &str, b: &str) -> (r: bool)
    ensures
        r == before(a@, b@),
{
    let x = chars_of(a);
    let y = chars_of(b);
    let mut i: usize = 0;
    assert(x@.skip(0) == a@ && y@.skip(0) == b@);
    while i < x.len() && i < y.len() && x[i] == y[i]
        invariant
            i <= x@.len(),
            i <= y@.len(),
            before(a@, b@) == before(x@.skip(i as int), y@.skip(i as int)),
        decreases x@.len() - i,
    {
        assert(x@.skip(i as int).drop_first() == x@.skip(i + 1));
        assert(y@.skip(i as int).drop_first() == y@.skip(i + 1));
        i += 1;
    }
    if i == y.len() {
        false
    } else if i == x.len() {
        true
    } else {
        x[i] < y[i]
    }
}

/// The order of texts is strict and total: no text stands before itself, the order is
/// transitive, and of two different texts one stands before the other.
pub proof fn law_order_is_strict_and_total(a: Seq<char>, b: Seq<char>, c: Seq<char>)
    ensures
        !before(a, a),
        before(a, b) && before(b, c) ==> before(a, c),
        before(a, b) ==> !before(b, a),
        a != b ==> before(a, b) || before(b, a),
    decreases a.len() + b.len() + c.len(),
{
    if a.len() > 0 {
        lemma_irreflexive(a);
    }
    lemma_asymmetric(a, b);
    lemma_total(a, b);
    lemma_transitive(a, b, c);
}

proof fn lemma_irreflexive(a: Seq<char>)
    ensures
        !before(a, a),
    decreases a.len(),
{
    if a.len() > 0 {
        lemma_irreflexive(a.drop_first());
    }
}

proof fn lemma_asymmetric(a: Seq<char>, b: Seq<char>)
    ensures
        before(a, b) ==> !before(b, a),
    decreases a.len(),
{
    if a.len() > 0 && b.len() > 0 {
        lemma_asymmetric(a.drop_first(), b.drop_first());
    }
}

proof fn lemma_total(a: Seq<char>, b: Seq<char>)
    ensures
        a != b ==> before(a, b) || before(b, a),
    decreases a.len(),
{
    if a.len() > 0 && b.len() > 0 {
        lemma_total(a.drop_first(), b.drop_first());
        if a[0] == b[0] && a.drop_first() == b.drop_first() {
            assert(a == seq![a[0]] + a.drop_first());
            assert(b == seq![b[0]] + b.drop_first());
        }
    } else if a.len() == 0 && b.len() == 0 {
        assert(a == b);
    }
}

proof fn lemma_transitive(a: Seq<char>, b: Seq<char>, c: Seq<char>)
    ensures
        before(a, b) && before(b, c) ==> before(a, c),
    decreases a.len(),
{
    if a.len() > 0 && b.len() > 0 && c.len() > 0 {
        lemma_transitive(a.drop_first(), b.drop_first(), c.drop_first());
    }
}

/// Puts `item` into a list in increasing order, unless it is there already.
pub fn insert_text(list: &mut Vec<String>, item: String)
    requires
        increasing(texts(old(list)@)),
    ensures
        increasing(texts(final(list)@)),
        forall|t: Seq<char>| #[trigger]
            texts(final(list)@).contains(t) <==> texts(old(list)@).contains(t) || t == item@,
{
    let mut p: usize = 0;
    while p < list.len() && is_before(list[p].as_str(), item.as_str())
        invariant
            p <= list@.len(),
            list@ == old(list)@,
            forall|j: int| 0 <= j < p ==> before(#[trigger] texts(list@)[j], item@),
        decreases list@.len() - p,
    {
        p += 1;
    }
    let ghost was = texts(list@);
    if p < list.len() && list[p] == item {
        assert(was[p as int] == item@);
        return ;
    }
    proof {
        if p < list@.len() {
            law_order_is_strict_and_total(was[p as int], item@, item@);
        }
        assert forall|j: int| p <= j < was.len() implies before(item@, #[trigger] was[j]) by {
            if j > p {
                law_order_is_strict_and_total(item@, was[p as int], was[j]);
            }
        }
    }
    let ghost it = item@;
    list.insert(p, item);
    let ghost now = texts(list@);
    proof {
        assert(now =~= was.insert(p as int, it));
        assert forall|i: int, j: int| 0 <= i < j < now.len() implies before(
            #[trigger] now[i],
            #[trigger] now[j],
        ) by {
            let a = if i < p { i } else { i - 1 };
            let b = if j < p { j } else { j - 1 };
            if i != p && j != p {
                assert(now[i] == was[a] && now[j] == was[b]);
            } else if i == p {
                assert(now[j] == was[b]);
            } else {
                assert(now[i] == was[a]);
            }
        }
        assert forall|t: Seq<char>| #[trigger] now.contains(t) implies was.contains(t) || t == it by {
            let k = choose|k: int| 0 <= k < now.len() && now[k] == t;
            if k < p {
                assert(was[k] == t);
            } else if k > p {
                assert(was[k - 1] == t);
            }
        }
        assert forall|t: Seq<char>| was.contains(t) || t == it implies #[trigger] now.contains(t) by {
            if t == it {
                assert(now[p as int] == t);
            } else {
                let k = choose|k: int| 0 <= k < was.len() && was[k] == t;
                if k < p {
                    assert(now[k] == t);
                } else {
                    assert(now[k + 1] == t);
                }
            }
        }
    }
}

/// Whether two texts agree in their first `k` characters, after which `a` ends or has the smaller
/// character.
pub open spec fn parts_at(a: Seq<char>, b: Seq<char>, k: int) -> bool {
    &&& 0 <= k <= a.len()
    &&& k < b.len()
    &&& forall|i: int| 0 <= i < k ==> a[i] == b[i]
    &&& k < a.len() ==> a[k] < b[k]
}

/// A text stands before another exactly where they part in its favour.
pub proof fn law_order_of_texts(a: Seq<char>, b: Seq<char>)
    ensures
        before(a, b) == exists|k: int| #[trigger] parts_at(a, b, k),
    decreases a.len(),
{
    if b.len() == 0 {
        assert forall|k: int| !#[trigger] parts_at(a, b, k) by {}
    } else if a.len() == 0 || a[0] < b[0] {
        assert(parts_at(a, b, 0));
    } else if a[0] != b[0] {
        assert forall|k: int| !#[trigger] parts_at(a, b, k) by {
            if k > 0 && parts_at(a, b, k) {
                assert(a[0] == b[0]);
            }
        }
    } else {
        let x = a.drop_first();
        let y = b.drop_first();
        law_order_of_texts(x, y);
        if before(x, y) {
            let k = choose|k: int| #[trigger] parts_at(x, y, k);
            assert forall|i: int| 0 <= i < k + 1 implies a[i] == b[i] by {
                if i > 0 {
                    assert(x[i - 1] == y[i - 1]);
                }
            }
            assert(k < x.len() ==> x[k] == a[k + 1]);
            assert(y[k] == b[k + 1]);
            assert(parts_at(a, b, k + 1));
        }
        if exists|k: int| #[trigger] parts_at(a, b, k) {
            let k = choose|k: int| #[trigger] parts_at(a, b, k);
            assert(k > 0);
            assert forall|i: int| 0 <= i < k - 1 implies x[i] == y[i] by {
                assert(a[i + 1] == b[i + 1]);
            }
            assert(k < a.len() ==> x[k - 1] == a[k]);
            assert(y[k - 1] == b[k]);
            assert(parts_at(x, y, k - 1));
        }
    }
}

/// A list stays in order and without repetition whatever is put into it, and loses nothing.
pub proof fn law_inserted_text(list: &mut Vec<String>, item: String, t: Seq<char>, i: int, j: int)
    requires
        call_ensures(insert_text, (list, item), ()),
    ensures
        texts(final(list)@).contains(t) <==> texts(old(list)@).contains(t) || t == item@,
        0 <= i < j < final(list)@.len() ==> final(list)@[i]@ != final(list)@[j]@,
{
    if 0 <= i < j < final(list)@.len() {
        let now = texts(final(list)@);
        assert(now[i] == final(list)@[i]@ && now[j] == final(list)@[j]@);
        assert(before(now[i], now[j]));
        law_order_is_strict_and_total(now[i], now[j], now[i]);
    }
}

} // verus!
