//! Sorting of name-keyed items in `String` order.

use vstd::prelude::*;
use vstd::multiset::Multiset;

use crate::text::{lemma_seq_le_antisym, lemma_seq_le_total, lemma_seq_le_trans, seq_le, str_le};

verus! {

broadcast use vstd::seq_lib::group_to_multiset_ensures;

/// Keys in non-decreasing `String` order.
pub open spec fn sorted_by_key<T>(s: Seq<(String, T)>) -> bool {
    forall|i: int, j: int| 0 <= i < j < s.len() ==> seq_le(#[trigger] s[i].0@, #[trigger] s[j].0@)
}

/// Views in non-decreasing `String` order.
pub open spec fn sorted_seqs(s: Seq<Seq<char>>) -> bool {
    forall|i: int, j: int| 0 <= i < j < s.len() ==> seq_le(#[trigger] s[i], #[trigger] s[j])
}

/// The items of `v`, reordered so their keys are ascending (a permutation of
/// `v`).
pub fn sort_by_key<T>(v: Vec<(String, T)>) -> (r: Vec<(String, T)>)
    ensures
        sorted_by_key(r@),
        r@.to_multiset() == v@.to_multiset(),
{
    let ghost orig = v@;
    let mut rest = v;
    let mut out: Vec<(String, T)> = Vec::new();
    while rest.len() > 0
        invariant
            out@.to_multiset().add(rest@.to_multiset()) == orig.to_multiset(),
            sorted_by_key(out@),
            forall|i: int, j: int|
                0 <= i < out@.len() && 0 <= j < rest@.len() ==> seq_le(
                    #[trigger] out@[i].0@,
                    #[trigger] rest@[j].0@,
                ),
        decreases rest@.len(),
    {
        let mut m: usize = 0;
        let mut k: usize = 1;
        proof { crate::text::lemma_seq_le_refl(rest@[0].0@); }
        while k < rest.len()
            invariant
                m < k <= rest@.len(),
                forall|j: int| 0 <= j < k ==> seq_le(rest@[m as int].0@, #[trigger] rest@[j].0@),
            decreases rest@.len() - k,
        {
            if !str_le(rest[m].0.as_str(), rest[k].0.as_str()) {
                proof {
                    lemma_seq_le_total(rest@[m as int].0@, rest@[k as int].0@);
                    assert forall|j: int| 0 <= j < k + 1 implies seq_le(
                        rest@[k as int].0@,
                        #[trigger] rest@[j].0@,
                    ) by {
                        if j < k {
                            lemma_seq_le_trans(
                                rest@[k as int].0@,
                                rest@[m as int].0@,
                                rest@[j].0@,
                            );
                        } else {
                            crate::text::lemma_seq_le_refl(rest@[j].0@);
                        }
                    }
                }
                m = k;
            }
            k += 1;
        }
        let ghost before = rest@;
        let ghost out_before = out@;
        let e = rest.remove(m);
        proof {
            assert(before.remove(m as int).to_multiset() == before.to_multiset().remove(
                before[m as int],
            ));
        }
        out.push(e);
        proof {
            assert(out@ == out_before.push(e));
            assert(out@.to_multiset() == out_before.to_multiset().insert(e));
            assert(out@.to_multiset().add(rest@.to_multiset()) =~= out_before.to_multiset().add(
                before.to_multiset(),
            ));
            assert forall|i: int, j: int| 0 <= i < j < out@.len() implies seq_le(
                #[trigger] out@[i].0@,
                #[trigger] out@[j].0@,
            ) by {
                if j < out@.len() - 1 {
                    assert(out@[i] == out_before[i]);
                    assert(out@[j] == out_before[j]);
                } else {
                    assert(out@[i] == out_before[i]);
                    assert(out@[j] == before[m as int]);
                }
            }
            assert forall|i: int, j: int|
                0 <= i < out@.len() && 0 <= j < rest@.len() implies seq_le(
                #[trigger] out@[i].0@,
                #[trigger] rest@[j].0@,
            ) by {
                let jj = if j < m { j } else { j + 1 };
                assert(rest@[j] == before[jj]);
                if i < out@.len() - 1 {
                    assert(out@[i] == out_before[i]);
                } else {
                    assert(out@[i] == before[m as int]);
                }
            }
        }
    }
    proof {
        assert(rest@.to_multiset() =~= Multiset::empty());
        assert(out@.to_multiset().add(Multiset::empty()) =~= out@.to_multiset());
    }
    out
}

/// The strings of `v`, ascending (a permutation of `v`).
pub fn sort_strings(v: Vec<String>) -> (r: Vec<String>)
    ensures
        sorted_seqs(crate::text::views(r@)),
        r@.to_multiset() == v@.to_multiset(),
{
    let ghost orig = v@;
    let mut rest = v;
    let mut out: Vec<String> = Vec::new();
    while rest.len() > 0
        invariant
            out@.to_multiset().add(rest@.to_multiset()) == orig.to_multiset(),
            sorted_seqs(crate::text::views(out@)),
            forall|i: int, j: int|
                0 <= i < out@.len() && 0 <= j < rest@.len() ==> seq_le(
                    #[trigger] out@[i]@,
                    #[trigger] rest@[j]@,
                ),
        decreases rest@.len(),
    {
        let mut m: usize = 0;
        let mut k: usize = 1;
        proof { crate::text::lemma_seq_le_refl(rest@[0]@); }
        while k < rest.len()
            invariant
                m < k <= rest@.len(),
                forall|j: int| 0 <= j < k ==> seq_le(rest@[m as int]@, #[trigger] rest@[j]@),
            decreases rest@.len() - k,
        {
            if !str_le(rest[m].as_str(), rest[k].as_str()) {
                proof {
                    lemma_seq_le_total(rest@[m as int]@, rest@[k as int]@);
                    assert forall|j: int| 0 <= j < k + 1 implies seq_le(
                        rest@[k as int]@,
                        #[trigger] rest@[j]@,
                    ) by {
                        if j < k {
                            lemma_seq_le_trans(rest@[k as int]@, rest@[m as int]@, rest@[j]@);
                        } else {
                            crate::text::lemma_seq_le_refl(rest@[j]@);
                        }
                    }
                }
                m = k;
            }
            k += 1;
        }
        let ghost before = rest@;
        let ghost out_before = out@;
        let e = rest.remove(m);
        proof {
            assert(before.remove(m as int).to_multiset() == before.to_multiset().remove(
                before[m as int],
            ));
        }
        out.push(e);
        proof {
            assert(out@ == out_before.push(e));
            assert(out@.to_multiset() == out_before.to_multiset().insert(e));
            assert(out@.to_multiset().add(rest@.to_multiset()) =~= out_before.to_multiset().add(
                before.to_multiset(),
            ));
            assert forall|i: int, j: int|
                0 <= i < j < crate::text::views(out@).len() implies seq_le(
                #[trigger] crate::text::views(out@)[i],
                #[trigger] crate::text::views(out@)[j],
            ) by {
                assert(crate::text::views(out_before)[i] == out_before[i]@);
                if j < out@.len() - 1 {
                    assert(crate::text::views(out_before)[j] == out_before[j]@);
                    assert(out@[i] == out_before[i]);
                    assert(out@[j] == out_before[j]);
                } else {
                    assert(out@[i] == out_before[i]);
                    assert(out@[j] == before[m as int]);
                }
            }
            assert forall|i: int, j: int|
                0 <= i < out@.len() && 0 <= j < rest@.len() implies seq_le(
                #[trigger] out@[i]@,
                #[trigger] rest@[j]@,
            ) by {
                let jj = if j < m { j } else { j + 1 };
                assert(rest@[j] == before[jj]);
                if i < out@.len() - 1 {
                    assert(out@[i] == out_before[i]);
                } else {
                    assert(out@[i] == before[m as int]);
                }
            }
        }
    }
    proof {
        assert(rest@.to_multiset() =~= Multiset::empty());
        assert(out@.to_multiset().add(Multiset::empty()) =~= out@.to_multiset());
    }
    out
}

/// `s` in ascending order: the one sorted sequence holding the same items.
pub open spec fn sorted_of(s: Seq<Seq<char>>) -> Seq<Seq<char>> {
    choose|t: Seq<Seq<char>>| sorted_seqs(t) && t.to_multiset() == s.to_multiset()
}

/// Two ascending sequences of the same items are the same sequence.
pub proof fn lemma_sorted_unique(a: Seq<Seq<char>>, b: Seq<Seq<char>>)
    requires
        sorted_seqs(a),
        sorted_seqs(b),
        a.to_multiset() == b.to_multiset(),
    ensures
        a == b,
    decreases a.len(),
{
    if a.len() == 0 {
        assert(b.to_multiset().len() == 0);
        assert(b.len() == 0);
        assert(a =~= b);
    } else {
        assert(a.to_multiset().len() == a.len());
        assert(b.to_multiset().len() == b.len());
        assert(a.to_multiset().count(a[0]) > 0);
        assert(b.contains(a[0]));
        let j = choose|j: int| 0 <= j < b.len() && b[j] == a[0];
        assert(b.to_multiset().count(b[0]) > 0);
        assert(a.contains(b[0]));
        let i = choose|i: int| 0 <= i < a.len() && a[i] == b[0];
        if i > 0 {
            assert(seq_le(a[0], a[i]));
        } else {
            crate::text::lemma_seq_le_refl(a[0]);
        }
        if j > 0 {
            assert(seq_le(b[0], b[j]));
        } else {
            crate::text::lemma_seq_le_refl(b[0]);
        }
        lemma_seq_le_antisym(a[0], b[0]);
        assert(a.drop_first() =~= a.remove(0));
        assert(b.drop_first() =~= b.remove(0));
        assert(a.remove(0).to_multiset() == a.to_multiset().remove(a[0]));
        assert(b.remove(0).to_multiset() == b.to_multiset().remove(b[0]));
        assert(sorted_seqs(a.drop_first())) by {
            assert forall|x: int, y: int| 0 <= x < y < a.drop_first().len() implies seq_le(
                #[trigger] a.drop_first()[x],
                #[trigger] a.drop_first()[y],
            ) by {
                assert(a.drop_first()[x] == a[x + 1]);
                assert(a.drop_first()[y] == a[y + 1]);
            }
        }
        assert(sorted_seqs(b.drop_first())) by {
            assert forall|x: int, y: int| 0 <= x < y < b.drop_first().len() implies seq_le(
                #[trigger] b.drop_first()[x],
                #[trigger] b.drop_first()[y],
            ) by {
                assert(b.drop_first()[x] == b[x + 1]);
                assert(b.drop_first()[y] == b[y + 1]);
            }
        }
        lemma_sorted_unique(a.drop_first(), b.drop_first());
        assert(a =~= seq![a[0]] + a.drop_first());
        assert(b =~= seq![b[0]] + b.drop_first());
    }
}

/// A sorted permutation of `s` is `sorted_of(s)`.
pub proof fn lemma_sorted_of(s: Seq<Seq<char>>, t: Seq<Seq<char>>)
    requires
        sorted_seqs(t),
        t.to_multiset() == s.to_multiset(),
    ensures
        sorted_of(s) == t,
{
    let u = sorted_of(s);
    assert(sorted_seqs(u) && u.to_multiset() == s.to_multiset());
    lemma_sorted_unique(u, t);
}

/// `w` with `x` inserted before the first item it does not come after.
pub open spec fn insert_sorted(w: Seq<Seq<char>>, x: Seq<char>) -> Seq<Seq<char>>
    decreases w.len(),
{
    if w.len() == 0 {
        seq![x]
    } else if seq_le(x, w[0]) {
        seq![x] + w
    } else {
        seq![w[0]] + insert_sorted(w.drop_first(), x)
    }
}

proof fn lemma_insert_sorted(w: Seq<Seq<char>>, x: Seq<char>)
    requires
        sorted_seqs(w),
    ensures
        sorted_seqs(insert_sorted(w, x)),
        insert_sorted(w, x).to_multiset() == w.to_multiset().insert(x),
        insert_sorted(w, x).len() == w.len() + 1,
        forall|y: Seq<char>| (forall|i: int| 0 <= i < w.len() ==> seq_le(y, #[trigger] w[i])) && seq_le(y, x)
            ==> forall|i: int| 0 <= i < insert_sorted(w, x).len() ==> seq_le(y, #[trigger] insert_sorted(w, x)[i]),
    decreases w.len(),
{
    let r = insert_sorted(w, x);
    if w.len() == 0 {
        assert(r.to_multiset() =~= Seq::<Seq<char>>::empty().push(x).to_multiset());
        assert(w.to_multiset() =~= vstd::multiset::Multiset::empty());
    } else if seq_le(x, w[0]) {
        assert(forall|i: int| 0 < i < r.len() ==> r[i] == w[i - 1]);
        assert forall|i: int, j: int| 0 <= i < j < r.len() implies seq_le(#[trigger] r[i], #[trigger] r[j]) by {
            if i == 0 {
                if j > 1 {
                    lemma_seq_le_trans(x, w[0], w[j - 1]);
                }
            }
        }
        vstd::seq_lib::lemma_multiset_commutative(seq![x], w);
        assert(seq![x].to_multiset() =~= vstd::multiset::Multiset::singleton(x)) by {
            assert(seq![x] =~= Seq::<Seq<char>>::empty().push(x));
            assert(Seq::<Seq<char>>::empty().to_multiset() =~= vstd::multiset::Multiset::empty());
        }
        assert(r.to_multiset() =~= w.to_multiset().insert(x));
    } else {
        let rest = w.drop_first();
        assert(sorted_seqs(rest)) by {
            assert forall|a: int, b: int| 0 <= a < b < rest.len() implies seq_le(#[trigger] rest[a], #[trigger] rest[b]) by {
                assert(rest[a] == w[a + 1] && rest[b] == w[b + 1]);
            }
        }
        lemma_insert_sorted(rest, x);
        lemma_seq_le_total(x, w[0]);
        let tail = insert_sorted(rest, x);
        assert(forall|i: int| 0 <= i < rest.len() ==> seq_le(w[0], #[trigger] rest[i])) by {
            assert forall|i: int| 0 <= i < rest.len() implies seq_le(w[0], #[trigger] rest[i]) by {
                assert(rest[i] == w[i + 1]);
            }
        }
        assert(forall|i: int| 0 <= i < tail.len() ==> seq_le(w[0], #[trigger] tail[i]));
        assert forall|i: int, j: int| 0 <= i < j < r.len() implies seq_le(#[trigger] r[i], #[trigger] r[j]) by {
            if i == 0 {
                assert(r[j] == tail[j - 1]);
            } else {
                assert(r[i] == tail[i - 1] && r[j] == tail[j - 1]);
            }
        }
        assert(r =~= seq![w[0]] + tail);
        assert(w =~= seq![w[0]] + rest);
        vstd::seq_lib::lemma_multiset_commutative(seq![w[0]], tail);
        vstd::seq_lib::lemma_multiset_commutative(seq![w[0]], rest);
        assert(seq![w[0]].to_multiset() =~= vstd::multiset::Multiset::singleton(w[0])) by {
            assert(seq![w[0]] =~= Seq::<Seq<char>>::empty().push(w[0]));
            assert(Seq::<Seq<char>>::empty().to_multiset() =~= vstd::multiset::Multiset::empty());
        }
        assert(r.to_multiset() =~= w.to_multiset().insert(x));
        assert forall|y: Seq<char>| (forall|i: int| 0 <= i < w.len() ==> seq_le(y, #[trigger] w[i])) && seq_le(y, x)
            implies forall|i: int| 0 <= i < r.len() ==> seq_le(y, #[trigger] r[i]) by {
            assert forall|i: int| 0 <= i < rest.len() implies seq_le(y, #[trigger] rest[i]) by {
                assert(rest[i] == w[i + 1]);
            }
            assert forall|i: int| 0 <= i < r.len() implies seq_le(y, #[trigger] r[i]) by {
                if i == 0 {
                } else {
                    assert(r[i] == tail[i - 1]);
                }
            }
        }
    }
}

/// Every sequence of names has a sorted permutation.
pub proof fn lemma_sorted_exists(s: Seq<Seq<char>>)
    ensures
        sorted_seqs(sorted_of(s)),
        sorted_of(s).to_multiset() == s.to_multiset(),
    decreases s.len(),
{
    if s.len() == 0 {
        let w = Seq::<Seq<char>>::empty();
        assert(sorted_seqs(w) && w.to_multiset() == s.to_multiset()) by {
            assert(s =~= w);
        }
    } else {
        lemma_sorted_exists(s.drop_last());
        let w = sorted_of(s.drop_last());
        lemma_insert_sorted(w, s.last());
        let u = insert_sorted(w, s.last());
        assert(s =~= s.drop_last().push(s.last()));
        assert(s.to_multiset() == s.drop_last().to_multiset().insert(s.last()));
        assert(sorted_seqs(u) && u.to_multiset() == s.to_multiset());
    }
}

/// The sorted form of a sequence holds exactly its items.
pub proof fn lemma_sorted_of_contains(s: Seq<Seq<char>>, x: Seq<char>)
    ensures
        sorted_of(s).contains(x) <==> s.contains(x),
{
    lemma_sorted_exists(s);
    assert(sorted_of(s).to_multiset().count(x) == s.to_multiset().count(x));
}

} // verus!
