use crate::span::Span;
use vstd::prelude::*;

verus! {

/// Whether the spans of `s` stand in ascending order of their start.
pub open spec fn sorted_by_lo(s: Seq<Span>) -> bool {
    forall|i: int, j: int| 0 <= i < j < s.len() ==> s[i].lo <= s[j].lo
}

/// How many spans of `s` start at or before `lo`.
pub open spec fn count_upto(s: Seq<Span>, lo: u32) -> nat
    decreases s.len(),
{
    if s.len() == 0 {
        0
    } else {
        count_upto(s.drop_last(), lo) + if s.last().lo <= lo {
            1nat
        } else {
            0nat
        }
    }
}

/// `s` with `x` placed behind the spans that start at or before it.
pub open spec fn place(s: Seq<Span>, x: Span) -> Seq<Span> {
    s.insert(count_upto(s, x.lo) as int, x)
}

/// The spans of `s` in ascending order of their start; spans with one start
/// keep the order they had in `s`.
pub open spec fn sort_by_lo(s: Seq<Span>) -> Seq<Span>
    decreases s.len(),
{
    if s.len() == 0 {
        s
    } else {
        place(sort_by_lo(s.drop_last()), s.last())
    }
}

/// In a sequence that `p` parts into the spans that start at or before `lo`
/// and those that start after it, `p` is the count of the former.
pub proof fn lemma_count_split(s: Seq<Span>, lo: u32, p: int)
    requires
        0 <= p <= s.len(),
        forall|k: int| 0 <= k < p ==> s[k].lo <= lo,
        forall|k: int| p <= k < s.len() ==> s[k].lo > lo,
    ensures
        count_upto(s, lo) == p,
    decreases s.len(),
{
    if s.len() > 0 {
        let t = s.drop_last();
        if p == s.len() {
            lemma_count_split(t, lo, p - 1);
        } else {
            lemma_count_split(t, lo, p);
        }
    }
}

/// The count of a sorted sequence parts it: before it stand the spans that
/// start at or before `lo`, from it on those that start after.
pub proof fn lemma_count_parts(s: Seq<Span>, lo: u32)
    requires
        sorted_by_lo(s),
    ensures
        count_upto(s, lo) <= s.len(),
        forall|k: int| 0 <= k < count_upto(s, lo) ==> s[k].lo <= lo,
        forall|k: int| count_upto(s, lo) <= k < s.len() ==> s[k].lo > lo,
    decreases s.len(),
{
    if s.len() > 0 {
        let t = s.drop_last();
        assert(sorted_by_lo(t));
        lemma_count_parts(t, lo);
        if s.last().lo <= lo {
            assert forall|k: int| 0 <= k < s.len() implies s[k].lo <= lo by {
                if k < s.len() - 1 {
                    assert(s[k].lo <= s[s.len() - 1].lo);
                }
            }
            lemma_count_split(t, lo, t.len() as int);
        } else {
            assert forall|k: int| count_upto(s, lo) <= k < s.len() implies s[k].lo > lo by {
                if k < s.len() - 1 {
                    assert(t[k] == s[k]);
                }
            }
            assert forall|k: int| 0 <= k < count_upto(s, lo) implies s[k].lo <= lo by {
                assert(t[k] == s[k]);
            }
        }
    }
}

/// Placing a span into a sorted sequence keeps it sorted and adds that span
/// and nothing else.
pub proof fn lemma_place(s: Seq<Span>, x: Span)
    requires
        sorted_by_lo(s),
    ensures
        sorted_by_lo(place(s, x)),
        place(s, x).len() == s.len() + 1,
        place(s, x).to_multiset() == s.to_multiset().insert(x),
{
    lemma_count_parts(s, x.lo);
    let p = count_upto(s, x.lo) as int;
    let t = place(s, x);
    assert forall|i: int, j: int| 0 <= i < j < t.len() implies t[i].lo <= t[j].lo by {
        if j < p {
            assert(t[i] == s[i] && t[j] == s[j]);
        } else if j == p {
            assert(t[i] == s[i]);
        } else if i < p {
            assert(t[i] == s[i] && t[j] == s[j - 1]);
        } else if i == p {
            assert(t[j] == s[j - 1]);
        } else {
            assert(t[i] == s[i - 1] && t[j] == s[j - 1]);
        }
    }
    vstd::seq_lib::to_multiset_insert(s, p, x);
}

/// Sorting yields a sorted sequence of the same spans, each as often as it
/// was there.
pub proof fn lemma_sort_by_lo(s: Seq<Span>)
    ensures
        sorted_by_lo(sort_by_lo(s)),
        sort_by_lo(s).len() == s.len(),
        sort_by_lo(s).to_multiset() == s.to_multiset(),
    decreases s.len(),
{
    if s.len() > 0 {
        let t = s.drop_last();
        lemma_sort_by_lo(t);
        lemma_place(sort_by_lo(t), s.last());
        assert(t.push(s.last()) =~= s);
        vstd::seq_lib::to_multiset_insert(t, t.len() as int, s.last());
        assert(t.insert(t.len() as int, s.last()) =~= s);
    } else {
        assert(sort_by_lo(s) =~= s);
    }
}

/// The spans of `s` that start at `lo`, in the order they have in `s`.
pub open spec fn starting_at(s: Seq<Span>, lo: u32) -> Seq<Span>
    decreases s.len(),
{
    if s.len() == 0 {
        s
    } else {
        let before = starting_at(s.drop_last(), lo);
        if s.last().lo == lo {
            before.push(s.last())
        } else {
            before
        }
    }
}

proof fn lemma_starting_at_add(a: Seq<Span>, b: Seq<Span>, lo: u32)
    ensures
        starting_at(a + b, lo) == starting_at(a, lo) + starting_at(b, lo),
    decreases b.len(),
{
    if b.len() == 0 {
        assert(a + b =~= a);
        assert(starting_at(a, lo) + starting_at(b, lo) =~= starting_at(a, lo));
    } else {
        assert((a + b).drop_last() =~= a + b.drop_last());
        assert((a + b).last() == b.last());
        lemma_starting_at_add(a, b.drop_last(), lo);
        let front = starting_at(a, lo);
        let back = starting_at(b.drop_last(), lo);
        assert((front + back).push(b.last()) =~= front + back.push(b.last()));
    }
}

proof fn lemma_starting_at_none(s: Seq<Span>, lo: u32)
    requires
        forall|k: int| 0 <= k < s.len() ==> s[k].lo != lo,
    ensures
        starting_at(s, lo) == Seq::<Span>::empty(),
    decreases s.len(),
{
    if s.len() > 0 {
        lemma_starting_at_none(s.drop_last(), lo);
    }
}

proof fn lemma_place_starting_at(s: Seq<Span>, x: Span, lo: u32)
    requires
        sorted_by_lo(s),
    ensures
        starting_at(place(s, x), lo) == if x.lo == lo {
            starting_at(s, lo).push(x)
        } else {
            starting_at(s, lo)
        },
{
    lemma_count_parts(s, x.lo);
    let p = count_upto(s, x.lo) as int;
    let front = s.take(p);
    let back = s.skip(p);
    let one = seq![x];
    assert(s =~= front + back);
    assert(place(s, x) =~= (front + one) + back);
    lemma_starting_at_add(front, back, lo);
    lemma_starting_at_add(front + one, back, lo);
    lemma_starting_at_add(front, one, lo);
    assert(one.drop_last() =~= Seq::<Span>::empty());
    assert(starting_at(one.drop_last(), lo) =~= Seq::<Span>::empty());
    if x.lo == lo {
        assert(starting_at(one, lo) =~= one);
        lemma_starting_at_none(back, lo);
        assert(starting_at(front, lo) + one + Seq::<Span>::empty() =~= (starting_at(front, lo)
            + Seq::<Span>::empty()).push(x));
    } else {
        assert(starting_at(one, lo) =~= Seq::<Span>::empty());
        assert(starting_at(front, lo) + Seq::<Span>::empty() + starting_at(back, lo)
            =~= starting_at(front, lo) + starting_at(back, lo));
    }
}

/// Sorting is stable: the spans that start at one place stand in the sorted
/// sequence in the order they had before.
pub proof fn lemma_sort_is_stable(s: Seq<Span>, lo: u32)
    ensures
        starting_at(sort_by_lo(s), lo) == starting_at(s, lo),
    decreases s.len(),
{
    if s.len() > 0 {
        let t = s.drop_last();
        lemma_sort_is_stable(t, lo);
        lemma_sort_by_lo(t);
        lemma_place_starting_at(sort_by_lo(t), s.last(), lo);
    }
}

/// The spans of `spans` in ascending order of their start. Spans with one
/// start keep their order.
pub fn sort_spans(spans: &Vec<Span>) -> (sorted: Vec<Span>)
    ensures
        sorted@ == sort_by_lo(spans@),
        sorted_by_lo(sorted@),
        sorted@.len() == spans@.len(),
        sorted@.to_multiset() == spans@.to_multiset(),
{
    let mut sorted: Vec<Span> = Vec::new();
    let mut i: usize = 0;
    assert(spans@.take(0) =~= Seq::<Span>::empty());
    while i < spans.len()
        invariant
            i <= spans.len(),
            sorted@ == sort_by_lo(spans@.take(i as int)),
        decreases spans.len() - i,
    {
        let x = spans[i];
        proof {
            lemma_sort_by_lo(spans@.take(i as int));
        }
        let mut p: usize = 0;
        while p < sorted.len() && sorted[p].lo <= x.lo
            invariant
                p <= sorted.len(),
                forall|k: int| 0 <= k < p ==> sorted@[k].lo <= x.lo,
            decreases sorted.len() - p,
        {
            p += 1;
        }
        proof {
            assert forall|k: int| p <= k < sorted@.len() implies sorted@[k].lo > x.lo by {
                if p < k {
                    assert(sorted@[p as int].lo <= sorted@[k].lo);
                }
            }
            lemma_count_split(sorted@, x.lo, p as int);
            let next = spans@.take(i + 1);
            assert(next.drop_last() =~= spans@.take(i as int));
            assert(next.last() == x);
        }
        sorted.insert(p, x);
        i += 1;
    }
    proof {
        assert(spans@.take(spans@.len() as int) =~= spans@);
        lemma_sort_by_lo(spans@);
    }
    sorted
}

} // verus!
