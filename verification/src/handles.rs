//! Ordered lists of client handles.

use vstd::prelude::*;

verus! {

/// `s` without every occurrence of `h`, the rest in its order.
pub open spec fn without(s: Seq<usize>, h: usize) -> Seq<usize>
    decreases s.len(),
{
    if s.len() == 0 {
        s
    } else if s.last() == h {
        without(s.drop_last(), h)
    } else {
        without(s.drop_last(), h).push(s.last())
    }
}

/// The position of the first occurrence of `h` in `s`, or the length of `s`
/// where there is none.
pub open spec fn first_index(s: Seq<usize>, h: usize) -> int
    decreases s.len(),
{
    if s.len() == 0 {
        0
    } else if s[0] == h {
        0
    } else {
        1 + first_index(s.drop_first(), h)
    }
}

/// `without` keeps exactly the other elements, and keeps them apart.
pub proof fn lemma_without(s: Seq<usize>, h: usize)
    ensures
        !without(s, h).contains(h),
        forall|x: usize| x != h ==> (#[trigger] without(s, h).contains(x) <==> s.contains(x)),
        without(s, h).len() <= s.len(),
        !s.contains(h) ==> without(s, h) == s,
        s.contains(h) ==> without(s, h).len() < s.len(),
        s.no_duplicates() ==> without(s, h).no_duplicates(),
    decreases s.len(),
{
    if s.len() > 0 {
        let front = s.drop_last();
        lemma_without(front, h);
        let w = without(s, h);
        assert(s =~= front.push(s.last()));
        let kept = without(front, h);
        assert forall|x: usize| x != h implies (#[trigger] w.contains(x) <==> s.contains(x)) by {
            if w.contains(x) {
                let i = choose|i: int| 0 <= i < w.len() && w[i] == x;
                if i < kept.len() {
                    assert(kept[i] == x);
                    assert(kept.contains(x));
                    let j = choose|j: int| 0 <= j < front.len() && front[j] == x;
                    assert(s[j] == x);
                } else {
                    assert(s[s.len() - 1] == x);
                }
            }
            if s.contains(x) {
                let j = choose|j: int| 0 <= j < s.len() && s[j] == x;
                if j < front.len() {
                    assert(front[j] == x);
                    assert(front.contains(x));
                    assert(kept.contains(x));
                    let i = choose|i: int| 0 <= i < kept.len() && kept[i] == x;
                    if s.last() == h {
                        assert(w[i] == x);
                    } else {
                        assert(w == kept.push(s.last()));
                        assert(w[i] == x);
                    }
                } else {
                    assert(s.last() == x);
                    assert(w == kept.push(s.last()));
                    assert(w[w.len() - 1] == x);
                }
            }
        }
        if w.contains(h) {
            let i = choose|i: int| 0 <= i < w.len() && w[i] == h;
            assert(without(front, h).contains(h));
        }
        if !s.contains(h) {
            assert(!front.contains(h)) by {
                if front.contains(h) {
                    let j = choose|j: int| 0 <= j < front.len() && front[j] == h;
                    assert(s[j] == h);
                }
            }
            assert(s.last() != h) by {
                assert(s[s.len() - 1] == s.last());
            }
            assert(w =~= s);
        }
        if s.contains(h) && s.last() != h {
            let j = choose|j: int| 0 <= j < s.len() && s[j] == h;
            assert(front[j] == h);
        }
        if s.no_duplicates() {
            assert(front.no_duplicates());
            if s.last() != h {
                assert(!without(front, h).contains(s.last())) by {
                    if front.contains(s.last()) {
                        let j = choose|j: int| 0 <= j < front.len() && front[j] == s.last();
                        assert(s[j] == s[s.len() - 1]);
                    }
                }
                assert forall|i: int, j: int| 0 <= i < w.len() && 0 <= j < w.len() && i != j implies w[i]
                    != w[j] by {
                    if i == w.len() - 1 {
                        assert(without(front, h).contains(w[j]));
                    } else if j == w.len() - 1 {
                        assert(without(front, h).contains(w[i]));
                    }
                }
            }
        }
    }
}

/// `first_index` is the position of an occurrence before which there is none.
pub proof fn lemma_first_index(s: Seq<usize>, h: usize)
    ensures
        0 <= first_index(s, h) <= s.len(),
        forall|j: int| 0 <= j < first_index(s, h) ==> (#[trigger] s[j]) != h,
        first_index(s, h) < s.len() ==> s[first_index(s, h)] == h,
        first_index(s, h) < s.len() <==> s.contains(h),
    decreases s.len(),
{
    if s.len() > 0 && s[0] != h {
        let t = s.drop_first();
        lemma_first_index(t, h);
        assert forall|j: int| 0 <= j < first_index(s, h) implies (#[trigger] s[j]) != h by {
            if j > 0 {
                assert(s[j] == t[j - 1]);
            }
        }
        if first_index(t, h) < t.len() {
            assert(s[first_index(s, h)] == t[first_index(t, h)]);
        }
        if s.contains(h) {
            let j = choose|j: int| 0 <= j < s.len() && s[j] == h;
            assert(t[j - 1] == h);
        }
    }
}

/// Appending a new element to a list without duplicates leaves it so.
pub proof fn lemma_push_fresh(s: Seq<usize>, h: usize)
    requires
        s.no_duplicates(),
        !s.contains(h),
    ensures
        s.push(h).no_duplicates(),
        forall|x: usize| (#[trigger] s.push(h).contains(x)) <==> s.contains(x) || x == h,
{
    let t = s.push(h);
    assert forall|x: usize| (#[trigger] t.contains(x)) <==> s.contains(x) || x == h by {
        if t.contains(x) {
            let i = choose|i: int| 0 <= i < t.len() && t[i] == x;
            if i < s.len() {
                assert(s[i] == x);
            }
        }
        if s.contains(x) {
            let i = choose|i: int| 0 <= i < s.len() && s[i] == x;
            assert(t[i] == x);
        }
        if x == h {
            assert(t[s.len() as int] == h);
        }
    }
}

/// The position of the first occurrence of `h` in `list`, if there is one.
pub fn position_of(list: &Vec<usize>, h: usize) -> (r: Option<usize>)
    ensures
        r is Some <==> list@.contains(h),
        r is Some ==> r.unwrap() == first_index(list@, h),
{
    proof {
        lemma_first_index(list@, h);
    }
    let n = list.len();
    for i in 0..n
        invariant
            n == list@.len(),
            forall|j: int| 0 <= j < i ==> (#[trigger] list@[j]) != h,
    {
        proof {
            lemma_first_index(list@, h);
        }
        if list[i] == h {
            return Some(i);
        }
    }
    None
}

/// Takes every occurrence of `h` out of `list` and says whether there was
/// one.
pub fn remove_handle(list: &mut Vec<usize>, h: usize) -> (removed: bool)
    ensures
        final(list)@ == without(old(list)@, h),
        removed == old(list)@.contains(h),
{
    let mut kept: Vec<usize> = Vec::new();
    let mut removed = false;
    let n = list.len();
    for i in 0..n
        invariant
            n == list@.len(),
            list@ == old(list)@,
            kept@ == without(list@.take(i as int), h),
            removed == list@.take(i as int).contains(h),
    {
        let ghost before = list@.take(i as int);
        let ghost after = list@.take(i + 1);
        assert(after.drop_last() =~= before);
        assert(after.last() == list@[i as int]);
        proof {
            if before.contains(h) {
                let j = choose|j: int| 0 <= j < before.len() && before[j] == h;
                assert(after[j] == h);
            }
            if after.contains(h) && list@[i as int] != h {
                let j = choose|j: int| 0 <= j < after.len() && after[j] == h;
                assert(before[j] == h);
            }
        }
        if list[i] == h {
            removed = true;
            assert(after[i as int] == h);
        } else {
            kept.push(list[i]);
        }
    }
    assert(list@.take(n as int) =~= list@);
    *list = kept;
    removed
}

} // verus!
