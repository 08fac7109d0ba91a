//! Taking the marked entries out of a list.

use vstd::prelude::*;

verus! {

/// The entries whose mark is not set, in their order.
pub open spec fn unmarked<T>(s: Seq<T>, marks: Seq<bool>) -> Seq<T>
    recommends
        s.len() == marks.len(),
    decreases s.len(),
{
    if s.len() == 0 {
        s
    } else if marks.last() {
        unmarked(s.drop_last(), marks.drop_last())
    } else {
        unmarked(s.drop_last(), marks.drop_last()).push(s.last())
    }
}

/// The entries whose mark is set, in their order.
pub open spec fn marked<T>(s: Seq<T>, marks: Seq<bool>) -> Seq<T>
    recommends
        s.len() == marks.len(),
    decreases s.len(),
{
    if s.len() == 0 {
        s
    } else if marks.last() {
        marked(s.drop_last(), marks.drop_last()).push(s.last())
    } else {
        marked(s.drop_last(), marks.drop_last())
    }
}

/// The marked and the unmarked entries are entries of the list, and together as many.
pub proof fn lemma_marked_parts<T>(s: Seq<T>, marks: Seq<bool>)
    requires
        s.len() == marks.len(),
    ensures
        marked(s, marks).len() + unmarked(s, marks).len() == s.len(),
        forall|i: int| 0 <= i < marked(s, marks).len() ==> s.contains(#[trigger] marked(s, marks)[i]),
        forall|i: int|
            0 <= i < unmarked(s, marks).len() ==> s.contains(#[trigger] unmarked(s, marks)[i]),
    decreases s.len(),
{
    if s.len() > 0 {
        let t = s.drop_last();
        lemma_marked_parts(t, marks.drop_last());
        assert forall|i: int| 0 <= i < marked(s, marks).len() implies s.contains(
            #[trigger] marked(s, marks)[i],
        ) by {
            let x = marked(s, marks)[i];
            if i < marked(t, marks.drop_last()).len() {
                assert(t.contains(marked(t, marks.drop_last())[i]));
                let j = choose|j: int| 0 <= j < t.len() && t[j] == x;
                assert(s[j] == x);
            } else {
                assert(s[s.len() - 1] == x);
            }
        }
        assert forall|i: int| 0 <= i < unmarked(s, marks).len() implies s.contains(
            #[trigger] unmarked(s, marks)[i],
        ) by {
            let x = unmarked(s, marks)[i];
            if i < unmarked(t, marks.drop_last()).len() {
                assert(t.contains(unmarked(t, marks.drop_last())[i]));
                let j = choose|j: int| 0 <= j < t.len() && t[j] == x;
                assert(s[j] == x);
            } else {
                assert(s[s.len() - 1] == x);
            }
        }
    }
}

/// Whether the list has the entry at a place with the given mark.
pub open spec fn has_with_mark<T>(s: Seq<T>, marks: Seq<bool>, x: T, mark: bool) -> bool {
    exists|j: int| 0 <= j < s.len() && marks[j] == mark && #[trigger] s[j] == x
}

/// Every entry of the list is among the marked or the unmarked entries, as its mark says; and
/// each marked or unmarked entry is an entry of the list with that mark.
pub proof fn lemma_marked_by_mark<T>(s: Seq<T>, marks: Seq<bool>)
    requires
        s.len() == marks.len(),
    ensures
        forall|j: int|
            0 <= j < s.len() ==> if marks[j] {
                marked(s, marks).contains(#[trigger] s[j])
            } else {
                unmarked(s, marks).contains(s[j])
            },
        forall|i: int|
            0 <= i < marked(s, marks).len() ==> has_with_mark(
                s,
                marks,
                #[trigger] marked(s, marks)[i],
                true,
            ),
        forall|i: int|
            0 <= i < unmarked(s, marks).len() ==> has_with_mark(
                s,
                marks,
                #[trigger] unmarked(s, marks)[i],
                false,
            ),
    decreases s.len(),
{
    if s.len() > 0 {
        let t = s.drop_last();
        let m = marks.drop_last();
        lemma_marked_by_mark(t, m);
        let n = s.len() - 1;
        assert forall|j: int| 0 <= j < s.len() implies if marks[j] {
            marked(s, marks).contains(#[trigger] s[j])
        } else {
            unmarked(s, marks).contains(s[j])
        } by {
            if j < n {
                assert(t[j] == s[j]);
                if marks[j] {
                    assert(marked(t, m).contains(t[j]));
                    let i = choose|i: int| 0 <= i < marked(t, m).len() && marked(t, m)[i] == t[j];
                    assert(marked(s, marks)[i] == s[j]);
                } else {
                    assert(unmarked(t, m).contains(t[j]));
                    let i = choose|i: int|
                        0 <= i < unmarked(t, m).len() && unmarked(t, m)[i] == t[j];
                    assert(unmarked(s, marks)[i] == s[j]);
                }
            } else {
                if marks[j] {
                    assert(marked(s, marks)[marked(s, marks).len() - 1] == s[j]);
                } else {
                    assert(unmarked(s, marks)[unmarked(s, marks).len() - 1] == s[j]);
                }
            }
        }
        assert forall|i: int| 0 <= i < marked(s, marks).len() implies has_with_mark(
            s,
            marks,
            #[trigger] marked(s, marks)[i],
            true,
        ) by {
            if i < marked(t, m).len() {
                assert(has_with_mark(t, m, marked(t, m)[i], true));
                let j = choose|j: int|
                    0 <= j < t.len() && m[j] == true && #[trigger] t[j] == marked(t, m)[i];
                assert(marks[j] == true && s[j] == marked(s, marks)[i]);
            } else {
                assert(marks[n] == true && s[n] == marked(s, marks)[i]);
            }
        }
        assert forall|i: int| 0 <= i < unmarked(s, marks).len() implies has_with_mark(
            s,
            marks,
            #[trigger] unmarked(s, marks)[i],
            false,
        ) by {
            if i < unmarked(t, m).len() {
                assert(has_with_mark(t, m, unmarked(t, m)[i], false));
                let j = choose|j: int|
                    0 <= j < t.len() && m[j] == false && #[trigger] t[j] == unmarked(t, m)[i];
                assert(marks[j] == false && s[j] == unmarked(s, marks)[i]);
            } else {
                assert(marks[n] == false && s[n] == unmarked(s, marks)[i]);
            }
        }
    }
}

/// Takes the marked entries out of the list and hands them back; both parts keep their order.
pub fn split_marked<T>(v: &mut Vec<T>, marks: &Vec<bool>) -> (taken: Vec<T>)
    requires
        marks@.len() == old(v)@.len(),
    ensures
        final(v)@ == unmarked(old(v)@, marks@),
        taken@ == marked(old(v)@, marks@),
{
    let ghost before = v@;
    let mut taken: Vec<T> = Vec::new();
    let mut j: usize = 0;
    let mut k: usize = 0;
    proof {
        assert(before.take(0) =~= Seq::empty());
        assert(marks@.take(0) =~= Seq::empty());
        assert(v@.take(0) =~= Seq::empty());
        assert(v@.skip(0) =~= before.skip(0));
    }
    while k < marks.len()
        invariant
            k <= marks@.len(),
            marks@.len() == before.len(),
            j <= k,
            j <= v@.len(),
            v@.len() - j == before.len() - k,
            v@.take(j as int) == unmarked(before.take(k as int), marks@.take(k as int)),
            v@.skip(j as int) == before.skip(k as int),
            taken@ == marked(before.take(k as int), marks@.take(k as int)),
        decreases marks@.len() - k,
    {
        let ghost current = v@;
        proof {
            assert(current[j as int] == current.skip(j as int)[0]);
            assert(before[k as int] == before.skip(k as int)[0]);
            assert(before.take(k + 1).drop_last() =~= before.take(k as int));
            assert(marks@.take(k + 1).drop_last() =~= marks@.take(k as int));
            assert(before.skip(k as int).skip(1) =~= before.skip(k + 1));
        }
        if marks[k] {
            let entry = v.remove(j);
            taken.push(entry);
            proof {
                assert(v@.take(j as int) =~= current.take(j as int));
                assert(current.remove(j as int).skip(j as int) =~= current.skip(j as int).skip(1));
            }
        } else {
            j = j + 1;
            proof {
                assert(v@.take(j as int) =~= current.take(j as int - 1).push(
                    current[j as int - 1],
                ));
                assert(current.skip(j as int) =~= current.skip(j as int - 1).skip(1));
            }
        }
        k = k + 1;
    }
    proof {
        assert(v@.take(j as int) =~= v@);
        assert(before.take(k as int) =~= before);
        assert(marks@.take(k as int) =~= marks@);
    }
    taken
}

} // verus!
