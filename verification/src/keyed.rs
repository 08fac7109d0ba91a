//! Lists of entries that are found by a 64-bit key and keep the order in which they came.

use vstd::prelude::*;

verus! {

/// Whether some entry of the list has the key.
pub open spec fn has_key<V>(s: Seq<(u64, V)>, k: u64) -> bool {
    exists|i: int| 0 <= i < s.len() && (#[trigger] s[i]).0 == k
}

/// Whether no two entries share a key.
pub open spec fn distinct_keys<V>(s: Seq<(u64, V)>) -> bool {
    forall|i: int, j: int| 0 <= i < j < s.len() ==> (#[trigger] s[i]).0 != (#[trigger] s[j]).0
}

/// The list read as a map; of two entries with one key the later counts.
pub open spec fn as_map<V>(s: Seq<(u64, V)>) -> Map<u64, V>
    decreases s.len(),
{
    if s.len() == 0 {
        Map::empty()
    } else {
        as_map(s.drop_last()).insert(s.last().0, s.last().1)
    }
}

/// The keys of the map are the keys of the list.
pub proof fn lemma_as_map_dom<V>(s: Seq<(u64, V)>)
    ensures
        forall|k: u64| #[trigger] as_map(s).contains_key(k) <==> has_key(s, k),
        as_map(s).dom().finite(),
    decreases s.len(),
{
    if s.len() > 0 {
        let t = s.drop_last();
        lemma_as_map_dom(t);
        assert forall|k: u64| #[trigger] as_map(s).contains_key(k) <==> has_key(s, k) by {
            if has_key(s, k) {
                let i = choose|i: int| 0 <= i < s.len() && (#[trigger] s[i]).0 == k;
                if i < s.len() - 1 {
                    assert(t[i].0 == k);
                    assert(has_key(t, k));
                }
            }
            if as_map(s).contains_key(k) {
                if k == s.last().0 {
                    assert(s[s.len() - 1].0 == k);
                } else {
                    assert(has_key(t, k));
                    let i = choose|i: int| 0 <= i < t.len() && (#[trigger] t[i]).0 == k;
                    assert(s[i].0 == k);
                }
            }
        }
    }
}

/// In a list with distinct keys the map gives each key the value of its entry.
pub proof fn lemma_as_map_value<V>(s: Seq<(u64, V)>, i: int)
    requires
        distinct_keys(s),
        0 <= i < s.len(),
    ensures
        as_map(s).contains_key(s[i].0),
        as_map(s)[s[i].0] == s[i].1,
    decreases s.len(),
{
    let t = s.drop_last();
    if i < s.len() - 1 {
        assert(distinct_keys(t)) by {
            assert forall|a: int, b: int| 0 <= a < b < t.len() implies (#[trigger] t[a]).0 != (
            #[trigger] t[b]).0 by {
                assert(s[a].0 != s[b].0);
            }
        }
        lemma_as_map_value(t, i);
        assert(t[i] == s[i]);
        assert(s[i].0 != s[s.len() - 1].0);
    }
}

/// Adding an entry at the end is an insertion into the map.
pub proof fn lemma_as_map_push<V>(s: Seq<(u64, V)>, k: u64, v: V)
    ensures
        as_map(s.push((k, v))) == as_map(s).insert(k, v),
{
    assert(s.push((k, v)).drop_last() =~= s);
}

/// Replacing the value of an entry is an insertion into the map, where keys are distinct.
pub proof fn lemma_as_map_update<V>(s: Seq<(u64, V)>, i: int, v: V)
    requires
        distinct_keys(s),
        0 <= i < s.len(),
    ensures
        as_map(s.update(i, (s[i].0, v))) =~= as_map(s).insert(s[i].0, v),
        distinct_keys(s.update(i, (s[i].0, v))),
    decreases s.len(),
{
    let u = s.update(i, (s[i].0, v));
    let t = s.drop_last();
    assert(distinct_keys(u)) by {
        assert forall|a: int, b: int| 0 <= a < b < u.len() implies (#[trigger] u[a]).0 != (
        #[trigger] u[b]).0 by {
            assert(s[a].0 != s[b].0);
        }
    }
    assert(distinct_keys(t)) by {
        assert forall|a: int, b: int| 0 <= a < b < t.len() implies (#[trigger] t[a]).0 != (
        #[trigger] t[b]).0 by {
            assert(s[a].0 != s[b].0);
        }
    }
    if i == s.len() - 1 {
        assert(u.drop_last() =~= t);
    } else {
        lemma_as_map_update(t, i, v);
        assert(u.drop_last() =~= t.update(i, (t[i].0, v)));
        assert(s[i].0 != s[s.len() - 1].0);
        assert(u.last() == s.last());
    }
}

/// Taking an entry out removes its key from the map, where keys are distinct.
pub proof fn lemma_as_map_remove<V>(s: Seq<(u64, V)>, i: int)
    requires
        distinct_keys(s),
        0 <= i < s.len(),
    ensures
        as_map(s.remove(i)) =~= as_map(s).remove(s[i].0),
        distinct_keys(s.remove(i)),
        forall|k: u64| has_key(s.remove(i), k) <==> (has_key(s, k) && k != s[i].0),
    decreases s.len(),
{
    let r = s.remove(i);
    let t = s.drop_last();
    assert(distinct_keys(r)) by {
        assert forall|a: int, b: int| 0 <= a < b < r.len() implies (#[trigger] r[a]).0 != (
        #[trigger] r[b]).0 by {
            let a2 = if a < i { a } else { a + 1 };
            let b2 = if b < i { b } else { b + 1 };
            assert(s[a2].0 != s[b2].0);
        }
    }
    assert(distinct_keys(t)) by {
        assert forall|a: int, b: int| 0 <= a < b < t.len() implies (#[trigger] t[a]).0 != (
        #[trigger] t[b]).0 by {
            assert(s[a].0 != s[b].0);
        }
    }
    if i == s.len() - 1 {
        assert(r =~= t);
        lemma_as_map_dom(t);
        assert(!has_key(t, s[i].0)) by {
            if has_key(t, s[i].0) {
                let j = choose|j: int| 0 <= j < t.len() && (#[trigger] t[j]).0 == s[i].0;
                assert(s[j].0 != s[i].0);
            }
        }
    } else {
        lemma_as_map_remove(t, i);
        assert(r.drop_last() =~= t.remove(i));
        assert(r.last() == s.last());
        assert(s[i].0 != s[s.len() - 1].0);
    }
    lemma_as_map_dom(r);
    lemma_as_map_dom(s);
    assert forall|k: u64| has_key(r, k) <==> (has_key(s, k) && k != s[i].0) by {
        assert(as_map(r).contains_key(k) <==> has_key(r, k));
        assert(as_map(s).contains_key(k) <==> has_key(s, k));
        assert(as_map(r).contains_key(k) <==> as_map(s).remove(s[i].0).contains_key(k));
    }
}

/// The place of a key in the list, if it has one: the first entry with that key.
pub fn find_key<V>(v: &Vec<(u64, V)>, k: u64) -> (r: Option<usize>)
    ensures
        r is None <==> !has_key(v@, k),
        r matches Some(i) ==> i < v.len() && v@[i as int].0 == k && forall|j: int|
            0 <= j < i ==> (#[trigger] v@[j]).0 != k,
{
    let mut i: usize = 0;
    while i < v.len()
        invariant
            i <= v.len(),
            forall|j: int| 0 <= j < i ==> (#[trigger] v@[j]).0 != k,
        decreases v.len() - i,
    {
        if v[i].0 == k {
            return Some(i);
        }
        i = i + 1;
    }
    None
}

/// The place of a value in a list of keys, if it occurs.
pub fn contains_u64(v: &Vec<u64>, k: u64) -> (r: bool)
    ensures
        r == v@.contains(k),
{
    let mut i: usize = 0;
    while i < v.len()
        invariant
            i <= v.len(),
            forall|j: int| 0 <= j < i ==> v@[j] != k,
        decreases v.len() - i,
    {
        if v[i] == k {
            return true;
        }
        i = i + 1;
    }
    false
}

} // verus!

verus! {

/// The list without the entries that have the key.
pub open spec fn without_key<V>(s: Seq<(u64, V)>, k: u64) -> Seq<(u64, V)>
    decreases s.len(),
{
    if s.len() == 0 {
        s
    } else if s.last().0 == k {
        without_key(s.drop_last(), k)
    } else {
        without_key(s.drop_last(), k).push(s.last())
    }
}

/// Dropping a key that the list does not have changes nothing.
pub proof fn lemma_without_absent_key<V>(s: Seq<(u64, V)>, k: u64)
    requires
        !has_key(s, k),
    ensures
        without_key(s, k) == s,
    decreases s.len(),
{
    if s.len() > 0 {
        let t = s.drop_last();
        assert(s[s.len() - 1].0 != k);
        assert(!has_key(t, k)) by {
            if has_key(t, k) {
                let j = choose|j: int| 0 <= j < t.len() && (#[trigger] t[j]).0 == k;
                assert(s[j].0 == k);
            }
        }
        lemma_without_absent_key(t, k);
        assert(t.push(s.last()) =~= s);
    }
}

/// Where keys are distinct, dropping a key takes out the one entry that has it.
pub proof fn lemma_without_key<V>(s: Seq<(u64, V)>, i: int)
    requires
        distinct_keys(s),
        0 <= i < s.len(),
    ensures
        without_key(s, s[i].0) == s.remove(i),
    decreases s.len(),
{
    let k = s[i].0;
    let t = s.drop_last();
    if i == s.len() - 1 {
        assert(!has_key(t, k)) by {
            if has_key(t, k) {
                let j = choose|j: int| 0 <= j < t.len() && (#[trigger] t[j]).0 == k;
                assert(s[j].0 != s[i].0);
            }
        }
        lemma_without_absent_key(t, k);
        assert(s.remove(i) =~= t);
    } else {
        assert(distinct_keys(t)) by {
            assert forall|a: int, b: int| 0 <= a < b < t.len() implies (#[trigger] t[a]).0 != (
            #[trigger] t[b]).0 by {
                assert(s[a].0 != s[b].0);
            }
        }
        lemma_without_key(t, i);
        assert(s[i].0 != s[s.len() - 1].0);
        assert(t.remove(i).push(s.last()) =~= s.remove(i));
    }
}

/// Takes the entry with the key out of a list with distinct keys and hands its value back.
pub fn take_key<V>(v: &mut Vec<(u64, V)>, k: u64) -> (r: Option<V>)
    requires
        distinct_keys(old(v)@),
    ensures
        distinct_keys(final(v)@),
        final(v)@ == without_key(old(v)@, k),
        as_map(final(v)@) == as_map(old(v)@).remove(k),
        r is Some <==> has_key(old(v)@, k),
        r matches Some(value) ==> as_map(old(v)@)[k] == value,
        forall|x: u64| has_key(final(v)@, x) <==> (has_key(old(v)@, x) && x != k),
{
    match find_key(v, k) {
        Some(i) => {
            proof {
                lemma_without_key(v@, i as int);
                lemma_as_map_remove(v@, i as int);
                lemma_as_map_value(v@, i as int);
            }
            let entry = v.remove(i);
            Some(entry.1)
        },
        None => {
            proof {
                lemma_without_absent_key(v@, k);
                lemma_as_map_dom(v@);
                assert(as_map(v@).remove(k) =~= as_map(v@));
            }
            None
        },
    }
}

/// Gives the key a value: in place where the list has the key, at the end where it does not.
pub fn put_key<V>(v: &mut Vec<(u64, V)>, k: u64, value: V)
    requires
        distinct_keys(old(v)@),
    ensures
        distinct_keys(final(v)@),
        final(v)@ == put(old(v)@, k, value),
        as_map(final(v)@) == as_map(old(v)@).insert(k, value),
        forall|x: u64| has_key(final(v)@, x) <==> (has_key(old(v)@, x) || x == k),
{
    proof {
        lemma_as_map_dom(v@);
    }
    let ghost before = v@;
    match find_key(v, k) {
        Some(i) => {
            proof {
                lemma_as_map_update(v@, i as int, value);
                lemma_put_present(v@, k, value, i as int);
            }
            v.set(i, (k, value));
        },
        None => {
            proof {
                lemma_as_map_push(v@, k, value);
            }
            v.push((k, value));
            assert(distinct_keys(v@)) by {
                assert forall|a: int, b: int| 0 <= a < b < v@.len() implies (#[trigger] v@[a]).0
                    != (#[trigger] v@[b]).0 by {
                    if b == v@.len() - 1 {
                        assert(before[a].0 != k);
                    } else {
                        assert(before[a].0 != before[b].0);
                    }
                }
            }
        },
    }
    proof {
        lemma_as_map_dom(v@);
        assert forall|x: u64| has_key(v@, x) <==> (has_key(before, x) || x == k) by {
            assert(as_map(v@).contains_key(x) <==> has_key(v@, x));
            assert(as_map(before).contains_key(x) <==> has_key(before, x));
        }
    }
}

/// The list after a key got a value: the entry is replaced where it stands, or added at the
/// end.
pub open spec fn put<V>(s: Seq<(u64, V)>, k: u64, value: V) -> Seq<(u64, V)> {
    if has_key(s, k) {
        s.update(first_index(s, k), (k, value))
    } else {
        s.push((k, value))
    }
}

/// The place of the first entry with the key.
pub open spec fn first_index<V>(s: Seq<(u64, V)>, k: u64) -> int {
    choose|i: int| 0 <= i < s.len() && (#[trigger] s[i]).0 == k
}

/// Where keys are distinct, the place of a key is the place of any entry that has it.
pub proof fn lemma_put_present<V>(s: Seq<(u64, V)>, k: u64, value: V, i: int)
    requires
        distinct_keys(s),
        0 <= i < s.len(),
        s[i].0 == k,
    ensures
        first_index(s, k) == i,
        put(s, k, value) == s.update(i, (k, value)),
{
    let j = first_index(s, k);
    assert(0 <= j < s.len() && s[j].0 == k);
    if j < i {
        assert(s[j].0 != s[i].0);
    }
    if i < j {
        assert(s[i].0 != s[j].0);
    }
}

} // verus!
