//! Small maps keyed by strings, held as lists of `(key, value)` pairs whose
//! keys are all different. They stand where the original keeps a `HashMap`
//! or a `HashSet` of strings.
use vstd::prelude::*;

verus! {

broadcast use vstd::string::group_string_axioms;

/// No key occurs twice.
pub open spec fn keys_unique<V>(s: Seq<(String, V)>) -> bool {
    forall|i: int, j: int| 0 <= i < j < s.len() ==> #[trigger] s[i].0@ != #[trigger] s[j].0@
}

/// The map that a list of pairs stands for (a later pair wins).
pub open spec fn to_map<V>(s: Seq<(String, V)>) -> Map<Seq<char>, V>
    decreases s.len(),
{
    if s.len() == 0 {
        Map::empty()
    } else {
        to_map(s.drop_last()).insert(s.last().0@, s.last().1)
    }
}

/// The keys of the map are the keys of the pairs.
pub proof fn lemma_to_map_dom<V>(s: Seq<(String, V)>)
    ensures
        forall|k: Seq<char>| #[trigger] to_map(s).dom().contains(k) <==> exists|i: int| 0 <= i < s.len() && s[i].0@ == k,
    decreases s.len(),
{
    if s.len() > 0 {
        lemma_to_map_dom(s.drop_last());
        assert forall|k: Seq<char>| #[trigger] to_map(s).dom().contains(k) <==> exists|i: int| 0 <= i < s.len() && s[i].0@ == k by {
            if to_map(s).dom().contains(k) && k != s.last().0@ {
                assert(to_map(s.drop_last()).dom().contains(k));
                let i = choose|i: int| 0 <= i < s.drop_last().len() && s.drop_last()[i].0@ == k;
                assert(s[i].0@ == k);
            }
            if exists|i: int| 0 <= i < s.len() && s[i].0@ == k {
                let i = choose|i: int| 0 <= i < s.len() && s[i].0@ == k;
                if i < s.len() - 1 {
                    assert(s.drop_last()[i].0@ == k);
                    assert(to_map(s.drop_last()).dom().contains(k));
                }
            }
        }
    }
}

/// With distinct keys, the value of a key is the value of its pair.
pub proof fn lemma_to_map_index<V>(s: Seq<(String, V)>, i: int)
    requires
        keys_unique(s),
        0 <= i < s.len(),
    ensures
        to_map(s).dom().contains(s[i].0@),
        to_map(s)[s[i].0@] == s[i].1,
    decreases s.len(),
{
    if i < s.len() - 1 {
        lemma_to_map_index(s.drop_last(), i);
        assert(s[i].0@ != s.last().0@);
    }
}

/// Replacing the value of pair `i` replaces the value of its key.
pub proof fn lemma_to_map_update<V>(s: Seq<(String, V)>, i: int, v: V)
    requires
        keys_unique(s),
        0 <= i < s.len(),
    ensures
        to_map(s.update(i, (s[i].0, v))) == to_map(s).insert(s[i].0@, v),
    decreases s.len(),
{
    let t = s.update(i, (s[i].0, v));
    if i == s.len() - 1 {
        assert(t.drop_last() =~= s.drop_last());
        lemma_to_map_dom(s.drop_last());
        assert(to_map(t) =~= to_map(s).insert(s[i].0@, v));
    } else {
        lemma_to_map_update(s.drop_last(), i, v);
        assert(t.drop_last() =~= s.drop_last().update(i, (s[i].0, v)));
        assert(s[i].0@ != s.last().0@);
        assert(to_map(t) =~= to_map(s).insert(s[i].0@, v));
    }
}

/// Removing pair `i` removes its key.
pub proof fn lemma_to_map_remove<V>(s: Seq<(String, V)>, i: int)
    requires
        keys_unique(s),
        0 <= i < s.len(),
    ensures
        to_map(s.remove(i)) == to_map(s).remove(s[i].0@),
        keys_unique(s.remove(i)),
    decreases s.len(),
{
    let t = s.remove(i);
    if i == s.len() - 1 {
        assert(t =~= s.drop_last());
        lemma_to_map_dom(s.drop_last());
        assert(!to_map(s.drop_last()).dom().contains(s.last().0@)) by {
            if to_map(s.drop_last()).dom().contains(s.last().0@) {
                let j = choose|j: int| 0 <= j < s.drop_last().len() && s.drop_last()[j].0@ == s.last().0@;
                assert(s[j].0@ == s[s.len() - 1].0@);
            }
        }
        assert(to_map(t) =~= to_map(s).remove(s[i].0@));
    } else {
        lemma_to_map_remove(s.drop_last(), i);
        assert(t.drop_last() =~= s.drop_last().remove(i));
        assert(t.last() == s.last());
        assert(s[i].0@ != s.last().0@);
        assert(to_map(t) =~= to_map(s).remove(s[i].0@));
    }
    assert forall|a: int, b: int| 0 <= a < b < t.len() implies #[trigger] t[a].0@ != #[trigger] t[b].0@ by {
        let a2 = if a < i { a } else { a + 1 };
        let b2 = if b < i { b } else { b + 1 };
        assert(t[a] == s[a2] && t[b] == s[b2]);
    }
}

/// Position of `key` among the pairs.
pub fn find_key<V>(s: &Vec<(String, V)>, key: &str) -> (r: Option<usize>)
    ensures
        match r {
            Some(i) => i < s.len() && s@[i as int].0@ == key@,
            None => !to_map(s@).dom().contains(key@),
        },
{
    let mut i: usize = 0;
    while i < s.len()
        invariant
            i <= s.len(),
            forall|k: int| 0 <= k < i ==> s@[k].0@ != key@,
        decreases s.len() - i,
    {
        if crate::text::str_eq(s[i].0.as_str(), key) {
            return Some(i);
        }
        i += 1;
    }
    proof {
        lemma_to_map_dom(s@);
    }
    None
}

/// Sets the value of `key`, adding the key when it is new.
pub fn insert_key<V>(s: &mut Vec<(String, V)>, key: String, value: V)
    requires
        keys_unique(old(s)@),
    ensures
        keys_unique(final(s)@),
        to_map(final(s)@) == to_map(old(s)@).insert(key@, value),
{
    match find_key(s, key.as_str()) {
        Some(i) => {
            proof {
                lemma_to_map_update(s@, i as int, value);
            }
            let ghost before = s@;
            s.set(i, (key, value));
            proof {
                assert forall|a: int, b: int| 0 <= a < b < s@.len() implies #[trigger] s@[a].0@ != #[trigger] s@[b].0@ by {
                    assert(s@[a].0@ == before[a].0@ && s@[b].0@ == before[b].0@);
                }
                assert(to_map(s@) == to_map(before.update(i as int, (before[i as int].0, value)))) by {
                    lemma_to_map_same_keys(s@, before.update(i as int, (before[i as int].0, value)));
                }
            }
        },
        None => {
            let ghost before = s@;
            s.push((key, value));
            proof {
                assert(s@.drop_last() =~= before);
                lemma_to_map_dom(before);
                assert forall|a: int, b: int| 0 <= a < b < s@.len() implies #[trigger] s@[a].0@ != #[trigger] s@[b].0@ by {
                    if b == s@.len() - 1 {
                        assert(before[a].0@ == s@[a].0@);
                    }
                }
            }
        },
    }
}

/// Two lists that agree on the characters of their keys and on their values
/// stand for the same map.
proof fn lemma_to_map_same_keys<V>(a: Seq<(String, V)>, b: Seq<(String, V)>)
    requires
        a.len() == b.len(),
        forall|i: int| 0 <= i < a.len() ==> a[i].0@ == b[i].0@ && a[i].1 == b[i].1,
    ensures
        to_map(a) == to_map(b),
    decreases a.len(),
{
    if a.len() > 0 {
        lemma_to_map_same_keys(a.drop_last(), b.drop_last());
    }
}

/// Removes `key` and gives back its value, if it was there.
pub fn remove_key<V>(s: &mut Vec<(String, V)>, key: &str) -> (r: Option<V>)
    requires
        keys_unique(old(s)@),
    ensures
        keys_unique(final(s)@),
        to_map(final(s)@) == to_map(old(s)@).remove(key@),
        match r {
            Some(v) => to_map(old(s)@).dom().contains(key@) && to_map(old(s)@)[key@] == v,
            None => !to_map(old(s)@).dom().contains(key@),
        },
{
    match find_key(s, key) {
        Some(i) => {
            proof {
                lemma_to_map_remove(s@, i as int);
                lemma_to_map_index(s@, i as int);
            }
            let (_, v) = s.remove(i);
            Some(v)
        },
        None => {
            assert(to_map(s@).remove(key@) =~= to_map(s@));
            None
        },
    }
}

/// The value of `key`, if it is there.
pub fn get_key<'a, V>(s: &'a Vec<(String, V)>, key: &str) -> (r: Option<&'a V>)
    requires
        keys_unique(s@),
    ensures
        match r {
            Some(v) => to_map(s@).dom().contains(key@) && to_map(s@)[key@] == *v,
            None => !to_map(s@).dom().contains(key@),
        },
{
    match find_key(s, key) {
        Some(i) => {
            proof {
                lemma_to_map_index(s@, i as int);
            }
            Some(&s[i].1)
        },
        None => None,
    }
}

/// A set of strings held as a list without repeats.
pub open spec fn no_repeats(s: Seq<String>) -> bool {
    forall|i: int, j: int| 0 <= i < j < s.len() ==> #[trigger] s[i]@ != #[trigger] s[j]@
}

/// The set that a list of strings stands for.
pub open spec fn str_set(s: Seq<String>) -> Set<Seq<char>> {
    Set::new(|k: Seq<char>| exists|i: int| 0 <= i < s.len() && s[i]@ == k)
}

/// Adds `key` to the set.
pub fn set_insert(s: &mut Vec<String>, key: String)
    requires
        no_repeats(old(s)@),
    ensures
        no_repeats(final(s)@),
        str_set(final(s)@) == str_set(old(s)@).insert(key@),
{
    if crate::strings::list_contains(s, key.as_str()) {
        proof {
            let i = choose|i: int| 0 <= i < s@.len() && crate::strings::strs(s@)[i] == key@;
            assert(s@[i]@ == key@);
            assert(str_set(s@) =~= str_set(s@).insert(key@));
        }
        return;
    }
    let ghost before = s@;
    s.push(key);
    proof {
        assert forall|i: int| 0 <= i < before.len() implies before[i]@ != key@ by {
            assert(crate::strings::strs(before)[i] == before[i]@);
        }
        assert forall|a: int, b: int| 0 <= a < b < s@.len() implies #[trigger] s@[a]@ != #[trigger] s@[b]@ by {
            if b < before.len() {
                assert(s@[a] == before[a] && s@[b] == before[b]);
            } else {
                assert(s@[a] == before[a]);
            }
        }
        assert forall|k: Seq<char>| str_set(s@).contains(k) <==> str_set(before).insert(key@).contains(k) by {
            if str_set(s@).contains(k) {
                let i = choose|i: int| 0 <= i < s@.len() && s@[i]@ == k;
                if i < before.len() {
                    assert(before[i]@ == k);
                }
            }
            if str_set(before).contains(k) {
                let i = choose|i: int| 0 <= i < before.len() && before[i]@ == k;
                assert(s@[i]@ == k);
            }
            if k == key@ {
                assert(s@[before.len() as int]@ == k);
            }
        }
        assert(str_set(s@) =~= str_set(before).insert(key@));
    }
}

/// Removes `key` from the set.
pub fn set_remove(s: &mut Vec<String>, key: &str)
    requires
        no_repeats(old(s)@),
    ensures
        no_repeats(final(s)@),
        str_set(final(s)@) == str_set(old(s)@).remove(key@),
{
    let mut i: usize = 0;
    while i < s.len()
        invariant
            i <= s.len(),
            s@ == old(s)@,
            no_repeats(s@),
            forall|k: int| 0 <= k < i ==> s@[k]@ != key@,
        decreases s.len() - i,
    {
        if crate::text::str_eq(s[i].as_str(), key) {
            let ghost before = s@;
            s.remove(i);
            proof {
                assert forall|a: int, b: int| 0 <= a < b < s@.len() implies #[trigger] s@[a]@ != #[trigger] s@[b]@ by {
                    let a2 = if a < i { a } else { a + 1 };
                    let b2 = if b < i { b } else { b + 1 };
                    assert(s@[a] == before[a2] && s@[b] == before[b2]);
                }
                assert forall|k: Seq<char>| str_set(s@).contains(k) <==> str_set(before).remove(key@).contains(k) by {
                    if str_set(s@).contains(k) {
                        let j = choose|j: int| 0 <= j < s@.len() && s@[j]@ == k;
                        let j2 = if j < i { j } else { j + 1 };
                        assert(before[j2]@ == k);
                        assert(j2 != i);
                    }
                    if str_set(before).remove(key@).contains(k) {
                        let j = choose|j: int| 0 <= j < before.len() && before[j]@ == k;
                        assert(j != i);
                        if j < i {
                            assert(s@[j]@ == k);
                        } else {
                            assert(s@[j - 1]@ == k);
                        }
                    }
                }
                assert(str_set(s@) =~= str_set(before).remove(key@));
            }
            return;
        }
        i += 1;
    }
    assert(str_set(s@) =~= str_set(s@).remove(key@));
}

/// Whether `key` is in the set.
pub fn set_contains(s: &Vec<String>, key: &str) -> (r: bool)
    ensures
        r == str_set(s@).contains(key@),
{
    let r = crate::strings::list_contains(s, key);
    proof {
        if r {
            let i = choose|i: int| 0 <= i < s@.len() && crate::strings::strs(s@)[i] == key@;
            assert(s@[i]@ == key@);
        } else {
            assert forall|i: int| 0 <= i < s@.len() implies s@[i]@ != key@ by {
                assert(crate::strings::strs(s@)[i] == s@[i]@);
            }
        }
    }
    r
}

} // verus!
