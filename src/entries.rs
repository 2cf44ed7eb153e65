use vstd::prelude::*;

use crate::text::str_eq;

verus! {

/// The keys of a list of keyed entries, in order.
pub open spec fn keys_of<V>(data: Seq<(String, V)>) -> Seq<Seq<char>> {
    data.map_values(|e: (String, V)| e.0@)
}

/// `s` with `x` appended holds exactly what `s` holds, and `x`.
pub proof fn lemma_push_contains(s: Seq<Seq<char>>, x: Seq<char>, k: Seq<char>)
    ensures
        s.push(x).contains(k) <==> s.contains(k) || k == x,
{
    if s.contains(k) {
        let w = choose|w: int| 0 <= w < s.len() && s[w] == k;
        assert(s.push(x)[w] == k);
    }
    if k == x {
        assert(s.push(x)[s.len() as int] == k);
    }
    if s.push(x).contains(k) && k != x {
        let g = s.push(x);
        let w = choose|w: int| 0 <= w < g.len() && g[w] == k;
        assert(s[w] == k);
    }
}

/// The index of the entry under `key`, if any.
pub fn find_key<V>(data: &Vec<(String, V)>, key: &str) -> (r: Option<usize>)
    ensures
        match r {
            Some(j) => j < data@.len() && data@[j as int].0@ == key@,
            None => !keys_of(data@).contains(key@),
        },
{
    let mut j: usize = 0;
    while j < data.len()
        invariant
            j <= data@.len(),
            forall|k: int| 0 <= k < j ==> data@[k].0@ != key@,
        decreases data@.len() - j,
    {
        if str_eq(data[j].0.as_str(), key) {
            return Some(j);
        }
        j = j + 1;
    }
    assert forall|k: int| 0 <= k < data@.len() implies keys_of(data@)[k] != key@ by {}
    None
}

/// Stores `value` under `key`, in place of any entry already under it; the
/// new entry comes last.
pub fn upsert<V>(data: &mut Vec<(String, V)>, key: String, value: V)
    requires
        keys_of(old(data)@).no_duplicates(),
    ensures
        keys_of(final(data)@).no_duplicates(),
        forall|k: Seq<char>|
            keys_of(final(data)@).contains(k) <==> keys_of(old(data)@).contains(k) || k == key@,
        final(data)@.len() == if keys_of(old(data)@).contains(key@) {
            old(data)@.len()
        } else {
            old(data)@.len() + 1
        },
        final(data)@.last() == (key, value),
        forall|i: int|
            0 <= i < old(data)@.len() && old(data)@[i].0@ != key@ ==> final(data)@.contains(
                #[trigger] old(data)@[i],
            ),
        forall|j: int|
            0 <= j < final(data)@.len() - 1 ==> old(data)@.contains(#[trigger] final(data)@[j]),
{
    let ghost od = data@;
    let ghost before = keys_of(data@);
    match find_key(data, key.as_str()) {
        Some(j) => {
            assert(before[j as int] == key@);
            assert(before.contains(key@));
            let _replaced = data.remove(j);
            let ghost kept = data@;
            assert(kept =~= od.remove(j as int));
            let ghost rest = before.remove(j as int);
            assert(keys_of(data@) =~= rest);
            data.push((key, value));
            assert(data@.drop_last() =~= kept);
            assert(keys_of(data@) =~= rest.push(key@));
            assert forall|k: Seq<char>|
                keys_of(data@).contains(k) <==> before.contains(k) || k == key@ by {
                lemma_push_contains(rest, key@, k);
                if before.contains(k) && k != key@ {
                    let w = choose|w: int| 0 <= w < before.len() && before[w] == k;
                    if w < j {
                        assert(rest[w] == k);
                    } else {
                        assert(rest[w - 1] == k);
                    }
                }
                if rest.contains(k) {
                    let w = choose|w: int| 0 <= w < rest.len() && rest[w] == k;
                    if w < j {
                        assert(before[w] == k);
                    } else {
                        assert(before[w + 1] == k);
                    }
                }
            }
            assert forall|a: int, b: int|
                0 <= a < b < keys_of(data@).len() implies keys_of(data@)[a] != keys_of(
                data@,
            )[b] by {
                let a2 = if a < j {
                    a
                } else {
                    a + 1
                };
                if b == keys_of(data@).len() - 1 {
                    assert(before[a2] != before[j as int]);
                } else {
                    let b2 = if b < j {
                        b
                    } else {
                        b + 1
                    };
                    assert(before[a2] != before[b2]);
                }
            }
            assert forall|i: int|
                0 <= i < od.len() && od[i].0@ != key@ implies data@.contains(#[trigger] od[i]) by {
                if i < j {
                    assert(data@[i] == od[i]);
                } else {
                    assert(i != j);
                    assert(data@[i - 1] == od[i]);
                }
            }
            assert forall|w: int| 0 <= w < data@.len() - 1 implies od.contains(#[trigger] data@[w]) by {
                if w < j {
                    assert(od[w] == data@[w]);
                } else {
                    assert(od[w + 1] == data@[w]);
                }
            }
        },
        None => {
            data.push((key, value));
            assert(data@.drop_last() =~= od);
            assert(keys_of(data@) =~= before.push(key@));
            assert forall|k: Seq<char>|
                keys_of(data@).contains(k) <==> before.contains(k) || k == key@ by {
                lemma_push_contains(before, key@, k);
            }
            assert forall|a: int, b: int|
                0 <= a < b < keys_of(data@).len() implies keys_of(data@)[a] != keys_of(
                data@,
            )[b] by {
                if b == keys_of(data@).len() - 1 {
                    assert(keys_of(data@)[a] == before[a]);
                }
            }
            assert forall|i: int|
                0 <= i < od.len() && od[i].0@ != key@ implies data@.contains(#[trigger] od[i]) by {
                assert(data@[i] == od[i]);
            }
            assert forall|w: int| 0 <= w < data@.len() - 1 implies od.contains(#[trigger] data@[w]) by {
                assert(od[w] == data@[w]);
            }
        },
    }
}

} // verus!
