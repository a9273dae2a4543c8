//! The delete engine.
use crate::source::{has_name, names_unique, SourceMap, SourceView};
use crate::text::str_eq;
use vstd::prelude::*;

verus! {

/// The entries of `s` whose names are not among `names`, in order.
pub open spec fn without_names(s: Seq<(Seq<char>, SourceView)>, names: Seq<Seq<char>>) -> Seq<(Seq<char>, SourceView)>
    decreases s.len(),
{
    if s.len() == 0 {
        s
    } else {
        let rest = without_names(s.drop_last(), names);
        if names.contains(s.last().0) {
            rest
        } else {
            rest.push(s.last())
        }
    }
}

pub open spec fn name_views(names: Seq<String>) -> Seq<Seq<char>> {
    names.map_values(|n: String| n@)
}

fn is_listed(names: &Vec<String>, name: &str) -> (r: bool)
    ensures
        r == name_views(names@).contains(name@),
{
    let mut i: usize = 0;
    while i < names.len()
        invariant
            i <= names@.len(),
            forall|j: int| 0 <= j < i ==> names@[j]@ != name@,
        decreases names.len() - i,
    {
        if str_eq(names[i].as_str(), name) {
            proof {
                assert(name_views(names@)[i as int] == name@);
            }
            return true;
        }
        i += 1;
    }
    proof {
        if name_views(names@).contains(name@) {
            let k = choose|k: int| 0 <= k < name_views(names@).len() && name_views(names@)[k] == name@;
            assert(names@[k]@ == name@);
        }
    }
    false
}

/// The names are pairwise different.
pub open spec fn names_distinct(names: Seq<String>) -> bool {
    forall|i: int, j: int| 0 <= i < j < names.len() ==> names[i]@ != names[j]@
}

/// `n` is given more than once.
pub open spec fn repeated(names: Seq<String>, n: Seq<char>) -> bool {
    exists|i: int, j: int| 0 <= i < j < names.len() && names[i]@ == n && names[j]@ == n
}

/// Whether `name` is among the first `k` names.
fn listed_before(names: &Vec<String>, k: usize, name: &str) -> (r: bool)
    requires
        k <= names@.len(),
    ensures
        r == exists|i: int| 0 <= i < k && names@[i]@ == name@,
{
    let mut i: usize = 0;
    while i < k
        invariant
            i <= k <= names@.len(),
            forall|j: int| 0 <= j < i ==> names@[j]@ != name@,
        decreases k - i,
    {
        if str_eq(names[i].as_str(), name) {
            return true;
        }
        i += 1;
    }
    false
}

/// Removes the sources called `names`, all or none: where a name is not in
/// the map, or is given twice, that name is the error and nothing is removed.
pub fn delete_sources(map: &mut SourceMap, names: &Vec<String>) -> (r: Result<(), String>)
    requires
        old(map).wf(),
    ensures
        final(map).wf(),
        r is Ok <==> (forall|i: int| 0 <= i < names@.len() ==> has_name(old(map)@, #[trigger] names@[i]@))
            && names_distinct(names@),
        r matches Err(n) ==> name_views(names@).contains(n@) && (!has_name(old(map)@, n@) || repeated(
            names@,
            n@,
        )),
        r is Err ==> final(map)@ == old(map)@,
        r is Ok ==> final(map)@ == without_names(old(map)@, name_views(names@)),
{
    let mut k: usize = 0;
    while k < names.len()
        invariant
            k <= names@.len(),
            map@ == old(map)@,
            map.wf(),
            forall|i: int| 0 <= i < k ==> has_name(map@, #[trigger] names@[i]@),
            forall|i: int, j: int| 0 <= i < j < k ==> names@[i]@ != names@[j]@,
        decreases names.len() - k,
    {
        proof {
            assert(name_views(names@)[k as int] == names@[k as int]@);
        }
        if !map.contains_key(names[k].as_str()) {
            return Err(names[k].clone());
        }
        if listed_before(names, k, names[k].as_str()) {
            proof {
                let i = choose|i: int| 0 <= i < k && names@[i]@ == names@[k as int]@;
                assert(repeated(names@, names@[k as int]@));
            }
            return Err(names[k].clone());
        }
        k += 1;
    }
    let ghost orig = map@;
    let ghost nv = name_views(names@);
    let mut i: usize = 0;
    let ghost mut j: int = 0;
    proof {
        assert(orig.take(0) =~= Seq::<(Seq<char>, SourceView)>::empty());
        assert(map@.take(0) =~= without_names(orig.take(0), nv));
        assert(map@.skip(0) =~= orig.skip(0));
    }
    while i < map.inner.len()
        invariant
            0 <= j <= orig.len(),
            i <= map@.len(),
            map@.len() == map.inner@.len(),
            nv == name_views(names@),
            map@.take(i as int) == without_names(orig.take(j), nv),
            map@.skip(i as int) == orig.skip(j),
            names_unique(orig),
            forall|a: int, b: int| 0 <= a < b < map@.len() ==> map@[a].0 != map@[b].0,
        decreases map.inner.len() - i,
    {
        proof {
            assert(map@.skip(i as int).len() == orig.skip(j).len());
            assert(j < orig.len());
            assert(map@[i as int] == orig[j]) by {
                assert(map@.skip(i as int)[0] == orig.skip(j)[0]);
            }
            assert(orig.take(j + 1).drop_last() =~= orig.take(j));
            assert(orig.take(j + 1).last() == orig[j]);
        }
        let listed = is_listed(names, map.inner[i].0.as_str());
        if listed {
            let ghost before = map@;
            let _removed = map.inner.remove(i);
            proof {
                assert(map@ =~= before.take(i as int) + before.skip(i + 1));
                assert(map@.take(i as int) =~= before.take(i as int));
                assert(map@.skip(i as int) =~= before.skip(i + 1));
                assert(orig.skip(j + 1) =~= orig.skip(j).skip(1));
                assert(before.skip(i + 1) =~= before.skip(i as int).skip(1));
                assert forall|a: int, b: int| 0 <= a < b < map@.len() implies map@[a].0 != map@[b].0 by {
                    let a0 = if a < i { a } else { a + 1 };
                    let b0 = if b < i { b } else { b + 1 };
                    assert(map@[a] == before[a0]);
                    assert(map@[b] == before[b0]);
                }
            }
        } else {
            proof {
                assert(map@.take(i + 1) =~= map@.take(i as int).push(map@[i as int]));
                assert(map@.skip(i + 1) =~= map@.skip(i as int).skip(1));
                assert(orig.skip(j + 1) =~= orig.skip(j).skip(1));
            }
            i += 1;
        }
        proof {
            j = j + 1;
        }
    }
    proof {
        assert(map@.skip(i as int).len() == 0);
        assert(j == orig.len());
        assert(orig.take(j) =~= orig);
        assert(map@.take(i as int) =~= map@);
    }
    Ok(())
}

} // verus!
