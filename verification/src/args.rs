//! Function arguments: named texts, gathered as a map from names to texts.
//!
//! The map is held as a list of pairs with distinct names (`lists_map`).

use vstd::prelude::*;

verus! {

/// The models of named texts, in order.
pub open spec fn pairs_view(pairs: Seq<(String, String)>) -> Seq<(Seq<char>, Seq<char>)> {
    Seq::new(pairs.len(), |k: int| (pairs[k].0@, pairs[k].1@))
}

/// The map that inserting the pairs one after the other into an empty map
/// gives: a name given twice keeps its later text.
pub open spec fn args_map(pairs: Seq<(Seq<char>, Seq<char>)>) -> Map<Seq<char>, Seq<char>>
    decreases pairs.len(),
{
    if pairs.len() == 0 {
        Map::empty()
    } else {
        args_map(pairs.drop_last()).insert(pairs.last().0, pairs.last().1)
    }
}

/// Whether `pairs` lists the map `m`: each name once, with its text in `m`,
/// and every name of `m`.
pub open spec fn lists_map(pairs: Seq<(Seq<char>, Seq<char>)>, m: Map<Seq<char>, Seq<char>>) -> bool {
    &&& forall|i: int, j: int| 0 <= i < j < pairs.len() ==> pairs[i].0 != pairs[j].0
    &&& forall|i: int|
        0 <= i < pairs.len() ==> m.contains_key(#[trigger] pairs[i].0) && m[pairs[i].0] == pairs[i].1
    &&& forall|name: Seq<char>|
        m.contains_key(name) ==> exists|i: int| 0 <= i < pairs.len() && #[trigger] pairs[i].0 == name
}

/// The pairs `pairs` with each name once, holding the text that it was given
/// last: what a map built by inserting the pairs in order holds.
pub fn gather_pairs(pairs: Vec<(String, String)>) -> (r: Vec<(String, String)>)
    ensures
        lists_map(pairs_view(r@), args_map(pairs_view(pairs@))),
{
    let ghost input = pairs_view(pairs@);
    let mut out: Vec<(String, String)> = Vec::new();
    let mut k: usize = 0;
    while k < pairs.len()
        invariant
            k <= pairs@.len(),
            input == pairs_view(pairs@),
            lists_map(pairs_view(out@), args_map(input.take(k as int))),
        decreases pairs@.len() - k,
    {
        let key = pairs[k].0.clone();
        let text = pairs[k].1.clone();
        let ghost before = pairs_view(out@);
        let ghost m = args_map(input.take(k as int));
        let ghost m2 = m.insert(key@, text@);
        assert(input.take(k + 1).drop_last() == input.take(k as int));
        assert(input.take(k + 1).last() == (key@, text@));
        assert(args_map(input.take(k + 1)) == m2);
        let mut j: usize = 0;
        let mut found = false;
        while j < out.len()
            invariant_except_break
                !found,
            invariant
                j <= out@.len(),
                before == pairs_view(out@),
                forall|i: int| 0 <= i < j ==> before[i].0 != key@,
            ensures
                j <= out@.len(),
                found ==> j < out@.len() && before[j as int].0 == key@,
                !found ==> forall|i: int| 0 <= i < out@.len() ==> before[i].0 != key@,
            decreases out@.len() - j,
        {
            if out[j].0 == key {
                found = true;
                break;
            }
            j = j + 1;
        }
        if found {
            out.set(j, (key, text));
            let ghost after = pairs_view(out@);
            assert(after == before.update(j as int, (key@, text@)));
            assert forall|name: Seq<char>| m2.contains_key(name) implies exists|i: int|
                0 <= i < after.len() && #[trigger] after[i].0 == name by {
                if name == key@ {
                    assert(after[j as int].0 == name);
                } else {
                    let i = choose|i: int| 0 <= i < before.len() && #[trigger] before[i].0 == name;
                    assert(after[i].0 == name);
                }
            }
            assert(lists_map(after, m2));
        } else {
            out.push((key, text));
            let ghost after = pairs_view(out@);
            assert(after == before.push((key@, text@)));
            assert forall|name: Seq<char>| m2.contains_key(name) implies exists|i: int|
                0 <= i < after.len() && #[trigger] after[i].0 == name by {
                if name == key@ {
                    assert(after[before.len() as int].0 == name);
                } else {
                    let i = choose|i: int| 0 <= i < before.len() && #[trigger] before[i].0 == name;
                    assert(after[i].0 == name);
                }
            }
            assert(lists_map(after, m2));
        }
        k = k + 1;
    }
    assert(input.take(k as int) == input);
    out
}

} // verus!
