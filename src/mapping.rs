//! Building a hash map from a list of key/value pairs.
use vstd::prelude::*;
use std::collections::HashMap;
use std::hash::Hash;
use vstd::std_specs::hash::obeys_key_model;

verus! {

/// The map that the pairs give when entered first to last: where a key
/// comes more than once, its last value stands.
pub open spec fn map_of_pairs<K, V>(pairs: Seq<(K, V)>) -> Map<K, V>
    decreases pairs.len(),
{
    if pairs.len() == 0 {
        Map::empty()
    } else {
        map_of_pairs(pairs.drop_last()).insert(pairs.last().0, pairs.last().1)
    }
}

/// Enters `pairs` into a new hash map, first to last, so that the last value
/// given for a key is the one kept. The map's contents are known for the
/// key types whose hashing and equality vstd models.
pub fn hash_map<K: Eq + Hash, V>(pairs: Vec<(K, V)>) -> (r: HashMap<K, V>)
    ensures
        obeys_key_model::<K>() ==> r@ == map_of_pairs(pairs@),
{
    let ghost all = pairs@;
    let mut map: HashMap<K, V> = HashMap::new();
    for pair in it: pairs
        invariant
            it.seq() == all,
            obeys_key_model::<K>() ==> map@ == map_of_pairs(all.take(it.index())),
    {
        let ghost i = it.index();
        assert(all.take(i + 1).drop_last() =~= all.take(i));
        let (k, v) = pair;
        map.insert(k, v);
    }
    assert(all.take(all.len() as int) =~= all);
    map
}

} // verus!
