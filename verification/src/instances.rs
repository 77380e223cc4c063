use std::collections::HashMap;
use vstd::prelude::*;
use vstd::std_specs::iter::IteratorSpec;

verus! {

broadcast use vstd::std_specs::hash::group_hash_axioms;

/// `addrs` lists the addresses of the instances in `instances`, each once,
/// in some order of their identifiers.
pub open spec fn lists_addresses(addrs: Seq<String>, instances: Map<u32, String>) -> bool {
    exists|ids: Seq<u32>|
        #![trigger ids.to_set()]
        ids.no_duplicates() && ids.to_set() == instances.dom() && addrs == ids.map_values(
            |id: u32| instances[id],
        )
}

/// The addresses of all the instances, in the order in which the map is
/// walked.
pub fn addresses(instances: &HashMap<u32, String>) -> (addrs: Vec<String>)
    ensures
        lists_addresses(addrs@, instances@),
{
    let mut addrs: Vec<String> = Vec::new();
    let ghost ids: Seq<u32> = instances.keys().remaining().unref();
    for id in it: instances.keys()
        invariant
            ids == it.seq().unref(),
            addrs@ == ids.take(it.index() as int).map_values(|k: u32| instances@[k]),
            ids.to_set() == instances@.dom(),
    {
        let addr = instances.get(id).unwrap();
        addrs.push(addr.clone());
        proof {
            assert(ids.take(it.index() as int + 1) =~= ids.take(it.index() as int).push(*id));
        }
    }
    assert(ids.take(ids.len() as int) =~= ids);
    addrs
}

} // verus!
