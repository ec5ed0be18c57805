//! Subsetting of per-wavelength coefficient tables by nearest wavelength.
use std::collections::BTreeMap;
use vstd::prelude::*;
use vstd::std_specs::iter::IteratorSpec;

use crate::sat_bands::{is_nearest, lemma_nearest_unique, nearest_in};

verus! {

/// The key of `keys` nearest to `target` (see `is_nearest`).
pub open spec fn nearest_key(keys: Set<u32>, target: u32) -> u32 {
    choose|k: u32| is_nearest(keys, target, k)
}

/// What `subset_optical_data(wavelengths, data)` holds: every requested
/// wavelength, and nothing else, mapped to the coefficient of the table key
/// nearest to it.
pub open spec fn is_subset_of_table<V>(wavelengths: Seq<u32>, data: Map<u32, V>, r: Map<u32, V>) -> bool {
    &&& r.dom() == wavelengths.to_set()
    &&& forall|t: u32| #[trigger] r.contains_key(t) ==> {
        &&& is_nearest(data.dom(), t, nearest_key(data.dom(), t))
        &&& r[t] == data[nearest_key(data.dom(), t)]
    }
}

/// Once a nearest key is known, `nearest_key` names it.
pub proof fn lemma_nearest_key_is(keys: Set<u32>, target: u32, k: u32)
    requires
        is_nearest(keys, target, k),
    ensures
        nearest_key(keys, target) == k,
        is_nearest(keys, target, nearest_key(keys, target)),
{
    let c = nearest_key(keys, target);
    lemma_nearest_unique(keys, target, k, c);
}

/// The subset is determined by its inputs: two results for the same
/// wavelengths and table are the same mapping.
pub proof fn lemma_subset_deterministic<V>(
    wavelengths: Seq<u32>,
    data: Map<u32, V>,
    r1: Map<u32, V>,
    r2: Map<u32, V>,
)
    requires
        is_subset_of_table(wavelengths, data, r1),
        is_subset_of_table(wavelengths, data, r2),
    ensures
        r1 == r2,
{
    assert(r1 =~= r2);
}

/// The keys of a table, in ascending order.
pub fn table_keys<V>(data: &BTreeMap<u32, V>) -> (r: Vec<u32>)
    ensures
        r@.to_set() == data@.dom(),
{
    let mut keys: Vec<u32> = Vec::new();
    let ghost full = data.keys().remaining().unref();
    for k in it: data.keys()
        invariant
            it.seq().unref() == full,
            full.to_set() == data@.dom(),
            keys@ == full.subrange(0, it.index()),
    {
        keys.push(*k);
        proof {
            assert(keys@ =~= it.seq().unref().subrange(0, it.index() + 1));
        }
    }
    assert(keys@ =~= full);
    keys
}

/// Maps each requested wavelength to the coefficient of the table key nearest
/// to it. The result is keyed by the requested wavelengths, not by the table
/// keys that matched. The table may be empty only when no wavelength is
/// requested.
pub fn subset_optical_data<V: Copy>(wavelengths: &[u32], data: &BTreeMap<u32, V>) -> (r: BTreeMap<
    u32,
    V,
>)
    requires
        wavelengths@.len() > 0 ==> data@.dom().len() > 0,
    ensures
        is_subset_of_table(wavelengths@, data@, r@),
        wavelengths@.len() == 0 ==> r@.dom().len() == 0,
{
    let keys = table_keys(data);
    proof {
        if keys@.len() == 0 && wavelengths@.len() > 0 {
            assert(keys@.to_set() =~= Set::<u32>::empty());
            assert(data@.dom().len() == 0);
        }
    }
    let mut r: BTreeMap<u32, V> = BTreeMap::new();
    let mut i: usize = 0;
    assert(wavelengths@.subrange(0, 0).to_set() =~= r@.dom());
    while i < wavelengths.len()
        invariant
            0 <= i <= wavelengths@.len(),
            wavelengths@.len() > 0 ==> keys@.len() > 0,
            keys@.to_set() == data@.dom(),
            is_subset_of_table(wavelengths@.subrange(0, i as int), data@, r@),
        decreases wavelengths@.len() - i,
    {
        let t = wavelengths[i];
        let k = nearest_in(keys.as_slice(), t);
        proof {
            lemma_nearest_key_is(data@.dom(), t, k);
        }
        let v: V = *data.get(&k).unwrap();
        let ghost prev = wavelengths@.subrange(0, i as int);
        r.insert(t, v);
        proof {
            let next = wavelengths@.subrange(0, i as int + 1);
            assert(next =~= prev.push(t));
            prev.lemma_push_to_set_commute(t);
            assert(r@.dom() =~= next.to_set());
        }
        i = i + 1;
    }
    assert(wavelengths@.subrange(0, wavelengths@.len() as int) =~= wavelengths@);
    r
}

} // verus!
