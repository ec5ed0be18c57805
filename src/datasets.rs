//! Which raster files make up the dataset of one processed date.
use vstd::prelude::*;

verus! {

/// Every template found its file.
pub open spec fn all_found(found: Seq<Option<String>>) -> bool {
    forall|i: int| 0 <= i < found.len() ==> (#[trigger] found[i]) is Some
}

/// No two templates share a name.
pub open spec fn names_distinct(names: Seq<String>) -> bool {
    forall|i: int, j: int|
        0 <= i < names.len() && 0 <= j < names.len() && i != j ==> (#[trigger] names[i])@
            != (#[trigger] names[j])@
}

/// Whether no name before position `n` of `names` equals another one.
fn distinct_prefix(names: &Vec<String>, n: usize) -> (r: bool)
    requires
        n <= names@.len(),
    ensures
        r == names_distinct(names@.subrange(0, n as int)),
{
    let mut i: usize = 0;
    while i < n
        invariant
            i <= n,
            n <= names@.len(),
            names_distinct(names@.subrange(0, i as int)),
        decreases n - i,
    {
        let mut j: usize = 0;
        while j < i
            invariant
                j <= i,
                i < n,
                n <= names@.len(),
                forall|k: int| 0 <= k < j ==> names@[k]@ != names@[i as int]@,
            decreases i - j,
        {
            if names[j] == names[i] {
                proof {
                    let s = names@.subrange(0, n as int);
                    assert(s[j as int] == names@[j as int]);
                    assert(s[i as int] == names@[i as int]);
                }
                return false;
            }
            j = j + 1;
        }
        proof {
            let s = names@.subrange(0, i as int + 1);
            assert forall|a: int, b: int|
                0 <= a < s.len() && 0 <= b < s.len() && a != b implies (#[trigger] s[a])@ != (
                #[trigger] s[b])@ by {
                let p = names@.subrange(0, i as int);
                if a < i && b < i {
                    assert(s[a] == p[a] && s[b] == p[b]);
                }
            }
        }
        i = i + 1;
    }
    true
}

/// The dataset of one date: each template's name paired with the file found
/// for it, in template order. There is none when a template found no file,
/// or when two templates share a name (their files cannot both be keyed by
/// it).
pub fn dataset_for_date(names: &Vec<String>, found: &Vec<Option<String>>) -> (r: Option<
    Vec<(String, String)>,
>)
    requires
        names@.len() == found@.len(),
    ensures
        r is Some <==> all_found(found@) && names_distinct(names@),
        r matches Some(v) ==> {
            &&& v@.len() == names@.len()
            &&& forall|i: int|
                0 <= i < v@.len() ==> (#[trigger] v@[i]).0 == names@[i] && found@[i] == Some(
                    v@[i].1,
                )
        },
{
    let distinct = distinct_prefix(names, names.len());
    assert(names@.subrange(0, names@.len() as int) =~= names@);
    if !distinct {
        return None;
    }
    let mut out: Vec<(String, String)> = Vec::new();
    let mut i: usize = 0;
    while i < found.len()
        invariant
            i <= found@.len(),
            names@.len() == found@.len(),
            out@.len() == i,
            forall|k: int| 0 <= k < i ==> (#[trigger] found@[k]) is Some,
            forall|k: int|
                0 <= k < i ==> (#[trigger] out@[k]).0 == names@[k] && found@[k] == Some(out@[k].1),
        decreases found@.len() - i,
    {
        match &found[i] {
            Some(path) => {
                out.push((names[i].clone(), path.clone()));
            },
            None => {
                assert(!all_found(found@));
                return None;
            },
        }
        i = i + 1;
    }
    Some(out)
}

} // verus!
