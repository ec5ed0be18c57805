//! Native band sets of the supported ocean-colour sensors, and the mapping of
//! an arbitrary wavelength onto the nearest native band.
use vstd::prelude::*;

verus! {

/// Sensors whose native band sets are known to the library.
#[derive(Debug, Clone, Copy, PartialEq, Eq, Structural)]
pub enum Satellites {
    SeaWiFS,
    Modis,
}

impl Satellites {
    /// The sensor's name.
    pub fn name(&self) -> (r: &'static str)
        ensures
            r@ == (match *self {
                Satellites::SeaWiFS => "SeaWiFS"@,
                Satellites::Modis => "MODIS"@,
            }),
    {
        match self {
            Satellites::SeaWiFS => "SeaWiFS",
            Satellites::Modis => "MODIS",
        }
    }
}

/// The native bands (nm) of a sensor, in ascending order.
pub open spec fn native_bands(sensor: Satellites) -> Seq<u32> {
    match sensor {
        Satellites::SeaWiFS => seq![412u32, 443u32, 490u32, 510u32, 555u32, 670u32],
        Satellites::Modis => seq![412u32, 443u32, 488u32, 531u32, 547u32, 667u32],
    }
}

/// Absolute difference of two wavelengths.
pub open spec fn distance(a: u32, b: u32) -> nat {
    if a >= b {
        (a - b) as nat
    } else {
        (b - a) as nat
    }
}

/// `k` is the key of `keys` nearest to `target`; of several at the same
/// distance, the smallest (the first one met when scanning in ascending order).
pub open spec fn is_nearest(keys: Set<u32>, target: u32, k: u32) -> bool {
    &&& keys.contains(k)
    &&& forall|j: u32| #[trigger] keys.contains(j) ==> distance(k, target) <= distance(j, target)
    &&& forall|j: u32| #[trigger] keys.contains(j) && distance(j, target) == distance(k, target) ==> k <= j
}

/// The nearest key is unique.
pub proof fn lemma_nearest_unique(keys: Set<u32>, target: u32, a: u32, b: u32)
    requires
        is_nearest(keys, target, a),
        is_nearest(keys, target, b),
    ensures
        a == b,
{
    assert(keys.contains(b));
    assert(keys.contains(a));
}

/// A key is its own nearest key.
pub proof fn lemma_nearest_of_member(keys: Set<u32>, target: u32, k: u32)
    requires
        is_nearest(keys, target, k),
        keys.contains(target),
    ensures
        k == target,
{
    assert(keys.contains(target));
    assert(distance(target, target) == 0);
}

/// Computes `distance(a, b)`.
pub fn band_distance(a: u32, b: u32) -> (r: u32)
    ensures
        r as nat == distance(a, b),
{
    if a >= b {
        a - b
    } else {
        b - a
    }
}

/// The band set of one sensor.
#[derive(Debug)]
pub struct SatBands {
    sensor: Satellites,
    wavelengths: Vec<u32>,
}

impl SatBands {
    /// The sensor that this band set belongs to.
    pub closed spec fn sensor_spec(&self) -> Satellites {
        self.sensor
    }

    /// The native bands, in ascending order.
    pub closed spec fn bands(&self) -> Seq<u32> {
        self.wavelengths@
    }

    #[verifier::type_invariant]
    spec fn inv(&self) -> bool {
        self.wavelengths@ == native_bands(self.sensor)
    }

    pub fn new(sensor: Satellites) -> (r: Self)
        ensures
            r.sensor_spec() == sensor,
            r.bands() == native_bands(sensor),
    {
        let wavelengths: Vec<u32> = match sensor {
            Satellites::SeaWiFS => vec![412, 443, 490, 510, 555, 670],
            Satellites::Modis => vec![412, 443, 488, 531, 547, 667],
        };
        assert(wavelengths@ =~= native_bands(sensor));
        Self { sensor, wavelengths }
    }

    pub fn sensor(&self) -> (r: Satellites)
        ensures
            r == self.sensor_spec(),
    {
        self.sensor
    }

    pub fn wavelengths(&self) -> (r: &[u32])
        ensures
            r@ == self.bands(),
            r@ == native_bands(self.sensor_spec()),
    {
        proof {
            use_type_invariant(self);
        }
        self.wavelengths.as_slice()
    }

    /// The native band nearest to `target`; on a tie, the lower band.
    pub fn closest_band(&self, target: u32) -> (r: u32)
        ensures
            is_nearest(self.bands().to_set(), target, r),
            self.bands().contains(target) ==> r == target,
    {
        proof {
            use_type_invariant(self);
        }
        let r = nearest_in(self.wavelengths.as_slice(), target);
        proof {
            if self.bands().contains(target) {
                lemma_nearest_of_member(self.bands().to_set(), target, r);
            }
        }
        r
    }
}

/// The element of a non-empty slice nearest to `target` (the smallest on a tie).
pub fn nearest_in(keys: &[u32], target: u32) -> (r: u32)
    requires
        keys@.len() > 0,
    ensures
        is_nearest(keys@.to_set(), target, r),
{
    let mut best: u32 = keys[0];
    let mut best_d: u32 = band_distance(best, target);
    let mut i: usize = 1;
    proof {
        let first = keys@.subrange(0, 1);
        assert(first =~= Seq::<u32>::empty().push(best));
        Seq::<u32>::empty().lemma_push_to_set_commute(best);
        assert(first.to_set() =~= Set::<u32>::empty().insert(best));
    }
    while i < keys.len()
        invariant
            1 <= i <= keys@.len(),
            best_d as nat == distance(best, target),
            is_nearest(keys@.subrange(0, i as int).to_set(), target, best),
        decreases keys@.len() - i,
    {
        let k = keys[i];
        let d = band_distance(k, target);
        let ghost prev = keys@.subrange(0, i as int);
        let ghost next = keys@.subrange(0, i as int + 1);
        assert(next =~= prev.push(k));
        assert(next.to_set() =~= prev.to_set().insert(k)) by {
            prev.lemma_push_to_set_commute(k);
        }
        if d < best_d || (d == best_d && k < best) {
            best = k;
            best_d = d;
        }
        i = i + 1;
    }
    assert(keys@.subrange(0, keys@.len() as int) =~= keys@);
    best
}

} // verus!
