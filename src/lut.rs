//! Layout of the five-axis irradiance lookup table: the order in which the
//! table's source lists its entries, the order in which it is stored for
//! queries, and bounds-checked access to it.
use vstd::prelude::*;

verus! {

/// Points on the wavelength axis (290 to 700 nm, step 5).
pub const N_WAVELENGTHS: usize = 83;

/// Points on the solar-zenith axis (0 to 90 degrees, step 5).
pub const N_ZENITHS: usize = 19;

/// Points on the ozone axis (100 to 550 DU, step 50).
pub const N_OZONES: usize = 10;

/// Points on the cloud-optical-thickness axis (0, 1, 2, 4, ..., 64).
pub const N_CLOUD_THICKNESSES: usize = 8;

/// Points on the surface-albedo axis (0.05 to 0.95, step 0.15).
pub const N_ALBEDOS: usize = 7;

/// Entries in the table: the product of the five axis lengths.
pub const LUT_LEN: usize = 883120;

/// The grid points of an axis with evenly spaced integer values.
fn even_axis(first: u32, step: u32, n: usize) -> (r: Vec<u32>)
    requires
        first as int + step as int * n as int <= u32::MAX,
    ensures
        r@.len() == n,
        forall|i: int| 0 <= i < n ==> #[trigger] r@[i] == first + step * i,
{
    let mut r: Vec<u32> = Vec::new();
    let mut v: u32 = first;
    let mut i: usize = 0;
    while i < n
        invariant
            i <= n,
            r@.len() == i,
            v as int == first as int + step as int * i as int,
            first as int + step as int * n as int <= u32::MAX,
            forall|j: int| 0 <= j < i ==> #[trigger] r@[j] == first + step * j,
        decreases n - i,
    {
        r.push(v);
        assert(step as int * (i as int + 1) == step as int * i as int + step as int) by (nonlinear_arith);
        assert(step as int * (i as int + 1) <= step as int * n as int) by (nonlinear_arith)
            requires
                i < n,
        ;
        v = v + step;
        i = i + 1;
    }
    r
}

/// The wavelength axis: 290 to 700 nm in steps of 5.
pub fn wavelength_axis() -> (r: Vec<u32>)
    ensures
        r@.len() == N_WAVELENGTHS,
        forall|i: int| 0 <= i < N_WAVELENGTHS ==> #[trigger] r@[i] == 290 + 5 * i,
{
    even_axis(290, 5, N_WAVELENGTHS)
}

/// The solar-zenith axis: 0 to 90 degrees in steps of 5.
pub fn zenith_axis() -> (r: Vec<u32>)
    ensures
        r@.len() == N_ZENITHS,
        forall|i: int| 0 <= i < N_ZENITHS ==> #[trigger] r@[i] == 5 * i,
{
    even_axis(0, 5, N_ZENITHS)
}

/// The ozone axis: 100 to 550 DU in steps of 50.
pub fn ozone_axis() -> (r: Vec<u32>)
    ensures
        r@.len() == N_OZONES,
        forall|i: int| 0 <= i < N_OZONES ==> #[trigger] r@[i] == 100 + 50 * i,
{
    even_axis(100, 50, N_OZONES)
}

/// The cloud-optical-thickness axis: 0, then the powers of two up to 64.
pub fn cloud_thickness_axis() -> (r: Vec<u32>)
    ensures
        r@ == seq![0u32, 1, 2, 4, 8, 16, 32, 64],
        r@.len() == N_CLOUD_THICKNESSES,
{
    let r: Vec<u32> = vec![0, 1, 2, 4, 8, 16, 32, 64];
    assert(r@ =~= seq![0u32, 1, 2, 4, 8, 16, 32, 64]);
    r
}

/// A position in the table, one index per axis.
pub open spec fn in_table(wl: int, th: int, oz: int, tc: int, al: int) -> bool {
    &&& 0 <= wl < N_WAVELENGTHS
    &&& 0 <= th < N_ZENITHS
    &&& 0 <= oz < N_OZONES
    &&& 0 <= tc < N_CLOUD_THICKNESSES
    &&& 0 <= al < N_ALBEDOS
}

/// Where an entry is stored: wavelength outermost, then zenith, ozone, cloud
/// thickness, and albedo innermost.
pub open spec fn storage_offset(wl: int, th: int, oz: int, tc: int, al: int) -> int {
    (((wl * 19 + th) * 10 + oz) * 8 + tc) * 7 + al
}

/// Where an entry stands in the table's source: zenith outermost, then ozone,
/// cloud thickness, albedo, and wavelength innermost.
pub open spec fn fill_index(wl: int, th: int, oz: int, tc: int, al: int) -> int {
    (((th * 10 + oz) * 8 + tc) * 7 + al) * 83 + wl
}

/// Both orders place every position of the table at a distinct index below
/// `LUT_LEN`: the source fills each stored entry exactly once.
pub proof fn lemma_layouts_are_bijective(
    a: (int, int, int, int, int),
    b: (int, int, int, int, int),
)
    requires
        in_table(a.0, a.1, a.2, a.3, a.4),
        in_table(b.0, b.1, b.2, b.3, b.4),
    ensures
        0 <= storage_offset(a.0, a.1, a.2, a.3, a.4) < LUT_LEN,
        0 <= fill_index(a.0, a.1, a.2, a.3, a.4) < LUT_LEN,
        storage_offset(a.0, a.1, a.2, a.3, a.4) == storage_offset(b.0, b.1, b.2, b.3, b.4) ==> a
            == b,
        fill_index(a.0, a.1, a.2, a.3, a.4) == fill_index(b.0, b.1, b.2, b.3, b.4) ==> a == b,
{
}

/// The stored index that follows `i` on an axis of `n` points, held at the
/// last point.
pub open spec fn spec_neighbor_index(i: int, n: int) -> int {
    if i + 1 < n {
        i + 1
    } else {
        n - 1
    }
}

/// The index after `i` on an axis of `n` points, clamped to the last index.
pub fn neighbor_index(i: usize, n: usize) -> (r: usize)
    requires
        n > 0,
        i < n,
    ensures
        r as int == spec_neighbor_index(i as int, n as int),
        r < n,
{
    if i + 1 < n {
        i + 1
    } else {
        n - 1
    }
}

/// `i`, or the index after it (held at the last point) when `up` holds.
pub open spec fn spec_step(i: int, up: bool, n: int) -> int {
    if up {
        spec_neighbor_index(i, n)
    } else {
        i
    }
}

/// `i`, or the index after it (held at the last point) when `up` holds.
pub fn step_index(i: usize, up: bool, n: usize) -> (r: usize)
    requires
        n > 0,
        i < n,
    ensures
        r as int == spec_step(i as int, up, n as int),
        r < n,
{
    if up {
        neighbor_index(i, n)
    } else {
        i
    }
}

/// An index that lies outside its axis.
#[derive(Debug, Clone, Copy, PartialEq, Eq, Structural)]
pub enum LutIndexError {
    Zenith { index: usize, max: usize },
    Ozone { index: usize, max: usize },
    CloudThickness { index: usize, max: usize },
    Albedo { index: usize, max: usize },
}

/// A table source that cannot make a table.
#[derive(Debug, Clone, Copy, PartialEq, Eq, Structural)]
pub enum LutSourceError {
    /// The source holds `found` entries instead of `LUT_LEN`.
    WrongLength { found: usize },
}

/// The table, stored wavelength-major.
#[derive(Debug)]
pub struct LutGrid<T> {
    values: Vec<T>,
}

impl<T> LutGrid<T> {
    /// The stored entries.
    pub closed spec fn entries(&self) -> Seq<T> {
        self.values@
    }

    #[verifier::type_invariant]
    spec fn inv(&self) -> bool {
        self.values@.len() == LUT_LEN
    }
}

impl<T: Copy> LutGrid<T> {
    /// The entry at a position of the table.
    pub open spec fn spec_at(&self, wl: int, th: int, oz: int, tc: int, al: int) -> T {
        self.entries()[storage_offset(wl, th, oz, tc, al)]
    }

    /// The table holds exactly the entries of `source`, each at the position
    /// that its index in source order names.
    pub open spec fn holds_source(&self, source: Seq<T>) -> bool {
        &&& self.entries().len() == LUT_LEN
        &&& forall|wl: int, th: int, oz: int, tc: int, al: int|
            #![trigger self.spec_at(wl, th, oz, tc, al)]
            in_table(wl, th, oz, tc, al) ==> self.spec_at(wl, th, oz, tc, al)
                == source[fill_index(wl, th, oz, tc, al)]
    }

    /// Stores a complete source, given in source order.
    fn transpose(values: &Vec<T>) -> (r: Self)
        requires
            values@.len() == LUT_LEN,
        ensures
            r.entries().len() == LUT_LEN,
            forall|wl: int, th: int, oz: int, tc: int, al: int|
                #![trigger r.spec_at(wl, th, oz, tc, al)]
                in_table(wl, th, oz, tc, al) ==> r.spec_at(wl, th, oz, tc, al) == values@[fill_index(wl, th, oz, tc, al)],
    {
        let mut out: Vec<T> = Vec::new();
        let mut wl: usize = 0;
        let mut th: usize = 0;
        let mut oz: usize = 0;
        let mut tc: usize = 0;
        let mut al: usize = 0;
        let mut s: usize = 0;
        while s < LUT_LEN
            invariant
                out@.len() == s,
                s <= LUT_LEN,
                values@.len() == LUT_LEN,
                s as int == storage_offset(wl as int, th as int, oz as int, tc as int, al as int),
                s < LUT_LEN ==> in_table(wl as int, th as int, oz as int, tc as int, al as int),
                forall|w: int, t: int, o: int, c: int, a: int|
                    #![trigger storage_offset(w, t, o, c, a)]
                    in_table(w, t, o, c, a) && storage_offset(w, t, o, c, a) < s ==> out@[storage_offset(
                        w,
                        t,
                        o,
                        c,
                        a,
                    )] == values@[fill_index(w, t, o, c, a)],
            decreases LUT_LEN - s,
        {
            let f: usize = (((th * 10 + oz) * 8 + tc) * 7 + al) * 83 + wl;
            proof {
                lemma_layouts_are_bijective(
                    (wl as int, th as int, oz as int, tc as int, al as int),
                    (wl as int, th as int, oz as int, tc as int, al as int),
                );
            }
            let v: T = values[f];
            out.push(v);
            proof {
                assert forall|w: int, t: int, o: int, c: int, a: int|
                    in_table(w, t, o, c, a) && storage_offset(w, t, o, c, a) < s + 1 implies out@[storage_offset(
                    w,
                    t,
                    o,
                    c,
                    a,
                )] == values@[fill_index(w, t, o, c, a)] by {
                    if storage_offset(w, t, o, c, a) == s {
                        lemma_layouts_are_bijective(
                            (w, t, o, c, a),
                            (wl as int, th as int, oz as int, tc as int, al as int),
                        );
                    }
                }
            }
            al = al + 1;
            if al == N_ALBEDOS {
                al = 0;
                tc = tc + 1;
                if tc == N_CLOUD_THICKNESSES {
                    tc = 0;
                    oz = oz + 1;
                    if oz == N_OZONES {
                        oz = 0;
                        th = th + 1;
                        if th == N_ZENITHS {
                            th = 0;
                            wl = wl + 1;
                        }
                    }
                }
            }
            s = s + 1;
        }
        let r = LutGrid { values: out };
        assert forall|wl: int, th: int, oz: int, tc: int, al: int|
            in_table(wl, th, oz, tc, al) implies r.spec_at(wl, th, oz, tc, al) == values@[fill_index(wl, th, oz, tc, al)] by {
            lemma_layouts_are_bijective((wl, th, oz, tc, al), (wl, th, oz, tc, al));
        }
        r
    }

    /// Builds the table from its source: every entry, zenith outermost, then
    /// ozone, cloud thickness, albedo and wavelength innermost. A source that
    /// does not hold exactly `LUT_LEN` entries is malformed and is refused.
    pub fn from_fill_order(values: &Vec<T>) -> (r: Result<LutGrid<T>, LutSourceError>)
        ensures
            r is Ok <==> values@.len() == LUT_LEN,
            r is Err ==> r == Err::<LutGrid<T>, LutSourceError>(
                (LutSourceError::WrongLength { found: values@.len() as usize }),
            ),
            r matches Ok(g) ==> g.holds_source(values@),
    {
        if values.len() != LUT_LEN {
            return Err(LutSourceError::WrongLength { found: values.len() });
        }
        Ok(Self::transpose(values))
    }

    /// The entry at a position of the table.
    pub fn at(&self, wl: usize, th: usize, oz: usize, tc: usize, al: usize) -> (r: T)
        requires
            in_table(wl as int, th as int, oz as int, tc as int, al as int),
        ensures
            r == self.spec_at(wl as int, th as int, oz as int, tc as int, al as int),
    {
        proof {
            use_type_invariant(self);
            lemma_layouts_are_bijective(
                (wl as int, th as int, oz as int, tc as int, al as int),
                (wl as int, th as int, oz as int, tc as int, al as int),
            );
        }
        self.values[(((wl * 19 + th) * 10 + oz) * 8 + tc) * 7 + al]
    }

    /// The entry at a corner of the grid cell whose lowest corner is
    /// `(wl, th, oz, tc, al)`: on each of the four non-wavelength axes, the
    /// cell's own index or the next one, held at the axis's last point.
    pub fn corner(
        &self,
        wl: usize,
        th: usize,
        oz: usize,
        tc: usize,
        al: usize,
        up_th: bool,
        up_oz: bool,
        up_tc: bool,
        up_al: bool,
    ) -> (r: T)
        requires
            in_table(wl as int, th as int, oz as int, tc as int, al as int),
        ensures
            r == self.spec_at(
                wl as int,
                spec_step(th as int, up_th, N_ZENITHS as int),
                spec_step(oz as int, up_oz, N_OZONES as int),
                spec_step(tc as int, up_tc, N_CLOUD_THICKNESSES as int),
                spec_step(al as int, up_al, N_ALBEDOS as int),
            ),
    {
        let t = step_index(th, up_th, N_ZENITHS);
        let o = step_index(oz, up_oz, N_OZONES);
        let c = step_index(tc, up_tc, N_CLOUD_THICKNESSES);
        let a = step_index(al, up_al, N_ALBEDOS);
        self.at(wl, t, o, c, a)
    }

    /// The entries along the wavelength axis at one position of the other four,
    /// or the first index (in the order zenith, ozone, cloud thickness, albedo)
    /// that lies outside its axis.
    pub fn wavelength_values(&self, th: usize, oz: usize, tc: usize, al: usize) -> (r: Result<
        Vec<T>,
        LutIndexError,
    >)
        ensures
            th >= N_ZENITHS ==> r == Err::<Vec<T>, LutIndexError>(
                LutIndexError::Zenith { index: th, max: (N_ZENITHS - 1) as usize },
            ),
            th < N_ZENITHS && oz >= N_OZONES ==> r == Err::<Vec<T>, LutIndexError>(
                LutIndexError::Ozone { index: oz, max: (N_OZONES - 1) as usize },
            ),
            th < N_ZENITHS && oz < N_OZONES && tc >= N_CLOUD_THICKNESSES ==> r == Err::<
                Vec<T>,
                LutIndexError,
            >(LutIndexError::CloudThickness { index: tc, max: (N_CLOUD_THICKNESSES - 1) as usize }),
            th < N_ZENITHS && oz < N_OZONES && tc < N_CLOUD_THICKNESSES && al >= N_ALBEDOS ==> r
                == Err::<Vec<T>, LutIndexError>(
                LutIndexError::Albedo { index: al, max: (N_ALBEDOS - 1) as usize },
            ),
            r is Ok <==> (th < N_ZENITHS && oz < N_OZONES && tc < N_CLOUD_THICKNESSES && al
                < N_ALBEDOS),
            r matches Ok(v) ==> {
                &&& v@.len() == N_WAVELENGTHS
                &&& forall|l: int|
                    0 <= l < N_WAVELENGTHS ==> #[trigger] v@[l] == self.spec_at(
                        l,
                        th as int,
                        oz as int,
                        tc as int,
                        al as int,
                    )
            },
    {
        if th >= N_ZENITHS {
            return Err(LutIndexError::Zenith { index: th, max: N_ZENITHS - 1 });
        }
        if oz >= N_OZONES {
            return Err(LutIndexError::Ozone { index: oz, max: N_OZONES - 1 });
        }
        if tc >= N_CLOUD_THICKNESSES {
            return Err(LutIndexError::CloudThickness { index: tc, max: N_CLOUD_THICKNESSES - 1 });
        }
        if al >= N_ALBEDOS {
            return Err(LutIndexError::Albedo { index: al, max: N_ALBEDOS - 1 });
        }
        let mut v: Vec<T> = Vec::new();
        let mut l: usize = 0;
        while l < N_WAVELENGTHS
            invariant
                l <= N_WAVELENGTHS,
                in_table(0, th as int, oz as int, tc as int, al as int),
                v@.len() == l,
                forall|j: int|
                    0 <= j < l ==> #[trigger] v@[j] == self.spec_at(
                        j,
                        th as int,
                        oz as int,
                        tc as int,
                        al as int,
                    ),
            decreases N_WAVELENGTHS - l,
        {
            v.push(self.at(l, th, oz, tc, al));
            l = l + 1;
        }
        Ok(v)
    }
}

} // verus!
