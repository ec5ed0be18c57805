use boreas::lut::{
    cloud_thickness_axis, neighbor_index, ozone_axis, wavelength_axis, zenith_axis, step_index, LutGrid, LutIndexError, LutSourceError, LUT_LEN, N_ALBEDOS, N_CLOUD_THICKNESSES,
    N_OZONES, N_WAVELENGTHS, N_ZENITHS,
};

fn fill_position(wl: usize, th: usize, oz: usize, tc: usize, al: usize) -> u32 {
    ((((th * 10 + oz) * 8 + tc) * 7 + al) * 83 + wl) as u32
}

fn numbered_grid() -> LutGrid<u32> {
    let values: Vec<u32> = (0..LUT_LEN as u32).collect();
    LutGrid::from_fill_order(&values).unwrap()
}

#[test]
fn axis_sizes() {
    assert_eq!(N_WAVELENGTHS, 83);
    assert_eq!(N_ZENITHS, 19);
    assert_eq!(N_OZONES, 10);
    assert_eq!(N_CLOUD_THICKNESSES, 8);
    assert_eq!(N_ALBEDOS, 7);
    assert_eq!(LUT_LEN, 83 * 19 * 10 * 8 * 7);
}

#[test]
fn fill_order_is_transposed_into_wavelength_major_storage() {
    let g = numbered_grid();
    assert_eq!(g.at(0, 0, 0, 0, 0), 0);
    // The second value of the source belongs to the second wavelength.
    assert_eq!(g.at(1, 0, 0, 0, 0), 1);
    // After the 83 wavelengths comes the next albedo.
    assert_eq!(g.at(0, 0, 0, 0, 1), 83);
    assert_eq!(g.at(82, 18, 9, 7, 6), (LUT_LEN - 1) as u32);
    for &(wl, th, oz, tc, al) in &[(5, 3, 2, 1, 4), (82, 0, 9, 0, 6), (40, 18, 0, 7, 0)] {
        assert_eq!(g.at(wl, th, oz, tc, al), fill_position(wl, th, oz, tc, al));
    }
}

#[test]
fn short_source_is_refused() {
    let values: Vec<i64> = vec![5, 6, 7];
    assert_eq!(
        LutGrid::from_fill_order(&values).unwrap_err(),
        LutSourceError::WrongLength { found: 3 }
    );
    let one_short: Vec<u32> = (0..(LUT_LEN as u32 - 1)).collect();
    assert_eq!(
        LutGrid::from_fill_order(&one_short).unwrap_err(),
        LutSourceError::WrongLength { found: LUT_LEN - 1 }
    );
}

#[test]
fn empty_source_is_refused() {
    let values: Vec<u32> = Vec::new();
    assert_eq!(
        LutGrid::from_fill_order(&values).unwrap_err(),
        LutSourceError::WrongLength { found: 0 }
    );
}

#[test]
fn long_source_is_refused() {
    let values: Vec<u32> = (0..(LUT_LEN as u32 + 10)).collect();
    assert_eq!(
        LutGrid::from_fill_order(&values).unwrap_err(),
        LutSourceError::WrongLength { found: LUT_LEN + 10 }
    );
}

#[test]
fn wavelength_column() {
    let g = numbered_grid();
    let col = g.wavelength_values(2, 3, 4, 5).unwrap();
    assert_eq!(col.len(), 83);
    for (l, v) in col.iter().enumerate() {
        assert_eq!(*v, fill_position(l, 2, 3, 4, 5));
    }
}

#[test]
fn wavelength_column_index_errors() {
    let g = numbered_grid();
    assert_eq!(
        g.wavelength_values(19, 0, 0, 0).unwrap_err(),
        LutIndexError::Zenith { index: 19, max: 18 }
    );
    assert_eq!(
        g.wavelength_values(0, 10, 0, 0).unwrap_err(),
        LutIndexError::Ozone { index: 10, max: 9 }
    );
    assert_eq!(
        g.wavelength_values(0, 0, 8, 0).unwrap_err(),
        LutIndexError::CloudThickness { index: 8, max: 7 }
    );
    assert_eq!(
        g.wavelength_values(0, 0, 0, 7).unwrap_err(),
        LutIndexError::Albedo { index: 7, max: 6 }
    );
    // The zenith is checked first.
    assert_eq!(
        g.wavelength_values(30, 30, 30, 30).unwrap_err(),
        LutIndexError::Zenith { index: 30, max: 18 }
    );
}

#[test]
fn neighbours_are_clamped() {
    assert_eq!(neighbor_index(0, 19), 1);
    assert_eq!(neighbor_index(17, 19), 18);
    assert_eq!(neighbor_index(18, 19), 18);
    assert_eq!(step_index(4, false, 7), 4);
    assert_eq!(step_index(4, true, 7), 5);
    assert_eq!(step_index(6, true, 7), 6);
}

#[test]
fn cell_corners() {
    let g = numbered_grid();
    assert_eq!(g.corner(3, 2, 1, 0, 5, false, false, false, false), fill_position(3, 2, 1, 0, 5));
    assert_eq!(g.corner(3, 2, 1, 0, 5, true, true, true, true), fill_position(3, 3, 2, 1, 6));
    // At the last point of every axis the neighbour is the point itself.
    assert_eq!(
        g.corner(82, 18, 9, 7, 6, true, true, true, true),
        fill_position(82, 18, 9, 7, 6)
    );
}

#[test]
fn axes() {
    let wl = wavelength_axis();
    assert_eq!(wl.len(), 83);
    assert_eq!(wl[0], 290);
    assert_eq!(wl[22], 400);
    assert_eq!(wl[82], 700);
    let z = zenith_axis();
    assert_eq!(z.len(), 19);
    assert_eq!(z[18], 90);
    let o = ozone_axis();
    assert_eq!(o, vec![100, 150, 200, 250, 300, 350, 400, 450, 500, 550]);
    assert_eq!(cloud_thickness_axis(), vec![0, 1, 2, 4, 8, 16, 32, 64]);
}
