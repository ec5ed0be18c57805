use boreas::optics::subset_optical_data;
use boreas::qaa::QaaBands;
use boreas::sat_bands::{band_distance, nearest_in, SatBands, Satellites};
use std::collections::BTreeMap;

#[test]
fn seawifs_bands() {
    let b = SatBands::new(Satellites::SeaWiFS);
    assert_eq!(b.wavelengths(), &[412, 443, 490, 510, 555, 670]);
    assert_eq!(b.sensor(), Satellites::SeaWiFS);
}

#[test]
fn modis_bands() {
    let b = SatBands::new(Satellites::Modis);
    assert_eq!(b.wavelengths(), &[412, 443, 488, 531, 547, 667]);
}

#[test]
fn closest_band_picks_nearest() {
    let s = SatBands::new(Satellites::SeaWiFS);
    assert_eq!(s.closest_band(410), 412);
    assert_eq!(s.closest_band(560), 555);
    assert_eq!(s.closest_band(0), 412);
    assert_eq!(s.closest_band(4000), 670);
    let m = SatBands::new(Satellites::Modis);
    assert_eq!(m.closest_band(555), 547);
    assert_eq!(m.closest_band(490), 488);
    assert_eq!(m.closest_band(670), 667);
}

#[test]
fn closest_band_tie_takes_lower_band() {
    let s = SatBands::new(Satellites::SeaWiFS);
    // 500 is 10 nm from both 490 and 510.
    assert_eq!(s.closest_band(500), 490);
    let m = SatBands::new(Satellites::Modis);
    // 539 is 8 nm from both 531 and 547.
    assert_eq!(m.closest_band(539), 531);
}

#[test]
fn closest_band_is_identity_on_members() {
    for sensor in [Satellites::SeaWiFS, Satellites::Modis] {
        let b = SatBands::new(sensor);
        for &w in b.wavelengths() {
            assert_eq!(b.closest_band(w), w);
        }
    }
}

#[test]
fn distance_and_nearest_helpers() {
    assert_eq!(band_distance(3, 10), 7);
    assert_eq!(band_distance(10, 3), 7);
    assert_eq!(band_distance(u32::MAX, 0), u32::MAX);
    assert_eq!(nearest_in(&[700, 100, 400], 260), 400);
    assert_eq!(nearest_in(&[700, 300, 100], 200), 100);
}

#[test]
fn qaa_bands_per_sensor() {
    let s = QaaBands::for_sensor(&SatBands::new(Satellites::SeaWiFS));
    assert_eq!(s.wavelengths(), vec![412, 443, 490, 555, 670]);
    assert_eq!(s.reference(), 555);
    let m = QaaBands::for_sensor(&SatBands::new(Satellites::Modis));
    assert_eq!(m.wavelengths(), vec![412, 443, 488, 547, 667]);
    assert_eq!(m.violet, 412);
    assert_eq!(m.cyan, 443);
    assert_eq!(m.blue, 488);
    assert_eq!(m.green, 547);
    assert_eq!(m.red, 667);
}

#[test]
fn subset_is_keyed_by_targets() {
    let table = BTreeMap::from([(410u32, 1.0f64), (443, 2.0), (490, 3.0)]);
    let r = subset_optical_data(&[412, 443, 500], &table);
    assert_eq!(r.keys().copied().collect::<Vec<u32>>(), vec![412, 443, 500]);
    assert_eq!(r[&412], 1.0);
    assert_eq!(r[&443], 2.0);
    assert_eq!(r[&500], 3.0);
}

#[test]
fn subset_tie_takes_lower_key() {
    let table = BTreeMap::from([(440u32, 7.5f64), (446, 9.5)]);
    let r = subset_optical_data(&[443], &table);
    assert_eq!(r.len(), 1);
    assert_eq!(r[&443], 7.5);
}

#[test]
fn subset_of_no_targets_is_empty() {
    let table = BTreeMap::from([(440u32, 7.5f64)]);
    let r = subset_optical_data(&[], &table);
    assert!(r.is_empty());
}

#[test]
fn subset_repeated_target_appears_once() {
    let table = BTreeMap::from([(400u32, 1u8), (600, 2)]);
    let r = subset_optical_data(&[550, 550, 410], &table);
    assert_eq!(r.len(), 2);
    assert_eq!(r[&550], 2);
    assert_eq!(r[&410], 1);
}

#[test]
fn subset_key_set_equals_targets_on_modis_bands() {
    let table = BTreeMap::from([
        (410u32, 0.00473f64),
        (443, 0.00706914),
        (488, 0.0145167),
        (547, 0.0531686),
        (555, 0.0596),
        (667, 0.434888),
        (670, 0.439),
    ]);
    let targets = [412u32, 443, 488, 547, 667];
    let r = subset_optical_data(&targets, &table);
    assert_eq!(r.keys().copied().collect::<Vec<u32>>(), targets.to_vec());
    assert_eq!(r[&412], 0.00473);
    assert_eq!(r[&547], 0.0531686);
    assert_eq!(r[&667], 0.434888);
}

#[test]
fn subset_of_no_targets_from_empty_table() {
    let table: BTreeMap<u32, f64> = BTreeMap::new();
    let r = subset_optical_data(&[], &table);
    assert!(r.is_empty());
}
