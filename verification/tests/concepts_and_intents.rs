use cesarops::concept::{reflect_index, resolve_concepts, all_concepts, Concept};
use cesarops::env_conditions::ScanIntent;
use cesarops::lake_levels::{
    ScanIntent as LlIntent, SensorFamily, LakeBasin, select_years_in, sensor_reaches_record_low,
    SENTINEL2_ARCHIVE_START, clarity_years,
};

#[test]
fn reflect_index_mirrors_bounds() {
    assert_eq!(reflect_index(-1, 4), 0);
    assert_eq!(reflect_index(-2, 4), 1);
    assert_eq!(reflect_index(4, 4), 3);
    assert_eq!(reflect_index(5, 4), 2);
    assert_eq!(reflect_index(2, 4), 2);
}

#[test]
fn reflect_index_single_and_periodic() {
    assert_eq!(reflect_index(-7, 1), 0);
    assert_eq!(reflect_index(9, 4), reflect_index(1, 4));
    assert_eq!(reflect_index(-9, 4), reflect_index(8, 4));
    assert_eq!(reflect_index(isize::MIN, 3), reflect_index(isize::MIN + 6, 3));
}

#[test]
fn intent_parse_roundtrip() {
    assert_eq!(ScanIntent::parse("bathy"), Some(ScanIntent::Bathymetry));
    assert_eq!(ScanIntent::parse("plume"), Some(ScanIntent::SedimentPlume));
    assert_eq!(ScanIntent::parse("cold_sink"), Some(ScanIntent::DeepWreck));
    assert_eq!(ScanIntent::parse("nonsense"), None);
}

#[test]
fn intent_parse_ignores_ascii_case() {
    assert_eq!(ScanIntent::parse("OIL"), Some(ScanIntent::Hydrocarbon));
    assert_eq!(ScanIntent::parse("Sun_Glint"), Some(ScanIntent::SunGlint));
}

#[test]
fn intent_parsing() {
    assert_eq!(LlIntent::from_str("recent sinking"), LlIntent::RecentSinking);
    assert_eq!(LlIntent::from_str("zebra-clarity"), LlIntent::ZebraClarity);
    assert_eq!(LlIntent::from_str("hydrocarbon"), LlIntent::EventResponse);
    assert_eq!(LlIntent::from_str("low_water"), LlIntent::LowWaterWreck);
    assert_eq!(LlIntent::from_str("whatever"), LlIntent::Generic);
}

#[test]
fn concept_names_roundtrip() {
    for c in all_concepts() {
        assert_eq!(Concept::from_str(c.name()), Some(c));
    }
    assert_eq!(Concept::from_str("nope"), None);
    assert_eq!(Concept::ZebraClarity.months(), vec![7, 8, 9, 10]);
    assert_eq!(Concept::ShadowRoughness.signal_direction(), "dark");
}

#[test]
fn resolve_concepts_lists() {
    assert_eq!(resolve_concepts("all").len(), 3);
    assert_eq!(resolve_concepts("").len(), 3);
    assert_eq!(
        resolve_concepts(" zebra_clarity ,bogus,shadow_roughness"),
        vec![Concept::ZebraClarity, Concept::ShadowRoughness]
    );
}

#[test]
fn sensor_family_reads_landsat_in_any_case() {
    assert_eq!(SensorFamily::from_str("LandSat-8"), SensorFamily::Landsat);
    assert_eq!(SensorFamily::from_str("sentinel2"), SensorFamily::Sentinel2);
}

#[test]
fn low_water_sentinel2_clamped_no_record_low() {
    let years = select_years_in(LakeBasin::MichiganHuron, SensorFamily::Sentinel2, LlIntent::LowWaterWreck, 4, 2025);
    assert!(years.iter().all(|&y| y >= SENTINEL2_ARCHIVE_START));
    assert!(!years.contains(&2013) && !years.contains(&2012));
    assert!(!sensor_reaches_record_low(LakeBasin::MichiganHuron, SensorFamily::Sentinel2));
}

#[test]
fn low_water_landsat_includes_true_lows() {
    let years = select_years_in(LakeBasin::MichiganHuron, SensorFamily::Landsat, LlIntent::LowWaterWreck, 4, 2025);
    assert_eq!(years, vec![2013, 2012, 2007, 2003]);
    assert!(sensor_reaches_record_low(LakeBasin::MichiganHuron, SensorFamily::Landsat));
}

#[test]
fn recent_sinking_is_most_recent_first() {
    let years = select_years_in(LakeBasin::MichiganHuron, SensorFamily::Sentinel2, LlIntent::RecentSinking, 3, 2025);
    assert_eq!(years, vec![2025, 2024, 2023]);
}

#[test]
fn zebra_clarity_avoids_low_years_takes_recent() {
    let years = select_years_in(LakeBasin::MichiganHuron, SensorFamily::Sentinel2, LlIntent::ZebraClarity, 4, 2025);
    assert_eq!(years, vec![2024, 2023, 2022, 2021]);
    assert_eq!(clarity_years(2019, 2017, 10), vec![2018, 2017]);
}

#[test]
fn concept_bands_per_metric() {
    assert_eq!(Concept::ShadowRoughness.bands(), ("B08", "B08"));
    assert_eq!(Concept::ZebraClarity.bands(), ("B02", "B04"));
    assert_eq!(Concept::SedimentPlume.bands(), ("B04", "B03"));
}
