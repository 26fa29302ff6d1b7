use cesarops::dbscan::dbscan_labels;
use cesarops::env_conditions::{days_since_last_storm, scene_day_index,
    condition_suitability_tenths, first_post_storm_day, spring_runoff_dates, tag_post_storm, DayCondition,
};
use cesarops::lake_levels::ScanIntent;
use cesarops::sar::{
    calculate_persistence, cluster_members, group_by_orbit, orbit_from_filename, DBSCAN_NOISE,
};
use cesarops::scan_plan::{scene_verdict, ScanMode, VerdictReason};
use cesarops::stac::{month_wanted, stac_datetime_range};
use cesarops::stac::{extract_download_urls, Granule, GranuleLink};
use cesarops::triple_lock::{lock_groups, SensorFamily, ThresholdKnob};

/// Neighbour lists of 2-D points within `eps` (the point itself included).
fn neighbours(points: &[(f64, f64)], eps: f64) -> Vec<Vec<usize>> {
    let eps2 = eps * eps;
    let mut out = Vec::new();
    for &(px, py) in points {
        let mut row = Vec::new();
        for (j, &(qx, qy)) in points.iter().enumerate() {
            let dx = px - qx;
            let dy = py - qy;
            if dx * dx + dy * dy <= eps2 {
                row.push(j);
            }
        }
        out.push(row);
    }
    out
}

fn run_dbscan(points: &[(f64, f64)], eps: f64, min_samples: usize) -> Vec<i64> {
    dbscan_labels(&neighbours(points, eps), min_samples)
}

#[test]
fn mode_parse() {
    assert_eq!(ScanMode::parse("recent"), Some(ScanMode::BeforeAfter));
    assert_eq!(ScanMode::parse("historical"), Some(ScanMode::Historical));
    assert_eq!(ScanMode::parse("xyz"), None);
}

#[test]
fn classify_families() {
    assert_eq!(SensorFamily::classify("thermal_coldsink"), SensorFamily::Thermal);
    assert_eq!(SensorFamily::classify("sar_temporal_persistence"), SensorFamily::Sar);
    assert_eq!(SensorFamily::classify("temporal_persistence_z"), SensorFamily::Temporal);
    assert_eq!(SensorFamily::classify("blue_green_clarity"), SensorFamily::Optical);
    assert_eq!(SensorFamily::classify("glint_roughness"), SensorFamily::Glint);
}

#[test]
fn orbit_from_filename_descending() {
    assert_eq!(orbit_from_filename("rtc_S1A_IW_SLC__1SDV_20240811.tif"), "descending");
}

#[test]
fn orbit_from_filename_ascending_and_default() {
    assert_eq!(orbit_from_filename("/data/s1b_1ssh_scene.tif"), "ascending");
    assert_eq!(orbit_from_filename("/data/s1_asc_pass.tif"), "ascending");
    assert_eq!(orbit_from_filename("/data/plain.tif"), "descending");
    // Only the file name counts, not the directories above it.
    assert_eq!(orbit_from_filename("/ASC/plain.tif"), "descending");
}

#[test]
fn dbscan_two_well_separated_clusters() {
    let mut pts: Vec<(f64, f64)> = Vec::new();
    for i in 0..5 {
        pts.push((0.0 + i as f64 * 0.01, 0.0));
    }
    for i in 0..5 {
        pts.push((10.0 + i as f64 * 0.01, 10.0));
    }
    let labels = run_dbscan(&pts, 0.5, 3);
    let persistence = calculate_persistence(&labels);
    assert_eq!(persistence.len(), 2, "should find exactly two clusters");
    assert!(labels.iter().all(|&l| l != DBSCAN_NOISE));
    for (_, &count) in persistence.iter() {
        assert_eq!(count, 5);
    }
}

#[test]
fn dbscan_marks_isolated_point_as_noise() {
    let mut pts: Vec<(f64, f64)> = Vec::new();
    for i in 0..6 {
        pts.push((0.0 + i as f64 * 0.01, 0.0));
    }
    pts.push((50.0, 50.0));
    let labels = run_dbscan(&pts, 0.5, 3);
    assert_eq!(*labels.last().unwrap(), DBSCAN_NOISE, "isolated point is noise");
    let persistence = calculate_persistence(&labels);
    assert_eq!(persistence.len(), 1, "only one real cluster");
}

#[test]
fn dbscan_all_noise_when_min_samples_too_high() {
    let pts = vec![(0.0, 0.0), (0.01, 0.0), (0.0, 0.01), (0.01, 0.01)];
    let labels = run_dbscan(&pts, 0.5, 10);
    assert!(labels.iter().all(|&l| l == DBSCAN_NOISE));
    assert!(calculate_persistence(&labels).is_empty());
}

#[test]
fn dbscan_clusters_numbered_by_first_point_and_border_joins_first() {
    // A chain 0-1-2 (core points with min_samples 2 when 1 touches both),
    // point 3 alone, and a second pair 4-5.
    let nb = vec![
        vec![0, 1],
        vec![0, 1, 2],
        vec![1, 2],
        vec![3],
        vec![4, 5],
        vec![4, 5],
    ];
    assert_eq!(dbscan_labels(&nb, 2), vec![0, 0, 0, DBSCAN_NOISE, 1, 1]);
    // With min_samples 3 only point 1 is core: 0 and 2 are its border points.
    assert_eq!(dbscan_labels(&nb, 3), vec![0, 0, 0, DBSCAN_NOISE, DBSCAN_NOISE, DBSCAN_NOISE]);
    // A border point between two clusters goes to the lower-numbered one.
    let shared = vec![
        vec![0, 1, 2, 3],
        vec![0, 1, 2, 3],
        vec![0, 1, 2, 3],
        vec![0, 1, 2, 3, 8],
        vec![4, 5, 6, 7, 8],
        vec![4, 5, 6, 7],
        vec![4, 5, 6, 7],
        vec![4, 5, 6, 7],
        vec![3, 4, 8],
    ];
    assert_eq!(dbscan_labels(&shared, 4), vec![0, 0, 0, 0, 1, 1, 1, 1, 0]);
}

#[test]
fn persistence_counts_members() {
    let labels = vec![0, 1, DBSCAN_NOISE, 1, 1, 0];
    let p = calculate_persistence(&labels);
    assert_eq!(p.len(), 2);
    assert_eq!(p[&0], 2);
    assert_eq!(p[&1], 3);
    assert!(!p.contains_key(&DBSCAN_NOISE));
}

#[test]
fn group_by_orbit_buckets() {
    let orbits = vec!["ascending".to_string(), "descending".to_string(), "ascending".to_string()];
    let g = group_by_orbit(&orbits);
    let asc = g.iter().find(|x| x.orbit == "ascending").unwrap();
    let desc = g.iter().find(|x| x.orbit == "descending").unwrap();
    assert_eq!(asc.members.len(), 2);
    assert_eq!(desc.members.len(), 1);
}

#[test]
fn group_by_orbit_keeps_other_tags_and_empty_seeds() {
    let orbits = vec!["left".to_string(), "left".to_string(), "right".to_string()];
    let g = group_by_orbit(&orbits);
    assert_eq!(g.len(), 4);
    assert_eq!(g[0].orbit, "ascending");
    assert!(g[0].members.is_empty());
    assert_eq!(g[1].orbit, "descending");
    assert_eq!(g[2].orbit, "left");
    assert_eq!(g[2].members, vec![0, 1]);
    assert_eq!(g[3].orbit, "right");
    assert_eq!(g[3].members, vec![2]);
}

#[test]
fn cluster_sar_points_emits_clusters() {
    // Five points 0.001 deg apart along one meridian: one cluster of five.
    let mut pts: Vec<(f64, f64)> = Vec::new();
    for i in 0..5 {
        pts.push((-81.0, 45.0 + i as f64 * 0.001));
    }
    let labels = run_dbscan(&pts, 0.5, 3);
    let clusters = cluster_members(&labels);
    assert_eq!(clusters.len(), 1);
    assert_eq!(clusters[0].members.len(), 5);
    let persistence = clusters[0].members.len() as f64 / pts.len() as f64;
    assert!((persistence - 1.0).abs() < 1e-9);
    let lon = clusters[0].members.iter().map(|&i| pts[i].0).sum::<f64>() / 5.0;
    assert!((lon + 81.0).abs() < 1e-9);
}

#[test]
fn cluster_members_sorted_by_label() {
    let labels = vec![2, DBSCAN_NOISE, 0, 2, 0, 5];
    let c = cluster_members(&labels);
    let ids: Vec<i64> = c.iter().map(|x| x.cluster_id).collect();
    assert_eq!(ids, vec![0, 2, 5]);
    assert_eq!(c[0].members, vec![2, 4]);
    assert_eq!(c[1].members, vec![0, 3]);
    assert_eq!(c[2].members, vec![5]);
}

/// Whether each pair of hits lies within `tolerance_m` (degrees scaled by
/// metres per degree of latitude).
fn near_matrix(hits: &[(f64, f64)], tolerance_m: f64) -> Vec<Vec<bool>> {
    let tol = tolerance_m / 111_320.0;
    let tol2 = tol * tol;
    hits.iter()
        .map(|a| {
            hits.iter()
                .map(|b| {
                    let dlat = a.0 - b.0;
                    let dlon = a.1 - b.1;
                    dlat * dlat + dlon * dlon < tol2
                })
                .collect()
        })
        .collect()
}

#[test]
fn three_families_lock() {
    let pos = vec![(45.5, -84.5), (45.5, -84.5), (45.5001, -84.5001)];
    let fams = vec![SensorFamily::Thermal, SensorFamily::Sar, SensorFamily::Optical];
    let locks = lock_groups(&near_matrix(&pos, 300.0), &fams, 3);
    assert_eq!(locks.len(), 1);
    assert_eq!(locks[0].families.len(), 3);
    assert_eq!(locks[0].members, vec![0, 1, 2]);
}

#[test]
fn two_families_no_triple() {
    let pos = vec![(45.5, -84.5), (45.5, -84.5), (45.5, -84.5)];
    let more = vec![SensorFamily::Thermal, SensorFamily::Optical, SensorFamily::Optical];
    assert!(lock_groups(&near_matrix(&pos, 300.0), &more, 3).is_empty());
    let two = vec![SensorFamily::Thermal, SensorFamily::Optical];
    let locks = lock_groups(&near_matrix(&pos[..2], 300.0), &two, 2);
    assert_eq!(locks.len(), 1);
    assert_eq!(locks[0].families.len(), 2);
}

#[test]
fn far_apart_not_fused() {
    let pos = vec![(45.5, -84.5), (45.9, -84.9), (45.1, -84.1)];
    let fams = vec![SensorFamily::Thermal, SensorFamily::Sar, SensorFamily::Optical];
    assert!(lock_groups(&near_matrix(&pos, 300.0), &fams, 3).is_empty());
}

#[test]
fn post_storm_first_calm() {
    // 5, 6 and 7 July: a storm, then two calm days.
    let dates = vec![100, 101, 102];
    let cond = vec![DayCondition::Storm, DayCondition::Calm, DayCondition::Calm];
    let tagged = tag_post_storm(&dates, &cond, 3);
    assert_eq!(tagged, vec![DayCondition::Storm, DayCondition::PostStorm(1), DayCondition::PostStorm(2)]);
    assert_eq!(first_post_storm_day(&dates, &tagged), Some(101));
}

#[test]
fn post_storm_window_and_runoff_kept() {
    let dates = vec![10, 11, 12, 13, 14, 15];
    let cond = vec![
        DayCondition::Storm,
        DayCondition::SpringRunoff,
        DayCondition::Transitional,
        DayCondition::Storm,
        DayCondition::Calm,
        DayCondition::Calm,
    ];
    let tagged = tag_post_storm(&dates, &cond, 2);
    assert_eq!(
        tagged,
        vec![
            DayCondition::Storm,
            DayCondition::SpringRunoff,
            DayCondition::PostStorm(2),
            DayCondition::Storm,
            DayCondition::PostStorm(1),
            DayCondition::PostStorm(2),
        ]
    );
    assert_eq!(spring_runoff_dates(&dates, &tagged), vec![11]);
    assert_eq!(first_post_storm_day(&dates, &cond), None);
}

#[test]
fn plume_intent_prefers_spring_runoff_over_post_storm() {
    let runoff = condition_suitability_tenths(DayCondition::SpringRunoff, ScanIntent::EventResponse);
    let ps1 = condition_suitability_tenths(DayCondition::PostStorm(1), ScanIntent::EventResponse);
    let storm = condition_suitability_tenths(DayCondition::Storm, ScanIntent::EventResponse);
    assert!(runoff > ps1 && ps1 > storm, "runoff {runoff} > post-storm {ps1} > storm {storm}");
    assert!(
        condition_suitability_tenths(DayCondition::Calm, ScanIntent::ZebraClarity)
            > condition_suitability_tenths(DayCondition::SpringRunoff, ScanIntent::ZebraClarity)
    );
}

fn link(rel: Option<&str>, ty: Option<&str>, href: Option<&str>) -> GranuleLink {
    GranuleLink {
        rel: rel.map(|s| s.to_string()),
        content_type: ty.map(|s| s.to_string()),
        href: href.map(|s| s.to_string()),
    }
}

#[test]
fn extract_download_urls_prefers_data_rel() {
    let granule = Granule {
        links: Some(vec![
            link(Some("http://esipfed.org/ns/fedsearch/1.1/data#"), None, Some("https://x/file.nc")),
            link(Some("describedby"), None, Some("https://x/meta.xml")),
            link(Some("via"), Some("image/tiff"), Some("https://x/browse.tif")),
        ]),
    };
    let urls = extract_download_urls(&granule);
    assert!(urls.contains(&"https://x/file.nc".to_string()));
    assert!(urls.contains(&"https://x/browse.tif".to_string()));
    assert!(!urls.contains(&"https://x/meta.xml".to_string()));
}

#[test]
fn extract_download_urls_metadata_rel_matches_substring() {
    let granule = Granule {
        links: Some(vec![link(
            Some("http://esipfed.org/ns/fedsearch/1.1/metadata#"),
            None,
            Some("https://x/m.json"),
        )]),
    };
    let urls = extract_download_urls(&granule);
    assert!(urls.contains(&"https://x/m.json".to_string()));
}

#[test]
fn extract_download_urls_handles_missing_links() {
    let granule = Granule { links: None };
    assert!(extract_download_urls(&granule).is_empty());
}

#[test]
fn extract_download_urls_by_extension_and_case() {
    let granule = Granule {
        links: Some(vec![
            link(None, None, Some("https://x/A.TAR.GZ")),
            link(Some("HTTPS"), None, Some("https://x/page")),
            link(Some("icon"), Some("Image/PNG"), Some("https://x/i")),
            link(Some("data"), None, Some("")),
            link(Some("data"), None, None),
            link(Some("self"), Some("text/html"), Some("https://x/index.html")),
        ]),
    };
    assert_eq!(
        extract_download_urls(&granule),
        vec!["https://x/A.TAR.GZ".to_string(), "https://x/page".to_string(), "https://x/i".to_string()]
    );
}

#[test]
fn days_since_the_last_storm_before_the_scene() {
    let dates = vec![100, 101, 102, 103, 104];
    let (calm, storm) = (DayCondition::Calm, DayCondition::Storm);
    let tags = vec![storm, calm, storm, calm, storm];
    assert_eq!(days_since_last_storm(&dates, &tags, 103), Some(1));
    assert_eq!(days_since_last_storm(&dates, &tags, 104), Some(0));
    assert_eq!(days_since_last_storm(&dates, &tags, 99), None);
    assert_eq!(days_since_last_storm(&dates, &vec![calm; 5], 110), None);
    assert_eq!(scene_day_index(&dates, 102), 2);
    assert_eq!(scene_day_index(&dates, 200), 4);
    assert_eq!(scene_day_index(&vec![5, 5], 5), 0);
}

#[test]
fn before_after_brackets_event() {
    // The Straits of Mackinac (45.87, -84.58) lie in the Michigan-Huron basin.
    let plan = cesarops::scan_plan::build_plan(
        ScanMode::BeforeAfter,
        cesarops::lake_levels::LakeBasin::MichiganHuron,
        cesarops::env_conditions::ScanIntent::DeepWreck,
        &["sentinel2"],
        Some("2022-11-15"),
        true,
    );
    assert!(plan.windows.iter().any(|w| w.label == "pre_event"));
    assert!(plan.windows.iter().any(|w| w.label == "post_event"));
    assert_eq!(plan.min_scenes, 20);
    assert_eq!(plan.target_scenes, 100);
}

#[test]
fn historical_picks_years() {
    let plan = cesarops::scan_plan::build_plan(
        ScanMode::Historical,
        cesarops::lake_levels::LakeBasin::MichiganHuron,
        cesarops::env_conditions::ScanIntent::DeepWreck,
        &["sentinel2"],
        None,
        true,
    );
    assert!(!plan.windows.is_empty(), "historical should pick year windows");
}

#[test]
fn fusion_bundles_results_per_wreck() {
    let ids: Vec<String> = ["W1", "W2", "W1", "W3", "W2"].iter().map(|s| s.to_string()).collect();
    let groups = cesarops::fusion::group_by_key(&ids);
    let got: Vec<(String, Vec<usize>)> = groups.iter().map(|g| (g.key.clone(), g.members.clone())).collect();
    assert_eq!(
        got,
        vec![("W1".to_string(), vec![0, 2]), ("W2".to_string(), vec![1, 4]), ("W3".to_string(), vec![3])]
    );
    let dates = vec![Some(10), None, Some(7), None, Some(12)];
    assert_eq!(cesarops::fusion::latest_date(&dates, &vec![0, 2]), Some(10));
    assert_eq!(cesarops::fusion::latest_date(&dates, &vec![1, 4]), Some(12));
    assert_eq!(cesarops::fusion::latest_date(&dates, &vec![3]), None);
    assert!(cesarops::fusion::group_by_key(&vec![]).is_empty());
}

#[test]
fn glint_shares_the_optical_threshold() {
    assert_eq!(SensorFamily::Glint.threshold_knob(), ThresholdKnob::OpticalZ);
    assert_eq!(SensorFamily::Optical.threshold_knob(), ThresholdKnob::OpticalZ);
    assert_eq!(SensorFamily::Thermal.threshold_knob(), ThresholdKnob::ThermalZ);
    assert_eq!(SensorFamily::Sar.threshold_knob(), ThresholdKnob::SarZ);
    assert_eq!(SensorFamily::Temporal.threshold_knob(), ThresholdKnob::TemporalZ);
}

#[test]
fn sources_listed_once_sorted() {
    let v: Vec<String> = ["zebra", "sar", "zebra", "glint"].iter().map(|s| s.to_string()).collect();
    assert_eq!(cesarops::collate::sorted_distinct(&v), vec!["glint", "sar", "zebra"]);
    assert!(cesarops::collate::sorted_distinct(&vec![]).is_empty());
}

#[test]
fn scene_verdicts_follow_buoy_then_fitness() {
    assert_eq!(scene_verdict(Some(true), true), (true, VerdictReason::Qualified));
    assert_eq!(scene_verdict(None, true), (true, VerdictReason::Qualified));
    assert_eq!(scene_verdict(Some(false), true), (false, VerdictReason::RoughWater));
    assert_eq!(scene_verdict(Some(false), false), (false, VerdictReason::RoughWater));
    assert_eq!(scene_verdict(None, false), (false, VerdictReason::LowFitness));
}

#[test]
fn stac_month_filter_and_range() {
    assert!(month_wanted(&vec![], 2));
    assert!(month_wanted(&vec![3, 4], 4));
    assert!(!month_wanted(&vec![3, 4], 5));
    assert_eq!(stac_datetime_range("2024-01-01", "2024-01-31"), "2024-01-01T00:00:00Z/2024-01-31T23:59:59Z");
}

#[test]
fn buoy_records_of_the_scene_day() {
    let body = "#YY MM DD hh mm WDIR WSPD GST WVHT DPD APD MWD PRES ATMP WTMP DEWP VIS TIDE\n\
                #yr mo dy hr mn degT m/s m/s m sec sec degT hPa degC degC degC mi ft\n\
                2024 08 11 12 00 270 3.0 4.0 0.15 2.0 1.5 270 1010 20.0 18.0 15.0 99.0 99.0\n\
                2024 08 11 13 00 270 3.5 4.5 0.20 2.0 1.5 270 1010 20.0 18.0 15.0 99.0 99.0\n\
                2024 08 12 13 00 270 9.5 4.5 1.20 2.0 1.5 270 1010 20.0 18.0 15.0 99.0 99.0\n\
                2024 08 11 13 00 270\n";
    let rows = cesarops::buoy::day_records(body, "2024", 8, 11);
    assert_eq!(
        rows,
        vec![("3.0".to_string(), "0.15".to_string()), ("3.5".to_string(), "0.20".to_string())]
    );
    let missing = "2024 08 11 12 00 270 99.0 99.0 99.00 99.0 99.0 999 9999 99.0 99.0 99.0 99.0 99.0\n";
    assert_eq!(cesarops::buoy::day_records(missing, "2024", 8, 11), vec![("99.0".to_string(), "99.00".to_string())]);
    assert!(cesarops::buoy::day_records(missing, "2023", 8, 11).is_empty());
    let w = cesarops::text::words_exec(&"  a\tbc  d ".chars().collect());
    assert_eq!(w, vec![vec!['a'], vec!['b', 'c'], vec!['d']]);
}

#[test]
fn orbit_tags_read_only_the_file_name() {
    assert_eq!(cesarops::sar::orbit_from_filename("/data/x/S1A_IW_GRDH_1SSH_x.tif"), "ascending");
    // The directory names no orbit; `..` has no file name at all.
    assert_eq!(cesarops::sar::orbit_from_filename("/data/1SSH/.."), "descending");
    // Trailing `.` and `/` are not components.
    assert_eq!(cesarops::sar::orbit_from_filename("/data/x_asc/./"), "ascending");
    assert_eq!(cesarops::sar::orbit_from_filename("/data/ASC_dir/s1_desc.tif"), "descending");
}
