use cesarops::calendar::{format_ymd, truncate_output};
use cesarops::capabilities::{parse_nvidia_smi, WorkerManifest};
use cesarops::downloads::{
    auth_present_with, finish_report, missing_auth_message, needs_fetch, parse_sensor_set, probe_result,
    source_catalog, source_selected, FetchOutcome,
};
use cesarops::engine_error::EngineError;
use cesarops::geotiff::{epsg_from_geokeys, utm_zone};
use cesarops::mission::{
    confidence_level, ConfidenceLevel,
    days_back, effective_stages, join_path, mission_status, native_s2_only, wanted_names, wreck_name_wanted,
    MissionPaths, Stage,
};
use cesarops::node::{
    gpu_table, health_status, on_child_crash, parse_gpu_csv, primary_gpu, server_command_args, NodeState,
};
use cesarops::plugins::PluginRegistry;
use cesarops::reporting::case_stats;
use cesarops::sar::downsample_factor_for_dim;
use cesarops::roster::{CaseStatus, CreateMemberRequest, ResponderRole, ResponderStatus, Roster, RosterError};
use cesarops::stac::{
    opera_downloaded, plan_opera_fetch, token_present, Granule, GranuleLink, OperaError, OperaPlan, SceneAssets,
    OPERA_DSWX_COLLECTION_ID,
};

#[test]
fn nvidia_smi_name_and_memory() {
    let out = "| NVIDIA-SMI 535 |\n| 0  Tesla T4  |\n|  1000M / 15000M  |\n";
    let (name, total, free) = parse_nvidia_smi(out);
    assert_eq!(name, "0  Tesla T4");
    assert_eq!(total, 15000);
    assert_eq!(free, 14000);
}

#[test]
fn nvidia_smi_memory_line_with_utilisation() {
    // The memory line shape the parser documents: utilisation, then used / total.
    assert_eq!(parse_nvidia_smi("|   0%  3456M / 16276M |"), ("Unknown".to_string(), 16276, 12820));
    assert_eq!(parse_nvidia_smi("| 3456 M / 16276M |"), ("Unknown".to_string(), 16276, 12820));
}

#[test]
fn nvidia_smi_defaults_and_saturation() {
    assert_eq!(parse_nvidia_smi(""), ("Unknown".to_string(), 0, 0));
    assert_eq!(parse_nvidia_smi("| 20M / 10M |"), ("Unknown".to_string(), 10, 0));
    // A name column of "--" is ignored; an unparsable pair leaves memory unset.
    assert_eq!(parse_nvidia_smi("| -- | RTX |\n| xM / 10M |"), ("Unknown".to_string(), 0, 0));
}

#[test]
fn format_ymd_known_days() {
    assert_eq!(format_ymd(0), "1970-01-01");
    assert_eq!(format_ymd(86_399), "1970-01-01");
    assert_eq!(format_ymd(31_536_000), "1971-01-01");
    assert_eq!(format_ymd(951_782_400), "2000-02-29");
    // Whole days count toward zero, so the last second before the epoch is day 0.
    assert_eq!(format_ymd(-1), "1970-01-01");
    assert_eq!(format_ymd(-86_400), "1969-12-31");
}

#[test]
fn truncate_output_marks_length() {
    assert_eq!(truncate_output("hi", 5), "hi");
    assert_eq!(truncate_output("hello", 5), "hello");
    assert_eq!(truncate_output("hello world", 5), "hello... [truncated, 11 total bytes]");
}

#[test]
fn manifest_identity_fields() {
    let m = WorkerManifest::with_identity("w-1".to_string(), "host-a".to_string());
    assert_eq!(m.worker_id, "w-1");
    assert_eq!(m.hostname, "host-a");
    assert_eq!(m.gpu_name, "Unknown");
    assert_eq!(m.specialty, "general");
    assert_eq!(m.status, "idle");
    assert!(m.tools.contains(&"think_harder".to_string()));
    assert_eq!(m.capabilities.len(), 6);
}

#[test]
fn manifest_default_has_fresh_uuid() {
    let a = WorkerManifest::default();
    let b = WorkerManifest::default();
    assert_eq!(a.worker_id.len(), 36);
    assert_eq!(&a.worker_id[14..15], "4");
    assert_ne!(a.worker_id, b.worker_id);
}

#[test]
fn node_crash_monitor() {
    let (count, state) = on_child_crash(0, 3);
    assert_eq!(count, 1);
    assert_eq!(state.as_str(), "idle");
    let (count, state) = on_child_crash(3, 3);
    assert_eq!(count, 3);
    match state {
        NodeState::Error(m) => assert_eq!(m, "max restarts reached"),
        _ => panic!("expected the error state"),
    }
    assert!(!NodeState::Serving.accepts_spawn());
    assert!(NodeState::Idle.accepts_spawn());
    assert_eq!(health_status(8192, true), "ok");
    assert_eq!(health_status(0, true), "degraded");
    assert_eq!(health_status(8192, false), "degraded");
}

#[test]
fn gpu_csv_and_table() {
    let csv = "0, Tesla P100, 16276, 3456, 41, 7\n1, RTX 3090, 24576, x, 50, 99\nbad line\n";
    let gpus = parse_gpu_csv(csv);
    assert_eq!(gpus.len(), 2);
    assert_eq!(gpus[0].name, "Tesla P100");
    assert_eq!(gpus[0].vram_total_mb, 16276);
    assert_eq!(gpus[0].vram_used_mb, 3456);
    assert_eq!(gpus[1].vram_used_mb, 0);
    assert_eq!(primary_gpu(&gpus, 1), 1);
    assert_eq!(primary_gpu(&gpus, 7), 0);
    let fallback = gpu_table(None, 2, "vulkan");
    assert_eq!(fallback.len(), 1);
    assert_eq!(fallback[0].name, "vulkan (gpu 2)");
    assert_eq!(gpu_table(Some(csv), 2, "vulkan").len(), 2);
}

#[test]
fn server_args_per_backend() {
    let args = server_command_args("/m/a.gguf", 5001, "vulkan", 1, 99, 8192);
    assert_eq!(
        args,
        vec![
            "--model", "/m/a.gguf", "--port", "5001", "--usevulkan", "1", "--gpulayers", "99", "--contextsize",
            "8192", "--quiet", "--maingpu", "1",
        ]
    );
    let cuda = server_command_args("m", 80, "cuda", 0, 1, 2);
    assert_eq!(cuda[4], "--usecuda");
    assert_eq!(cuda[5], "--gpulayers");
    let cpu = server_command_args("m", 80, "other", 0, 1, 2);
    assert_eq!(cpu[4], "--usecpu");
}

#[test]
fn geokeys_and_utm() {
    assert_eq!(utm_zone(32616), Some((16, true)));
    assert_eq!(utm_zone(32733), Some((33, false)));
    assert_eq!(utm_zone(4326), None);
    // Header (version, revision, minor, 2 entries), then two 4-word entries.
    let keys = vec![1, 1, 0, 2, 1024, 0, 1, 1, 3072, 0, 1, 32617];
    assert_eq!(epsg_from_geokeys(&keys), Some(32617));
    let stored_elsewhere = vec![1, 1, 0, 1, 3072, 34737, 1, 0];
    assert_eq!(epsg_from_geokeys(&stored_elsewhere), None);
    assert_eq!(epsg_from_geokeys(&vec![1, 1]), None);
}

#[test]
fn engine_error_messages() {
    assert_eq!(EngineError::Msg("boom".to_string()).message(), "boom");
    assert_eq!(EngineError::Dim("3 vs 4".to_string()).message(), "dimension mismatch: 3 vs 4");
}

#[test]
fn plugins_all_disabled() {
    let reg = PluginRegistry::new();
    assert_eq!(reg.list_all().len(), 6);
    assert!(reg.list_enabled().is_empty());
    assert!(!reg.is_enabled("k9"));
    assert!(!reg.is_enabled("nope"));
}

fn member(name: &str) -> CreateMemberRequest {
    CreateMemberRequest {
        name: name.to_string(),
        role: ResponderRole::FieldSearcher,
        callsign: format!("{name}-1"),
        status: ResponderStatus::Available,
    }
}

#[test]
fn roster_create_update_delete() {
    let mut r = Roster::new();
    let a = r.create_with_id(7, member("alpha"));
    assert_eq!(a.id, 7);
    assert_eq!(r.get(7).unwrap().name, "alpha");
    assert_eq!(r.update_member_status(7, ResponderStatus::Deployed), Ok(()));
    assert_eq!(r.get(7).unwrap().status, ResponderStatus::Deployed);
    assert_eq!(r.update_member_status(8, ResponderStatus::Deployed), Err(RosterError::NotFound));
    assert_eq!(r.delete_member(7), Ok(()));
    assert!(r.get(7).is_none());
    assert_eq!(r.delete_member(7), Err(RosterError::NotFound));
}

#[test]
fn roster_random_ids_are_distinct() {
    let mut r = Roster::new();
    let a = r.create_member(member("a"));
    let b = r.create_member(member("b"));
    assert_ne!(a.id, b.id);
    assert_eq!(r.get(b.id).unwrap().name, "b");
}

#[test]
fn sensor_set_parsing() {
    let s = parse_sensor_set("  ");
    assert_eq!(s, vec!["all".to_string()]);
    let s = parse_sensor_set(" SAR, sentinel1 ,,sar ");
    assert_eq!(s, vec!["sar".to_string(), "sentinel1".to_string()]);
}

#[test]
fn source_selection_and_auth() {
    let cat = source_catalog();
    assert_eq!(cat.len(), 8);
    assert_eq!(cat[0].id, "stac_e84");
    let sar = vec!["sar".to_string()];
    let picked: Vec<&str> = cat.iter().filter(|s| source_selected(s, &sar)).map(|s| s.id).collect();
    assert_eq!(picked, vec!["copernicus_odata", "asf_search", "hyp3_api"]);
    let all = vec!["all".to_string()];
    assert!(cat.iter().all(|s| source_selected(s, &all)));
    let copernicus = &cat[1];
    assert!(!auth_present_with(copernicus, &vec![None, Some("   ".to_string())]));
    assert!(auth_present_with(copernicus, &vec![None, Some("me".to_string())]));
    assert!(auth_present_with(&cat[0], &vec![]));
    assert_eq!(
        missing_auth_message(copernicus),
        "missing auth env (need one of: COPERNICUS_USER, COPERNICUS_USERNAME)"
    );
}

#[test]
fn preflight_report_counts() {
    let cat = source_catalog();
    assert!(needs_fetch(true, true, true, true));
    assert!(!needs_fetch(true, true, true, false));
    assert!(needs_fetch(true, false, true, false));
    assert!(!needs_fetch(false, false, false, true));
    let ok = probe_result(&cat[0], true, true, true, Some(FetchOutcome::Status(200, "200 OK".to_string())), 5);
    assert!(ok.reachable);
    assert_eq!(ok.message, "reachable");
    let bad = probe_result(&cat[2], true, true, true, Some(FetchOutcome::Status(503, "503 Service Unavailable".to_string())), 9);
    assert!(!bad.reachable);
    assert_eq!(bad.message, "http 503 Service Unavailable");
    assert_eq!(bad.status_code, Some(503));
    let missing = probe_result(&cat[1], true, true, false, None, 0);
    assert!(missing.message.starts_with("missing auth env"));
    let skipped = probe_result(&cat[3], false, true, false, None, 0);
    assert_eq!(skipped.message, "");
    let failed = probe_result(&cat[4], true, false, true, Some(FetchOutcome::Failed("timeout".to_string())), 20_000);
    assert_eq!(failed.message, "timeout");
    let report = finish_report(
        vec!["all".to_string()],
        true,
        vec![ok.clone(), bad.clone(), missing.clone(), skipped.clone(), failed.clone()],
    );
    assert_eq!(report.reachable_selected, 1);
    assert_eq!(report.auth_missing_selected, 1);
    assert_eq!(report.unreachable_selected, 2);
    assert!(!report.ok);
    let good = finish_report(vec![], true, vec![ok, bad]);
    assert!(good.ok);
}

#[test]
fn mission_defaults_and_paths() {
    assert_eq!(
        effective_stages(&None),
        vec![Stage::Download, Stage::TargetKnown, Stage::ValidateGt, Stage::Report]
    );
    assert_eq!(effective_stages(&Some(vec![Stage::PocAoi])), vec![Stage::PocAoi]);
    assert_eq!(days_back(None), 14);
    assert_eq!(days_back(Some(30)), 30);
    assert_eq!(join_path("/a", "b"), "/a/b");
    assert_eq!(join_path("/a/", "b"), "/a/b");
    assert_eq!(join_path("/a", "/b"), "/b");
    assert_eq!(join_path("", "b"), "b");
    let p = MissionPaths::from_parts("m1", "/root", None, None, None, None);
    assert_eq!(p.output_dir, "/root/detection_runs/m1");
    assert_eq!(p.chip_cache_dir, "/root/detection_runs/m1/chip_cache");
    assert_eq!(p.download_dir, "/root/downloads/m1");
    assert_eq!(p.known_wrecks_json, None);
    let q = MissionPaths::from_parts("m1", "/root", Some("/out".to_string()), None, Some("/dl".to_string()), Some("/k.json".to_string()));
    assert_eq!(q.output_dir, "/out");
    assert_eq!(q.chip_cache_dir, "/out/chip_cache");
    assert_eq!(q.download_dir, "/dl");
    assert_eq!(q.known_wrecks_json, Some("/k.json".to_string()));
}

#[test]
fn mission_sensor_and_name_filters() {
    assert!(native_s2_only("sentinel2"));
    assert!(native_s2_only(" Optical , stac,"));
    assert!(!native_s2_only("sentinel2,sar"));
    assert!(!native_s2_only(" , "));
    let wanted = wanted_names(&Some(vec!["Andaste".to_string()]));
    assert!(wreck_name_wanted("SS Andaste", &wanted));
    assert!(wreck_name_wanted("and", &wanted));
    assert!(!wreck_name_wanted("Carl D. Bradley", &wanted));
    assert!(wreck_name_wanted("anything", &wanted_names(&None)));
    assert_eq!(mission_status(Some(2)), "partial");
    assert_eq!(mission_status(Some(0)), "ok");
    assert_eq!(mission_status(None), "ok");
}

#[test]
fn scene_asset_aliases() {
    let scene = SceneAssets {
        assets: vec![
            ("b03".to_string(), "https://x/green.tif".to_string()),
            ("B04".to_string(), "https://x/red.tif".to_string()),
        ],
    };
    assert_eq!(scene.asset_href("B03"), Some("https://x/green.tif".to_string()));
    assert_eq!(scene.asset_href("red4"), Some("https://x/red.tif".to_string()));
    assert_eq!(scene.asset_href("B08"), None);
}

fn granule(hrefs: &[&str]) -> Granule {
    Granule {
        links: Some(
            hrefs
                .iter()
                .map(|h| GranuleLink { rel: Some("data".to_string()), content_type: None, href: Some(h.to_string()) })
                .collect(),
        ),
    }
}

#[test]
fn opera_fetch_decisions() {
    assert_eq!(plan_opera_fetch(&vec![], true, true).err(), Some(OperaError::NoGranules));
    assert_eq!(OperaError::NoGranules.message(), "No granules found for the specified parameters");
    let empty = Granule { links: None };
    assert_eq!(plan_opera_fetch(&vec![empty], true, true).err(), Some(OperaError::NoDownloadUrls));
    match plan_opera_fetch(&vec![granule(&["https://x/a.nc"]), granule(&[])], true, false) {
        Ok(OperaPlan::Report(r)) => {
            assert_eq!(r.collection_concept_id, OPERA_DSWX_COLLECTION_ID);
            assert_eq!(r.n_granules, 2);
            assert_eq!(r.download_urls, vec!["https://x/a.nc".to_string()]);
            assert!(!r.downloaded);
            assert_eq!(r.note, "download skipped: NASA_EARTHDATA_TOKEN not set (request + parse only)");
        },
        _ => panic!("expected a report"),
    }
    match plan_opera_fetch(&vec![granule(&["https://x/a.nc"])], false, true) {
        Ok(OperaPlan::Report(r)) => assert_eq!(r.note, "download gated off (live_download=false); request + parse only"),
        _ => panic!("expected a report"),
    }
    match plan_opera_fetch(&vec![granule(&["https://x/a.nc", "https://x/b.nc"])], true, true) {
        Ok(OperaPlan::Fetch { n_granules, urls }) => {
            assert_eq!(n_granules, 1);
            assert_eq!(urls.len(), 2);
            let done = opera_downloaded(n_granules, urls, "/o/opera_dswx_data.nc".to_string());
            assert!(done.downloaded);
            assert_eq!(done.note, "downloaded first granule");
        },
        _ => panic!("expected a fetch"),
    }
    assert!(!token_present(&None));
    assert!(!token_present(&Some("  ".to_string())));
    assert!(token_present(&Some("t0k".to_string())));
}

#[test]
fn epsg_to_zone() {
    // A georeference in EPSG 32616 is UTM zone 16 north.
    assert_eq!(utm_zone(32616), Some((16, true)));
}

#[test]
fn reporting_totals() {
    let statuses = vec![CaseStatus::Active, CaseStatus::Closed, CaseStatus::Active, CaseStatus::Suspended];
    assert_eq!(case_stats(&statuses, 7), (4, 2, 7));
    assert_eq!(case_stats(&vec![], 0), (0, 0, 0));
}

#[test]
fn confidence_words_name_levels() {
    assert_eq!(confidence_level(" Dive_Verified "), ConfidenceLevel::High);
    assert_eq!(confidence_level("probable"), ConfidenceLevel::Medium);
    assert_eq!(confidence_level("LOW"), ConfidenceLevel::Low);
    assert_eq!(confidence_level("0.75"), ConfidenceLevel::Unrated);
    assert_eq!(downsample_factor_for_dim((0, 0), 0), 1);
    assert_eq!(downsample_factor_for_dim((10, 3), 4), 3);
}
