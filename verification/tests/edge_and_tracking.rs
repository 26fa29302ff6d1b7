use cesarops::edge::{forwards_body, route_request, RouteConfig};
use cesarops::mission::{
    download_route, native_outcome, parse_stage, parse_stages, selection_strategy, DownloadBudget, DownloadRoute,
    NativeOutcome, Stage,
};
use cesarops::stac::is_chip_extension;
use cesarops::roster::{CreateMemberRequest, ResponderRole, ResponderStatus, Roster, SegmentStatus};
use cesarops::collate::{first_by_name, name_order, text_less};
use cesarops::scene_select::select_distinct_scenes;
use cesarops::temporal::{
    centre_indices, channel_wanted, date_span, local_scene_entries, scene_date, scene_id_of, stack_depth,
    too_shallow_message,
    ListedFile, StackDepth, TemporalLocalOutcome,
};
use cesarops::segments::{SegmentBoard, SegmentError, SegmentUpdate};
use cesarops::tools::{
    generate_max_tokens, generate_status, nautivecs_add_url, nautivecs_query_url, rpc_method, rpc_status,
    unknown_method_message, wso_url, GenerateReply, RpcMethod,
};
use cesarops::tracking::{Tracker, MAX_TRACK_POINTS};

fn route(prefix: &str, upstream: &str) -> RouteConfig {
    RouteConfig { path_prefix: prefix.to_string(), upstream: upstream.to_string() }
}

#[test]
fn edge_routes_by_first_matching_prefix() {
    let routes = vec![route("/api/", "http://a:1/"), route("/", "http://fallback:2")];
    assert_eq!(route_request(&routes, "/api/v1/x", Some("q=1")), Some("http://a:1/v1/x?q=1".to_string()));
    assert_eq!(route_request(&routes, "/api", None), Some("http://a:1".to_string()));
    assert_eq!(route_request(&routes, "/apix", None), Some("http://a:1/x".to_string()));
    assert_eq!(route_request(&routes, "/other//y", None), Some("http://fallback:2/other//y".to_string()));
    let only_api = vec![route("/api", "http://a:1")];
    assert_eq!(route_request(&only_api, "/health", None), None);
    assert!(!forwards_body("GET"));
    assert!(!forwards_body("HEAD"));
    assert!(forwards_body("POST"));
}

#[test]
fn knowledge_addresses() {
    assert_eq!(nautivecs_query_url(None), "http://127.0.0.1:5003/query");
    assert_eq!(nautivecs_add_url(None), "http://127.0.0.1:5003/add");
    assert_eq!(nautivecs_add_url(Some("http://k:9/search/query/query".to_string())), "http://k:9/add");
    assert_eq!(nautivecs_add_url(Some("http://k:9".to_string())), "http://k:9/add");
    assert_eq!(wso_url(None), "http://127.0.0.1:5010/search");
    assert_eq!(wso_url(Some("http://w".to_string())), "http://w");
}

#[test]
fn rpc_methods() {
    assert_eq!(rpc_method("tools/list"), RpcMethod::ToolsList);
    assert_eq!(rpc_method("tools/call"), RpcMethod::ToolsCall);
    assert_eq!(rpc_method("resources/list"), RpcMethod::ResourcesList);
    assert_eq!(rpc_method("ping"), RpcMethod::Unknown);
    assert_eq!(
        unknown_method_message("ping"),
        "Unknown method: ping. Supported: tools/list, tools/call, resources/list"
    );
}

#[test]
fn tracker_keeps_last_hundred_fixes() {
    let mut t: Tracker<(f64, f64)> = Tracker::new();
    assert!(t.get_history(1).is_none());
    for i in 0..150 {
        t.update_location(1, (i as f64, 0.0));
    }
    t.update_location(2, (9.0, 9.0));
    let h = t.get_history(1).unwrap();
    assert_eq!(h.len(), MAX_TRACK_POINTS);
    assert_eq!(h[0], (50.0, 0.0));
    assert_eq!(h[h.len() - 1], (149.0, 0.0));
    assert_eq!(t.get_history(2).unwrap().len(), 1);
}

#[test]
fn segments_create_update_list() {
    let mut board: SegmentBoard<Vec<(f64, f64)>, f64> = SegmentBoard::new();
    board.create_with_id(5, vec![(45.0, -84.0), (45.1, -84.0), (45.1, -84.1)], 0.3);
    let id = board.create_segment(vec![], 0.0);
    assert_eq!(board.list_segments().len(), 2);
    assert_eq!(board.list_segments()[1].id, id);
    let up = SegmentUpdate { status: Some(SegmentStatus::InProgress), assigned_team: Some(77), pod_score: None };
    let seg = board.update_segment(5, up).ok().unwrap();
    assert_eq!(seg.status, SegmentStatus::InProgress);
    assert_eq!(seg.assigned_team, Some(77));
    assert_eq!(seg.pod_score, 0.3);
    let missing = SegmentUpdate { status: None, assigned_team: None, pod_score: Some(1.0) };
    assert_eq!(board.update_segment(6, missing).err(), Some(SegmentError::NotFound));
}

#[test]
fn roster_lists_in_order() {
    let mut r = Roster::new();
    for (id, name) in [(3u128, "c"), (1, "a")] {
        r.create_with_id(
            id,
            CreateMemberRequest {
                name: name.to_string(),
                role: ResponderRole::Medical,
                callsign: name.to_string(),
                status: ResponderStatus::Standby,
            },
        );
    }
    let names: Vec<&str> = r.list_members().iter().map(|m| m.name.as_str()).collect();
    assert_eq!(names, vec!["c", "a"]);
}

#[test]
fn stage_names_from_command_line() {
    assert_eq!(parse_stage("bathy_map"), Some(Stage::BathyMap));
    assert_eq!(parse_stage("Report"), None);
    let names: Vec<String> = ["download", "nope", "validate_gt", "report"].iter().map(|s| s.to_string()).collect();
    assert_eq!(parse_stages(&names), vec![Stage::Download, Stage::ValidateGt, Stage::Report]);
}

#[test]
fn chip_extensions() {
    assert!(is_chip_extension("PNG"));
    assert!(is_chip_extension("tiff"));
    assert!(is_chip_extension("Jpeg"));
    assert!(!is_chip_extension("gif"));
    assert!(!is_chip_extension(""));
}

#[test]
fn distinct_scenes_skip_near_duplicates() {
    // Scenes 0 and 1 are near-duplicates; 2 is far from both.
    let far = vec![
        vec![false, false, true],
        vec![false, false, true],
        vec![true, true, false],
    ];
    // Priority order: 1 first, then 0, then 2.
    let order = vec![1usize, 0, 2];
    assert_eq!(select_distinct_scenes(&order, &far, 10), vec![1, 2]);
    assert_eq!(select_distinct_scenes(&order, &far, 1), vec![1]);
    assert_eq!(select_distinct_scenes(&order, &far, 0), Vec::<usize>::new());
    assert_eq!(select_distinct_scenes(&vec![], &far, 5), Vec::<usize>::new());
}

fn listed(root: usize, name: &str) -> ListedFile {
    ListedFile { root, name: name.to_string() }
}

#[test]
fn local_scenes_once_each_sorted_by_id() {
    let listing = vec![
        listed(0, "S2A_T1_20200101.blue.tif"),
        listed(0, "S2A_T1_20200101.green.tif"),
        listed(0, "b.blue.tif"),
        listed(1, "S2A_T1_20190101.blue.tif"),
        listed(1, "b.blue.tif"),
        listed(1, "notes.txt"),
    ];
    let entries = local_scene_entries(&listing);
    let got: Vec<(usize, String)> = entries.iter().map(|e| (e.root, e.id.clone())).collect();
    assert_eq!(
        got,
        vec![
            (1, "S2A_T1_20190101".to_string()),
            (0, "S2A_T1_20200101".to_string()),
            (0, "b".to_string()),
        ]
    );
    assert_eq!(date_span(&entries), "20190101..20200101");
    assert_eq!(date_span(&local_scene_entries(&vec![listed(0, "x.blue.tif")])), "multi");
}

#[test]
fn scene_ids_strip_every_trailing_suffix() {
    assert_eq!(scene_id_of("a.blue.tif"), Some("a".to_string()));
    assert_eq!(scene_id_of("a.blue.tif.blue.tif"), Some("a".to_string()));
    assert_eq!(scene_id_of(".blue.tif"), Some(String::new()));
    assert_eq!(scene_id_of("a.red.tif"), None);
}

#[test]
fn stack_depth_gates() {
    assert_eq!(stack_depth(0, 0), StackDepth::NoScenes);
    assert_eq!(stack_depth(7, 4), StackDepth::TooShallow);
    assert_eq!(stack_depth(7, 5), StackDepth::LowConfidence);
    assert_eq!(stack_depth(30, 20), StackDepth::Sufficient);
    assert_eq!(too_shallow_message(3), "need at least 5 scenes with valid B02/B03, got 3");
    let empty: TemporalLocalOutcome<u8> = TemporalLocalOutcome::empty();
    assert_eq!((empty.n_scenes, empty.n_dates_used, empty.candidates.len()), (0, 0, 0));
}

#[test]
fn chip_centre_is_the_inner_quarter() {
    // 4 px chip: mid 2, radius 1 -> rows and columns 1..=3.
    assert_eq!(centre_indices(4), vec![5, 6, 7, 9, 10, 11, 13, 14, 15]);
    // 1 px chip: mid 0, radius 0 -> the single pixel.
    assert_eq!(centre_indices(1), vec![0]);
    assert_eq!(centre_indices(0), Vec::<usize>::new());
    let channels = vec!["ndwi".to_string(), "ndvi".to_string()];
    assert!(channel_wanted(&channels, "ndvi"));
    assert!(!channel_wanted(&channels, "ndti"));
}

#[test]
fn names_list_stably_in_text_order() {
    let names: Vec<String> = ["b", "a", "b", "", "ab", "B"].iter().map(|s| s.to_string()).collect();
    assert_eq!(name_order(&names), vec![3, 5, 1, 4, 0, 2]);
    assert!(text_less("a", "ab"));
    assert!(!text_less("ab", "a"));
    assert!(text_less("Z", "a"));
    assert!(!text_less("a", "a"));
}

#[test]
fn download_stage_routes_and_budget() {
    assert_eq!(download_route(true, false, false, true), DownloadRoute::Skipped);
    assert_eq!(download_route(false, true, true, true), DownloadRoute::Skipped);
    assert_eq!(download_route(false, false, false, true), DownloadRoute::PreflightFailed);
    assert_eq!(download_route(false, false, true, true), DownloadRoute::NativeStac);
    assert_eq!(download_route(false, false, true, false), DownloadRoute::ExternalDownloader);
    assert_eq!(selection_strategy(true, true, "low_water_wreck"), "water_year_priority_then_cloud");
    assert_eq!(selection_strategy(false, true, "low_water_wreck"), "auto_low_water_wreck");
    assert_eq!(selection_strategy(false, false, "x"), "date_window_cloud");
    assert_eq!(native_outcome(3, false), NativeOutcome::Manifest);
    assert_eq!(native_outcome(0, true), NativeOutcome::NoWaterYearScenes);
    assert_eq!(native_outcome(0, false), NativeOutcome::FallBack);

    let mut budget = DownloadBudget::new(10);
    assert_eq!(budget.next_limit(), Some(10));
    assert_eq!(budget.accept(4), 4);
    assert_eq!(budget.next_limit(), Some(6));
    assert_eq!(budget.accept(9), 6);
    assert_eq!(budget.next_limit(), None);
    assert_eq!(budget.accept(2), 0);
    assert_eq!(budget.remaining, 0);
}

#[test]
fn first_wrecks_by_name_are_capped() {
    let names: Vec<String> = ["Zeta", "alpha", "Beta", "Beta"].iter().map(|s| s.to_string()).collect();
    assert_eq!(first_by_name(&names, 3), vec![2, 3, 0]);
    assert_eq!(first_by_name(&names, 10), vec![2, 3, 0, 1]);
    assert_eq!(first_by_name(&names, 0), Vec::<usize>::new());
}

#[test]
fn worker_answers_statuses() {
    assert_eq!(rpc_status(None), 400);
    assert_eq!(rpc_status(Some(RpcMethod::Unknown)), 405);
    assert_eq!(rpc_status(Some(RpcMethod::ToolsCall)), 200);
    assert_eq!(generate_max_tokens(None), 512);
    assert_eq!(generate_max_tokens(Some(64)), 64);
    assert_eq!(generate_status(GenerateReply::Generated), (200, false));
    assert_eq!(generate_status(GenerateReply::BodyUnreadable), (500, true));
    assert_eq!(generate_status(GenerateReply::UpstreamError), (502, true));
    assert_eq!(generate_status(GenerateReply::Unreachable), (503, true));
}

#[test]
fn scene_dates_from_ids() {
    assert_eq!(scene_date("S2B_16TFR_20240913_0_L2A"), "20240913");
    assert_eq!(scene_date("S2B_16TFR"), "unknown");
    assert_eq!(scene_date("a__b"), "b");
}
