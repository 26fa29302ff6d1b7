use cesarops::tool_args::{bbox_fields, mission_args, provider_sensors, report_files, satellite_env_vars};
use cesarops::cmr::{
    cmr_page_size, cmr_plan, cmr_temporal, concept_ids, first_download_url, sensor_collections, token_from_env_text,
    CmrSensor, DATA_REL,
};
use cesarops::stac::GranuleLink;
use cesarops::components::connected_centroids;
use cesarops::model_registry::{select_model_for_task, vram_order, ModelEntry, ModelRegistry};
use cesarops::tools::{
    detection_base_url, reset_think_counter, resets_think_counter, resolve_path, route_tool, symforge_tool,
    think_limit_message, unknown_tool_message, ThinkCounter, ToolKind,
};

#[test]
fn connected_centroids_finds_blob() {
    let mut m = vec![false; 100];
    for r in 3..7 {
        for c in 3..7 {
            m[r * 10 + c] = true;
        }
    }
    let c = connected_centroids(&m, 10, 5);
    assert_eq!(c.len(), 1);
    assert!(c[0].n_pixels >= 16);
    assert_eq!(c[0].row_sum as f64 / c[0].n_pixels as f64, 4.5);
    assert_eq!(c[0].col_sum as f64 / c[0].n_pixels as f64, 4.5);
}

#[test]
fn connected_centroids_orders_and_filters_blobs() {
    // A 3 x 5 raster: pixels 0-1 (row 0), 4 and 9 stacked in the last column,
    // 10 (row 2, column 0) and 13 (row 2, column 3). The row wrap does not
    // join pixel 9 (row 1, last column) with pixel 10 (row 2, first column).
    let w = 5;
    let mut m = vec![false; 15];
    for p in [0, 1, 4, 9, 10, 13] {
        m[p] = true;
    }
    let all = connected_centroids(&m, w, 1);
    let sizes: Vec<usize> = all.iter().map(|b| b.n_pixels).collect();
    assert_eq!(sizes, vec![2, 2, 1, 1]);
    // Pixels 4 and 9 are stacked in the last column: one blob.
    assert_eq!((all[1].row_sum, all[1].col_sum), (1, 8));
    assert_eq!((all[0].row_sum, all[0].col_sum), (0, 1));
    assert_eq!((all[2].row_sum, all[2].col_sum), (2, 0));
    assert_eq!((all[3].row_sum, all[3].col_sum), (2, 3));
    let big = connected_centroids(&m, w, 2);
    assert_eq!(big.len(), 2);
    assert!(connected_centroids(&vec![false; 6], 3, 1).is_empty());
}

#[test]
fn tool_routing() {
    assert_eq!(route_tool("write_file"), ToolKind::WriteFile);
    assert_eq!(route_tool("think_harder"), ToolKind::ThinkHarder);
    assert_eq!(route_tool("run_command"), ToolKind::RunCommand);
    assert_eq!(route_tool("get_symbol"), ToolKind::Symforge(1));
    assert_eq!(symforge_tool(1), Some("get_symbol"));
    assert_eq!(route_tool("batch_rename"), ToolKind::Symforge(8));
    assert_eq!(symforge_tool(9), None);
    assert_eq!(route_tool("sat_read_mission_report"), ToolKind::SatReadMissionReport);
    assert_eq!(route_tool("nope"), ToolKind::Unknown);
    assert!(resets_think_counter(ToolKind::Remember));
    assert!(!resets_think_counter(ToolKind::RunCommand));
    assert!(unknown_tool_message("nope").starts_with("Unknown tool: nope. Available tools: read_file"));
}

#[test]
fn think_budget_counts_and_resets() {
    let mut c = ThinkCounter::new();
    assert!(c.take());
    assert!(c.take());
    assert_eq!(c.count, 2);
    reset_think_counter(&mut c);
    assert_eq!(c.count, 0);
    let mut full = ThinkCounter { count: u32::MAX };
    assert!(!full.take());
    assert_eq!(full.count, 0);
    assert_eq!(think_limit_message(), "Error: think_harder limit reached");
}

#[test]
fn tool_paths_and_service_url() {
    assert_eq!(resolve_path("src/main.rs", "/proj"), "/proj/src/main.rs");
    assert_eq!(resolve_path("/etc/hosts", "/proj"), "/etc/hosts");
    assert_eq!(detection_base_url(None), "http://10.0.0.201:5580");
    assert_eq!(detection_base_url(Some(String::new())), "http://10.0.0.201:5580");
    assert_eq!(detection_base_url(Some("http://h:1//".to_string())), "http://h:1");
}

#[test]
fn model_names_and_vram() {
    assert_eq!(ModelEntry::infer_specialty("Qwen2.5-Coder-7B.gguf"), "coder");
    assert_eq!(ModelEntry::infer_specialty("DeepSeek-R1-Distill.gguf"), "thinker");
    assert_eq!(ModelEntry::infer_specialty("llama-3.gguf"), "general");
    assert_eq!(ModelEntry::infer_quantization("model-Q4_K_M.gguf"), "Q4_K_M");
    assert_eq!(ModelEntry::infer_quantization("model-bf16.gguf"), "F16");
    assert_eq!(ModelEntry::infer_quantization("model.gguf"), "unknown");
    assert_eq!(ModelEntry::estimate_vram_mb(4000, "Q4_K_M"), 4000);
    assert_eq!(ModelEntry::estimate_vram_mb(4000, "Q8_0"), 8000);
    assert_eq!(ModelEntry::estimate_vram_mb(u64::MAX, "unknown"), u64::MAX);
    let e = ModelEntry::describe("/m/x-coder-q8.gguf".to_string(), "x-coder-q8.gguf", 100);
    assert_eq!(e.specialty, "coder");
    assert_eq!(e.quantization, "Q8_0");
    assert_eq!(e.estimated_vram_mb, 200);
}

#[test]
fn model_order_and_selection() {
    assert_eq!(vram_order(&vec![300, 100, 300, 50]), vec![3, 1, 0, 2]);
    let models = vec![
        ModelEntry::describe("a".to_string(), "a-coder-q4.gguf", 500),
        ModelEntry::describe("b".to_string(), "b-q4.gguf", 100),
        ModelEntry::describe("c".to_string(), "c-coder-q4.gguf", 2000),
    ];
    assert_eq!(select_model_for_task("coder", 1000, &models), Some(0));
    assert_eq!(select_model_for_task("coder", 400, &models), None);
    assert_eq!(select_model_for_task("general", 400, &models), Some(1));
    let reg = ModelRegistry { models };
    assert_eq!(reg.select_model_for_task("coder", 5000).unwrap().path, "a");
}

#[test]
fn cmr_tables_links_and_tokens() {
    let ids = concept_ids();
    assert_eq!(ids.len(), 6);
    assert_eq!(ids[2], ("sar", "C1214354438-ASF"));
    let link = |rel: &str, href: &str| GranuleLink {
        rel: Some(rel.to_string()),
        content_type: None,
        href: Some(href.to_string()),
    };
    let links = vec![
        link("describedby", "https://x/meta.xml"),
        link(DATA_REL, "s3://bucket/file.h5"),
        link(DATA_REL, "https://x/file.h5"),
        link(DATA_REL, "https://x/second.h5"),
    ];
    assert_eq!(first_download_url(&links), "https://x/file.h5");
    assert_eq!(first_download_url(&links[..2].to_vec()), "");
    let env = "# comment\n\nOTHER=1\n EARTHDATA_TOKEN = \nEARTHDATA_TOKEN = abc=def \nEARTHDATA_TOKEN=zzz\n";
    assert_eq!(token_from_env_text(env), Some("abc=def".to_string()));
    assert_eq!(token_from_env_text("#EARTHDATA_TOKEN=x\nEARTHDATA_TOKEN"), None);
}

#[test]
fn download_providers_map_to_sensor_lists() {
    assert_eq!(provider_sensors("auto"), "all");
    assert_eq!(provider_sensors("all"), "all");
    assert_eq!(provider_sensors("optical_aws"), "aws");
    assert_eq!(provider_sensors("free_aws"), "aws");
    assert_eq!(provider_sensors("sentinel"), "sentinel2_aws,sar");
    assert_eq!(provider_sensors("sentinel2"), "sentinel2_aws");
    assert_eq!(provider_sensors("landsat"), "landsat_aws");
    assert_eq!(provider_sensors("optical"), "optical_aws");
    assert_eq!(provider_sensors("hls,sar"), "hls,sar");
}

#[test]
fn satellite_credentials_from_env_text() {
    let text = "# comment\nEARTHDATA_TOKEN = \"abc\"\nOTHER=1\n  USGS_USER='me'  \nNOEQUALS\nASF_PASS=\"'x'\"\r\nCESAROPS_DATA_DIR=/data\nCESAROPS_DATA_DIRX=no\n";
    let got = satellite_env_vars(text);
    let want: Vec<(String, String)> = vec![
        ("EARTHDATA_TOKEN", "abc"),
        ("USGS_USER", "me"),
        ("ASF_PASS", "x"),
        ("CESAROPS_DATA_DIR", "/data"),
    ]
    .into_iter()
    .map(|(k, v)| (k.to_string(), v.to_string()))
    .collect();
    assert_eq!(got, want);
    assert!(satellite_env_vars("").is_empty());
}

#[test]
fn mission_runner_arguments() {
    let stages = vec!["download".to_string(), "report".to_string()];
    assert_eq!(
        mission_args("/m.json", true, Some("{\"a\":1}".to_string()), &stages),
        vec!["--spec", "/m.json", "--dry-run", "--knobs", "{\"a\":1}", "--stages", "download", "report"]
    );
    assert_eq!(mission_args("/m.json", false, None, &vec![]), vec!["--spec", "/m.json"]);
    assert_eq!(report_files("mission"), vec![("mission_report.json", "mission_report")]);
    assert_eq!(report_files("validation"), vec![("validation_report.json", "validation_report")]);
    assert_eq!(report_files("both").len(), 2);
    assert_eq!(
        bbox_fields(" 45.1, -84.2 ,45.9,-83.0"),
        Some(vec!["45.1".to_string(), "-84.2".to_string(), "45.9".to_string(), "-83.0".to_string()])
    );
    assert_eq!(bbox_fields("1,2,3"), None);
}

#[test]
fn cmr_search_plan_skips_repeats_and_reports_unknown_keys() {
    let plan = cmr_plan("hls, SAR,hls_l30,,bogus, bogus ,sar,MODIS");
    let steps: Vec<(String, Option<CmrSensor>)> = plan.steps.iter().map(|s| (s.key.clone(), s.sensor)).collect();
    assert_eq!(
        steps,
        vec![
            ("hls".to_string(), Some(CmrSensor::Hls)),
            ("sar".to_string(), Some(CmrSensor::Sar)),
            ("hls_l30".to_string(), Some(CmrSensor::Hls)),
            ("bogus".to_string(), None),
            ("bogus".to_string(), None),
            ("modis".to_string(), Some(CmrSensor::Modis)),
        ]
    );
    assert_eq!(plan.sensors_queried, vec!["hls", "hls_l30", "modis", "sar"]);
    assert_eq!(
        sensor_collections(CmrSensor::Hls),
        vec![("hls_l30", "HLS-Landsat", None), ("hls_s30", "HLS-Sentinel", None)]
    );
    assert_eq!(sensor_collections(CmrSensor::Sar), vec![("sar", "SAR-Sentinel1", Some("VV+VH"))]);
    assert_eq!(cmr_temporal("2024-01-01", "2024-02-01"), "2024-01-01T00:00:00Z,2024-02-01T23:59:59Z");
    assert_eq!(cmr_page_size(20), 20);
    assert_eq!(cmr_page_size(500), 200);
}
