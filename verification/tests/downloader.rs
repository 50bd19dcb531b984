use localllm::api::json::{parse_json, Json};
use localllm::downloader::digest::{check_download, compare_digest};
use localllm::downloader::file_manager::{
    check_containment, check_files, choose_by_lower, choose_gguf, choose_revision, context_length,
    detect_level, downloading_status, estimate_parameters, extract_architecture, gguf_dest,
    gguf_manifest, gguf_sources, has_config, local_dir, no_gguf_message, weights_manifest,
    GgufSearch, ModelMeta,
};
use localllm::downloader::hf_api::{
    begin_report, cached_report, file_url, is_cached, list_files, list_gguf_files, next_report,
    range_header, receive, refused_message, repo_info, repo_info_url, resumes, takes_checksum,
    Reception, RepoFile, Report, Retry,
};
use localllm::registry::manifest::{QuantizationLevel, WeightFormat};
use localllm::time::Timestamp;

fn json(text: &str) -> Json {
    parse_json(text.as_bytes()).unwrap()
}

fn file(name: &str, size: Option<u64>) -> RepoFile {
    RepoFile { rfilename: name.to_string(), size }
}

fn names(files: &[RepoFile]) -> Vec<String> {
    files.iter().map(|f| f.rfilename.clone()).collect()
}

fn billions(config: &str) -> f32 {
    (estimate_parameters(&json(config)).unwrap() as f64 / 1e9) as f32
}

#[test]
fn estimate_parameters_llama_7b_ballpark() {
    let params = billions(
        "{\"hidden_size\": 4096, \"num_hidden_layers\": 32, \"vocab_size\": 32000, \"intermediate_size\": 11008}",
    );
    assert!((6.5..=7.5).contains(&params), "got {} B", params);
}

#[test]
fn estimate_parameters_uses_default_intermediate() {
    let params =
        billions("{\"hidden_size\": 4096, \"num_hidden_layers\": 32, \"vocab_size\": 32000}");
    assert!(params > 5.0 && params < 10.0);
}

#[test]
fn estimate_parameters_handles_empty_config() {
    let params = billions("{}");
    assert!(params.is_finite());
    assert!(params >= 0.0);
}

#[test]
fn parameter_count_is_exact() {
    let c = "{\"hidden_size\": 4096, \"num_hidden_layers\": 32, \"vocab_size\": 32000, \"intermediate_size\": 11008}";
    assert_eq!(estimate_parameters(&json(c)), Some(6_607_077_376));
    let huge = "{\"hidden_size\": 18446744073709551615, \"num_hidden_layers\": 1}";
    assert_eq!(estimate_parameters(&json(huge)), None);
}

#[test]
fn extract_architecture_maps_known_arches() {
    assert_eq!(extract_architecture(&json("{\"architectures\": [\"LlamaForCausalLM\"]}")), "llama");
    assert_eq!(extract_architecture(&json("{\"architectures\": [\"Qwen2ForCausalLM\"]}")), "qwen2");
    assert_eq!(
        extract_architecture(&json("{\"architectures\": [\"NewArchForCausalLM\"]}")),
        "unknown"
    );
    assert_eq!(extract_architecture(&json("{}")), "unknown");
}

#[test]
fn context_length_keeps_its_low_bits() {
    assert_eq!(context_length(&json("{\"max_position_embeddings\": 131072}")), 131072);
    assert_eq!(context_length(&json("{}")), 4096);
    assert_eq!(context_length(&json("{\"max_position_embeddings\": 4294967301}")), 5);
}

#[test]
fn hub_answers_are_read() {
    let body = json(
        "{\"siblings\": [{\"rfilename\": \"a\", \"size\": 3}, {\"rfilename\": \"\"}, {\"size\": 1}, {\"rfilename\": \"b\", \"lfs\": {\"size\": 9}}, {\"rfilename\": \"c\"}]}",
    );
    let info = repo_info("org/M", Some("abc"), &body);
    assert_eq!(info.revision, "abc");
    assert_eq!(names(&info.siblings), vec!["a", "b", "c"]);
    assert_eq!(info.siblings[0].size, Some(3));
    assert_eq!(info.siblings[1].size, Some(9));
    assert_eq!(info.siblings[2].size, None);
    assert_eq!(repo_info("org/M", None, &json("{}")).revision, "main");
    assert_eq!(repo_info_url("org/M"), "https://huggingface.co/api/models/org/M?blobs=true");
    assert_eq!(file_url("o/m", "r", "f"), "https://huggingface.co/o/m/resolve/r/f");
}

#[test]
fn wanted_files_are_listed() {
    let all: Vec<RepoFile> = [
        "config.json", "README.md", "model.safetensors", "old.pt", "../x.safetensors",
        "tokenizer.model", "weights.h5", "model.safetensors.index.json",
    ]
    .iter()
    .map(|n| file(n, None))
    .collect();
    assert_eq!(
        names(&list_files(&all)),
        vec!["config.json", "model.safetensors", "tokenizer.model", "model.safetensors.index.json"]
    );
}

#[test]
fn gguf_files_come_smallest_first() {
    let all = vec![
        file("big.GGUF", Some(9)),
        file("none.gguf", None),
        file("s-00001-of-00002.gguf", Some(1)),
        file("small.gguf", Some(2)),
        file("also.gguf", Some(9)),
        file("x.bin", Some(1)),
    ];
    assert_eq!(
        names(&list_gguf_files(&all)),
        vec!["small.gguf", "big.GGUF", "also.gguf", "none.gguf"]
    );
}

#[test]
fn transfers_resume_or_restart() {
    assert!(is_cached(Some(5), Some(5)));
    assert!(!is_cached(Some(5), Some(4)));
    assert!(!is_cached(None, Some(4)));
    assert!(resumes(3, Some(5)));
    assert!(!resumes(5, Some(5)));
    assert!(resumes(5, None));
    assert!(!resumes(0, None));
    assert_eq!(range_header(42), "bytes=42-");
    assert_eq!(receive(416, true), Reception::Complete);
    assert_eq!(receive(206, true), Reception::Append);
    assert_eq!(receive(200, true), Reception::Fresh);
    assert_eq!(receive(206, false), Reception::Fresh);
    assert_eq!(receive(404, false), Reception::Refused);
    assert!(takes_checksum(Reception::Fresh, true));
    assert!(takes_checksum(Reception::Complete, true));
    assert!(!takes_checksum(Reception::Complete, false));
    assert!(!takes_checksum(Reception::Fresh, false));
    assert!(!takes_checksum(Reception::Append, true));
    assert!(!takes_checksum(Reception::Refused, true));
    assert_eq!(refused_message("404 Not Found", "u"), "HTTP 404 Not Found for u");
}

#[test]
fn counts_grow_to_the_whole_size() {
    assert_eq!(cached_report(9), Report { there: 9, total: 9 });
    let ignored = receive(200, resumes(4, Some(9)));
    let mut told = vec![begin_report(ignored, 4, Some(9)).unwrap()];
    for chunk in [2, 0, 7] {
        told.push(next_report(*told.last().unwrap(), chunk));
    }
    let counts: Vec<u64> = told.iter().map(|r| r.there).collect();
    assert_eq!(counts, vec![0, 2, 2, 9]);
    assert!(told.iter().all(|r| r.total == 9));
    let resumed = begin_report(receive(206, true), 4, Some(9)).unwrap();
    assert_eq!(next_report(resumed, 5), Report { there: 9, total: 9 });
    let whole = receive(416, true);
    assert_eq!(begin_report(whole, 4, None), Some(Report { there: 4, total: 4 }));
    assert_eq!(begin_report(whole, 4, Some(9)), Some(Report { there: 4, total: 9 }));
    assert_eq!(begin_report(Reception::Fresh, 4, None), Some(Report { there: 0, total: 0 }));
    assert_eq!(begin_report(Reception::Refused, 4, Some(9)), None);
}

#[test]
fn three_attempts_with_growing_pauses() {
    let mut r = Retry::new();
    assert_eq!(r.fail(), Some(2));
    assert_eq!(r.fail(), Some(4));
    assert_eq!(r.fail(), None);
}

#[test]
fn checksums_are_compared() {
    let sha = "ba7816bf8f01cfea414140de5dae2223b00361a396177a9cb410ff61f20015ad";
    assert!(check_download(b"abc", sha, "u").is_ok());
    assert_eq!(
        check_download(b"abc", "00", "u").unwrap_err(),
        format!("SHA256 mismatch for u: expected 00, got {}", sha)
    );
    assert!(compare_digest(&[0x0f, 0xa0], "0fa0", "u").is_ok());
    assert_eq!(
        compare_digest(&[255], "ee", "u").unwrap_err(),
        "SHA256 mismatch for u: expected ee, got ff"
    );
}

#[test]
fn downloads_are_checked_first() {
    assert!(check_files(&[file("a", None)], "r").is_ok());
    assert_eq!(check_files(&[], "r").unwrap_err(), "No suitable files found in repository r");
    assert_eq!(
        check_files(&[file("a", None), file("../b", None)], "r").unwrap_err(),
        "Refusing to download unsafe filename from HF: '../b'"
    );
    assert!(check_containment("/m/x", "/m", "/m/x/f", '/').is_ok());
    assert_eq!(
        check_containment("/other", "/m", "/m/l/f", '/').unwrap_err(),
        "Refusing to write outside models dir: \"/m/l/f\""
    );
    assert_eq!(
        check_containment("/other", "/m", "/it's\ta", '/').unwrap_err(),
        format!("Refusing to write outside models dir: {:?}", std::path::Path::new("/it's\ta"))
    );
}

#[test]
fn gguf_files_are_looked_for_in_order() {
    assert_eq!(
        gguf_sources("Qwen/Qwen2.5-GGUF"),
        vec![
            "Qwen/Qwen2.5-GGUF",
            "bartowski/Qwen2.5-GGUF",
            "unsloth/Qwen2.5-GGUF",
            "QuantFactory/Qwen2.5-GGUF",
            "lmstudio-community/Qwen2.5-GGUF",
        ]
    );
    let mut s = GgufSearch::new("o/M");
    assert_eq!(s.next_place().map(|(p, ask)| (p.clone(), ask)), Some(("o/M".to_string(), false)));
    s.miss();
    assert_eq!(
        s.next_place().map(|(p, ask)| (p.clone(), ask)),
        Some(("bartowski/M-GGUF".to_string(), true))
    );
    for _ in 0..4 {
        s.miss();
    }
    assert!(s.next_place().is_none());
    assert!(no_gguf_message("o/M").starts_with("No prebuilt GGUF found for 'o/M' (checked the repo"));
}

#[test]
fn the_wanted_level_is_chosen() {
    let files = vec![file("m-Q2_K.gguf", Some(1)), file("m-q4_k_m.gguf", Some(2))];
    assert_eq!(choose_gguf(&files, "Q4_K_M"), Some(1));
    assert_eq!(choose_gguf(&files, "Q4KM"), Some(1));
    assert_eq!(choose_gguf(&files, "Q8_0"), Some(0));
    assert_eq!(choose_gguf(&[], "Q8_0"), None);
    assert_eq!(choose_by_lower(&["a_b".to_string()], "ab"), Some(0));
    assert_eq!(detect_level("m-Q5_K_M.gguf", "Q8_0"), Some(QuantizationLevel::Q5KM));
    assert_eq!(detect_level("m.gguf", "q8_0"), Some(QuantizationLevel::Q8_0));
    assert_eq!(detect_level("m.gguf", "?"), None);
    assert_eq!(
        gguf_dest("/g", "org/My.Model", Some(QuantizationLevel::Q8_0), false),
        "/g/my-model-Q8_0.gguf"
    );
    assert_eq!(gguf_dest("/g", "org/M", None, false), "/g/m-GGUF.gguf");
    assert_eq!(downloading_status("f", "s"), "downloading f from s");
}

#[test]
fn manifests_describe_what_was_downloaded() {
    let now = Timestamp { secs: 5, nanos: 6 };
    assert_eq!(choose_revision(Some("v1"), "abc"), "v1");
    assert_eq!(choose_revision(None, "abc"), "abc");
    let dir = local_dir("/models", "org/M", "abc", false);
    assert_eq!(dir, "/models/org--M/abc");
    let m = weights_manifest(
        "org/M",
        "abc",
        &dir,
        &[file("model.safetensors", Some(7)), file("config.json", None)],
        ModelMeta {
            architecture: "llama".to_string(),
            context_length: 8,
            parameters_billion_bits: 1.0f32.to_bits(),
        },
        now,
    );
    assert_eq!(m.alias, "m");
    assert_eq!(m.weight_format, WeightFormat::Safetensors);
    assert_eq!(m.files[0].size_bytes, 7);
    assert_eq!(m.files[1].size_bytes, 0);
    assert!(m.gguf_path.is_none());
    let g = gguf_manifest(
        "org/M", "abc", "/g", &file("m-Q8_0.gguf", Some(3)), "Q4_K_M", ModelMeta::unknown(), now,
        false,
    );
    assert_eq!(g.quantization, Some(QuantizationLevel::Q8_0));
    assert_eq!(g.gguf_path.as_deref(), Some("/g/m-Q8_0.gguf"));
    assert_eq!(g.local_path, "/g/__gguf_only__");
    assert_eq!(g.architecture, "unknown");
    assert_eq!(g.last_used, now);
    assert!(has_config(&[file("config.json", None)]));
    assert!(!has_config(&[file("x/config.json", None)]));
}
