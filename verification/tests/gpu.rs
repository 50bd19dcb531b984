use localllm::config::settings::{
    autodetect_llama_cpp_dir, normalize_token, physical_cores, Environment, FileSettings,
    Settings,
};
use localllm::gpu::vram::{GpuInfo, VramManager};

fn gpu(free_mb: u64) -> GpuInfo {
    GpuInfo {
        index: 0,
        name: "Test GPU".to_string(),
        total_vram_mb: free_mb,
        free_vram_mb: free_mb,
    }
}

fn weight_mb(params_b: f32) -> u64 {
    (params_b * 1e9 * 2.0_f32 / 1024.0 / 1024.0) as u64
}

fn recommend(params_b: f32, gpus: &[GpuInfo]) -> u32 {
    VramManager::recommend_gpu_layers(weight_mb(params_b), 4096, params_b.to_bits(), gpus)
}

#[test]
fn recommend_gpu_layers_zero_without_gpu() {
    assert_eq!(recommend(7.0, &[]), 0);
}

#[test]
fn recommend_gpu_layers_all_when_fits() {
    assert_eq!(recommend(7.0, &[gpu(24_000)]), 999);
}

#[test]
fn recommend_gpu_layers_partial_when_tight() {
    let full = VramManager::estimate_layer_count(70.0f32.to_bits());
    let layers = recommend(70.0, &[gpu(16_000)]);
    assert!(layers < full, "expected partial offload, got {}", layers);
}

#[test]
fn partial_offload_is_exact() {
    // 80 layers of 1668 MiB each; nine tenths of 16000 MiB hold eight of them.
    assert_eq!(weight_mb(70.0) / 80, 1668);
    assert_eq!(recommend(70.0, &[gpu(16_000)]), 8);
    assert_eq!(recommend(70.0, &[gpu(8_000), gpu(8_000)]), 8);
}

#[test]
fn estimate_layer_count_scales_with_size() {
    assert!(
        VramManager::estimate_layer_count(1.0f32.to_bits())
            <= VramManager::estimate_layer_count(70.0f32.to_bits())
    );
    assert_eq!(VramManager::estimate_layer_count(1.5f32.to_bits()), 24);
}

#[test]
fn layer_counts_at_the_bounds() {
    let count = |p: f32| VramManager::estimate_layer_count(p.to_bits());
    assert_eq!(count(2.0), 24);
    assert_eq!(count(2.1), 32);
    assert_eq!(count(9.0), 32);
    assert_eq!(count(9.1), 40);
    assert_eq!(count(15.0), 40);
    assert_eq!(count(35.0), 60);
    assert_eq!(count(80.0), 80);
    assert_eq!(count(81.0), 96);
    assert_eq!(count(-1.0), 24);
    assert_eq!(count(f32::NAN), 96);
}

#[test]
fn physical_cores_at_least_one() {
    for logical in 0..64usize {
        assert!(physical_cores(Some(logical)) >= 1);
    }
    assert_eq!(physical_cores(None), 1);
    assert_eq!(physical_cores(Some(1)), 1);
    assert_eq!(physical_cores(Some(16)), 8);
}

#[test]
fn query_gpus_is_cached() {
    let mut vram = VramManager::new();
    assert!(vram.query_gpus(0).is_none());
    vram.record(0, VramManager::probe_gpus(""));
    let first = vram.query_gpus(0).expect("query ok");
    let second = vram.query_gpus(1).expect("cached query ok");
    assert_eq!(first.len(), second.len());
    assert!(vram.query_gpus(2999).is_some());
    assert!(vram.query_gpus(3000).is_none());
}

#[test]
fn report_lines_are_read() {
    let gpus = VramManager::probe_gpus(
        "0, NVIDIA GeForce RTX 4090, 24564, 23000\n\nnonsense\n1, Other, x, 5\n 2 , A, B , 1 \n3, Last, 10, 9",
    );
    assert_eq!(gpus.len(), 2);
    assert_eq!(gpus[0].name, "NVIDIA GeForce RTX 4090");
    assert_eq!(gpus[0].total_vram_mb, 24564);
    assert_eq!(gpus[0].free_vram_mb, 23000);
    assert_eq!(gpus[1].index, 3);
}

#[test]
fn fit_needs_fifteen_percent_more() {
    // 1000 MiB of weights and 256 MiB of cache, and 15% more.
    assert_eq!(VramManager::estimate_model_vram_mb(1000, 4096), 1256);
    assert!(VramManager::can_fit(1000, 4096, &[gpu(1444)]));
    assert!(!VramManager::can_fit(1000, 4096, &[gpu(1443)]));
    assert!(VramManager::can_fit(1000, 4096, &[gpu(1000), gpu(444)]));
}

#[test]
fn environment_wins_over_defaults() {
    let env = Environment {
        hf_token: Some("  tok \n".to_string()),
        daemon_host: None,
        daemon_port: Some("9000".to_string()),
        models_dir: Some("/m".to_string()),
        gguf_dir: None,
        manifests_dir: None,
        llama_cpp_dir: Some("/llama".to_string()),
    };
    let s = Settings::defaults(Some("/home/u"), None, false).with_environment(env);
    assert_eq!(s.daemon_url(), "http://127.0.0.1:9000");
    assert_eq!(s.models_dir, "/m");
    assert_eq!(s.gguf_dir, "/home/u/.localllm/gguf");
    assert_eq!(s.hf_token.as_deref(), Some("tok"));
    assert_eq!(s.llama_cpp_dir.as_deref(), Some("/llama"));
    assert_eq!(f32::from_bits(s.sglang_mem_fraction_bits), 0.85);
}

#[test]
fn file_stands_between_defaults_and_environment() {
    let file = FileSettings {
        daemon_host: Some("0.0.0.0".to_string()),
        daemon_port: Some(7000),
        models_dir: Some("/file".to_string()),
        gguf_dir: Some("/file/gguf".to_string()),
        manifests_dir: None,
        sglang_port_range_start: Some(1),
        sglang_port_range_end: Some(2),
        max_concurrent_downloads: Some(3),
        download_chunk_size_bytes: Some(4),
        sglang_startup_timeout_secs: Some(5),
        llama_cpp_dir: Some("/file/llama".to_string()),
        model_ttl_secs: Some(6),
        preload: Some(vec!["a".to_string()]),
        llamacpp_parallel_slots: Some(7),
        llamacpp_flash_attn: Some(false),
        llamacpp_threads: Some(8),
        llamacpp_mlock: None,
        llamacpp_batch_size: Some(9),
        sglang_chunked_prefill_size: Some(10),
        sglang_torch_compile: Some(true),
        sglang_mem_fraction_bits: Some(0.5f32.to_bits()),
    };
    let env = Environment {
        hf_token: None,
        daemon_host: None,
        daemon_port: Some("no port".to_string()),
        models_dir: Some("/env".to_string()),
        gguf_dir: None,
        manifests_dir: None,
        llama_cpp_dir: None,
    };
    let s = Settings::defaults(Some("/h"), None, false).with_file(file).with_environment(env);
    assert_eq!(s.daemon_url(), "http://0.0.0.0:7000");
    assert_eq!(s.models_dir, "/env");
    assert_eq!(s.gguf_dir, "/file/gguf");
    assert_eq!(s.manifests_dir, "/h/.localllm/manifests");
    assert_eq!((s.sglang_port_range_start, s.sglang_port_range_end), (1, 2));
    assert_eq!((s.max_concurrent_downloads, s.download_chunk_size_bytes), (3, 4));
    assert_eq!((s.sglang_startup_timeout_secs, s.model_ttl_secs), (5, 6));
    assert_eq!(s.llama_cpp_dir.as_deref(), Some("/file/llama"));
    assert_eq!(s.preload, vec!["a"]);
    assert_eq!((s.llamacpp_parallel_slots, s.llamacpp_threads), (7, Some(8)));
    assert!(!s.llamacpp_flash_attn && s.llamacpp_mlock && s.sglang_torch_compile);
    assert_eq!((s.llamacpp_batch_size, s.sglang_chunked_prefill_size), (9, 10));
    assert_eq!(f32::from_bits(s.sglang_mem_fraction_bits), 0.5);
    let windows = Settings::defaults(Some("C:\\u"), None, true);
    assert_eq!(windows.gguf_dir, "C:\\u\\.localllm\\gguf");
}

#[test]
fn blank_token_is_none() {
    assert_eq!(normalize_token(Some("  \t")), None);
    assert_eq!(normalize_token(None), None);
    assert_eq!(normalize_token(Some(" a b ")).as_deref(), Some("a b"));
}

#[test]
fn engine_is_found_in_order() {
    let built = vec!["/opt/llama.cpp".to_string(), "/h/src/llama.cpp".to_string()];
    assert_eq!(
        autodetect_llama_cpp_dir(Some("/h"), false, &built).as_deref(),
        Some("/h/src/llama.cpp")
    );
    assert_eq!(autodetect_llama_cpp_dir(None, false, &built).as_deref(), Some("/opt/llama.cpp"));
    assert_eq!(autodetect_llama_cpp_dir(None, true, &built), None);
}
