use localllm::config::settings::Settings;
use localllm::gpu::vram::GpuInfo;
use localllm::inference::launch::{
    choose_route, endpoint_url, find_free_port, no_backend_message, no_free_port_message,
    plan_llama_server, plan_sglang, startup_timeout_message, warmup_request, PollStep, Route,
    SpawnError, StartupPoll,
};
use localllm::inference::logbuf::LogRingBuffer;
use localllm::inference::pool::{Lookup, PoolEntry, ProcessPool, Role, WaitOutcome};
use localllm::registry::manifest::{ModelManifest, WeightFormat};
use localllm::time::Timestamp;

fn manifest(gguf: Option<&str>) -> ModelManifest {
    let at = Timestamp { secs: 0, nanos: 0 };
    ModelManifest {
        repo_id: "test/model".to_string(),
        alias: "test".to_string(),
        revision: "main".to_string(),
        local_path: "/tmp/test".to_string(),
        architecture: "llama".to_string(),
        weight_format: WeightFormat::GGUF,
        parameters_billion_bits: 7.0f32.to_bits(),
        context_length: 131072,
        quantization: None,
        gguf_path: gguf.map(|s| s.to_string()),
        files: vec![],
        downloaded_at: at,
        last_used: at,
        embeddings: false,
        modelfile: None,
    }
}

fn entry(port: u16, last_used: i64) -> PoolEntry {
    PoolEntry { port, started_at: Timestamp { secs: 1, nanos: 0 }, last_used }
}

#[test]
fn drops_oldest_at_capacity() {
    let mut r = LogRingBuffer::new(3);
    r.push("a".into());
    r.push("b".into());
    r.push("c".into());
    r.push("d".into());
    let snap = r.snapshot(10);
    assert_eq!(snap, vec!["b", "c", "d"]);
}

#[test]
fn snapshot_n_returns_tail() {
    let mut r = LogRingBuffer::new(10);
    for i in 0..5 {
        r.push(format!("line{}", i));
    }
    assert_eq!(r.snapshot(2), vec!["line3", "line4"]);
}

#[test]
fn no_capacity_keeps_nothing() {
    let mut r = LogRingBuffer::new(0);
    r.push("a".into());
    assert!(r.snapshot(10).is_empty());
}

#[test]
fn find_free_port_returns_one_in_range() {
    let free: Vec<u16> = (40000..=40100).collect();
    let port = find_free_port(40000, 40100, &free).expect("at least one free port");
    assert!((40000..=40100).contains(&port));
    assert_eq!(find_free_port(40000, 40100, &[40050, 40049]), Some(40049));
}

#[test]
fn find_free_port_errors_when_range_invalid() {
    let result = find_free_port(50000, 49999, &[49999, 50000]);
    assert!(result.is_none());
    assert_eq!(no_free_port_message(50000, 49999), "No free port in range 50000..=49999");
}

#[test]
fn find_free_port_skips_taken_port() {
    let taken: u16 = 45678;
    let result = find_free_port(taken, taken, &[45677, 45679]);
    assert!(result.is_none());
}

#[test]
fn routes_by_cards_and_files() {
    let card = GpuInfo {
        index: 0,
        name: "g".to_string(),
        total_vram_mb: 24_000,
        free_vram_mb: 24_000,
    };
    assert_eq!(choose_route(&manifest(None), 1000, &[card]), Route::Sglang);
    assert_eq!(choose_route(&manifest(Some("/x.gguf")), 1000, &[]), Route::LlamaCpp);
    assert_eq!(choose_route(&manifest(None), 1000, &[]), Route::NoBackend);
    assert!(no_backend_message("m").starts_with("No runnable backend for 'm'"));
    assert_eq!(endpoint_url(8080), "http://127.0.0.1:8080");
}

#[test]
fn llama_server_command_line() {
    let mut s = Settings::defaults(Some("/h"), None, false);
    s.llama_cpp_dir = Some("/e".to_string());
    let (program, args) = plan_llama_server(
        &manifest(Some("/x.gguf")),
        &s,
        Some("/e/llama-server".to_string()),
        30000,
        false,
        Some(8),
    )
    .unwrap();
    assert_eq!(program, "/e/llama-server");
    let value = |flag: &str| {
        let i = args.iter().position(|a| a == flag).unwrap();
        args[i + 1].clone()
    };
    assert_eq!(value("--port"), "30000");
    assert_eq!(value("--ctx-size"), "8192");
    assert_eq!(value("--threads"), "4");
    assert!(args.contains(&"--mlock".to_string()));
    assert!(!args.contains(&"--n-gpu-layers".to_string()));
}

#[test]
fn llama_server_refusals() {
    let mut s = Settings::defaults(Some("/h"), None, false);
    let none = plan_llama_server(&manifest(None), &s, None, 1, false, None).unwrap_err();
    assert_eq!(none.message(), "No GGUF path for 'test'. Run: localllm quantize test");
    let dir = plan_llama_server(&manifest(Some("/x")), &s, None, 1, false, None).unwrap_err();
    assert_eq!(dir.message(), "llama_cpp_dir not configured");
    s.llama_cpp_dir = Some("/e".to_string());
    let bin = plan_llama_server(&manifest(Some("/x")), &s, None, 1, false, None).unwrap_err();
    assert!(matches!(bin, SpawnError::NoServerBinary(_)));
    assert!(bin.message().starts_with("llama-server not found under \"/e\"/build/bin/"));
}

#[test]
fn sglang_command_line() {
    let s = Settings::defaults(Some("/h"), None, false);
    let args = plan_sglang(&manifest(None), &s, 30001, "0.85", 2);
    assert_eq!(&args[0..4], &["-m", "sglang.launch_server", "--model-path", "/tmp/test"]);
    assert!(args.windows(2).any(|w| w[0] == "--tp-size" && w[1] == "2"));
    assert!(args.windows(2).any(|w| w[0] == "--mem-fraction-static" && w[1] == "0.85"));
}

#[test]
fn startup_poll_backs_off_and_gives_up() {
    let mut p = StartupPoll::new(1);
    assert_eq!(p.step(false), PollStep::Sleep(200));
    assert_eq!(p.step(false), PollStep::Sleep(400));
    assert_eq!(p.step(false), PollStep::Sleep(800));
    assert_eq!(p.step(false), PollStep::TimedOut);
    assert_eq!(StartupPoll::new(60).step(true), PollStep::Ready);
}

#[test]
fn live_server_is_reused_and_dead_one_dropped() {
    let mut pool = ProcessPool::new();
    assert_eq!(pool.get_or_spawn("m", true, 5), Lookup::Spawn);
    pool.add_server("m", entry(1234, 5));
    assert_eq!(pool.get_or_spawn("m", true, 9), Lookup::Reuse(1234));
    assert_eq!(pool.get("m").unwrap().last_used, 9);
    assert_eq!(pool.get_or_spawn("m", false, 10), Lookup::Spawn);
    assert!(pool.get("m").is_none());
}

#[test]
fn one_request_leads_the_start() {
    let mut pool = ProcessPool::new();
    assert_eq!(pool.begin_spawn("m"), Role::Lead);
    assert_eq!(pool.begin_spawn("m"), Role::Wait);
    assert_eq!(pool.poll_spawn("m"), WaitOutcome::KeepWaiting);
    pool.add_server("m", entry(7, 1));
    pool.end_spawn("m");
    assert_eq!(pool.poll_spawn("m"), WaitOutcome::Ready(7));
    assert_eq!(pool.begin_spawn("m"), Role::Lead);
    pool.end_spawn("m");
    assert_eq!(pool.kill("m").unwrap().port, 7);
    assert_eq!(pool.poll_spawn("m"), WaitOutcome::SpawnSelf);
}

#[test]
fn idle_servers_expire() {
    let mut pool = ProcessPool::new();
    pool.add_server("old", entry(1, 100));
    pool.add_server("new", entry(2, 190));
    assert_eq!(pool.expired(200, 50), vec!["old"]);
    assert!(pool.expired(150, 50).is_empty());
    assert_eq!(pool.evict_lru().as_deref(), Some("old"));
    assert_eq!(pool.entries().len(), 2);
    assert_eq!(ProcessPool::new().evict_lru(), None);
}

#[test]
fn servers_are_warmed_up_with_one_token() {
    let j = warmup_request("m");
    assert_eq!(j.get_str("model").unwrap(), "m");
    assert_eq!(j.get_u64("max_tokens"), Some(1));
    assert_eq!(j.get_bool("stream"), Some(false));
    let messages = j.get("messages").unwrap().as_array().unwrap();
    assert_eq!(messages.len(), 1);
    assert_eq!(messages[0].get_str("role").unwrap(), "user");
    assert_eq!(messages[0].get_str("content").unwrap(), "hi");
    assert_eq!(
        startup_timeout_message("sglang", 120, "m"),
        "sglang startup timeout after 120s for m"
    );
}
