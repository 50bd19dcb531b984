use localllm::compression::quantize::{stage_failed_message, CompressionEngine, ConversionError};
use localllm::daemon::server::{
    daemon_url, pid_file_path, recorded_pid, DaemonWait, PidLock, WaitStep,
};
use localllm::error::LocalLlmError;
use localllm::number::{parse_signed, parse_unsigned, show_exit_code, to_decimal};
use localllm::registry::manifest::{ModelManifest, QuantizationLevel, WeightFormat};
use localllm::setup::{
    build_args, clone_args, configure_args, find_engine, gpu_backend, is_llama_built,
    managed_llama_dir, next_stage, not_started_message, preflight_tools, setup_banner,
    step_failed_message, still_missing_message, Backend, BuildStage, System,
};
use localllm::text::is_whitespace;
use localllm::time::Timestamp;

fn chars(s: &str) -> Vec<char> {
    s.chars().collect()
}

#[test]
fn lock_is_held_by_the_living() {
    assert!(PidLock::acquire("/d/daemon.pid", 10, None, false).is_ok());
    assert!(PidLock::acquire("/d/daemon.pid", 10, Some(20), false).is_ok());
    assert!(PidLock::acquire("/d/daemon.pid", 10, Some(10), true).is_ok());
    assert_eq!(
        PidLock::acquire("/d/daemon.pid", 10, Some(20), true).unwrap_err(),
        "Another localllm daemon is already running (pid 20). If this is wrong, remove \"/d/daemon.pid\" manually."
    );
    let lock = PidLock::acquire("/d/daemon.pid", 10, None, false).unwrap();
    assert_eq!(lock.path(), "/d/daemon.pid");
}

#[test]
fn lock_file_is_read() {
    assert_eq!(recorded_pid(" 123\n"), Some(123));
    assert_eq!(recorded_pid("4294967296"), None);
    assert_eq!(recorded_pid("abc"), None);
    assert_eq!(recorded_pid(""), None);
    assert_eq!(recorded_pid(&to_decimal(77)), Some(77));
    assert_eq!(pid_file_path(Some("/h/.localllm"), false), "/h/.localllm/daemon.pid");
    assert_eq!(pid_file_path(None, false), "./daemon.pid");
}

#[test]
fn daemon_is_waited_for() {
    let mut w = DaemonWait::new();
    for _ in 0..49 {
        assert_eq!(w.look(false), WaitStep::Again);
    }
    assert_eq!(w.look(false), WaitStep::GiveUp);
    assert_eq!(DaemonWait::new().look(true), WaitStep::Up);
    assert_eq!(daemon_url(Some("http://a"), "http://b".to_string()), "http://a");
    assert_eq!(daemon_url(None, "http://b".to_string()), "http://b");
}

#[test]
fn engine_is_resolved() {
    let built = |dir: &str| vec![format!("{}/build/bin/llama-server", dir)];
    assert_eq!(managed_llama_dir(Some("/h"), false), "/h/.localllm/llama.cpp");
    assert!(is_llama_built("/c", false, &built("/c")));
    assert!(!is_llama_built("/c", false, &built("/d")));
    assert_eq!(
        find_engine(Some("/c"), "/m", false, &built("/c"), false).as_deref(),
        Some("/c")
    );
    assert_eq!(
        find_engine(Some("/c"), "/m", false, &built("/m"), false).as_deref(),
        Some("/m")
    );
    assert_eq!(find_engine(None, "/m", false, &[], false), None);
    assert_eq!(find_engine(Some("/c"), "/m", false, &built("/c"), true), None);
    assert!(still_missing_message("/m").ends_with("still missing under \"/m\""));
}

#[test]
fn builds_fall_back_to_the_cpu() {
    assert_eq!(gpu_backend(true, true), Backend::Cuda);
    assert_eq!(gpu_backend(false, true), Backend::Vulkan);
    assert_eq!(gpu_backend(false, false), Backend::Cpu);
    let gpu = BuildStage::Try(Backend::Cuda);
    assert_eq!(next_stage(gpu, true), BuildStage::Done);
    assert_eq!(next_stage(gpu, false), BuildStage::Try(Backend::Cpu));
    assert_eq!(next_stage(BuildStage::Try(Backend::Cpu), false), BuildStage::Failed);
    assert!(configure_args("/e", Backend::Vulkan, false).contains(&"-DGGML_VULKAN=ON".to_string()));
    assert_eq!(configure_args("/e", Backend::Cpu, false).len(), 6);
    assert_eq!(build_args("/e", 8, false)[5], "8");
    assert_eq!(clone_args("/e")[4], "/e");
    assert!(setup_banner("CUDA").contains("with CUDA acceleration"));
}

#[test]
fn missing_tools_are_named() {
    assert!(preflight_tools(true, true, System::Other).is_ok());
    assert_eq!(
        preflight_tools(false, false, System::MacOs).unwrap_err(),
        "Automatic llama.cpp setup needs git and cmake but they're not on PATH.\nInstall with: brew install git cmake"
    );
    assert!(preflight_tools(true, false, System::Windows).unwrap_err().contains("needs cmake but"));
    assert!(preflight_tools(false, true, System::Other).unwrap_err().contains("needs git but"));
    assert_eq!(
        not_started_message("git clone", "no such file"),
        "failed to start git clone (no such file). Is it installed?"
    );
    assert_eq!(
        step_failed_message("cmake build", Some(2)),
        "cmake build failed (exit Some(2)). See the daemon log for details."
    );
    assert_eq!(show_exit_code(Some(-1)), "Some(-1)");
    assert_eq!(show_exit_code(None), "None");
}

#[test]
fn conversions_run_in_two_stages() {
    let at = Timestamp { secs: 0, nanos: 0 };
    let m = ModelManifest {
        repo_id: "o/m".to_string(),
        alias: "m".to_string(),
        revision: "r".to_string(),
        local_path: "/models/m".to_string(),
        architecture: "llama".to_string(),
        weight_format: WeightFormat::Safetensors,
        parameters_billion_bits: 0,
        context_length: 1,
        quantization: None,
        gguf_path: None,
        files: vec![],
        downloaded_at: at,
        last_used: at,
        embeddings: false,
        modelfile: None,
    };
    let e = CompressionEngine::new("/e".to_string(), "/g".to_string(), false);
    let p = e.plan(&m, QuantizationLevel::Q4KM);
    assert_eq!(
        p.convert_args,
        vec!["/e/convert_hf_to_gguf.py", "/models/m", "--outtype", "f16", "--outfile", "/g/m-F16.gguf"]
    );
    assert_eq!(p.quantize_args, vec!["/g/m-F16.gguf", "/g/m-Q4_K_M.gguf", "Q4_K_M"]);
    assert_ne!(p.intermediate, p.output);
    assert_eq!(
        stage_failed_message(Some(1), &["a".to_string(), "b".to_string()]),
        "Process exited with code Some(1)\nStderr:\na\nb"
    );
}

#[test]
fn conversion_errors_are_told() {
    let s = |t: &str| t.to_string();
    assert_eq!(
        ConversionError::NoScript(s("/e/x.py")).message(),
        "convert_hf_to_gguf.py not found at \"/e/x.py\""
    );
    assert_eq!(
        ConversionError::NoQuantizer(s("/e")).message(),
        "llama-quantize not found under \"/e\"/build/bin/"
    );
    assert_eq!(
        ConversionError::Convert(s("m"), s("r")).message(),
        "convert_hf_to_gguf.py failed for m: r"
    );
    assert_eq!(
        ConversionError::Quantize(s("m"), s("r")).message(),
        "llama-quantize failed for m: r"
    );
    assert_eq!(
        ConversionError::CleanUp(s("/p"), s("r")).message(),
        "Failed to remove intermediate F16 \"/p\": r"
    );
}

#[test]
fn failures_name_their_kind() {
    let s = |t: &str| t.to_string();
    assert_eq!(LocalLlmError::Download(s("x")).message(), "Download error: x");
    assert_eq!(LocalLlmError::Compression(s("x")).message(), "Compression error: x");
    assert_eq!(LocalLlmError::Inference(s("x")).message(), "Inference error: x");
    assert_eq!(LocalLlmError::Registry(s("x")).message(), "Registry error: x");
    assert_eq!(LocalLlmError::Config(s("x")).message(), "Config error: x");
    assert_eq!(LocalLlmError::Gpu(s("x")).message(), "GPU error: x");
    assert_eq!(LocalLlmError::Io(s("x")).message(), "x");
    assert_eq!(LocalLlmError::Reqwest(s("x")).message(), "x");
    assert_eq!(LocalLlmError::Json(s("x")).message(), "x");
}

#[test]
fn numbers_are_read_and_written() {
    assert_eq!(to_decimal(0), "0");
    assert_eq!(to_decimal(u64::MAX), u64::MAX.to_string());
    for n in ["0", "7", "+7", "18446744073709551615", "18446744073709551616", "", "+", "1a", "-1"] {
        assert_eq!(parse_unsigned(&chars(n), u64::MAX), n.parse::<u64>().ok(), "{}", n);
    }
    for n in [
        "0", "-0", "+5", "-5", "9223372036854775807", "9223372036854775808",
        "-9223372036854775808", "-9223372036854775809", "-", "+", "", "--1", " 1",
    ] {
        assert_eq!(parse_signed(&chars(n)), n.parse::<i64>().ok(), "{}", n);
    }
}

#[test]
fn white_space_is_what_the_language_says() {
    for c in '\0'..=char::MAX {
        assert_eq!(is_whitespace(c), c.is_whitespace());
    }
}
