use localllm::api::json::{parse_json, Json};
use localllm::api::types::{ChatCompletionResponse, ChatMessage, Choice, Usage};
use localllm::cli::chat::{
    banner, ends_chat, read_line, single_messages, spoken_reply, usage_line, Answer, Conversation,
    Intent, SYSTEM_PROMPT,
};
use localllm::cli::commands::{
    alias_for_chat, confirms, install_dest, install_dir, path_hint, plan_chat, plan_run,
    refused_message, RunPlan,
};
use localllm::cli::doctor::{free_memory, opening, threads_line, DaemonAnswer, Doctor};
use localllm::cli::progress::{build_pull_request, fmt_bytes, render_progress_bar, PullScreen};
use localllm::cli::table::{
    list_header, list_row, log_lines, logs_report, pad_right, ps_header, ps_row, quantize_report,
    show_report, tail_heading,
};

fn json(text: &str) -> Json {
    parse_json(text.as_bytes()).unwrap()
}

fn list(text: &str) -> Vec<Json> {
    match json(text) {
        Json::Array(a) => a,
        _ => panic!("a list"),
    }
}

fn strip(s: &str) -> String {
    let mut out = String::new();
    let mut in_esc = false;
    for c in s.chars() {
        if in_esc {
            in_esc = c != 'm';
        } else if c == '\x1b' {
            in_esc = true;
        } else {
            out.push(c);
        }
    }
    out
}

// ---------------------------------------------------------------------- tables

#[test]
fn model_rows_line_up() {
    let row = list_row(
        &json("{\"alias\": \"a\", \"repo_id\": \"o/a\", \"status\": \"loaded\", \"weight_format\": \"GGUF\"}"),
        "7.0B",
    );
    let plain = strip(&row);
    assert_eq!(
        plain,
        format!("{:<25} {:<40} {:<8} {:<10} {:<14} {}", "a", "o/a", "7.0B", "none", "GGUF", "loaded")
    );
    assert!(row.contains("\x1b[32mloaded\x1b[0m"));
    assert!(list_row(&json("{\"status\": \"ready\"}"), "").contains("\x1b[36mready\x1b[0m"));
    assert_eq!(
        strip(&list_header()),
        format!(
            "{:<25} {:<40} {:<8} {:<10} {:<14} {:<8}",
            "ALIAS", "REPO_ID", "PARAMS", "QUANT", "FORMAT", "STATUS"
        )
    );
    assert_eq!(pad_right("héé", 5), "héé  ");
}

#[test]
fn process_rows_line_up() {
    let row = ps_row(&json("{\"alias\": \"a\", \"backend\": \"sglang\", \"port\": 80, \"started_at\": \"s\", \"last_used\": \"u\"}"));
    assert_eq!(
        strip(&row),
        format!("{:<25} {:<10} {:<6} {:<35} {:<35}", "a", "sglang", "80", "s", "u")
    );
    assert!(row.contains("\x1b[36msglang\x1b[0m    "));
    assert_eq!(
        strip(&ps_header()),
        format!(
            "{:<25} {:<10} {:<6} {:<35} {:<35}",
            "ALIAS", "BACKEND", "PORT", "STARTED", "LAST_USED"
        )
    );
}

#[test]
fn reports_show_what_is_there() {
    let text = show_report(
        "m",
        &json("{\"details\": {\"family\": \"llama\"}, \"model_info\": {\"files\": 2}, \"template\": \"T\", \"modelfile\": \"FROM x\\n\"}"),
    );
    assert_eq!(
        text,
        "Model: m\n\nDetails:\n  family:           llama\n  format:           -\n  parameter_size:   -\n  quantization:     -\n\nModel info:\n  context_length: 0\n  files:          2\n  revision:       -\n\nTemplate:\nT\n\nModelfile:\nFROM x\n\n"
    );
    assert_eq!(
        quantize_report(&json("{\"alias\": \"a\", \"gguf_path\": \"/p\"}")),
        "Quantization complete:\n  alias:        a\n  gguf_path:    /p\n"
    );
    let log = json("{\"backend\": \"sglang\", \"lines\": [\"x\", 3, \"y\"]}");
    assert_eq!(log_lines(&log), "x\ny\n");
    assert_eq!(logs_report("m", &log), "# m (backend: sglang)\nx\ny\n");
    assert_eq!(
        tail_heading(&json("{\"alias\": \"a\"}")).as_deref(),
        Some("\n=== a (?) ===\n")
    );
    assert!(tail_heading(&json("{}")).is_none());
}

// ------------------------------------------------------------------------ chat

#[test]
fn typed_lines_have_meanings() {
    let mut c = Conversation::new();
    assert_eq!(c.enter("  hello "), Intent::Ask);
    assert_eq!(c.messages().len(), 2);
    assert_eq!(c.messages()[1].content, "hello");
    c.answer("hi");
    assert_eq!(c.enter("/help"), Intent::Help);
    assert_eq!(c.enter(" /clear"), Intent::Clear);
    assert_eq!(c.messages().len(), 1);
    assert_eq!(c.messages()[0].content, SYSTEM_PROMPT);
    assert_eq!(c.enter("/q"), Intent::Exit);
    assert_eq!(c.enter("   "), Intent::Nothing);
    assert_eq!(c.messages().len(), 1);
    assert!(ends_chat(Intent::Exit));
    assert!(!ends_chat(Intent::Nothing) && !ends_chat(Intent::Ask));
    assert_eq!(spoken_reply(Intent::Exit).unwrap(), "\x1b[2mGoodbye.\x1b[0m");
    assert!(spoken_reply(Intent::Ask).is_none());
}

#[test]
fn failed_turn_is_taken_back() {
    let mut c = Conversation::new();
    c.enter("first");
    c.answer("one");
    let before = c.messages().len();
    c.enter("second");
    c.take_back();
    assert_eq!(c.messages().len(), before);
    assert_eq!(c.messages().last().unwrap().content, "one");
}

#[test]
fn answers_stream_in() {
    assert_eq!(read_line(b"data: {\"a\":1}\r\n").as_deref(), Some("{\"a\":1}"));
    assert_eq!(read_line(b"data: [DONE]\n"), None);
    assert_eq!(read_line(b" data: x"), None);
    assert_eq!(read_line(b"\r\n"), None);
    let piece = |c: Option<&str>, u: Option<Usage>| ChatCompletionResponse {
        id: String::new(),
        object: String::new(),
        created: 0,
        model: String::new(),
        choices: vec![Choice {
            index: 0,
            message: None,
            delta: c.map(|s| ChatMessage { role: String::new(), content: s.to_string() }),
            finish_reason: None,
        }],
        usage: u,
    };
    let mut a = Answer::new();
    assert_eq!(a.take(&piece(Some("he"), None)), "he");
    assert_eq!(a.take(&piece(None, None)), "");
    let u = Usage { prompt_tokens: 1, completion_tokens: 2, total_tokens: 3 };
    assert_eq!(a.take(&piece(Some("y"), Some(u))), "y");
    assert_eq!(a.content, "hey");
    assert_eq!(usage_line(a.usage.unwrap()), "[tokens: prompt=1 completion=2 total=3]");
    assert_eq!(single_messages("q")[1].role, "user");
    assert!(strip(&banner("m")).contains("│  model: m\n"));
}

// -------------------------------------------------------------------- commands

#[test]
fn runs_need_a_gguf_without_a_card() {
    let models = list("[{\"alias\": \"a\", \"gguf_path\": \"/p\"}, {\"alias\": \"b\", \"weight_format\": \"GGUF\"}, {\"alias\": \"c\", \"gguf_path\": null}]");
    let a = plan_run(&models, "a");
    assert_eq!(a.message().as_deref(), Some("Using cached GGUF: /p"));
    let b = plan_run(&models, "b");
    assert_eq!(b.message().as_deref(), Some("Using cached GGUF model."));
    assert!(matches!(plan_run(&models, "c"), RunPlan::Download));
    assert!(matches!(plan_run(&models, "d"), RunPlan::Unknown));
    assert!(plan_run(&models, "d").message().is_none());
}

#[test]
fn chats_download_what_is_missing() {
    assert_eq!(alias_for_chat("Qwen/Qwen2.5-0.5B"), "qwen2-5-0-5b");
    assert_eq!(alias_for_chat("My.Alias"), "My.Alias");
    let models = list("[{\"alias\": \"m\"}]");
    assert!(plan_chat("org/M", "m", &models, Some("Q8_0"), false).unwrap().download.is_none());
    let p = plan_chat("org/N", "n", &models, None, false).unwrap();
    assert_eq!(p.download, Some(Some("Q4_K_M".to_string())));
    let p = plan_chat("org/N", "n", &models, None, true).unwrap();
    assert_eq!(p.download, Some(None));
    let p = plan_chat("org/N", "n", &models, Some("F16"), true).unwrap();
    assert_eq!(p.download, Some(Some("F16".to_string())));
    assert_eq!(
        plan_chat("n", "n", &models, None, true).unwrap_err(),
        "'n' is not a HuggingFace repo path and isn't pulled locally. Try `localllm chat org/ModelName` instead."
    );
}

#[test]
fn deletion_is_confirmed_with_y() {
    assert!(confirms(" Y\n"));
    assert!(confirms("y"));
    assert!(!confirms("yes"));
    assert!(!confirms(""));
    assert_eq!(refused_message("Load", "404 Not Found", "x"), "Load failed (404 Not Found): x");
}

#[test]
fn installation_places() {
    assert_eq!(install_dir(false, None, Some("/h")), "/h/.local/bin");
    assert_eq!(install_dir(true, Some("C:/Data"), Some("C:/U")), "C:/Data\\localllm\\bin");
    assert_eq!(install_dir(true, None, Some("C:/U")), "C:/U\\localllm\\bin");
    assert_eq!(install_dest("/b", true), "/b\\localllm.exe");
    assert_eq!(path_hint(false, "/b", true), "You can now run `localllm` from anywhere.");
    assert!(path_hint(false, "/b", false).contains("export PATH=\"$PATH:/b\""));
    assert!(path_hint(true, "B", false).ends_with("setx PATH \"$env:PATH;B\""));
}

// -------------------------------------------------------------------- progress

#[test]
fn sizes_are_readable() {
    assert_eq!(fmt_bytes(0), "0 B");
    assert_eq!(fmt_bytes(1023), "1023 B");
    assert_eq!(fmt_bytes(1024), "1.0 KB");
    assert_eq!(fmt_bytes(1536), "1.5 KB");
    assert_eq!(fmt_bytes(220_725_248), "210.5 MB");
    assert_eq!(fmt_bytes(3 << 30), "3.0 GB");
    for n in [1075u64, 1126, 1177, 1_048_575, 5_242_880, 123_456_789, 9_876_543_210, 1 << 40] {
        let f = n as f64;
        let want = if f >= 1073741824.0 {
            format!("{:.1} GB", f / 1073741824.0)
        } else if f >= 1048576.0 {
            format!("{:.1} MB", f / 1048576.0)
        } else {
            format!("{:.1} KB", f / 1024.0)
        };
        assert_eq!(fmt_bytes(n), want);
    }
    for i in 0..2048u64 {
        let n = 1024 + i;
        assert_eq!(fmt_bytes(n), format!("{:.1} KB", n as f64 / 1024.0));
    }
}

#[test]
fn bars_are_drawn() {
    assert_eq!(
        render_progress_bar(10, 45, 1024, 2048, 512),
        "[==========>                 ]  45%  1.0 KB / 2.0 KB  512 B/s"
    );
    assert_eq!(
        render_progress_bar(28, 100, 2048, 2048, 0),
        "[============================] 100%  2.0 KB / 2.0 KB  0 B/s"
    );
    assert_eq!(render_progress_bar(0, 0, 1024, 0, 5), "1.0 KB  5 B/s");
}

#[test]
fn pull_frames_are_shown() {
    let mut s = PullScreen::new();
    let shown = s.show(&json("{\"status\": \"pulling manifest\"}"), "", "");
    assert_eq!(shown.text, "  pulling manifest...\n");
    assert_eq!(s.show(&json("{\"status\": \"pulling manifest\"}"), "", "").text, "");
    let frame = json("{\"status\": \"download\", \"downloaded\": 1, \"total\": 2048}");
    assert_eq!(s.show(&frame, "BAR", "").text, "  Total download: 2.0 KB\n\r\x1b[K  BAR");
    assert_eq!(s.show(&frame, "BAR", "").text, "\r\x1b[K  BAR");
    assert_eq!(s.show(&json("{\"status\": \"reading\"}"), "", "").text, "\n  reading...\n");
    s.show(&frame, "BAR", "");
    let done = s.show(
        &json("{\"status\": \"success\", \"alias\": \"a\", \"context_length\": 8}"),
        "",
        "7.0B",
    );
    assert_eq!(
        done.text,
        "\n\nModel pulled successfully:\n  alias:        a\n  architecture: -\n  parameters:   7.0B\n  context:      8\n"
    );
    let bad = s.show(&json("{\"status\": \"error\"}"), "", "");
    assert_eq!(bad.failure.as_deref(), Some("Pull failed: unknown error"));
    assert_eq!(bad.text, "\n");
    let req = build_pull_request("o/m", None, Some("Q8_0"), None);
    assert_eq!(req.get_str("quantize").unwrap(), "Q8_0");
    assert!(matches!(req.get("revision"), Some(Json::Null)));
    assert_eq!(req.get_bool("stream"), Some(true));
}

// ---------------------------------------------------------------------- doctor

#[test]
fn findings_are_counted() {
    let mut d = Doctor::new();
    assert_eq!(
        strip(&d.daemon("http://x", &DaemonAnswer::Success)),
        "  [1/7] Daemon at http://x ... OK"
    );
    assert_eq!(
        strip(&d.gpu(true, Some(100))),
        "  [2/7] NVIDIA GPU      ... OK (100 MiB free — models will GPU-offload as many layers as fit)"
    );
    assert_eq!(strip(&d.python("python3", Some(" 3.12\n"))), "  [3/7] python (python3)... OK (3.12)");
    assert_eq!(strip(&d.sglang(true, Some("0.4"))), "  [4/7] sglang          ... OK (0.4)");
    assert_eq!(strip(&d.engine(Some("/e"), true)), "  [5/7] llama.cpp       ... OK (\"/e\")");
    assert_eq!(
        strip(&d.token(false)),
        "  [6/7] HF_TOKEN        ... not set (public models only)"
    );
    assert_eq!(strip(&d.models_dir("/m", true)), "  [7/7] Models dir      ... OK (\"/m\")");
    assert_eq!(strip(&d.summary()), "\nSummary: 6 OK, 0 warning(s)\nEverything looks good.");
}

#[test]
fn faults_are_warnings() {
    let mut d = Doctor::new();
    assert!(strip(&d.daemon("u", &DaemonAnswer::Status("500 X".to_string()))).ends_with("WARN (HTTP 500 X)"));
    assert!(strip(&d.daemon("u", &DaemonAnswer::Unreachable("no".to_string()))).ends_with("MISSING (no)"));
    assert!(strip(&d.gpu(false, None)).ends_with("absent (will run on CPU via llama.cpp)"));
    assert!(strip(&d.python("py", None)).ends_with("MISSING — required for sglang backend"));
    assert!(strip(&d.sglang(false, None)).ends_with("skipped (no Python)"));
    assert!(strip(&d.sglang(true, None)).ends_with("missing — install with: pip install sglang"));
    assert!(strip(&d.engine(None, false)).contains("absent — runs automatically"));
    assert!(strip(&d.engine(Some("/e"), false)).ends_with("WARN build/bin/ missing at \"/e\""));
    assert!(strip(&d.models_dir("/m", false)).ends_with("WARN — can't create \"/m\""));
    assert!(strip(&d.summary()).starts_with("\nSummary: 0 OK, 7 warning(s)\nReview warnings above."));
    assert_eq!(strip(&opening()), "Running localllm doctor...\n");
    assert_eq!(strip(&threads_line(4)), "        CPU decode threads (auto): 4 physical cores");
}

#[test]
fn free_memory_is_summed() {
    assert_eq!(free_memory("100\n 200 \nx\n"), Some(300));
    assert_eq!(free_memory(""), None);
    assert_eq!(free_memory("18446744073709551615\n1\n"), None);
}
