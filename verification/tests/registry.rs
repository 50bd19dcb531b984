use localllm::api::types::ChatMessage;
use localllm::registry::alias_map::AliasMap;
use localllm::registry::manifest::{
    alias_from_repo_id, is_manifest_file, is_safe_filename, manifest_file, sanitize_path, temp_file,
    total_size, FileEntry, ManifestStore, ModelManifest, QuantizationLevel, StoreError,
    WeightFormat,
};
use localllm::registry::modelfile::{substitute, Modelfile, ModelfileError};
use localllm::time::{time_text, Timestamp};

fn at(secs: i64) -> Timestamp {
    Timestamp { secs, nanos: 0 }
}

fn manifest(alias: &str, repo_id: &str) -> ModelManifest {
    ModelManifest {
        repo_id: repo_id.to_string(),
        alias: alias.to_string(),
        revision: "main".to_string(),
        local_path: "/tmp/test".to_string(),
        architecture: "llama".to_string(),
        weight_format: WeightFormat::GGUF,
        parameters_billion_bits: 7.0f32.to_bits(),
        context_length: 4096,
        quantization: None,
        gguf_path: Some("/tmp/test.gguf".to_string()),
        files: vec![],
        downloaded_at: at(100),
        last_used: at(100),
        embeddings: false,
        modelfile: None,
    }
}

fn turn(role: &str, content: &str) -> ChatMessage {
    ChatMessage { role: role.to_string(), content: content.to_string() }
}

#[test]
fn quantization_level_roundtrip() {
    for s in &["Q4_0", "Q4_K_M", "Q5_K_M", "Q6_K", "Q8_0", "F16", "F32"] {
        let q = QuantizationLevel::from_str(s).expect("known level");
        assert_eq!(q.to_llama_str(), *s);
    }
}

#[test]
fn quantization_level_short_form_accepted() {
    assert_eq!(QuantizationLevel::from_str("Q4KM"), Some(QuantizationLevel::Q4KM));
    assert_eq!(QuantizationLevel::from_str("q5_k_m"), Some(QuantizationLevel::Q5KM));
}

#[test]
fn quantization_level_unknown_returns_none() {
    assert_eq!(QuantizationLevel::from_str("Q9_X_Z"), None);
    assert_eq!(QuantizationLevel::from_str(""), None);
}

#[test]
fn quantization_level_from_filename() {
    assert_eq!(
        QuantizationLevel::from_filename("Qwen2.5-0.5B-Instruct-Q4_K_M.gguf"),
        Some(QuantizationLevel::Q4KM)
    );
    assert_eq!(
        QuantizationLevel::from_filename("model-q8_0.gguf"),
        Some(QuantizationLevel::Q8_0)
    );
    assert_eq!(
        QuantizationLevel::from_filename("model-Q6_K.gguf"),
        Some(QuantizationLevel::Q6K)
    );
    assert_eq!(QuantizationLevel::from_filename("model.gguf"), None);
}

#[test]
fn bytes_per_param_monotonic() {
    let bytes = |q: QuantizationLevel| q.bits_per_param() as f32 / 8.0;
    assert!(bytes(QuantizationLevel::Q4_0) < bytes(QuantizationLevel::Q5KM));
    assert!(bytes(QuantizationLevel::Q5KM) < bytes(QuantizationLevel::Q8_0));
    assert!(bytes(QuantizationLevel::Q8_0) < bytes(QuantizationLevel::F16));
    assert!(bytes(QuantizationLevel::F16) < bytes(QuantizationLevel::F32));
    assert_eq!(bytes(QuantizationLevel::Q4KM), 0.5);
    assert_eq!(bytes(QuantizationLevel::Q6K), 0.75);
}

#[test]
fn safe_filename_accepts_normal_files() {
    assert!(is_safe_filename("model.safetensors"));
    assert!(is_safe_filename("config.json"));
    assert!(is_safe_filename("model-00001-of-00002.safetensors"));
    assert!(is_safe_filename("tokenizer.model"));
}

#[test]
fn safe_filename_rejects_traversal() {
    assert!(!is_safe_filename("../etc/passwd"));
    assert!(!is_safe_filename("..\\windows\\system32"));
    assert!(!is_safe_filename("/etc/passwd"));
    assert!(!is_safe_filename("\\windows\\system32"));
    assert!(!is_safe_filename("C:/Windows/System32/cmd.exe"));
    assert!(!is_safe_filename("subdir/../escape"));
}

#[test]
fn safe_filename_rejects_control_chars() {
    assert!(!is_safe_filename(""));
    assert!(!is_safe_filename("foo\0bar"));
    assert!(!is_safe_filename("with\nnewline"));
    assert!(!is_safe_filename("with\ttab"));
}

#[test]
fn alias_from_repo_id_lowercases_and_dashes() {
    assert_eq!(alias_from_repo_id("meta-llama/Llama-3.2-1B"), "llama-3-2-1b");
}

#[test]
fn alias_lowercases_beyond_ascii() {
    assert_eq!(alias_from_repo_id("org/ÉCOLE 2.0"), "école-2-0");
}

#[test]
fn sanitize_path_replaces_slashes() {
    assert_eq!(sanitize_path("meta-llama/Llama-3.2-1B"), "meta-llama--Llama-3.2-1B");
}

#[test]
fn parses_basic_modelfile() {
    let src = r#"
FROM llama-3.2-1b-instruct
SYSTEM "You are a helpful assistant."
PARAMETER temperature 0.7
PARAMETER top_p 0.9
"#;
    let mf = Modelfile::parse(src).unwrap();
    assert_eq!(mf.from.as_deref(), Some("llama-3.2-1b-instruct"));
    assert_eq!(mf.system.as_deref(), Some("You are a helpful assistant."));
    assert_eq!(mf.parameters.len(), 2);
    assert_eq!(mf.parameters[0], ("temperature".to_string(), "0.7".to_string()));
}

#[test]
fn substitute_preserves_multibyte_utf8() {
    let tpl = "Café ☕ {{ .Prompt }} — naïve";
    let out = substitute(tpl, "", "héllo 你好", "");
    assert_eq!(out, "Café ☕ héllo 你好 — naïve");
}

#[test]
fn substitute_leaves_unknown_placeholders() {
    let out = substitute("{{ .Prompt }} {{ .Unknown }}", "", "hi", "");
    assert_eq!(out, "hi {{ .Unknown }}");
}

#[test]
fn parses_triple_quoted_template() {
    let src = r#"
FROM base
TEMPLATE """{{ .System }}
User: {{ .Prompt }}
Assistant:"""
"#;
    let mf = Modelfile::parse(src).unwrap();
    let tpl = mf.template.unwrap();
    assert!(tpl.contains("{{ .Prompt }}"));
}

#[test]
fn unterminated_block_is_refused() {
    let e = Modelfile::parse("TEMPLATE \"\"\"open\nstill open\n").unwrap_err();
    assert_eq!(e, ModelfileError::UnterminatedBlock);
    assert_eq!(e.message(), "Unterminated triple-quoted block in Modelfile");
}

#[test]
fn template_is_rendered_with_the_system_text() {
    let mf = Modelfile::parse("SYSTEM be brief\nTEMPLATE \"{{ .System }} / {{ .Prompt }}\"\n").unwrap();
    assert_eq!(mf.render_template("why?"), "be brief / why?");
    let plain = Modelfile::parse("FROM base\n").unwrap();
    assert_eq!(plain.render_template("why?"), "why?");
}

#[test]
fn caller_system_message_wins() {
    let mf = Modelfile::parse("SYSTEM from file\nMESSAGE user hello\n").unwrap();
    let own = mf.apply_to_messages(&[turn("system", "mine"), turn("user", "q")]);
    let own: Vec<(String, String)> = own.into_iter().map(|m| (m.role, m.content)).collect();
    assert!(own.iter().all(|m| m.1 != "from file"));
    let none = mf.apply_to_messages(&[turn("user", "q")]);
    assert_eq!(none[0].role, "system");
    assert_eq!(none[0].content, "from file");
    assert_eq!(none.last().unwrap().content, "q");
}

#[test]
fn store_saves_finds_and_forgets() {
    let mut store = ManifestStore::new();
    store.save(manifest("a", "org/Model-A"));
    store.save(manifest("b", "org/Model-B"));
    assert_eq!(store.list().len(), 2);
    assert_eq!(store.get("a").unwrap().repo_id, "org/Model-A");
    assert!(store.get("c").is_none());
    assert_eq!(store.find_by_repo_id("Model-B").unwrap().alias, "b");
    assert!(store.find_by_repo_id("Model-C").is_none());
    store.delete("a");
    assert!(store.get("a").is_none());
    assert_eq!(store.get("b").unwrap().alias, "b");
    assert_eq!(store.list().len(), 1);
}

#[test]
fn uses_are_flushed_once() {
    let mut store = ManifestStore::new();
    store.save(manifest("a", "org/a"));
    store.save(manifest("b", "org/b"));
    assert!(store.update_last_used("a", 500).is_ok());
    match store.update_last_used("zzz", 500) {
        Err(StoreError::NotFound(name)) => assert_eq!(name, "zzz"),
        _ => panic!("an unknown alias is refused"),
    }
    let flushed = store.flush_dirty();
    assert_eq!(flushed.len(), 1);
    assert_eq!(flushed[0].alias, "a");
    assert_eq!(flushed[0].last_used, at(500));
    assert!(store.flush_dirty().is_empty());
    store.mark_dirty("b");
    assert_eq!(store.flush_dirty().len(), 1);
}

#[test]
fn a_time_beyond_the_calendar_is_not_flushed() {
    let mut store = ManifestStore::new();
    store.save(manifest("a", "org/a"));
    assert!(store.update_last_used("a", i64::MAX).is_ok());
    let flushed = store.flush_dirty();
    assert_eq!(flushed[0].last_used, at(100));
}

#[test]
fn copies_share_the_weights() {
    let mut store = ManifestStore::new();
    store.save(manifest("a", "org/a"));
    let copy = store.clone_as("a", "b", at(7), at(8)).unwrap();
    assert_eq!(copy.alias, "b");
    assert_eq!(copy.local_path, "/tmp/test");
    assert_eq!(copy.downloaded_at, at(7));
    assert_eq!(copy.last_used, at(8));
    store.save(copy);
    let missing = store.clone_as("x", "y", at(7), at(8)).unwrap_err();
    assert_eq!(missing.message(), "Source model not found: x");
    let taken = store.clone_as("a", "b", at(7), at(8)).unwrap_err();
    assert_eq!(taken.message(), "Destination alias already exists: b");
    assert_eq!(StoreError::NotFound("q".to_string()).message(), "Manifest not found: q");
}

#[test]
fn manifest_files_have_no_separators() {
    assert_eq!(manifest_file("org/name:tag\\x"), "org_name_tag_x.json");
    assert_eq!(temp_file("a", "u"), "a.u.tmp");
    assert!(is_manifest_file("a.json"));
    assert!(!is_manifest_file("a.tmp"));
    assert!(!is_manifest_file(".json"));
}

#[test]
fn file_sizes_add_up() {
    let f = |n: u64| FileEntry { name: "f".to_string(), sha256: String::new(), size_bytes: n };
    assert_eq!(total_size(&[f(1), f(2), f(3)]), Some(6));
    assert_eq!(total_size(&[]), Some(0));
    assert_eq!(total_size(&[f(u64::MAX), f(1)]), None);
}

#[test]
fn alias_map_keeps_its_index() {
    let mut m: AliasMap<u32> = AliasMap::new();
    for i in 0..20u32 {
        m.insert(format!("k{}", i), i);
    }
    assert_eq!(m.len(), 20);
    assert_eq!(m.remove("k3"), Some(3));
    assert_eq!(m.remove("k3"), None);
    m.insert("k7".to_string(), 77);
    for i in 0..20u32 {
        let want = if i == 3 {
            None
        } else if i == 7 {
            Some(77)
        } else {
            Some(i)
        };
        assert_eq!(m.get(&format!("k{}", i)).copied(), want);
    }
    assert_eq!(m.remove("k19"), Some(19));
    assert!(!m.contains_key("k19"));
    assert_eq!(m.len(), 18);
}

#[test]
fn format_names() {
    assert_eq!(WeightFormat::Safetensors.name(), "Safetensors");
    assert_eq!(WeightFormat::GGUF.lower_name(), "gguf");
    assert_eq!(WeightFormat::PyTorch.lower_name(), "pytorch");
}

#[test]
fn times_are_written_by_rfc_3339() {
    assert_eq!(time_text(at(0)), "1970-01-01T00:00:00+00:00");
    assert_eq!(time_text(at(1_700_000_000)), "2023-11-14T22:13:20+00:00");
    assert_eq!(time_text(at(i64::MAX)), "");
}

#[test]
fn level_names_ignore_case() {
    for name in ["q4_k_m", "Q4_k_M", "q4km", "Q4KM"] {
        assert_eq!(QuantizationLevel::from_str(name), Some(QuantizationLevel::Q4KM));
    }
    assert_eq!(QuantizationLevel::from_filename("x-f16.GGUF"), Some(QuantizationLevel::F16));
    assert_eq!(QuantizationLevel::from_filename("x-F16.gguf"), Some(QuantizationLevel::F16));
}
