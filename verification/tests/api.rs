use localllm::api::bodies::{
    apply_modelfile_to_body, build_chat_request, build_generate_request, parse_modelfile_value,
    read_message, string_or_null,
};
use localllm::api::disk::{disk_usage, find_orphans, gc_reply, referenced_paths, RemovalOutcome};
use localllm::api::health::{
    health_report, health_targets, health_url, BackendHealth, HealthBoard, Probe,
};
use localllm::api::json::{parse_json, Json, JsonNumber};
use localllm::api::listing::{
    describe_model, find_manifest, list_models_v1, list_processes, logs_reply, model_status,
    model_tag, retrieve_model_v1,
};
use localllm::api::metrics::{Counter, Metrics};
use localllm::api::middleware::{request_id, request_id_or};
use localllm::api::pull::{
    effective_pull_quant, error_frame, ollama_pull_frames, own_token, progress_frame, pull_shape,
    pulled_reply, success_frame, PullEvent, PullJob, PullPhase, PullShape,
};
use localllm::api::routes::{
    build_embedding_request, completion_model, copy_refused, create_model, created_reply,
    first_embedding, loaded_reply, name_to_delete, outbound_body, plan_quantize, plan_removal,
    quantized, read_routing, routing_of, with_embeddings,
};
use localllm::api::stream::{
    count_event, count_tokens_in_chunk, count_tokens_in_sse_line, count_words, done_frame,
    piece_frame, read_event, read_frame, single_frame, LineBuffer, SseEvent, Tally,
};
use localllm::api::types::{
    ApiError, ChatCompletionResponse, ChatMessage, Choice, DiskUsageEntry, OllamaCreateRequest,
    Usage,
};
use localllm::downloader::file_manager::{gguf_manifest, ModelMeta, PullProgress};
use localllm::downloader::hf_api::RepoFile;
use localllm::inference::launch::{choose_route, Route};
use localllm::inference::logbuf::LogRingBuffer;
use localllm::inference::pool::PoolEntry;
use localllm::registry::manifest::{
    FileEntry, ManifestStore, ModelManifest, QuantizationLevel, WeightFormat,
};
use localllm::registry::modelfile::Modelfile;
use localllm::time::Timestamp;

fn at(secs: i64) -> Timestamp {
    Timestamp { secs, nanos: 0 }
}

fn manifest(alias: &str, repo_id: &str) -> ModelManifest {
    ModelManifest {
        repo_id: repo_id.to_string(),
        alias: alias.to_string(),
        revision: "abc".to_string(),
        local_path: format!("/models/{}", alias),
        architecture: "llama".to_string(),
        weight_format: WeightFormat::GGUF,
        parameters_billion_bits: 7.0f32.to_bits(),
        context_length: 4096,
        quantization: Some(QuantizationLevel::Q4KM),
        gguf_path: Some(format!("/gguf/{}.gguf", alias)),
        files: vec![
            FileEntry { name: "a.gguf".to_string(), sha256: String::new(), size_bytes: 10 },
            FileEntry { name: "b.json".to_string(), sha256: "ff".to_string(), size_bytes: 5 },
        ],
        downloaded_at: at(100),
        last_used: at(200),
        embeddings: false,
        modelfile: None,
    }
}

fn store(names: &[(&str, &str)]) -> ManifestStore {
    let mut s = ManifestStore::new();
    for (alias, repo) in names {
        s.save(manifest(alias, repo));
    }
    s
}

fn json(text: &str) -> Json {
    parse_json(text.as_bytes()).unwrap()
}

fn text_of(j: &Json, key: &str) -> String {
    j.get_str(key).unwrap().clone()
}

fn turn(role: &str, content: &str) -> ChatMessage {
    ChatMessage { role: role.to_string(), content: content.to_string() }
}

// ------------------------------------------------------------------------ JSON

#[test]
fn json_is_parsed_by_kind() {
    let j = json("{\"a\": [1, -2, 2.5, true, null, \"x\"], \"b\": {\"c\": 3}}");
    let a = j.get("a").unwrap().as_array().unwrap();
    assert_eq!(a[0].as_u64(), Some(1));
    assert!(matches!(a[1], Json::Number(JsonNumber::Negative(-2))));
    assert!(matches!(a[2], Json::Number(JsonNumber::Float(b)) if f64::from_bits(b) == 2.5));
    assert_eq!(a[3].as_bool(), Some(true));
    assert!(matches!(a[4], Json::Null));
    assert_eq!(a[5].as_str().unwrap(), "x");
    assert_eq!(j.get("b").unwrap().get_u64("c"), Some(3));
    assert!(parse_json(b"{nope").is_err());
    assert!(!parse_json(b"{nope").unwrap_err().is_empty());
}

// --------------------------------------------------------------------- routing

#[test]
fn routing_reads_model_and_stream() {
    let (r, _) = read_routing(b"{\"model\": \"m\", \"stream\": true}").unwrap();
    assert_eq!(r.model, "m");
    assert!(r.stream);
    assert!(!routing_of(&json("{\"model\": \"m\"}")).unwrap().stream);
    let e = routing_of(&json("{\"model\": 3}")).unwrap_err();
    assert_eq!(e.error.message, "Missing 'model' field");
    assert_eq!(e.status_code(), 400);
    let e = read_routing(b"[").unwrap_err();
    assert!(e.error.message.starts_with("Invalid JSON: "));
    assert!(e.error.message.len() > "Invalid JSON: ".len());
}

#[test]
fn models_go_by_alias_then_by_repository() {
    let s = store(&[("a", "org/Alpha"), ("b", "org/a")]);
    assert_eq!(find_manifest(&s, "a").unwrap().alias, "a");
    assert_eq!(find_manifest(&s, "Alpha").unwrap().alias, "a");
    assert!(find_manifest(&s, "Gamma").is_none());
    let e = completion_model(&s, "Gamma").unwrap_err();
    assert_eq!(e.error.message, "Model not found: Gamma");
    assert_eq!(e.error.hint.as_deref(), Some("Run: localllm pull <huggingface-repo>"));
    assert_eq!(e.status_code(), 404);
    assert_eq!(retrieve_model_v1(&s, "a").unwrap().created, 100);
    assert_eq!(retrieve_model_v1(&s, "zz").unwrap_err().error.message, "Model not found: zz");
}

#[test]
fn errors_have_their_status() {
    assert_eq!(ApiError::internal("x".to_string()).status_code(), 500);
    assert_eq!(ApiError::not_found("x".to_string()).status_code(), 404);
    assert_eq!(ApiError::bad_request("x".to_string()).status_code(), 400);
    assert_eq!(ApiError::new("x".to_string(), "other".to_string()).status_code(), 500);
}

// ---------------------------------------------------------------------- bodies

#[test]
fn parameter_values_by_kind() {
    assert_eq!(parse_modelfile_value(" 42 ", Some(0)).as_u64(), Some(42));
    assert!(matches!(
        parse_modelfile_value("-7", None),
        Json::Number(JsonNumber::Negative(-7))
    ));
    let bits = 0.7f64.to_bits();
    assert!(matches!(
        parse_modelfile_value("0.7", Some(bits)),
        Json::Number(JsonNumber::Float(b)) if b == bits
    ));
    assert_eq!(parse_modelfile_value("true", None).as_bool(), Some(true));
    assert_eq!(parse_modelfile_value("false", None).as_bool(), Some(false));
    assert_eq!(parse_modelfile_value("\"hi\"", None).as_str().unwrap(), "hi");
    assert_eq!(parse_modelfile_value("9223372036854775808", None).as_str().unwrap(), "9223372036854775808");
    assert!(matches!(
        parse_modelfile_value("-9223372036854775808", None),
        Json::Number(JsonNumber::Negative(i64::MIN))
    ));
}

fn modelfile() -> Modelfile {
    Modelfile::parse(
        "FROM base\nSYSTEM be brief\nPARAMETER num_predict 64\nPARAMETER stop \"END\"\nPARAMETER stop \"STOP\"\nPARAMETER top_k 5\n",
    )
    .unwrap()
}

#[test]
fn modelfile_fills_in_what_is_missing() {
    let floats = vec![None; 4];
    let body = json("{\"model\": \"m\", \"messages\": [{\"role\": \"user\", \"content\": \"q\"}]}");
    let out = apply_modelfile_to_body(&body, &modelfile(), &floats, true).unwrap();
    assert_eq!(out.get_u64("max_tokens"), Some(64));
    assert_eq!(out.get_u64("top_k"), Some(5));
    let stops = out.get("stop").unwrap().as_array().unwrap();
    assert_eq!(stops.len(), 2);
    assert_eq!(stops[1].as_str().unwrap(), "STOP");
    let messages = out.get("messages").unwrap().as_array().unwrap();
    assert_eq!(text_of(&messages[0], "role"), "system");
    assert_eq!(text_of(&messages[0], "content"), "be brief");
    assert_eq!(text_of(messages.last().unwrap(), "content"), "q");
}

#[test]
fn request_wins_over_the_modelfile() {
    let floats = vec![None; 4];
    let body = json("{\"max_tokens\": 9, \"stop\": [\"mine\"], \"prompt\": \"p\"}");
    let out = apply_modelfile_to_body(&body, &modelfile(), &floats, false).unwrap();
    assert_eq!(out.get_u64("max_tokens"), Some(9));
    assert_eq!(out.get("stop").unwrap().as_array().unwrap().len(), 1);
    assert!(out.get("messages").is_none());
}

#[test]
fn unreadable_messages_go_on_unchanged() {
    let floats = vec![None; 4];
    let body = json("{\"messages\": [{\"role\": 1}]}");
    assert!(apply_modelfile_to_body(&body, &modelfile(), &floats, true).is_none());
    assert!(outbound_body(&body, None, &[], true).is_none());
    assert!(outbound_body(&body, Some(&modelfile()), &floats, false).is_some());
}

#[test]
fn null_content_is_empty() {
    let m = read_message(&json("{\"role\": \"assistant\", \"content\": null}")).unwrap();
    assert_eq!(m.role, "assistant");
    assert_eq!(m.content, "");
    let m = read_message(&json("{}")).unwrap();
    assert_eq!(m.role, "");
    assert!(read_message(&json("{\"content\": 1}")).is_none());
    assert_eq!(read_message(&json("[\"user\"]")).unwrap().role, "user");
    assert!(read_message(&json("[\"user\", \"x\", \"y\"]")).is_none());
    assert_eq!(string_or_null(None).as_deref(), Some(""));
}

#[test]
fn options_win_over_parameters() {
    let floats = vec![None; 4];
    let options = json("{\"num_predict\": 3, \"stop\": \"S\", \"seed\": 1}");
    let out =
        build_generate_request("m", "hello", true, Some(&modelfile()), &floats, &options);
    assert_eq!(out.get_u64("max_tokens"), Some(3));
    assert_eq!(text_of(&out, "stop"), "S");
    assert_eq!(text_of(&out, "prompt"), "hello");
    assert_eq!(out.get_bool("stream"), Some(true));
    assert!(out.get("seed").is_none());
    let chat = build_chat_request("m", &[turn("user", "q")], false, None, &[], &Json::Null);
    assert_eq!(chat.get("messages").unwrap().as_array().unwrap().len(), 1);
    assert_eq!(chat.get_bool("stream"), Some(false));
}

// --------------------------------------------------------------------- streams

#[test]
fn lines_come_out_whole() {
    let mut b = LineBuffer::new();
    assert!(b.push(b"data: a").is_empty());
    assert_eq!(b.push(b"b\n\nrest"), vec![b"data: ab".to_vec(), b"".to_vec()]);
    assert_eq!(b.push(b"\n"), vec![b"rest".to_vec()]);
}

#[test]
fn cutting_does_not_matter() {
    let all = b"one\ntwo\r\nthree\nfour";
    for cut in 0..all.len() {
        let mut b = LineBuffer::new();
        let mut lines = b.push(&all[..cut]);
        lines.extend(b.push(&all[cut..]));
        assert_eq!(lines, vec![b"one".to_vec(), b"two\r".to_vec(), b"three".to_vec()]);
    }
}

#[test]
fn events_are_told_apart() {
    assert!(matches!(read_event(b"data: [DONE]\r"), SseEvent::Done));
    assert!(matches!(read_event(b"  data: {}  "), SseEvent::Data(s) if s == "{}"));
    assert!(matches!(read_event(b": comment"), SseEvent::Skip));
    assert!(matches!(read_event(b""), SseEvent::Skip));
    assert!(matches!(read_event(&[0xff, 0xfe]), SseEvent::Skip));
    assert_eq!(read_frame(b" {\"status\": \"x\"} \r").unwrap().get_str("status").unwrap(), "x");
    assert!(read_frame(b"   ").is_none());
    assert!(read_frame(b"{").is_none());
}

#[test]
fn words_are_counted() {
    assert_eq!(count_words(""), 0);
    assert_eq!(count_words("  "), 0);
    assert_eq!(count_words("one two\tthree\n four "), 4);
    assert_eq!(count_words("a\u{3000}b"), 2);
}

#[test]
fn tokens_are_counted() {
    let mut m = Metrics::default();
    let mut t = Tally::new();
    count_tokens_in_sse_line(
        b"data: {\"choices\": [{\"delta\": {\"content\": \"hello big world\"}}]}\r",
        &mut t,
        &mut m,
    );
    assert_eq!(m.tokens_generated_total, 3);
    count_tokens_in_sse_line(
        b"data: {\"choices\": [{\"delta\": {\"content\": \" \"}}]}",
        &mut t,
        &mut m,
    );
    assert_eq!(m.tokens_generated_total, 4);
    count_tokens_in_sse_line(
        b"data: {\"usage\": {\"prompt_tokens\": 7, \"completion_tokens\": 10}}",
        &mut t,
        &mut m,
    );
    assert_eq!(m.tokens_generated_total, 10);
    assert_eq!(m.prompt_tokens_total, 7);
    count_tokens_in_sse_line(b"data: [DONE]", &mut t, &mut m);
    count_tokens_in_sse_line(b"event: x", &mut t, &mut m);
    count_tokens_in_sse_line(b"data: {", &mut t, &mut m);
    assert_eq!(m.tokens_generated_total, 10);
    count_event(&json("{\"choices\": []}"), &mut t, &mut m);
    assert_eq!(m.tokens_generated_total, 10);
}

#[test]
fn an_exact_count_replaces_the_words_of_its_own_answer() {
    let mut m = Metrics::default();
    let words = json("{\"choices\": [{\"delta\": {\"content\": \"a b c d\"}}]}");
    let exact = json("{\"usage\": {\"completion_tokens\": 3}}");
    let mut first = Tally::new();
    let mut second = Tally::new();
    count_event(&words, &mut first, &mut m);
    count_event(&words, &mut second, &mut m);
    assert_eq!(m.tokens_generated_total, 8);
    count_event(&exact, &mut second, &mut m);
    assert_eq!(m.tokens_generated_total, 7);
    count_event(&exact, &mut first, &mut m);
    assert_eq!(m.tokens_generated_total, 6);
    assert_eq!(first, second);
    let whole = json("{\"choices\": [{\"delta\": {}, \"message\": {\"content\": \"x y\"}}]}");
    count_event(&whole, &mut Tally::new(), &mut m);
    assert_eq!(m.tokens_generated_total, 8);
    m.tokens_generated_total = u64::MAX;
    count_event(&words, &mut first, &mut m);
    assert_eq!(m.tokens_generated_total, 3);
}

#[test]
fn tokens_do_not_depend_on_the_chunks() {
    let all = b"data: {\"choices\": [{\"delta\": {\"content\": \"a b\"}}]}\n\ndata: {\"usage\": {\"prompt_tokens\": 2}}\n";
    for cut in 0..all.len() {
        let mut m = Metrics::default();
        let mut b = LineBuffer::new();
        let mut t = Tally::new();
        count_tokens_in_chunk(&mut b, &all[..cut], &mut t, &mut m);
        count_tokens_in_chunk(&mut b, &all[cut..], &mut t, &mut m);
        assert_eq!((m.tokens_generated_total, m.prompt_tokens_total), (2, 2));
    }
}

fn response(delta: Option<&str>, message: Option<&str>) -> ChatCompletionResponse {
    ChatCompletionResponse {
        id: "1".to_string(),
        object: "o".to_string(),
        created: 1,
        model: "m".to_string(),
        choices: vec![Choice {
            index: 0,
            message: message.map(|c| turn("assistant", c)),
            delta: delta.map(|c| turn("assistant", c)),
            finish_reason: None,
        }],
        usage: Some(Usage { prompt_tokens: 3, completion_tokens: 4, total_tokens: 7 }),
    }
}

#[test]
fn frames_carry_the_content() {
    let f = piece_frame(&response(Some("hi"), None), "m", at(0), false);
    assert_eq!(f.response.as_deref(), Some("hi"));
    assert!(f.message.is_none());
    assert!(!f.done);
    assert_eq!(f.created_at, "1970-01-01T00:00:00+00:00");
    assert_eq!((f.prompt_eval_count, f.eval_count), (Some(3), Some(4)));
    let f = single_frame(&response(Some("d"), Some("msg")), "m", at(0), true);
    assert_eq!(f.message.unwrap().content, "msg");
    assert!(f.done && f.response.is_none());
    let f = single_frame(&response(Some("d"), None), "m", at(0), false);
    assert_eq!(f.response.as_deref(), Some("d"));
    let f = done_frame("m", at(0), true);
    assert_eq!(f.message.unwrap().content, "");
    assert!(f.done && f.eval_count.is_none());
}

// --------------------------------------------------------------------- metrics

#[test]
fn metrics_are_exposed() {
    let mut m = Metrics::default();
    m.count(Counter::ChatRequests, 2);
    m.count(Counter::Errors, u64::MAX);
    m.count(Counter::Errors, 2);
    assert_eq!(m.errors_total, 1);
    let text = m.render(3);
    assert!(text.starts_with("# HELP localllm_requests_total Total HTTP requests received\n# TYPE localllm_requests_total counter\nlocalllm_requests_total 0\n"));
    assert!(text.contains("\nlocalllm_chat_requests_total 2\n"));
    assert!(text.ends_with("# TYPE localllm_models_loaded gauge\nlocalllm_models_loaded 3\n"));
    assert_eq!(text.lines().count(), 33);
}

// ---------------------------------------------------------------------- health

#[test]
fn health_is_noted_and_reported() {
    let mut board = HealthBoard::new();
    board.record("a", Probe::Success, 1);
    board.record("b", Probe::Status("503 Service Unavailable".to_string()), 2);
    board.record("c", Probe::Failed("refused".to_string()), 3);
    let mut bad = board.unhealthy();
    bad.sort_by(|x, y| x.0.cmp(&y.0));
    assert_eq!(bad.len(), 2);
    assert_eq!(bad[0].1.last_error.as_deref(), Some("HTTP 503 Service Unavailable"));
    assert_eq!(bad[1].1.last_error.as_deref(), Some("refused"));
    let report = health_report(5, 1, 2, &bad);
    assert_eq!(text_of(&report, "status"), "degraded");
    assert_eq!(report.get_u64("models_loaded"), Some(3));
    assert_eq!(report.get("unhealthy").unwrap().as_array().unwrap().len(), 2);
    board.retain(&["a".to_string(), "z".to_string()]);
    assert!(board.unhealthy().is_empty());
    let none: Vec<(String, BackendHealth)> = vec![];
    assert_eq!(text_of(&health_report(0, 0, 0, &none), "status"), "ok");
    assert_eq!(health_url(99), "http://127.0.0.1:99/health");
    let e = PoolEntry { port: 4, started_at: at(1), last_used: 2 };
    let t = health_targets(&[("x".to_string(), e)], &[("y".to_string(), e)]);
    assert_eq!(t, vec![("x".to_string(), 4), ("y".to_string(), 4)]);
}

// -------------------------------------------------------------------- listings

#[test]
fn listings_tell_of_models() {
    let s = store(&[("a", "org/A")]);
    let list = list_models_v1(&s.list());
    assert_eq!(list.object, "list");
    assert_eq!(list.data[0].id, "a");
    assert_eq!(list.data[0].owned_by, "localllm");
    let m = s.get("a").unwrap();
    let status = model_status(m, true);
    assert_eq!(status.status, "loaded");
    assert_eq!(status.quantization.as_deref(), Some("Q4_K_M"));
    assert_eq!(model_status(m, false).status, "ready");
    let tag = model_tag(m, "7.0B").unwrap();
    assert_eq!(tag.size, 15);
    assert_eq!(tag.modified_at, "1970-01-01T00:03:20+00:00");
    assert_eq!(tag.details.format, "gguf");
    assert_eq!(tag.details.parameter_size, "7.0B");
    let mut plain = manifest("p", "org/P");
    plain.quantization = None;
    assert_eq!(model_tag(&plain, "").unwrap().details.quantization_level, "F16");
}

#[test]
fn descriptions_show_the_modelfile() {
    let mut s = store(&[("a", "org/A")]);
    let d = describe_model(&s, "a", "7.0B", Some(7.0f64.to_bits())).unwrap();
    assert_eq!(d.modelfile, "FROM org/A\n");
    assert_eq!(d.parameters, "");
    assert_eq!(d.model_info.get_u64("files"), Some(2));
    let mut m = manifest("b", "org/B");
    m.modelfile = Some(modelfile());
    s.save(m);
    let d = describe_model(&s, "b", "7.0B", None).unwrap();
    assert_eq!(d.parameters, "num_predict 64\nstop \"END\"\nstop \"STOP\"\ntop_k 5");
    assert!(d.modelfile.starts_with("FROM base\n"));
    assert!(matches!(d.model_info.get("parameters_billion"), Some(Json::Null)));
    assert_eq!(
        describe_model(&s, "zz", "", None).unwrap_err().error.message,
        "Model not found: zz"
    );
}

#[test]
fn processes_and_logs_are_told() {
    let e = PoolEntry { port: 4, started_at: at(1), last_used: i64::MAX };
    let ps = list_processes(&[("x".to_string(), e)], &[("x".to_string(), e)]);
    assert_eq!(ps.len(), 2);
    assert_eq!(ps[0].backend, "sglang");
    assert_eq!(ps[1].backend, "llamacpp");
    assert_eq!(ps[0].started_at, "1970-01-01T00:00:01+00:00");
    assert_eq!(ps[0].last_used, "");
    let mut log = LogRingBuffer::new(10);
    log.push("one".to_string());
    log.push("two".to_string());
    let j = logs_reply("m", None, Some(&log), Some(1)).unwrap();
    assert_eq!(text_of(&j, "backend"), "llamacpp");
    assert_eq!(j.get("lines").unwrap().as_array().unwrap()[0].as_str().unwrap(), "two");
    let e = logs_reply("m", None, None, None).unwrap_err();
    assert_eq!(e.error.message, "No running inference process for 'm'");
    assert_eq!(e.error.hint.as_deref(), Some("Run: localllm load <alias>"));
}

// --------------------------------------------------------------------- changes

#[test]
fn models_are_created_from_modelfiles() {
    let s = store(&[("base", "org/Base")]);
    let req = |text: &str| OllamaCreateRequest {
        name: "new".to_string(),
        modelfile: text.to_string(),
        stream: false,
    };
    let m = create_model(&s, &req("FROM base\nSYSTEM hi\n"), at(1), at(2)).unwrap();
    assert_eq!(m.alias, "new");
    assert_eq!(m.local_path, "/models/base");
    assert_eq!(m.modelfile.unwrap().system.as_deref(), Some("hi"));
    let e = create_model(&s, &req("SYSTEM hi\n"), at(1), at(2)).unwrap_err();
    assert_eq!(e.error.message, "Modelfile missing FROM directive");
    let e = create_model(&s, &req("FROM other\n"), at(1), at(2)).unwrap_err();
    assert_eq!(e.error.message, "Base model not found: other");
    assert_eq!(e.status_code(), 404);
    let e = create_model(&s, &req("FROM \"\"\"x\n"), at(1), at(2)).unwrap_err();
    assert_eq!(
        e.error.message,
        "Modelfile parse error: Unterminated triple-quoted block in Modelfile"
    );
    assert_eq!(text_of(&created_reply("new"), "name"), "new");
    assert_eq!(text_of(&loaded_reply("http://x"), "endpoint"), "http://x");
}

#[test]
fn registry_refusals_become_answers() {
    let s = store(&[("a", "org/A"), ("b", "org/B")]);
    let e = s.clone_as("a", "b", at(1), at(1)).unwrap_err();
    assert_eq!(copy_refused(&e).error.message, "Destination alias already exists: b");
    let r = plan_removal(&s, "a").unwrap();
    assert_eq!(r.local_path, "/models/a");
    assert_eq!(r.gguf_path.as_deref(), Some("/gguf/a.gguf"));
    assert_eq!(plan_removal(&s, "q").unwrap_err().status_code(), 404);
    assert_eq!(name_to_delete(&json("{\"name\": \"a\"}")).unwrap(), "a");
    assert_eq!(name_to_delete(&json("{}")).unwrap_err().error.message, "Missing 'name' field");
}

#[test]
fn quantize_requests_are_held_against_the_registry() {
    let s = store(&[("a", "org/A")]);
    let (m, l) = plan_quantize(&s, "a", "q8_0", true).unwrap();
    assert_eq!(l, QuantizationLevel::Q8_0);
    let q = quantized(m, l, "/gguf/a-Q8_0.gguf");
    assert_eq!(q.gguf_path.as_deref(), Some("/gguf/a-Q8_0.gguf"));
    assert_eq!(q.quantization, Some(QuantizationLevel::Q8_0));
    assert_eq!(
        plan_quantize(&s, "x", "q8_0", true).unwrap_err().error.hint.as_deref(),
        Some("Run: localllm pull <repo_id>")
    );
    assert_eq!(
        plan_quantize(&s, "a", "huge", true).unwrap_err().error.message,
        "Unknown quantization level: huge"
    );
    assert_eq!(
        plan_quantize(&s, "a", "f16", false).unwrap_err().error.message,
        "Compression engine not available"
    );
}

#[test]
fn embeddings_need_their_flag() {
    let m = manifest("a", "org/A");
    let u = with_embeddings(&m).unwrap();
    assert!(u.embeddings);
    assert!(with_embeddings(&u).is_none());
    let r = build_embedding_request("m", "text");
    assert_eq!(text_of(&r, "input"), "text");
    assert_eq!(first_embedding(vec![vec![1.5f32], vec![2.5]]), vec![1.5]);
    assert!(first_embedding::<f32>(vec![]).is_empty());
}

// ----------------------------------------------------------------------- pulls

#[test]
fn pull_requests_have_two_shapes() {
    assert!(matches!(
        pull_shape(&json("{\"name\": \"n\"}")).unwrap(),
        PullShape::Ollama { stream: true, .. }
    ));
    assert!(matches!(
        pull_shape(&json("{\"name\": \"n\", \"stream\": false}")).unwrap(),
        PullShape::Ollama { stream: false, .. }
    ));
    assert!(matches!(
        pull_shape(&json("{\"name\": \"n\", \"repo_id\": \"r\"}")).unwrap(),
        PullShape::Native
    ));
    assert!(matches!(pull_shape(&json("{}")).unwrap(), PullShape::Native));
    assert_eq!(
        pull_shape(&json("{\"name\": 1}")).unwrap_err().error.message,
        "Missing 'name' field"
    );
    assert_eq!(own_token(Some("t")), Some("t"));
    assert_eq!(own_token(Some("")), None);
    assert_eq!(own_token(None), None);
}

#[test]
fn what_a_pull_fetches() {
    assert_eq!(effective_pull_quant(Some("Q8_0"), true).as_deref(), Some("Q8_0"));
    assert_eq!(effective_pull_quant(None, false).as_deref(), Some("Q4_K_M"));
    assert_eq!(effective_pull_quant(None, true), None);
}

#[test]
fn prebuilt_file_is_preferred() {
    let mut job = PullJob::begin(true, "org/M", Some("Q4_K_M"), false);
    assert_eq!(job.phase(), PullPhase::FetchGguf);
    assert_eq!(job.opening_frames().len(), 1);
    assert!(job.step(PullEvent::Fetched(manifest("m", "org/M"))).is_none());
    assert_eq!(job.phase(), PullPhase::Save);
    job.step(PullEvent::Saved);
    assert_eq!(job.phase(), PullPhase::Done);
    assert_eq!(job.manifest().unwrap().alias, "m");
    assert!(job.error().is_none());
}

#[test]
fn conversion_is_the_fallback() {
    let mut job = PullJob::begin(true, "org/M", Some("q8_0"), true);
    let told = job.step(PullEvent::FetchFailed("none".to_string()));
    assert_eq!(told.as_deref(), Some("no prebuilt GGUF — converting from safetensors"));
    let told = job.step(PullEvent::Fetched(manifest("m", "org/M")));
    assert_eq!(told.as_deref(), Some("quantizing to q8_0"));
    assert_eq!(job.level(), Some(QuantizationLevel::Q8_0));
    job.step(PullEvent::Converted("/gguf/x".to_string()));
    assert_eq!(job.manifest().unwrap().gguf_path.as_deref(), Some("/gguf/x"));
    job.step(PullEvent::SaveFailed("disk full".to_string()));
    assert_eq!(
        job.error().unwrap().error.message,
        "none. Also failed safetensors conversion: disk full"
    );
}

#[test]
fn streamed_pulls_tell_both_failures() {
    let fail = |events: Vec<PullEvent>, quant: Option<&str>, engine: bool| {
        let mut job = PullJob::begin(true, "org/M", quant, engine);
        for e in events {
            job.step(e);
        }
        assert_eq!(job.phase(), PullPhase::Failed);
        job.error().unwrap().error.message.clone()
    };
    let none = || PullEvent::FetchFailed("none".to_string());
    let got = || PullEvent::Fetched(manifest("m", "org/M"));
    assert_eq!(
        fail(vec![none(), got()], Some("weird"), true),
        "none. Also failed safetensors conversion: Unknown quantization level: weird"
    );
    assert_eq!(
        fail(vec![none(), got()], Some("q8_0"), false),
        "none. Also failed safetensors conversion: llama_cpp_dir not configured for conversion"
    );
    assert_eq!(
        fail(vec![none(), got(), PullEvent::ConvertFailed("boom".to_string())], Some("q8_0"), true),
        "none. Also failed safetensors conversion: boom"
    );
    assert_eq!(fail(vec![none()], None, false), "none");
}

#[test]
fn no_weights_are_fetched_that_nothing_can_convert() {
    let mut job = PullJob::begin(true, "org/M", Some("q8_0"), false);
    assert_eq!(job.step(PullEvent::FetchFailed("none".to_string())), None);
    assert_eq!(job.phase(), PullPhase::Failed);
    let mut job = PullJob::begin(true, "org/M", Some("weird"), false);
    job.step(PullEvent::FetchFailed("none".to_string()));
    assert_eq!(
        job.error().unwrap().error.message,
        "none. Also failed safetensors conversion: Unknown quantization level: weird"
    );
}

#[test]
fn plain_pulls_answer_with_errors() {
    let job = PullJob::begin(false, "org/M", Some("weird"), true);
    assert_eq!(job.phase(), PullPhase::Failed);
    assert_eq!(job.error().unwrap().status_code(), 400);
    let mut job = PullJob::begin(false, "org/M", Some("q8_0"), false);
    job.step(PullEvent::FetchFailed("none".to_string()));
    assert_eq!(
        job.error().unwrap().error.message,
        "No prebuilt GGUF found for 'org/M' and local conversion is unavailable: none"
    );
    let mut job = PullJob::begin(false, "org/M", None, false);
    assert_eq!(job.opening_frames().len(), 2);
    job.step(PullEvent::FetchFailed("401".to_string()));
    assert_eq!(
        job.error().unwrap().error.hint.as_deref(),
        Some("Verify HF_TOKEN if pulling a private model")
    );
    let mut job = PullJob::begin(false, "org/M", Some("q8_0"), true);
    job.step(PullEvent::FetchFailed("none".to_string()));
    job.step(PullEvent::Fetched(manifest("m", "org/M")));
    job.step(PullEvent::ConvertFailed("boom".to_string()));
    assert_eq!(job.error().unwrap().error.message, "boom");
    job.step(PullEvent::Saved);
    assert_eq!(job.phase(), PullPhase::Failed);
}

#[test]
fn progress_is_told_now_and_then() {
    let p = PullProgress::Download { downloaded: 5, total: 10 };
    assert!(progress_frame(&p, 249, 5).is_none());
    assert_eq!(progress_frame(&p, 250, 5).unwrap().get_u64("downloaded"), Some(5));
    let p = PullProgress::Download { downloaded: 10, total: 10 };
    assert!(progress_frame(&p, 0, 10).is_some());
    let p = PullProgress::Download { downloaded: 10, total: 0 };
    assert!(progress_frame(&p, 0, 0).is_none());
    let p = PullProgress::Status("phase".to_string());
    assert_eq!(text_of(&progress_frame(&p, 0, 0).unwrap(), "status"), "phase");
}

#[test]
fn each_hundredth_of_a_download_is_told() {
    let p = PullProgress::Download { downloaded: 519, total: 2000 };
    assert!(progress_frame(&p, 0, 500).is_none());
    assert!(progress_frame(&p, 0, 600).is_none());
    let p = PullProgress::Download { downloaded: 520, total: 2000 };
    assert_eq!(progress_frame(&p, 0, 500).unwrap().get_u64("downloaded"), Some(520));
    let p = PullProgress::Download { downloaded: u64::MAX - 1, total: u64::MAX };
    assert!(progress_frame(&p, 0, 0).is_some());
    assert!(progress_frame(&p, 0, u64::MAX - 2).is_none());
}

#[test]
fn a_followed_download_is_told_its_end() {
    let mut job = PullJob::begin(true, "org/M", Some("Q4_K_M"), false);
    assert!(job.closing_frame(None).is_none());
    job.step(PullEvent::Fetched(manifest("m", "org/M")));
    assert!(job.closing_frame(None).is_none());
    job.step(PullEvent::Saved);
    let done = job.closing_frame(Some(7.0f64.to_bits())).unwrap();
    assert_eq!(text_of(&done, "status"), "success");
    assert_eq!(text_of(&done, "alias"), "m");
    let mut job = PullJob::begin(true, "org/M", None, false);
    job.step(PullEvent::FetchFailed("none".to_string()));
    let ended = job.closing_frame(None).unwrap();
    assert_eq!(text_of(&ended, "status"), "error");
    assert_eq!(text_of(&ended, "error"), "none");
}

#[test]
fn pull_frames_end_with_success() {
    let m = manifest("m", "org/M");
    let frames = ollama_pull_frames(&m).unwrap();
    assert_eq!(frames.len(), 5);
    assert_eq!(text_of(&frames[0], "status"), "pulling a.gguf");
    assert_eq!(frames[0].get_u64("completed"), Some(10));
    assert_eq!(text_of(&frames[2], "status"), "verifying sha256 digest");
    assert_eq!(frames[4].get_u64("total"), Some(15));
    assert_eq!(text_of(&pulled_reply(&m).unwrap(), "digest"), "abc");
    let done = success_frame(&m, Some(7.0f64.to_bits()));
    assert_eq!(text_of(&done, "quantization"), "Q4_K_M");
    assert_eq!(text_of(&error_frame("bad"), "error"), "bad");
}

// ------------------------------------------------------------------------ disk

#[test]
fn models_are_not_orphans() {
    let m = manifest("m", "org/M");
    let refs = referenced_paths(&m, true, true);
    assert_eq!(refs, vec!["/models/m", "/gguf/m.gguf"]);
    assert_eq!(referenced_paths(&m, false, true).len(), 1);
    let refs = vec!["/models/org--M/abc".to_string(), "/gguf/m.gguf".to_string()];
    let entries: Vec<String> = ["/models/org--M", "/models/org--Mx", "/gguf/m.gguf", "/gguf/old.gguf"]
        .iter()
        .map(|s| s.to_string())
        .collect();
    assert_eq!(find_orphans(&entries, &refs, '/'), vec!["/models/org--Mx", "/gguf/old.gguf"]);
}

#[test]
fn disk_space_adds_up() {
    let e = |a: u64, b: u64| DiskUsageEntry {
        alias: "x".to_string(),
        local_path_bytes: a,
        gguf_bytes: b,
    };
    let d = disk_usage(vec![e(1, 2), e(3, 4)], vec!["o".to_string()], &[7]).unwrap();
    assert_eq!((d.total_bytes, d.orphan_bytes), (10, 7));
    assert!(disk_usage(vec![e(u64::MAX, 1)], vec![], &[]).is_none());
    let outcomes = vec![
        RemovalOutcome { path: "/a".to_string(), error: None },
        RemovalOutcome { path: "/b".to_string(), error: Some("busy".to_string()) },
    ];
    let r = gc_reply(&outcomes);
    assert_eq!(r.get("removed").unwrap().as_array().unwrap().len(), 1);
    assert_eq!(r.get("errors").unwrap().as_array().unwrap()[0].as_str().unwrap(), "/b: busy");
}

// ------------------------------------------------------------------ middleware

#[test]
fn request_ids_are_kept_or_fresh() {
    assert_eq!(request_id(Some("mine")).0, "mine");
    let a = request_id(None).0;
    let b = request_id(Some("")).0;
    assert_ne!(a, b);
    for id in [a, b] {
        assert_eq!(id.len(), 36);
        assert_eq!(&id[14..15], "4");
        assert!(id.chars().all(|c| c == '-' || c.is_ascii_hexdigit()));
    }
    assert_eq!(request_id_or(Some(""), "f".to_string()).0, "f");
}

#[test]
fn plain_download_runs_without_a_card() {
    let quant = effective_pull_quant(None, false).unwrap();
    let mut job = PullJob::begin(false, "org/M", Some(&quant), false);
    let file = RepoFile { rfilename: "m-q4_k_m.gguf".to_string(), size: Some(7) };
    let m = gguf_manifest("org/M", "main", "/g", &file, &quant, ModelMeta::unknown(), at(1), false);
    job.step(PullEvent::Fetched(m));
    job.step(PullEvent::Saved);
    assert_eq!(job.phase(), PullPhase::Done);
    let m = job.manifest().unwrap();
    assert_eq!(m.gguf_path.as_deref(), Some("/g/m-Q4_K_M.gguf"));
    assert_eq!(choose_route(m, 100, &[]), Route::LlamaCpp);
}

#[test]
fn only_given_options_change_a_request() {
    let floats = vec![None; 4];
    let without =
        build_generate_request("m", "p", false, Some(&modelfile()), &floats, &json("{}"));
    let with = build_generate_request(
        "m",
        "p",
        false,
        Some(&modelfile()),
        &floats,
        &json("{\"top_p\": 1, \"seed\": 4}"),
    );
    assert_eq!(with.get_u64("top_p"), Some(1));
    assert_eq!(with.get_u64("max_tokens"), without.get_u64("max_tokens"));
    assert!(with.get("seed").is_none());
}
