//! Starting a model server: which backend serves a model, the command line of
//! its server, the port it gets, and how long it may take to come up.
use crate::api::json;
use crate::api::json::{put, str_json, unsigned_json, Json, JsonNumber, JsonView};
use crate::config::settings::{physical_cores, Settings};
use crate::gpu::vram::{GpuInfo, VramManager};
use crate::number;
use crate::registry::manifest::ModelManifest;
use crate::text;
use vstd::prelude::*;
use vstd::string::StringExecFns;

verus! {

// --------------------------------------------------------------------- routing

/// The backend that serves a model.
#[derive(Debug, Clone, Copy, PartialEq, Eq, Structural)]
pub enum Route {
    Sglang,
    LlamaCpp,
    NoBackend,
}

/// The routing decision, in order: a card is there and the model fits; a GGUF
/// file is there; nothing can run it.
pub open spec fn routed(gpus: int, fits: bool, has_gguf: bool) -> Route {
    if gpus > 0 && fits {
        Route::Sglang
    } else if has_gguf {
        Route::LlamaCpp
    } else {
        Route::NoBackend
    }
}

/// Decides which backend serves a model, given the cards and the memory that its
/// weights need.
pub fn choose_route(manifest: &ModelManifest, weight_mb: u64, gpus: &[GpuInfo]) -> (r: Route)
    ensures
        r == routed(
            gpus@.len() as int,
            crate::gpu::vram::fits(
                weight_mb,
                manifest@.context_length,
                crate::gpu::vram::gpu_views(gpus@),
            ),
            manifest@.gguf_path is Some,
        ),
        r == Route::Sglang <==> gpus@.len() > 0 && crate::gpu::vram::fits(
            weight_mb,
            manifest@.context_length,
            crate::gpu::vram::gpu_views(gpus@),
        ),
        r != Route::Sglang ==> (r == Route::LlamaCpp <==> manifest@.gguf_path is Some),
{
    if gpus.len() > 0 && VramManager::can_fit(weight_mb, manifest.context_length, gpus) {
        Route::Sglang
    } else if manifest.gguf_path.is_some() {
        Route::LlamaCpp
    } else {
        Route::NoBackend
    }
}

/// The local address of a model server.
pub open spec fn endpoint_of(port: u16) -> Seq<char> {
    "http://127.0.0.1:"@ + number::decimal(port as nat)
}

/// The local address of a model server.
pub fn endpoint_url(port: u16) -> (r: String)
    ensures
        r@ == endpoint_of(port),
{
    let digits = number::to_decimal(port as u64);
    String::from_str("http://127.0.0.1:").concat(digits.as_str())
}

/// What a user is told of a model that nothing can run.
pub fn no_backend_message(alias: &str) -> (r: String)
    ensures
        r@ == "No runnable backend for '"@ + alias@
            + "': it has no GGUF and doesn't fit in GPU VRAM. Re-pull to fetch a prebuilt GGUF (localllm pull <repo>), or convert locally if you have Python+torch (localllm quantize "@
            + alias@ + ")."@,
{
    let mut out = String::from_str("No runnable backend for '");
    out.append(alias);
    out.append(
        "': it has no GGUF and doesn't fit in GPU VRAM. Re-pull to fetch a prebuilt GGUF (localllm pull <repo>), or convert locally if you have Python+torch (localllm quantize ",
    );
    out.append(alias);
    out.append(").");
    out
}

/// A model with a GGUF file always has a backend, and without a card it is never
/// given to sglang.
pub proof fn law_gguf_is_always_served(gpus: int, fits: bool)
    ensures
        routed(gpus, fits, true) != Route::NoBackend,
        routed(0, fits, true) == Route::LlamaCpp,
        routed(0, fits, false) == Route::NoBackend,
{
}

// ---------------------------------------------------------------- command lines

/// The smallest context that a server is started with.
pub const MIN_CTX_SIZE: u32 = 2048;

/// The largest context that a server is started with.
pub const MAX_CTX_SIZE: u32 = 8192;

/// A model's context length within the bounds of a server.
pub open spec fn clamped_ctx(context_length: u32) -> u32 {
    if context_length < MIN_CTX_SIZE {
        MIN_CTX_SIZE
    } else if context_length > MAX_CTX_SIZE {
        MAX_CTX_SIZE
    } else {
        context_length
    }
}

fn clamp_ctx(context_length: u32) -> (r: u32)
    ensures
        r == clamped_ctx(context_length),
{
    if context_length < MIN_CTX_SIZE {
        MIN_CTX_SIZE
    } else if context_length > MAX_CTX_SIZE {
        MAX_CTX_SIZE
    } else {
        context_length
    }
}

/// Why a server cannot be started.
#[derive(Debug)]
pub enum SpawnError {
    /// The model has no GGUF file.
    NoGguf(String),
    /// No engine is configured.
    NoEngineDir,
    /// The engine's directory holds no server.
    NoServerBinary(String),
}

impl SpawnError {
    /// The error as a sentence.
    pub fn message(&self) -> (r: String)
        ensures
            r@ == match self {
                SpawnError::NoGguf(a) => "No GGUF path for '"@ + a@
                    + "'. Run: localllm quantize "@ + a@,
                SpawnError::NoEngineDir => "llama_cpp_dir not configured"@,
                SpawnError::NoServerBinary(d) => "llama-server not found under "@ + text::path_debug_of(
                    d@,
                ) + "/build/bin/ (looked for both 'llama-server' and 'llama-server.exe')"@,
            },
    {
        match self {
            SpawnError::NoGguf(a) => {
                let mut out = String::from_str("No GGUF path for '");
                out.append(a.as_str());
                out.append("'. Run: localllm quantize ");
                out.append(a.as_str());
                out
            },
            SpawnError::NoEngineDir => String::from_str("llama_cpp_dir not configured"),
            SpawnError::NoServerBinary(d) => {
                let mut out = String::from_str("llama-server not found under ");
                let shown = text::path_debug(d.as_str());
                out.append(shown.as_str());
                out.append(
                    "/build/bin/ (looked for both 'llama-server' and 'llama-server.exe')",
                );
                out
            },
        }
    }
}

/// The part of a `llama-server`'s command line that is always there.
pub open spec fn llama_base_args(
    gguf: Seq<char>,
    port: u16,
    context_length: u32,
    slots: u32,
    threads: nat,
    threads_batch: nat,
    flash_attn: bool,
) -> Seq<Seq<char>> {
    seq![
        "--model"@,
        gguf,
        "--host"@,
        "127.0.0.1"@,
        "--port"@,
        number::decimal(port as nat),
        "--ctx-size"@,
        number::decimal(clamped_ctx(context_length) as nat),
        "-np"@,
        number::decimal(slots as nat),
        "--threads"@,
        number::decimal(threads),
        "--threads-batch"@,
        number::decimal(threads_batch),
        "--flash-attn"@,
        if flash_attn {
            "on"@
        } else {
            "auto"@
        },
    ]
}

/// Arguments that are there on a condition.
pub open spec fn given_if(c: bool, args: Seq<Seq<char>>) -> Seq<Seq<char>> {
    if c {
        args
    } else {
        Seq::empty()
    }
}

/// The command line of a `llama-server`, without the program.
pub open spec fn llama_args(
    gguf: Seq<char>,
    port: u16,
    context_length: u32,
    settings: Settings,
    threads: nat,
    threads_batch: nat,
    has_gpu: bool,
    embeddings: bool,
) -> Seq<Seq<char>> {
    llama_base_args(
        gguf,
        port,
        context_length,
        settings.llamacpp_parallel_slots,
        threads,
        threads_batch,
        settings.llamacpp_flash_attn,
    ) + batch_args(settings.llamacpp_batch_size) + given_if(
        settings.llamacpp_mlock,
        seq!["--mlock"@],
    ) + given_if(has_gpu, seq!["--n-gpu-layers"@, "999"@]) + given_if(
        embeddings,
        seq!["--embeddings"@],
    )
}

/// The batch sizes, given only where they were changed from the default.
pub open spec fn batch_args(batch_size: u32) -> Seq<Seq<char>> {
    if batch_size == 512 {
        Seq::empty()
    } else {
        seq![
            "--batch-size"@,
            number::decimal(batch_size as nat),
            "--ubatch-size"@,
            number::decimal(if batch_size < 512 {
                batch_size as nat
            } else {
                512
            }),
        ]
    }
}

/// The decoding threads: as configured, or one per physical core.
pub open spec fn decode_threads(settings: Settings, logical_cores: Option<usize>) -> nat {
    match settings.llamacpp_threads {
        Some(n) => n as nat,
        None => match logical_cores {
            Some(n) => if n / 2 >= 1 {
                (n / 2) as nat
            } else {
                1
            },
            None => 1,
        },
    }
}

fn push_flag(out: &mut Vec<String>, flag: &str)
    ensures
        text::string_texts(final(out)@) == text::string_texts(old(out)@) + seq![flag@],
{
    let ghost before = out@;
    let s = String::from_str(flag);
    out.push(s);
    assert(text::string_texts(out@) =~= text::string_texts(before) + seq![flag@]);
}

fn push_flag_if(out: &mut Vec<String>, c: bool, flag: &str)
    ensures
        text::string_texts(final(out)@) == text::string_texts(old(out)@) + given_if(c, seq![flag@]),
{
    if c {
        push_flag(out, flag);
    } else {
        assert(text::string_texts(out@) + Seq::<Seq<char>>::empty() =~= text::string_texts(out@));
    }
}

fn push_option(out: &mut Vec<String>, flag: &str, value: &str)
    ensures
        text::string_texts(final(out)@) == text::string_texts(old(out)@) + seq![flag@, value@],
{
    let ghost before = text::string_texts(out@);
    push_flag(out, flag);
    push_flag(out, value);
    assert(text::string_texts(out@) =~= before + seq![flag@, value@]);
}

fn push_option_if(out: &mut Vec<String>, c: bool, flag: &str, value: &str)
    ensures
        text::string_texts(final(out)@) == text::string_texts(old(out)@) + given_if(
            c,
            seq![flag@, value@],
        ),
{
    if c {
        push_option(out, flag, value);
    } else {
        assert(text::string_texts(out@) + Seq::<Seq<char>>::empty() =~= text::string_texts(out@));
    }
}

fn push_number(out: &mut Vec<String>, flag: &str, value: u64)
    ensures
        text::string_texts(final(out)@) == text::string_texts(old(out)@) + seq![
            flag@,
            number::decimal(value as nat),
        ],
{
    let digits = number::to_decimal(value);
    push_option(out, flag, digits.as_str());
}

fn push_batch(out: &mut Vec<String>, batch: u32)
    ensures
        text::string_texts(final(out)@) == text::string_texts(old(out)@) + batch_args(batch),
{
    let ghost before = text::string_texts(out@);
    if batch != 512 {
        push_number(out, "--batch-size", batch as u64);
        push_number(
            out,
            "--ubatch-size",
            if batch < 512 {
                batch as u64
            } else {
                512
            },
        );
    }
    assert(text::string_texts(out@) =~= before + batch_args(batch));
}

fn llama_base(
    gguf: &str,
    port: u16,
    context_length: u32,
    slots: u32,
    threads: usize,
    threads_batch: usize,
    flash_attn: bool,
) -> (args: Vec<String>)
    ensures
        text::string_texts(args@) == llama_base_args(
            gguf@,
            port,
            context_length,
            slots,
            threads as nat,
            threads_batch as nat,
            flash_attn,
        ),
{
    let mut args: Vec<String> = Vec::new();
    assert(text::string_texts(args@) =~= Seq::<Seq<char>>::empty());
    push_option(&mut args, "--model", gguf);
    push_option(&mut args, "--host", "127.0.0.1");
    push_number(&mut args, "--port", port as u64);
    push_number(&mut args, "--ctx-size", clamp_ctx(context_length) as u64);
    push_number(&mut args, "-np", slots as u64);
    push_number(&mut args, "--threads", threads as u64);
    push_number(&mut args, "--threads-batch", threads_batch as u64);
    push_option(
        &mut args,
        "--flash-attn",
        if flash_attn {
            "on"
        } else {
            "auto"
        },
    );
    assert(text::string_texts(args@) =~= llama_base_args(
        gguf@,
        port,
        context_length,
        slots,
        threads as nat,
        threads_batch as nat,
        flash_attn,
    ));
    args
}

/// The command line of a `llama-server` for a model, or why there is none: the
/// model has no GGUF file, no engine is configured, or the engine has no server.
/// `server_bin` is the server's path, where it was found.
pub fn plan_llama_server(
    manifest: &ModelManifest,
    settings: &Settings,
    server_bin: Option<String>,
    port: u16,
    has_gpu: bool,
    logical_cores: Option<usize>,
) -> (r: Result<(String, Vec<String>), SpawnError>)
    ensures
        match r {
            Ok((program, args)) => manifest@.gguf_path is Some && settings.llama_cpp_dir is Some
                && server_bin == Some(program) && text::string_texts(args@) == llama_args(
                manifest@.gguf_path->0,
                port,
                manifest@.context_length,
                *settings,
                decode_threads(*settings, logical_cores),
                match logical_cores {
                    Some(n) => n as nat,
                    None => decode_threads(*settings, logical_cores),
                },
                has_gpu,
                manifest@.embeddings,
            ),
            Err(SpawnError::NoGguf(a)) => manifest@.gguf_path is None && a@ == manifest@.alias,
            Err(SpawnError::NoEngineDir) => manifest@.gguf_path is Some
                && settings.llama_cpp_dir is None,
            Err(SpawnError::NoServerBinary(d)) => manifest@.gguf_path is Some
                && settings.llama_cpp_dir == Some(d) && server_bin is None,
        },
{
    let gguf: &String = match &manifest.gguf_path {
        Some(p) => p,
        None => {
            return Err(SpawnError::NoGguf(manifest.alias.clone()));
        },
    };
    let dir: &String = match &settings.llama_cpp_dir {
        Some(d) => d,
        None => {
            return Err(SpawnError::NoEngineDir);
        },
    };
    let program: String = match server_bin {
        Some(b) => b,
        None => {
            return Err(SpawnError::NoServerBinary(dir.clone()));
        },
    };
    let threads: usize = match settings.llamacpp_threads {
        Some(n) => n,
        None => physical_cores(logical_cores),
    };
    let threads_batch: usize = match logical_cores {
        Some(n) => n,
        None => threads,
    };
    let mut args: Vec<String> = llama_base(
        gguf.as_str(),
        port,
        manifest.context_length,
        settings.llamacpp_parallel_slots,
        threads,
        threads_batch,
        settings.llamacpp_flash_attn,
    );
    push_batch(&mut args, settings.llamacpp_batch_size);
    push_flag_if(&mut args, settings.llamacpp_mlock, "--mlock");
    push_option_if(&mut args, has_gpu, "--n-gpu-layers", "999");
    push_flag_if(&mut args, manifest.embeddings, "--embeddings");
    Ok((program, args))
}

/// The command line of an sglang server, without the interpreter. `mem_fraction`
/// is the share of memory to reserve, written with two decimals.
pub open spec fn sglang_args(
    model_path: Seq<char>,
    port: u16,
    mem_fraction: Seq<char>,
    settings: Settings,
    gpu_count: nat,
) -> Seq<Seq<char>> {
    seq![
        "-m"@,
        "sglang.launch_server"@,
        "--model-path"@,
        model_path,
        "--host"@,
        "127.0.0.1"@,
        "--port"@,
        number::decimal(port as nat),
        "--dtype"@,
        "bfloat16"@,
        "--mem-fraction-static"@,
        mem_fraction,
        "--chunked-prefill-size"@,
        number::decimal(settings.sglang_chunked_prefill_size as nat),
    ] + given_if(gpu_count > 1, seq!["--tp-size"@, number::decimal(gpu_count)]) + given_if(
        settings.sglang_torch_compile,
        seq!["--enable-torch-compile"@],
    )
}

/// The weights that sglang loads: the GGUF file where there is one, else the
/// model's directory.
pub open spec fn model_path_of(gguf_path: Option<Seq<char>>, local_path: Seq<char>) -> Seq<char> {
    match gguf_path {
        Some(p) => p,
        None => local_path,
    }
}

/// The command line of an sglang server for a model, without the interpreter.
pub fn plan_sglang(
    manifest: &ModelManifest,
    settings: &Settings,
    port: u16,
    mem_fraction: &str,
    gpu_count: usize,
) -> (r: Vec<String>)
    ensures
        text::string_texts(r@) == sglang_args(
            model_path_of(manifest@.gguf_path, manifest@.local_path),
            port,
            mem_fraction@,
            *settings,
            gpu_count as nat,
        ),
{
    let model_path: &str = match &manifest.gguf_path {
        Some(p) => p.as_str(),
        None => manifest.local_path.as_str(),
    };
    let mut args: Vec<String> = Vec::new();
    assert(text::string_texts(args@) =~= Seq::<Seq<char>>::empty());
    push_option(&mut args, "-m", "sglang.launch_server");
    push_option(&mut args, "--model-path", model_path);
    push_option(&mut args, "--host", "127.0.0.1");
    push_number(&mut args, "--port", port as u64);
    push_option(&mut args, "--dtype", "bfloat16");
    push_option(&mut args, "--mem-fraction-static", mem_fraction);
    push_number(
        &mut args,
        "--chunked-prefill-size",
        settings.sglang_chunked_prefill_size as u64,
    );
    let count = number::to_decimal(gpu_count as u64);
    push_option_if(&mut args, gpu_count > 1, "--tp-size", count.as_str());
    push_flag_if(&mut args, settings.sglang_torch_compile, "--enable-torch-compile");
    assert(text::string_texts(args@) =~= sglang_args(
        model_path_of(manifest@.gguf_path, manifest@.local_path),
        port,
        mem_fraction@,
        *settings,
        gpu_count as nat,
    ));
    args
}

// ------------------------------------------------------------------- coming up

/// The first wait before a server is asked whether it is up, in milliseconds.
pub const FIRST_DELAY_MS: u64 = 100;

/// The longest wait between two questions, in milliseconds.
pub const MAX_DELAY_MS: u64 = 2000;

/// What to do after asking a starting server.
#[derive(Debug, Clone, Copy, PartialEq, Eq, Structural)]
pub enum PollStep {
    /// It is up.
    Ready,
    /// It took too long: kill it.
    TimedOut,
    /// Ask again after this many milliseconds.
    Sleep(u64),
}

/// How a starting server is being asked: the time waited so far and the next
/// wait, in milliseconds.
#[derive(Debug, Clone, Copy, PartialEq, Eq, Structural)]
pub struct StartupPoll {
    pub timeout_secs: u64,
    pub elapsed_ms: u64,
    pub delay_ms: u64,
}

/// The wait after a wait: twice as long, up to the longest.
pub open spec fn next_delay(delay_ms: u64) -> u64 {
    if delay_ms * 2 < MAX_DELAY_MS {
        (delay_ms * 2) as u64
    } else {
        MAX_DELAY_MS
    }
}

/// The time waited after one more wait.
pub open spec fn waited(p: StartupPoll) -> u64 {
    if p.elapsed_ms + p.delay_ms <= u64::MAX {
        (p.elapsed_ms + p.delay_ms) as u64
    } else {
        u64::MAX
    }
}

/// The poll and its next step after a wait, given whether the server was up.
pub open spec fn polled(p: StartupPoll, healthy: bool) -> (StartupPoll, PollStep) {
    let elapsed = waited(p);
    if healthy {
        (StartupPoll { elapsed_ms: elapsed, ..p }, PollStep::Ready)
    } else if elapsed >= p.timeout_secs * 1000 {
        (StartupPoll { elapsed_ms: elapsed, ..p }, PollStep::TimedOut)
    } else {
        (
            StartupPoll { elapsed_ms: elapsed, delay_ms: next_delay(p.delay_ms), ..p },
            PollStep::Sleep(next_delay(p.delay_ms)),
        )
    }
}

impl StartupPoll {
    /// A poll that has not begun: the first wait comes next.
    pub fn new(timeout_secs: u64) -> (r: Self)
        ensures
            r == (StartupPoll { timeout_secs, elapsed_ms: 0, delay_ms: FIRST_DELAY_MS }),
    {
        StartupPoll { timeout_secs, elapsed_ms: 0, delay_ms: FIRST_DELAY_MS }
    }

    /// Takes what the server answered after the wait.
    pub fn step(&mut self, healthy: bool) -> (r: PollStep)
        ensures
            (*final(self), r) == polled(*old(self), healthy),
    {
        let elapsed: u64 = self.elapsed_ms.saturating_add(self.delay_ms);
        self.elapsed_ms = elapsed;
        if healthy {
            return PollStep::Ready;
        }
        if elapsed as u128 >= self.timeout_secs as u128 * 1000 {
            return PollStep::TimedOut;
        }
        let next: u64 = if self.delay_ms < MAX_DELAY_MS / 2 {
            self.delay_ms * 2
        } else {
            MAX_DELAY_MS
        };
        self.delay_ms = next;
        PollStep::Sleep(next)
    }
}

/// The waits stay between the first and the longest.
pub open spec fn delay_in_bounds(p: StartupPoll) -> bool {
    FIRST_DELAY_MS <= p.delay_ms <= MAX_DELAY_MS
}

/// Every wait of a poll is between 100 ms and 2 s, and each failed question
/// brings the timeout at least 100 ms nearer, so a server that never answers is
/// given up.
pub proof fn law_poll_makes_progress(p: StartupPoll)
    requires
        delay_in_bounds(p),
        p.elapsed_ms < p.timeout_secs * 1000,
    ensures
        delay_in_bounds(polled(p, false).0),
        polled(p, false).0.elapsed_ms >= p.elapsed_ms + FIRST_DELAY_MS || polled(p, false).1
            == PollStep::TimedOut || polled(p, false).0.elapsed_ms == u64::MAX,
        polled(p, false).1 == PollStep::TimedOut <==> waited(p) >= p.timeout_secs * 1000,
{
}

/// The wait grows until it is two seconds, and then stays there.
pub proof fn law_backoff_doubles_to_its_cap(delay_ms: u64)
    ensures
        delay_ms * 2 <= MAX_DELAY_MS ==> next_delay(delay_ms) == delay_ms * 2,
        delay_ms * 2 >= MAX_DELAY_MS ==> next_delay(delay_ms) == MAX_DELAY_MS,
{
}

/// What a user is told of a server that did not come up in time.
pub fn startup_timeout_message(server: &str, timeout_secs: u64, alias: &str) -> (r: String)
    ensures
        r@ == server@ + " startup timeout after "@ + number::decimal(timeout_secs as nat) + "s for "@
            + alias@,
{
    let digits = number::to_decimal(timeout_secs);
    let mut out = String::from_str(server).concat(" startup timeout after ");
    out.append(digits.as_str());
    out.append("s for ");
    out.append(alias);
    out
}

/// The request that warms a server up: one token, not streamed, of no randomness.
pub open spec fn warmup_value(alias: Seq<char>) -> JsonView {
    JsonView::Object(
        seq![
            ("model"@, JsonView::Str(alias)),
            (
                "messages"@,
                JsonView::Array(
                    seq![
                        JsonView::Object(
                            seq![
                                ("role"@, JsonView::Str("user"@)),
                                ("content"@, JsonView::Str("hi"@)),
                            ],
                        ),
                    ],
                ),
            ),
            ("max_tokens"@, JsonView::Number(JsonNumber::Unsigned(1))),
            ("stream"@, JsonView::Bool(false)),
            ("temperature"@, JsonView::Number(JsonNumber::Float(0))),
        ],
    )
}

/// Builds the request that warms a server up.
pub fn warmup_request(alias: &str) -> (r: Json)
    ensures
        r@ == warmup_value(alias@),
{
    broadcast use crate::api::json::lemma_json_view;

    let mut message: Vec<(String, Json)> = Vec::new();
    put(&mut message, "role", str_json("user"));
    put(&mut message, "content", str_json("hi"));
    let ghost message_members = json::member_views(message@);
    assert(message_members =~= seq![
        ("role"@, JsonView::Str("user"@)),
        ("content"@, JsonView::Str("hi"@)),
    ]);
    let mut messages: Vec<Json> = Vec::new();
    messages.push(Json::Object(message));
    assert(json::element_views(messages@) =~= seq![JsonView::Object(message_members)]);
    let mut members: Vec<(String, Json)> = Vec::new();
    put(&mut members, "model", str_json(alias));
    put(&mut members, "messages", Json::Array(messages));
    put(&mut members, "max_tokens", unsigned_json(1));
    put(&mut members, "stream", Json::Bool(false));
    put(&mut members, "temperature", Json::Number(JsonNumber::Float(0)));
    assert(json::member_views(members@) =~= warmup_value(alias@)->Object_0);
    Json::Object(members)
}

// ------------------------------------------------------------------------ ports

/// The first port to try of a range.
pub fn first_port(start: u16, end: u16) -> (r: Option<u16>)
    ensures
        r == (if start <= end {
            Some(start)
        } else {
            None
        }),
{
    if start <= end {
        Some(start)
    } else {
        None
    }
}

/// The port to try after one that was taken.
pub fn next_port(port: u16, end: u16) -> (r: Option<u16>)
    ensures
        r == (if port < end {
            Some((port + 1) as u16)
        } else {
            None
        }),
{
    if port < end {
        Some(port + 1)
    } else {
        None
    }
}

/// The first free port of a range.
pub open spec fn first_free(start: int, end: int, free: Seq<u16>) -> Option<int>
    decreases end + 1 - start,
{
    if start > end {
        None
    } else if free.contains(start as u16) {
        Some(start)
    } else {
        first_free(start + 1, end, free)
    }
}

/// Picks the first port of a range that is among those found free.
pub fn find_free_port(start: u16, end: u16, free: &[u16]) -> (r: Option<u16>)
    ensures
        match r {
            Some(p) => first_free(start as int, end as int, free@) == Some(p as int),
            None => first_free(start as int, end as int, free@) is None,
        },
{
    let mut at: Option<u16> = first_port(start, end);
    loop
        invariant
            at matches Some(p) ==> start <= p <= end && first_free(
                start as int,
                end as int,
                free@,
            ) == first_free(p as int, end as int, free@),
            at is None ==> first_free(start as int, end as int, free@) is None,
        decreases (match at {
            Some(p) => end - p + 1,
            None => 0,
        }),
    {
        match at {
            None => {
                return None;
            },
            Some(p) => {
                if port_listed(free, p) {
                    return Some(p);
                }
                assert(p >= end ==> first_free(p + 1, end as int, free@) is None);
                at = next_port(p, end);
            },
        }
    }
}

fn port_listed(free: &[u16], p: u16) -> (r: bool)
    ensures
        r == free@.contains(p),
{
    let mut i: usize = 0;
    while i < free.len()
        invariant
            i <= free@.len(),
            forall|j: int| 0 <= j < i ==> free@[j] != p,
        decreases free@.len() - i,
    {
        if free[i] == p {
            return true;
        }
        i = i + 1;
    }
    false
}

/// What a user is told where every port of a range is taken.
pub fn no_free_port_message(start: u16, end: u16) -> (r: String)
    ensures
        r@ == "No free port in range "@ + number::decimal(start as nat) + "..="@ + number::decimal(
            end as nat,
        ),
{
    let mut out = String::from_str("No free port in range ");
    let a = number::to_decimal(start as u64);
    let b = number::to_decimal(end as u64);
    out.append(a.as_str());
    out.append("..=");
    out.append(b.as_str());
    out
}

/// A free port that is found lies in the range, is free, and no port before it
/// is; where none is found, none is free.
pub proof fn law_first_free_port(start: int, end: int, free: Seq<u16>)
    ensures
        match first_free(start, end, free) {
            Some(p) => start <= p <= end && free.contains(p as u16) && forall|q: int|
                start <= q < p ==> !free.contains(#[trigger] (q as u16)),
            None => forall|q: int| start <= q <= end ==> !free.contains(#[trigger] (q as u16)),
        },
    decreases end + 1 - start,
{
    if start <= end && !free.contains(start as u16) {
        law_first_free_port(start + 1, end, free);
    }
}

} // verus!
