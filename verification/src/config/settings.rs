//! Settings: built-in defaults, under the configuration file, under the
//! environment.
use crate::number;
use crate::paths;
use crate::text;
use vstd::prelude::*;
use vstd::string::StringExecFns;

verus! {

/// All tunables. `sglang_mem_fraction_bits` is the bit pattern of a 32-bit float.
#[derive(Debug)]
pub struct Settings {
    pub daemon_host: String,
    pub daemon_port: u16,
    pub models_dir: String,
    pub gguf_dir: String,
    pub manifests_dir: String,
    pub hf_token: Option<String>,
    pub sglang_port_range_start: u16,
    pub sglang_port_range_end: u16,
    pub max_concurrent_downloads: usize,
    pub download_chunk_size_bytes: usize,
    pub sglang_startup_timeout_secs: u64,
    pub llama_cpp_dir: Option<String>,
    pub model_ttl_secs: u64,
    pub preload: Vec<String>,
    pub llamacpp_parallel_slots: u32,
    pub llamacpp_flash_attn: bool,
    pub llamacpp_threads: Option<usize>,
    pub llamacpp_mlock: bool,
    pub llamacpp_batch_size: u32,
    pub sglang_chunked_prefill_size: u32,
    pub sglang_torch_compile: bool,
    pub sglang_mem_fraction_bits: u32,
}

// -------------------------------------------------------------------- defaults

/// Decoding slots of a `llama-server`.
pub fn default_llamacpp_parallel_slots() -> (r: u32)
    ensures
        r == 2,
{
    2
}

/// What is on unless switched off.
pub fn default_true() -> (r: bool)
    ensures
        r,
{
    true
}

/// The batch size of a `llama-server`.
pub fn default_llamacpp_batch_size() -> (r: u32)
    ensures
        r == 512,
{
    512
}

/// The prefill chunk of an sglang server.
pub fn default_sglang_chunked_prefill_size() -> (r: u32)
    ensures
        r == 8192,
{
    8192
}

/// The share of a card's memory that sglang reserves: 85 hundredths, as the bit
/// pattern of a 32-bit float.
pub fn default_sglang_mem_fraction_bits() -> (r: u32)
    ensures
        r == 0x3f59_999a,
{
    0x3f59_999a
}

/// The daemon listens on the loopback address.
pub fn default_daemon_host() -> (r: String)
    ensures
        r@ == "127.0.0.1"@,
{
    String::from_str("127.0.0.1")
}

/// The daemon's port.
pub fn default_daemon_port() -> (r: u16)
    ensures
        r == 11435,
{
    11435
}

/// A directory of the application below the home directory, or below the current
/// one where there is no home.
pub open spec fn home_subdir(home: Option<Seq<char>>, name: Seq<char>, windows: bool) -> Seq<char> {
    paths::joined(
        paths::joined(
            match home {
                Some(h) => h,
                None => "."@,
            },
            ".localllm"@,
            windows,
        ),
        name,
        windows,
    )
}

fn home_dir_join(home: Option<&str>, name: &str, windows: bool) -> (r: String)
    ensures
        r@ == home_subdir(text::text_of(home), name@, windows),
{
    let base: &str = match home {
        Some(h) => h,
        None => ".",
    };
    let own = paths::join(base, ".localllm", windows);
    paths::join(own.as_str(), name, windows)
}

/// Where downloaded models are.
pub fn default_models_dir(home: Option<&str>, windows: bool) -> (r: String)
    ensures
        r@ == home_subdir(text::text_of(home), "models"@, windows),
{
    home_dir_join(home, "models", windows)
}

/// Where quantized models are.
pub fn default_gguf_dir(home: Option<&str>, windows: bool) -> (r: String)
    ensures
        r@ == home_subdir(text::text_of(home), "gguf"@, windows),
{
    home_dir_join(home, "gguf", windows)
}

/// Where manifests are.
pub fn default_manifests_dir(home: Option<&str>, windows: bool) -> (r: String)
    ensures
        r@ == home_subdir(text::text_of(home), "manifests"@, windows),
{
    home_dir_join(home, "manifests", windows)
}

/// The first port for model servers.
pub fn default_sglang_port_range_start() -> (r: u16)
    ensures
        r == 30000,
{
    30000
}

/// The last port for model servers.
pub fn default_sglang_port_range_end() -> (r: u16)
    ensures
        r == 31000,
{
    31000
}

/// Files downloaded at a time.
pub fn default_max_concurrent_downloads() -> (r: usize)
    ensures
        r == 4,
{
    4
}

/// The streaming chunk of a download: 64 MiB.
pub fn default_download_chunk_size_bytes() -> (r: usize)
    ensures
        r == 64 * 1024 * 1024,
{
    67108864
}

/// How long a model server may take to start.
pub fn default_sglang_startup_timeout_secs() -> (r: u64)
    ensures
        r == 120,
{
    120
}

/// How long an idle model server is kept.
pub fn default_model_ttl_secs() -> (r: u64)
    ensures
        r == 300,
{
    300
}

/// The defaults, for a home directory and an access token of the environment.
pub open spec fn is_default(
    s: Settings,
    home: Option<Seq<char>>,
    hf_token: Option<Seq<char>>,
    windows: bool,
) -> bool {
    &&& s.daemon_host@ == "127.0.0.1"@
    &&& s.daemon_port == 11435
    &&& s.models_dir@ == home_subdir(home, "models"@, windows)
    &&& s.gguf_dir@ == home_subdir(home, "gguf"@, windows)
    &&& s.manifests_dir@ == home_subdir(home, "manifests"@, windows)
    &&& crate::registry::modelfile::text_option(s.hf_token) == hf_token
    &&& s.sglang_port_range_start == 30000
    &&& s.sglang_port_range_end == 31000
    &&& s.max_concurrent_downloads == 4
    &&& s.download_chunk_size_bytes == 67108864
    &&& s.sglang_startup_timeout_secs == 120
    &&& s.llama_cpp_dir is None
    &&& s.model_ttl_secs == 300
    &&& s.preload@.len() == 0
    &&& s.llamacpp_parallel_slots == 2
    &&& s.llamacpp_flash_attn
    &&& s.llamacpp_threads is None
    &&& s.llamacpp_mlock
    &&& s.llamacpp_batch_size == 512
    &&& s.sglang_chunked_prefill_size == 8192
    &&& !s.sglang_torch_compile
    &&& s.sglang_mem_fraction_bits == 0x3f59_999a
}

/// An access token without the whitespace around it; a blank one is none.
pub open spec fn usable_token(raw: Option<Seq<char>>) -> Option<Seq<char>> {
    match raw {
        Some(t) => if text::trimmed(t).len() > 0 {
            Some(text::trimmed(t))
        } else {
            None
        },
        None => None,
    }
}

/// Takes an access token as given; a blank one counts as none.
pub fn normalize_token(raw: Option<&str>) -> (r: Option<String>)
    ensures
        crate::registry::modelfile::text_option(r) == usable_token(text::text_of(raw)),
{
    match raw {
        Some(t) => {
            let chars = text::chars_of(t);
            let trimmed: &[char] = text::trim(chars.as_slice());
            if trimmed.len() > 0 {
                Some(text::string_of(trimmed))
            } else {
                None
            }
        },
        None => None,
    }
}

/// What the environment sets.
#[derive(Debug)]
pub struct Environment {
    pub hf_token: Option<String>,
    pub daemon_host: Option<String>,
    pub daemon_port: Option<String>,
    pub models_dir: Option<String>,
    pub gguf_dir: Option<String>,
    pub manifests_dir: Option<String>,
    pub llama_cpp_dir: Option<String>,
}

/// What the configuration file sets: every key may be left out.
/// `sglang_mem_fraction_bits` is the bit pattern of a 32-bit float.
#[derive(Debug)]
pub struct FileSettings {
    pub daemon_host: Option<String>,
    pub daemon_port: Option<u16>,
    pub models_dir: Option<String>,
    pub gguf_dir: Option<String>,
    pub manifests_dir: Option<String>,
    pub sglang_port_range_start: Option<u16>,
    pub sglang_port_range_end: Option<u16>,
    pub max_concurrent_downloads: Option<usize>,
    pub download_chunk_size_bytes: Option<usize>,
    pub sglang_startup_timeout_secs: Option<u64>,
    pub llama_cpp_dir: Option<String>,
    pub model_ttl_secs: Option<u64>,
    pub preload: Option<Vec<String>>,
    pub llamacpp_parallel_slots: Option<u32>,
    pub llamacpp_flash_attn: Option<bool>,
    pub llamacpp_threads: Option<usize>,
    pub llamacpp_mlock: Option<bool>,
    pub llamacpp_batch_size: Option<u32>,
    pub sglang_chunked_prefill_size: Option<u32>,
    pub sglang_torch_compile: Option<bool>,
    pub sglang_mem_fraction_bits: Option<u32>,
}

/// A setting under another layer: what that layer sets, else the setting.
pub open spec fn overridden<T>(over: Option<T>, setting: T) -> T {
    match over {
        Some(v) => v,
        None => setting,
    }
}

/// The port under the environment: a value that is no port changes nothing.
pub open spec fn overridden_port(env: Option<String>, port: u16) -> u16 {
    match env {
        Some(v) => match number::unsigned_of(v@, u16::MAX as nat) {
            Some(p) => p as u16,
            None => port,
        },
        None => port,
    }
}

/// A setting that may be absent, under another layer.
pub open spec fn overridden_option<T>(over: Option<T>, setting: Option<T>) -> Option<T> {
    match over {
        Some(v) => Some(v),
        None => setting,
    }
}

fn override_with<T>(over: Option<T>, setting: T) -> (r: T)
    ensures
        r == overridden(over, setting),
{
    match over {
        Some(v) => v,
        None => setting,
    }
}

fn override_option<T>(over: Option<T>, setting: Option<T>) -> (r: Option<T>)
    ensures
        r == overridden_option(over, setting),
{
    match over {
        Some(v) => Some(v),
        None => setting,
    }
}

fn override_port(env: Option<String>, port: u16) -> (r: u16)
    ensures
        r == overridden_port(env, port),
{
    match env {
        Some(v) => {
            let chars = text::chars_of(v.as_str());
            match number::parse_unsigned(chars.as_slice(), u16::MAX as u64) {
                Some(p) => p as u16,
                None => port,
            }
        },
        None => port,
    }
}

impl Settings {
    /// The defaults, given the home directory and the environment's access token.
    pub fn defaults(home: Option<&str>, hf_token: Option<&str>, windows: bool) -> (r: Self)
        ensures
            is_default(r, text::text_of(home), usable_token(text::text_of(hf_token)), windows),
    {
        Settings {
            daemon_host: default_daemon_host(),
            daemon_port: default_daemon_port(),
            models_dir: default_models_dir(home, windows),
            gguf_dir: default_gguf_dir(home, windows),
            manifests_dir: default_manifests_dir(home, windows),
            hf_token: normalize_token(hf_token),
            sglang_port_range_start: default_sglang_port_range_start(),
            sglang_port_range_end: default_sglang_port_range_end(),
            max_concurrent_downloads: default_max_concurrent_downloads(),
            download_chunk_size_bytes: default_download_chunk_size_bytes(),
            sglang_startup_timeout_secs: default_sglang_startup_timeout_secs(),
            llama_cpp_dir: None,
            model_ttl_secs: default_model_ttl_secs(),
            preload: Vec::new(),
            llamacpp_parallel_slots: default_llamacpp_parallel_slots(),
            llamacpp_flash_attn: default_true(),
            llamacpp_threads: None,
            llamacpp_mlock: default_true(),
            llamacpp_batch_size: default_llamacpp_batch_size(),
            sglang_chunked_prefill_size: default_sglang_chunked_prefill_size(),
            sglang_torch_compile: false,
            sglang_mem_fraction_bits: default_sglang_mem_fraction_bits(),
        }
    }

    /// Lays a configuration file over the defaults: what the file sets wins. The
    /// access token stands in no file.
    pub fn with_file(self, file: FileSettings) -> (r: Self)
        ensures
            r.daemon_host == overridden(file.daemon_host, self.daemon_host),
            r.daemon_port == overridden(file.daemon_port, self.daemon_port),
            r.models_dir == overridden(file.models_dir, self.models_dir),
            r.gguf_dir == overridden(file.gguf_dir, self.gguf_dir),
            r.manifests_dir == overridden(file.manifests_dir, self.manifests_dir),
            r.sglang_port_range_start == overridden(
                file.sglang_port_range_start,
                self.sglang_port_range_start,
            ),
            r.sglang_port_range_end == overridden(
                file.sglang_port_range_end,
                self.sglang_port_range_end,
            ),
            r.max_concurrent_downloads == overridden(
                file.max_concurrent_downloads,
                self.max_concurrent_downloads,
            ),
            r.download_chunk_size_bytes == overridden(
                file.download_chunk_size_bytes,
                self.download_chunk_size_bytes,
            ),
            r.sglang_startup_timeout_secs == overridden(
                file.sglang_startup_timeout_secs,
                self.sglang_startup_timeout_secs,
            ),
            r.llama_cpp_dir == overridden_option(file.llama_cpp_dir, self.llama_cpp_dir),
            r.model_ttl_secs == overridden(file.model_ttl_secs, self.model_ttl_secs),
            r.preload == overridden(file.preload, self.preload),
            r.llamacpp_parallel_slots == overridden(
                file.llamacpp_parallel_slots,
                self.llamacpp_parallel_slots,
            ),
            r.llamacpp_flash_attn == overridden(file.llamacpp_flash_attn, self.llamacpp_flash_attn),
            r.llamacpp_threads == overridden_option(file.llamacpp_threads, self.llamacpp_threads),
            r.llamacpp_mlock == overridden(file.llamacpp_mlock, self.llamacpp_mlock),
            r.llamacpp_batch_size == overridden(file.llamacpp_batch_size, self.llamacpp_batch_size),
            r.sglang_chunked_prefill_size == overridden(
                file.sglang_chunked_prefill_size,
                self.sglang_chunked_prefill_size,
            ),
            r.sglang_torch_compile == overridden(
                file.sglang_torch_compile,
                self.sglang_torch_compile,
            ),
            r.sglang_mem_fraction_bits == overridden(
                file.sglang_mem_fraction_bits,
                self.sglang_mem_fraction_bits,
            ),
            r.hf_token == self.hf_token,
    {
        Settings {
            hf_token: self.hf_token,
            daemon_host: override_with(file.daemon_host, self.daemon_host),
            daemon_port: override_with(file.daemon_port, self.daemon_port),
            models_dir: override_with(file.models_dir, self.models_dir),
            gguf_dir: override_with(file.gguf_dir, self.gguf_dir),
            manifests_dir: override_with(file.manifests_dir, self.manifests_dir),
            sglang_port_range_start: override_with(
                file.sglang_port_range_start,
                self.sglang_port_range_start,
            ),
            sglang_port_range_end: override_with(
                file.sglang_port_range_end,
                self.sglang_port_range_end,
            ),
            max_concurrent_downloads: override_with(
                file.max_concurrent_downloads,
                self.max_concurrent_downloads,
            ),
            download_chunk_size_bytes: override_with(
                file.download_chunk_size_bytes,
                self.download_chunk_size_bytes,
            ),
            sglang_startup_timeout_secs: override_with(
                file.sglang_startup_timeout_secs,
                self.sglang_startup_timeout_secs,
            ),
            llama_cpp_dir: override_option(file.llama_cpp_dir, self.llama_cpp_dir),
            model_ttl_secs: override_with(file.model_ttl_secs, self.model_ttl_secs),
            preload: override_with(file.preload, self.preload),
            llamacpp_parallel_slots: override_with(
                file.llamacpp_parallel_slots,
                self.llamacpp_parallel_slots,
            ),
            llamacpp_flash_attn: override_with(file.llamacpp_flash_attn, self.llamacpp_flash_attn),
            llamacpp_threads: override_option(file.llamacpp_threads, self.llamacpp_threads),
            llamacpp_mlock: override_with(file.llamacpp_mlock, self.llamacpp_mlock),
            llamacpp_batch_size: override_with(file.llamacpp_batch_size, self.llamacpp_batch_size),
            sglang_chunked_prefill_size: override_with(
                file.sglang_chunked_prefill_size,
                self.sglang_chunked_prefill_size,
            ),
            sglang_torch_compile: override_with(
                file.sglang_torch_compile,
                self.sglang_torch_compile,
            ),
            sglang_mem_fraction_bits: override_with(
                file.sglang_mem_fraction_bits,
                self.sglang_mem_fraction_bits,
            ),
        }
    }

    /// Lays the environment over settings that come from a file or are defaults:
    /// what the environment sets wins, and the access token comes from it alone.
    pub fn with_environment(self, env: Environment) -> (r: Self)
        ensures
            crate::registry::modelfile::text_option(r.hf_token) == usable_token(
                crate::registry::modelfile::text_option(env.hf_token),
            ),
            r.daemon_host == overridden(env.daemon_host, self.daemon_host),
            r.daemon_port == overridden_port(env.daemon_port, self.daemon_port),
            r.models_dir == overridden(env.models_dir, self.models_dir),
            r.gguf_dir == overridden(env.gguf_dir, self.gguf_dir),
            r.manifests_dir == overridden(env.manifests_dir, self.manifests_dir),
            r.llama_cpp_dir == overridden_option(env.llama_cpp_dir, self.llama_cpp_dir),
            r.sglang_port_range_start == self.sglang_port_range_start,
            r.sglang_port_range_end == self.sglang_port_range_end,
            r.max_concurrent_downloads == self.max_concurrent_downloads,
            r.download_chunk_size_bytes == self.download_chunk_size_bytes,
            r.sglang_startup_timeout_secs == self.sglang_startup_timeout_secs,
            r.model_ttl_secs == self.model_ttl_secs,
            r.preload == self.preload,
            r.llamacpp_parallel_slots == self.llamacpp_parallel_slots,
            r.llamacpp_flash_attn == self.llamacpp_flash_attn,
            r.llamacpp_threads == self.llamacpp_threads,
            r.llamacpp_mlock == self.llamacpp_mlock,
            r.llamacpp_batch_size == self.llamacpp_batch_size,
            r.sglang_chunked_prefill_size == self.sglang_chunked_prefill_size,
            r.sglang_torch_compile == self.sglang_torch_compile,
            r.sglang_mem_fraction_bits == self.sglang_mem_fraction_bits,
    {
        let hf_token: Option<String> = match &env.hf_token {
            Some(t) => normalize_token(Some(t.as_str())),
            None => None,
        };
        Settings {
            daemon_host: override_with(env.daemon_host, self.daemon_host),
            daemon_port: override_port(env.daemon_port, self.daemon_port),
            models_dir: override_with(env.models_dir, self.models_dir),
            gguf_dir: override_with(env.gguf_dir, self.gguf_dir),
            manifests_dir: override_with(env.manifests_dir, self.manifests_dir),
            hf_token,
            sglang_port_range_start: self.sglang_port_range_start,
            sglang_port_range_end: self.sglang_port_range_end,
            max_concurrent_downloads: self.max_concurrent_downloads,
            download_chunk_size_bytes: self.download_chunk_size_bytes,
            sglang_startup_timeout_secs: self.sglang_startup_timeout_secs,
            llama_cpp_dir: override_option(env.llama_cpp_dir, self.llama_cpp_dir),
            model_ttl_secs: self.model_ttl_secs,
            preload: self.preload,
            llamacpp_parallel_slots: self.llamacpp_parallel_slots,
            llamacpp_flash_attn: self.llamacpp_flash_attn,
            llamacpp_threads: self.llamacpp_threads,
            llamacpp_mlock: self.llamacpp_mlock,
            llamacpp_batch_size: self.llamacpp_batch_size,
            sglang_chunked_prefill_size: self.sglang_chunked_prefill_size,
            sglang_torch_compile: self.sglang_torch_compile,
            sglang_mem_fraction_bits: self.sglang_mem_fraction_bits,
        }
    }

    /// The daemon's base address.
    pub fn daemon_url(&self) -> (r: String)
        ensures
            r@ == "http://"@ + self.daemon_host@ + ":"@ + number::decimal(self.daemon_port as nat),
    {
        let mut out = String::from_str("http://");
        out.append(self.daemon_host.as_str());
        out.append(":");
        let port = number::to_decimal(self.daemon_port as u64);
        out.append(port.as_str());
        out
    }
}

/// Half the logical cores, at least one; one where their number is not known.
pub fn physical_cores(logical: Option<usize>) -> (r: usize)
    ensures
        r == (match logical {
            Some(n) => if n / 2 >= 1 {
                (n / 2) as int
            } else {
                1
            },
            None => 1,
        }),
        r >= 1,
{
    match logical {
        Some(n) => {
            if n / 2 >= 1 {
                n / 2
            } else {
                1
            }
        },
        None => 1,
    }
}

/// Where a built engine is looked for when none is configured: below the home
/// directory, then in the system's places.
pub open spec fn engine_places(home: Option<Seq<char>>, windows: bool) -> Seq<Seq<char>> {
    let own = match home {
        Some(h) => seq![
            paths::joined(paths::joined(h, ".localllm"@, windows), "llama.cpp"@, windows),
            paths::joined(h, "llama.cpp"@, windows),
            paths::joined(paths::joined(h, "src"@, windows), "llama.cpp"@, windows),
            paths::joined(paths::joined(h, "code"@, windows), "llama.cpp"@, windows),
            paths::joined(paths::joined(h, ".local"@, windows), "llama.cpp"@, windows),
        ],
        None => Seq::empty(),
    };
    own + (if windows {
        seq!["C:/llama.cpp"@, "C:/Program Files/llama.cpp"@]
    } else {
        seq!["/usr/local/llama.cpp"@, "/opt/llama.cpp"@]
    })
}

/// The places to look for a built engine, in order.
pub fn engine_candidates(home: Option<&str>, windows: bool) -> (r: Vec<String>)
    ensures
        text::string_texts(r@) == engine_places(text::text_of(home), windows),
{
    let mut out: Vec<String> = Vec::new();
    if let Some(h) = home {
        let own = paths::join(h, ".localllm", windows);
        let src = paths::join(h, "src", windows);
        let code = paths::join(h, "code", windows);
        let local = paths::join(h, ".local", windows);
        out.push(paths::join(own.as_str(), "llama.cpp", windows));
        out.push(paths::join(h, "llama.cpp", windows));
        out.push(paths::join(src.as_str(), "llama.cpp", windows));
        out.push(paths::join(code.as_str(), "llama.cpp", windows));
        out.push(paths::join(local.as_str(), "llama.cpp", windows));
    }
    if windows {
        out.push(String::from_str("C:/llama.cpp"));
        out.push(String::from_str("C:/Program Files/llama.cpp"));
    } else {
        out.push(String::from_str("/usr/local/llama.cpp"));
        out.push(String::from_str("/opt/llama.cpp"));
    }
    assert(text::string_texts(out@) =~= engine_places(text::text_of(home), windows));
    out
}

/// Which place has a built engine, given which places do: the first of the
/// candidates that does.
pub fn autodetect_llama_cpp_dir(home: Option<&str>, windows: bool, built: &[String]) -> (r: Option<
    String,
>)
    ensures
        crate::registry::modelfile::text_option(r) == crate::platform::first_available(
            engine_places(text::text_of(home), windows),
            text::string_texts(built@),
        ),
{
    let candidates = engine_candidates(home, windows);
    crate::platform::pick_available(candidates.as_slice(), built)
}

/// The environment wins over the file, and the file over the defaults.
pub proof fn law_environment_then_file_then_defaults<T>(
    env: Option<T>,
    file: Option<T>,
    default: T,
)
    ensures
        overridden(env, overridden(file, default)) == (match (env, file) {
            (Some(v), _) => v,
            (None, Some(v)) => v,
            (None, None) => default,
        }),
        overridden_option(env, overridden_option(file, Some(default))) == Some(
            overridden(env, overridden(file, default)),
        ),
{
}

/// A port that the environment sets wins over the file's and the default one; what is
/// no port changes nothing.
pub proof fn law_port_of_the_environment(env: String, file: Option<u16>, default: u16)
    ensures
        overridden_port(Some(env), overridden(file, default)) == (match number::unsigned_of(
            env@,
            u16::MAX as nat,
        ) {
            Some(p) => p as u16,
            None => overridden(file, default),
        }),
        overridden_port(None, overridden(file, default)) == overridden(file, default),
{
}

/// A blank token is no token.
pub proof fn law_blank_token_is_none(t: Seq<char>)
    requires
        text::trimmed(t).len() == 0,
    ensures
        usable_token(Some(t)) is None,
{
}

} // verus!
