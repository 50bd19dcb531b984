//! First-run setup: where a usable engine is, and how one is built.
use crate::cli::style;
use crate::number;
use crate::paths;
use crate::platform;
use crate::registry::modelfile;
use crate::text;
use vstd::prelude::*;
use vstd::string::StringExecFns;

verus! {

broadcast use vstd::string::group_string_axioms;

/// Where the engine's source comes from.
pub const LLAMA_CPP_REPO: &'static str = "https://github.com/ggerganov/llama.cpp";

// -------------------------------------------------------------- what is there

/// The directory that setup builds the engine in.
pub open spec fn managed_path(home: Option<Seq<char>>, windows: bool) -> Seq<char> {
    paths::joined(
        paths::joined(
            match home {
                Some(h) => h,
                None => "."@,
            },
            ".localllm"@,
            windows,
        ),
        "llama.cpp"@,
        windows,
    )
}

/// The directory that setup builds the engine in, below the home directory if there
/// is one.
pub fn managed_llama_dir(home: Option<&str>, windows: bool) -> (r: String)
    ensures
        r@ == managed_path(
            match home {
                Some(h) => Some(h@),
                None => None,
            },
            windows,
        ),
{
    let base: &str = match home {
        Some(h) => h,
        None => ".",
    };
    let own = paths::join(base, ".localllm", windows);
    paths::join(own.as_str(), "llama.cpp", windows)
}

/// A directory holds a built engine: one of the places of its server is there.
pub open spec fn is_built(dir: Seq<char>, windows: bool, existing: Seq<Seq<char>>) -> bool {
    platform::first_available(
        platform::binary_paths(dir, "llama-server"@, windows),
        existing,
    ) is Some
}

/// Whether a directory holds a built engine, given which files exist.
pub fn is_llama_built(dir: &str, windows: bool, existing: &[String]) -> (r: bool)
    ensures
        r == is_built(dir@, windows, text::string_texts(existing@)),
{
    platform::resolve_llama_binary(dir, "llama-server", windows, existing).is_some()
}

/// The engine to use without building one: the configured one where it is built,
/// else the managed one where that is; none where a fresh build is wanted.
pub open spec fn engine_there(
    configured: Option<Seq<char>>,
    managed: Seq<char>,
    windows: bool,
    existing: Seq<Seq<char>>,
    force_rebuild: bool,
) -> Option<Seq<char>> {
    if force_rebuild {
        None
    } else {
        match configured {
            Some(d) => if is_built(d, windows, existing) {
                Some(d)
            } else if is_built(managed, windows, existing) {
                Some(managed)
            } else {
                None
            },
            None => if is_built(managed, windows, existing) {
                Some(managed)
            } else {
                None
            },
        }
    }
}

/// The engine to use without building one.
pub fn find_engine(
    configured: Option<&str>,
    managed: &str,
    windows: bool,
    existing: &[String],
    force_rebuild: bool,
) -> (r: Option<String>)
    ensures
        modelfile::text_option(r) == engine_there(
            match configured {
                Some(d) => Some(d@),
                None => None,
            },
            managed@,
            windows,
            text::string_texts(existing@),
            force_rebuild,
        ),
{
    if force_rebuild {
        return None;
    }
    if let Some(d) = configured {
        if is_llama_built(d, windows, existing) {
            return Some(String::from_str(d));
        }
    }
    if is_llama_built(managed, windows, existing) {
        Some(String::from_str(managed))
    } else {
        None
    }
}

/// The message where a build ended and there is still no engine.
pub fn still_missing_message(managed: &str) -> (r: String)
    ensures
        r@ == "llama.cpp build finished but llama-server is still missing under "@
            + text::path_debug_of(managed@),
{
    let shown = text::path_debug(managed);
    String::from_str(
        "llama.cpp build finished but llama-server is still missing under ",
    ).concat(shown.as_str())
}

/// The lines that announce a build with a backend.
pub fn setup_banner(backend: &str) -> (r: String)
    ensures
        r@ == "\n"@ + style::CYAN@ + style::BOLD@ + "── localllm first-run setup ──"@
            + style::RESET@ + "\n"@ + style::DIM@
            + "Building the inference engine (llama.cpp) with "@ + backend@
            + " acceleration. One time only, ~3-8 min."@ + style::RESET@ + "\n"@,
{
    let mut r = String::from_str("\n");
    r.append(style::CYAN);
    r.append(style::BOLD);
    r.append("── localllm first-run setup ──");
    r.append(style::RESET);
    r.append("\n");
    r.append(style::DIM);
    r.append("Building the inference engine (llama.cpp) with ");
    r.append(backend);
    r.append(" acceleration. One time only, ~3-8 min.");
    r.append(style::RESET);
    r.append("\n");
    r
}

// ----------------------------------------------------------------------- tools

/// The systems that setup gives hints for.
#[derive(Debug, Clone, Copy, PartialEq, Eq, Structural)]
pub enum System {
    Windows,
    MacOs,
    Other,
}

/// How the tools for a build are installed.
pub open spec fn install_hint(system: System) -> Seq<char> {
    match system {
        System::Windows => "Install with: winget install Git.Git Kitware.CMake  (and a C++ compiler, e.g. Visual Studio Build Tools)"@,
        System::MacOs => "Install with: brew install git cmake"@,
        System::Other => "Install with: sudo apt-get install -y git cmake build-essential"@,
    }
}

/// The tools for a build that are missing, in words.
pub open spec fn missing_tools(git: bool, cmake: bool) -> Seq<char> {
    if !git && !cmake {
        "git and cmake"@
    } else if !git {
        "git"@
    } else {
        "cmake"@
    }
}

/// Refuses a build without its tools.
pub fn preflight_tools(git: bool, cmake: bool, system: System) -> (r: Result<(), String>)
    ensures
        match r {
            Ok(_) => git && cmake,
            Err(e) => !(git && cmake) && e@ == "Automatic llama.cpp setup needs "@ + missing_tools(
                git,
                cmake,
            ) + " but they're not on PATH.\n"@ + install_hint(system),
        },
{
    if git && cmake {
        return Ok(());
    }
    let missing: &str = if !git && !cmake {
        "git and cmake"
    } else if !git {
        "git"
    } else {
        "cmake"
    };
    let hint: &str = match system {
        System::Windows => "Install with: winget install Git.Git Kitware.CMake  (and a C++ compiler, e.g. Visual Studio Build Tools)",
        System::MacOs => "Install with: brew install git cmake",
        System::Other => "Install with: sudo apt-get install -y git cmake build-essential",
    };
    let mut message = String::from_str("Automatic llama.cpp setup needs ").concat(missing);
    message.append(" but they're not on PATH.\n");
    message.append(hint);
    Err(message)
}

/// What an engine can be built for.
#[derive(Debug, Clone, Copy, PartialEq, Eq, Structural)]
pub enum Backend {
    Cuda,
    Vulkan,
    Cpu,
}

/// The best backend whose build tools are there: CUDA, else Vulkan, else the CPU.
pub fn gpu_backend(nvcc: bool, glslc: bool) -> (r: Backend)
    ensures
        r == if nvcc {
            Backend::Cuda
        } else if glslc {
            Backend::Vulkan
        } else {
            Backend::Cpu
        },
{
    if nvcc {
        Backend::Cuda
    } else if glslc {
        Backend::Vulkan
    } else {
        Backend::Cpu
    }
}

/// The flags that select a backend.
pub open spec fn backend_flags(b: Backend) -> Seq<Seq<char>> {
    match b {
        Backend::Cuda => seq!["-DGGML_CUDA=ON"@],
        Backend::Vulkan => seq!["-DGGML_VULKAN=ON"@],
        Backend::Cpu => Seq::empty(),
    }
}

/// The name of a backend.
pub open spec fn backend_name(b: Backend) -> Seq<char> {
    match b {
        Backend::Cuda => "CUDA"@,
        Backend::Vulkan => "Vulkan"@,
        Backend::Cpu => "CPU"@,
    }
}

impl Backend {
    /// The name of the backend.
    pub fn name(&self) -> (r: &'static str)
        ensures
            r@ == backend_name(*self),
    {
        match self {
            Backend::Cuda => "CUDA",
            Backend::Vulkan => "Vulkan",
            Backend::Cpu => "CPU",
        }
    }

    /// The flags that select the backend.
    pub fn gpu_cmake_flags(&self) -> (r: Vec<String>)
        ensures
            text::string_texts(r@) == backend_flags(*self),
    {
        let mut out: Vec<String> = Vec::new();
        match self {
            Backend::Cuda => {
                out.push(String::from_str("-DGGML_CUDA=ON"));
            },
            Backend::Vulkan => {
                out.push(String::from_str("-DGGML_VULKAN=ON"));
            },
            Backend::Cpu => {},
        }
        assert(text::string_texts(out@) =~= backend_flags(*self));
        out
    }
}

// ----------------------------------------------------------------------- build

/// Where a build stands.
#[derive(Debug, Clone, Copy, PartialEq, Eq, Structural)]
pub enum BuildStage {
    /// It is tried with this backend.
    Try(Backend),
    /// It is done.
    Done,
    /// It failed.
    Failed,
}

/// A build after a try: one for a GPU that failed is tried again for the CPU.
pub open spec fn after_try(stage: BuildStage, succeeded: bool) -> BuildStage {
    match stage {
        BuildStage::Try(b) => if succeeded {
            BuildStage::Done
        } else if b == Backend::Cpu {
            BuildStage::Failed
        } else {
            BuildStage::Try(Backend::Cpu)
        },
        _ => stage,
    }
}

/// A build after a try.
pub fn next_stage(stage: BuildStage, succeeded: bool) -> (r: BuildStage)
    ensures
        r == after_try(stage, succeeded),
{
    match stage {
        BuildStage::Try(b) => {
            if succeeded {
                BuildStage::Done
            } else {
                match b {
                    Backend::Cpu => BuildStage::Failed,
                    _ => BuildStage::Try(Backend::Cpu),
                }
            }
        },
        _ => stage,
    }
}

/// The arguments of `git` that fetch the engine's source.
pub fn clone_args(dir: &str) -> (r: Vec<String>)
    ensures
        text::string_texts(r@) == seq!["clone"@, "--depth"@, "1"@, LLAMA_CPP_REPO@, dir@],
{
    let mut out: Vec<String> = Vec::new();
    out.push(String::from_str("clone"));
    out.push(String::from_str("--depth"));
    out.push(String::from_str("1"));
    out.push(String::from_str(LLAMA_CPP_REPO));
    out.push(String::from_str(dir));
    assert(text::string_texts(out@) =~= seq![
        "clone"@,
        "--depth"@,
        "1"@,
        LLAMA_CPP_REPO@,
        dir@,
    ]);
    out
}

/// The arguments of `cmake` that configure a build for a backend.
pub open spec fn configure_arguments(dir: Seq<char>, b: Backend, windows: bool) -> Seq<Seq<char>> {
    seq![
        "-B"@,
        paths::joined(dir, "build"@, windows),
        "-S"@,
        dir,
        "-DCMAKE_BUILD_TYPE=Release"@,
        "-DLLAMA_CURL=OFF"@,
    ] + backend_flags(b)
}

/// The arguments of `cmake` that configure a build for a backend.
pub fn configure_args(dir: &str, b: Backend, windows: bool) -> (r: Vec<String>)
    ensures
        text::string_texts(r@) == configure_arguments(dir@, b, windows),
{
    let mut out: Vec<String> = Vec::new();
    out.push(String::from_str("-B"));
    out.push(paths::join(dir, "build", windows));
    out.push(String::from_str("-S"));
    out.push(String::from_str(dir));
    out.push(String::from_str("-DCMAKE_BUILD_TYPE=Release"));
    out.push(String::from_str("-DLLAMA_CURL=OFF"));
    let mut flags = b.gpu_cmake_flags();
    let ghost fixed = out@;
    let ghost chosen = flags@;
    out.append(&mut flags);
    assert(text::string_texts(out@) =~= text::string_texts(fixed) + text::string_texts(chosen));
    assert(text::string_texts(out@) =~= configure_arguments(dir@, b, windows));
    out
}

/// The arguments of `cmake` that build the server and the quantizer on so many
/// cores.
pub fn build_args(dir: &str, jobs: u64, windows: bool) -> (r: Vec<String>)
    ensures
        text::string_texts(r@) == seq![
            "--build"@,
            paths::joined(dir@, "build"@, windows),
            "--config"@,
            "Release"@,
            "-j"@,
            number::decimal(jobs as nat),
            "--target"@,
            "llama-server"@,
            "--target"@,
            "llama-quantize"@,
        ],
{
    let mut out: Vec<String> = Vec::new();
    out.push(String::from_str("--build"));
    out.push(paths::join(dir, "build", windows));
    out.push(String::from_str("--config"));
    out.push(String::from_str("Release"));
    out.push(String::from_str("-j"));
    out.push(number::to_decimal(jobs));
    out.push(String::from_str("--target"));
    out.push(String::from_str("llama-server"));
    out.push(String::from_str("--target"));
    out.push(String::from_str("llama-quantize"));
    assert(text::string_texts(out@) =~= seq![
        "--build"@,
        paths::joined(dir@, "build"@, windows),
        "--config"@,
        "Release"@,
        "-j"@,
        number::decimal(jobs as nat),
        "--target"@,
        "llama-server"@,
        "--target"@,
        "llama-quantize"@,
    ]);
    out
}

/// How many cores a build uses: all, or four where their number is not known.
pub fn build_jobs(cores: Option<u64>) -> (r: u64)
    ensures
        r == match cores {
            Some(n) => n,
            None => 4,
        },
{
    match cores {
        Some(n) => n,
        None => 4,
    }
}

/// The message for a step that could not be started.
pub fn not_started_message(step: &str, reason: &str) -> (r: String)
    ensures
        r@ == "failed to start "@ + step@ + " ("@ + reason@ + "). Is it installed?"@,
{
    let mut r = String::from_str("failed to start ").concat(step);
    r.append(" (");
    r.append(reason);
    r.append("). Is it installed?");
    r
}

/// The message for a step that ended badly.
pub fn step_failed_message(step: &str, code: Option<i32>) -> (r: String)
    ensures
        r@ == step@ + " failed (exit "@ + number::exit_code_text(code)
            + "). See the daemon log for details."@,
{
    let shown = number::show_exit_code(code);
    let mut r = String::from_str(step).concat(" failed (exit ");
    r.append(shown.as_str());
    r.append("). See the daemon log for details.");
    r
}

// ------------------------------------------------------------------------ laws

/// Setup has nothing to do where the configured engine is built, or the managed one
/// is.
pub proof fn law_setup_is_idempotent(
    configured: Option<Seq<char>>,
    managed: Seq<char>,
    windows: bool,
    existing: Seq<Seq<char>>,
)
    requires
        is_built(managed, windows, existing),
    ensures
        engine_there(configured, managed, windows, existing, false) is Some,
        engine_there(configured, managed, windows, existing, true) is None,
{
}

/// An engine that is used is built.
pub proof fn law_used_engine_is_built(
    configured: Option<Seq<char>>,
    managed: Seq<char>,
    windows: bool,
    existing: Seq<Seq<char>>,
    dir: Seq<char>,
)
    requires
        engine_there(configured, managed, windows, existing, false) == Some(dir),
    ensures
        is_built(dir, windows, existing),
{
}

/// A broken GPU toolchain never stops setup: a build fails only after one for the
/// CPU has failed, and it ends after at most two tries.
pub proof fn law_gpu_build_falls_back(b: Backend, first: bool, second: bool)
    ensures
        ({
            let once = after_try(BuildStage::Try(b), first);
            let twice = after_try(once, second);
            &&& b != Backend::Cpu ==> once != BuildStage::Failed
            &&& b != Backend::Cpu && second ==> twice == BuildStage::Done
            &&& twice == BuildStage::Done || twice == BuildStage::Failed
        }),
{
}

} // verus!
