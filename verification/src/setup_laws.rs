//! Laws of where things are and how the engine is set up: directories, programs,
//! settings, builds, conversions and checksums.
use crate::compression::quantize;
use crate::compression::quantize::ConversionError;
use crate::config::settings;
use crate::daemon::server;
use crate::downloader::digest;
use crate::number;
use crate::paths;
use crate::platform;
use crate::registry::manifest;
use crate::registry::manifest::QuantizationLevel;
use crate::setup;
use crate::setup::{Backend, System};
use crate::text;
use crate::text_laws;
use vstd::prelude::*;

verus! {

// --------------------------------------------------------------------------- paths

/// A directory that ends in no separator.
pub open spec fn is_directory(dir: Seq<char>, windows: bool) -> bool {
    dir.len() > 2 && dir.last() != '/' && (windows ==> dir.last() != '\\')
}

/// A name of one component.
pub open spec fn is_plain_name(name: Seq<char>) -> bool {
    name.len() > 2 && name[0] != '/' && name[0] != '\\' && name[1] != ':' && name.last() != '/'
        && name.last() != '\\'
}

/// What stands between a directory and a name in it.
pub open spec fn slash(windows: bool) -> Seq<char> {
    if windows {
        seq!['\\']
    } else {
        seq!['/']
    }
}

/// A name joined to a directory stands behind it and a separator, and is a directory
/// again.
pub proof fn law_name_stands_behind_its_directory(dir: Seq<char>, name: Seq<char>, windows: bool)
    requires
        is_directory(dir, windows),
        is_plain_name(name),
    ensures
        paths::joined(dir, name, windows) == dir + slash(windows) + name,
        is_directory(paths::joined(dir, name, windows), windows),
{
    let s = dir + slash(windows) + name;
    assert(paths::joined(dir, name, windows) =~= s);
    assert(s.last() == name.last());
}

proof fn lemma_names_are_plain()
    ensures
        is_plain_name(".localllm"@),
        is_plain_name("llama.cpp"@),
        is_plain_name("models"@),
        is_plain_name("gguf"@),
        is_plain_name("manifests"@),
        is_plain_name("daemon.pid"@),
        is_plain_name("build"@),
        is_plain_name("bin"@),
        is_plain_name("src"@),
        is_plain_name("code"@),
        is_plain_name(".local"@),
        is_plain_name("llama-server"@),
        is_plain_name("llama-server"@ + ".exe"@),
        is_plain_name("convert_hf_to_gguf.py"@),
{
    reveal_strlit(".localllm");
    reveal_strlit("llama.cpp");
    reveal_strlit("models");
    reveal_strlit("gguf");
    reveal_strlit("manifests");
    reveal_strlit("daemon.pid");
    reveal_strlit("build");
    reveal_strlit("bin");
    reveal_strlit("src");
    reveal_strlit("code");
    reveal_strlit(".local");
    reveal_strlit("llama-server");
    reveal_strlit(".exe");
    reveal_strlit("convert_hf_to_gguf.py");
    let s = "llama-server"@ + ".exe"@;
    assert(s.last() == 'e');
}

/// What the application keeps is in a hidden directory below the home directory, each
/// kind in a directory of its own; the lock file stands beside the manifests.
pub proof fn law_application_keeps_to_its_directory(home: Seq<char>, windows: bool)
    requires
        is_directory(home, windows),
    ensures
        ({
            let own = home + slash(windows) + ".localllm"@;
            &&& settings::home_subdir(Some(home), "models"@, windows) == own + slash(windows)
                + "models"@
            &&& settings::home_subdir(Some(home), "gguf"@, windows) == own + slash(windows)
                + "gguf"@
            &&& settings::home_subdir(Some(home), "manifests"@, windows) == own + slash(windows)
                + "manifests"@
            &&& setup::managed_path(Some(home), windows) == own + slash(windows) + "llama.cpp"@
            &&& server::lock_path(Some(own), windows) == own + slash(windows) + "daemon.pid"@
        }),
{
    lemma_names_are_plain();
    let own = home + slash(windows) + ".localllm"@;
    law_name_stands_behind_its_directory(home, ".localllm"@, windows);
    law_name_stands_behind_its_directory(own, "models"@, windows);
    law_name_stands_behind_its_directory(own, "gguf"@, windows);
    law_name_stands_behind_its_directory(own, "manifests"@, windows);
    law_name_stands_behind_its_directory(own, "llama.cpp"@, windows);
    law_name_stands_behind_its_directory(own, "daemon.pid"@, windows);
}

/// An engine is looked for first where setup builds it, and then in the usual places
/// below the home directory, before those of the system.
pub proof fn law_engine_is_looked_for_at_home_first(home: Seq<char>, windows: bool)
    requires
        is_directory(home, windows),
    ensures
        ({
            let places = settings::engine_places(Some(home), windows);
            let engine = slash(windows) + "llama.cpp"@;
            &&& places.len() == 7
            &&& places[0] == setup::managed_path(Some(home), windows)
            &&& places[1] == home + engine
            &&& places[2] == home + slash(windows) + "src"@ + engine
            &&& places[3] == home + slash(windows) + "code"@ + engine
            &&& places[4] == home + slash(windows) + ".local"@ + engine
            &&& places.skip(5) == settings::engine_places(None, windows)
        }),
        settings::engine_places(None, false) == seq!["/usr/local/llama.cpp"@, "/opt/llama.cpp"@],
        settings::engine_places(None, true) == seq![
            "C:/llama.cpp"@,
            "C:/Program Files/llama.cpp"@,
        ],
{
    lemma_names_are_plain();
    let places = settings::engine_places(Some(home), windows);
    let engine = slash(windows) + "llama.cpp"@;
    law_name_stands_behind_its_directory(home, ".localllm"@, windows);
    law_name_stands_behind_its_directory(home, "llama.cpp"@, windows);
    law_name_stands_behind_its_directory(home, "src"@, windows);
    law_name_stands_behind_its_directory(home, "code"@, windows);
    law_name_stands_behind_its_directory(home, ".local"@, windows);
    law_name_stands_behind_its_directory(home + slash(windows) + "src"@, "llama.cpp"@, windows);
    law_name_stands_behind_its_directory(home + slash(windows) + "code"@, "llama.cpp"@, windows);
    law_name_stands_behind_its_directory(home + slash(windows) + ".local"@, "llama.cpp"@, windows);
    assert(home + slash(windows) + "llama.cpp"@ =~= home + engine);
    assert(places[2] =~= home + slash(windows) + "src"@ + engine);
    assert(places[3] =~= home + slash(windows) + "code"@ + engine);
    assert(places[4] =~= home + slash(windows) + ".local"@ + engine);
    assert(places.skip(5) =~= settings::engine_places(None, windows));
    assert(settings::engine_places(None, false) =~= seq![
        "/usr/local/llama.cpp"@,
        "/opt/llama.cpp"@,
    ]);
    assert(settings::engine_places(None, true) =~= seq![
        "C:/llama.cpp"@,
        "C:/Program Files/llama.cpp"@,
    ]);
}

// ------------------------------------------------------------------------ programs

/// An engine is built where its server's program is there, with the ending that
/// programs have on Windows or, there too, without.
pub proof fn law_engine_is_built_where_its_server_is(
    dir: Seq<char>,
    windows: bool,
    existing: Seq<Seq<char>>,
)
    requires
        is_directory(dir, windows),
    ensures
        ({
            let bin = dir + slash(windows) + "build"@ + slash(windows) + "bin"@ + slash(windows);
            setup::is_built(dir, windows, existing) <==> (existing.contains(
                bin + "llama-server"@,
            ) || (windows && existing.contains(bin + ("llama-server"@ + ".exe"@))))
        }),
{
    lemma_names_are_plain();
    let build = dir + slash(windows) + "build"@;
    let bin = build + slash(windows) + "bin"@;
    law_name_stands_behind_its_directory(dir, "build"@, windows);
    law_name_stands_behind_its_directory(build, "bin"@, windows);
    law_name_stands_behind_its_directory(bin, "llama-server"@, windows);
    law_name_stands_behind_its_directory(bin, "llama-server"@ + ".exe"@, windows);
    let p = platform::binary_paths(dir, "llama-server"@, windows);
    platform::law_pick_is_available(p, existing);
    assert(p.len() == 2);
    if windows {
        assert(p[0] == bin + slash(windows) + ("llama-server"@ + ".exe"@));
    } else {
        assert(p[0] == bin + slash(windows) + "llama-server"@);
    }
    assert(p[1] == bin + slash(windows) + "llama-server"@);
}

/// A program has an ending on Windows and none elsewhere.
pub proof fn law_programs_end_in_exe_on_windows(stem: Seq<char>)
    ensures
        platform::exe_name_on(stem, true) == stem + ".exe"@,
        platform::exe_name_on(stem, false) == stem,
{
}

/// The Python command that is run is the best that answered; where none did, the usual
/// one of the system.
pub proof fn law_best_python_is_run(answering: Seq<Seq<char>>)
    ensures
        answering.contains("python3"@) ==> platform::chosen_python(false, answering)
            == "python3"@,
        !answering.contains("python3"@) && answering.contains("python"@)
            ==> platform::chosen_python(false, answering) == "python"@,
        !answering.contains("python3"@) && !answering.contains("python"@)
            ==> platform::chosen_python(false, answering) == "python3"@,
        answering.contains("python"@) ==> platform::chosen_python(true, answering) == "python"@,
        !answering.contains("python"@) && answering.contains("py"@) ==> platform::chosen_python(
            true,
            answering,
        ) == "py"@,
        !answering.contains("python"@) && !answering.contains("py"@) && answering.contains(
            "python3"@,
        ) ==> platform::chosen_python(true, answering) == "python3"@,
        !answering.contains("python"@) && !answering.contains("py"@) && !answering.contains(
            "python3"@,
        ) ==> platform::chosen_python(true, answering) == "python"@,
{
    let u = platform::python_names(false);
    let w = platform::python_names(true);
    assert(u.skip(1)[0] == u[1] && w.skip(1)[0] == w[1] && w.skip(1).skip(1)[0] == w[2]);
    reveal_with_fuel(platform::first_available, 5);
}

// ------------------------------------------------------------------------- settings

/// An access token is used without the space around it; a blank one is none.
pub proof fn law_token_is_used_without_space(
    before: Seq<char>,
    token: Seq<char>,
    after: Seq<char>,
)
    requires
        text_laws::all_space(before),
        text_laws::all_space(after),
        text_laws::is_tight(token),
    ensures
        token.len() > 0 ==> settings::usable_token(Some(before + token + after)) == Some(token),
        settings::usable_token(Some(before)) is None,
        settings::usable_token(None) is None,
{
    text_laws::law_blank_text_is_trimmed_away(before);
    if token.len() > 0 {
        text_laws::law_trimming_gives_the_core(before, token, after);
    }
}

/// A port of the environment is taken where it is one; anything else changes nothing.
pub proof fn law_port_is_taken_where_it_is_one(env: String, given: u16, port: u16)
    ensures
        env@ == number::decimal(given as nat) ==> settings::overridden_port(Some(env), port)
            == given,
        env@.len() == 0 ==> settings::overridden_port(Some(env), port) == port,
        settings::overridden_port(None, port) == port,
{
    number::law_decimal_round_trips(given as nat, u16::MAX as nat);
}

// ---------------------------------------------------------------------------- setup

/// The configured engine is used wherever it is built, before the one that setup built;
/// a fresh build uses neither.
pub proof fn law_configured_engine_comes_first(
    configured: Seq<char>,
    managed: Seq<char>,
    windows: bool,
    existing: Seq<Seq<char>>,
)
    ensures
        setup::is_built(configured, windows, existing) ==> setup::engine_there(
            Some(configured),
            managed,
            windows,
            existing,
            false,
        ) == Some(configured),
        !setup::is_built(configured, windows, existing) ==> setup::engine_there(
            Some(configured),
            managed,
            windows,
            existing,
            false,
        ) == setup::engine_there(None, managed, windows, existing, false),
        setup::engine_there(None, managed, windows, existing, false) == (if setup::is_built(
            managed,
            windows,
            existing,
        ) {
            Some(managed)
        } else {
            None
        }),
        setup::engine_there(Some(configured), managed, windows, existing, true) is None,
{
}

/// A build is configured for its backend, from the engine's source into a directory in
/// it, as a release.
pub proof fn law_build_is_configured_for_its_backend(dir: Seq<char>, b: Backend, windows: bool)
    requires
        is_directory(dir, windows),
    ensures
        ({
            let a = setup::configure_arguments(dir, b, windows);
            &&& a[0] == "-B"@ && a[1] == dir + slash(windows) + "build"@
            &&& a[2] == "-S"@ && a[3] == dir
            &&& a.contains("-DCMAKE_BUILD_TYPE=Release"@)
            &&& a.contains("-DLLAMA_CURL=OFF"@)
            &&& b == Backend::Cuda ==> a.last() == "-DGGML_CUDA=ON"@
            &&& b == Backend::Vulkan ==> a.last() == "-DGGML_VULKAN=ON"@
            &&& a.len() == if b == Backend::Cpu {
                6nat
            } else {
                7
            }
        }),
        setup::backend_name(Backend::Cuda) == "CUDA"@,
        setup::backend_name(Backend::Vulkan) == "Vulkan"@,
        setup::backend_name(Backend::Cpu) == "CPU"@,
{
    lemma_names_are_plain();
    law_name_stands_behind_its_directory(dir, "build"@, windows);
    let a = setup::configure_arguments(dir, b, windows);
    assert(a[4] == "-DCMAKE_BUILD_TYPE=Release"@ && a[5] == "-DLLAMA_CURL=OFF"@);
}

/// What a build lacks is named, and nothing else.
pub proof fn law_missing_tools_are_named()
    ensures
        setup::missing_tools(false, true) == "git"@,
        setup::missing_tools(true, false) == "cmake"@,
        setup::missing_tools(false, false) == setup::missing_tools(false, true) + " and "@
            + setup::missing_tools(true, false),
{
    reveal_strlit("git");
    reveal_strlit("cmake");
    reveal_strlit(" and ");
    reveal_strlit("git and cmake");
    assert("git"@ + " and "@ + "cmake"@ =~= "git and cmake"@);
}

/// How the tools are installed is told in the system's own way.
pub proof fn law_hint_is_the_systems_own()
    ensures
        "Install with: winget install "@.is_prefix_of(setup::install_hint(System::Windows)),
        "Install with: brew install "@.is_prefix_of(setup::install_hint(System::MacOs)),
        "Install with: sudo apt-get install "@.is_prefix_of(setup::install_hint(System::Other)),
{
    reveal_strlit("Install with: winget install ");
    reveal_strlit("Install with: brew install ");
    reveal_strlit("Install with: sudo apt-get install ");
    reveal_strlit(
        "Install with: winget install Git.Git Kitware.CMake  (and a C++ compiler, e.g. Visual Studio Build Tools)",
    );
    reveal_strlit("Install with: brew install git cmake");
    reveal_strlit("Install with: sudo apt-get install -y git cmake build-essential");
    assert(setup::install_hint(System::Windows).take(29) =~= "Install with: winget install "@);
    assert(setup::install_hint(System::MacOs).take(27) =~= "Install with: brew install "@);
    assert(setup::install_hint(System::Other).take(35) =~= "Install with: sudo apt-get install "@);
}

// ----------------------------------------------------------------------- conversion

/// The script of a conversion is the engine's; what it leaves is named after the model
/// and its level, in the directory for such files.
pub proof fn law_converted_file_is_named_after_model_and_level(
    engine: Seq<char>,
    dir: Seq<char>,
    alias: Seq<char>,
    level: QuantizationLevel,
    windows: bool,
)
    requires
        is_directory(engine, windows),
        is_directory(dir, windows),
        alias.len() > 1,
        alias[0] != '/' && alias[0] != '\\' && alias[1] != ':',
    ensures
        quantize::script_path(engine, windows) == engine + slash(windows)
            + "convert_hf_to_gguf.py"@,
        quantize::half_path(dir, alias, windows) == dir + slash(windows) + (alias + "-F16.gguf"@),
        quantize::level_path(dir, alias, level, windows) == dir + slash(windows) + (alias + "-"@
            + manifest::llama_name(level) + ".gguf"@),
{
    lemma_names_are_plain();
    reveal_strlit("-F16.gguf");
    reveal_strlit("-");
    reveal_strlit(".gguf");
    law_name_stands_behind_its_directory(engine, "convert_hf_to_gguf.py"@, windows);
    let half = alias + "-F16.gguf"@;
    let full = alias + "-"@ + manifest::llama_name(level) + ".gguf"@;
    assert(half[0] == alias[0] && half[1] == alias[1] && half.last() == 'f');
    assert(full[0] == alias[0] && full[1] == alias[1] && full.last() == 'f');
    law_name_stands_behind_its_directory(dir, half, windows);
    law_name_stands_behind_its_directory(dir, full, windows);
}

/// Lines are put together in order, with a line end between them and none at the end.
pub proof fn law_lines_are_joined_in_order(front: Seq<Seq<char>>, line: Seq<char>)
    ensures
        front.len() > 0 ==> quantize::joined_lines(front.push(line)) == quantize::joined_lines(
            front,
        ) + "\n"@ + line,
        quantize::joined_lines(seq![line]) == line,
        quantize::joined_lines(Seq::empty()) == Seq::<char>::empty(),
{
    assert(front.push(line).drop_last() =~= front);
    assert(seq![line][0] == line);
}

/// A conversion that does not come about is told with the model and the reason.
pub proof fn law_failed_conversion_is_told(subject: String, reason: String)
    ensures
        quantize::conversion_error_text(ConversionError::Convert(subject, reason))
            == "convert_hf_to_gguf.py failed for "@ + subject@ + ": "@ + reason@,
        quantize::conversion_error_text(ConversionError::Quantize(subject, reason))
            == "llama-quantize failed for "@ + subject@ + ": "@ + reason@,
{
}

// -------------------------------------------------------------------------- checksum

/// What a hexadecimal digit counts.
pub open spec fn hex_value(c: char) -> int {
    if c <= '9' {
        c as int - '0' as int
    } else {
        c as int - 'a' as int + 10
    }
}

/// A lower case hexadecimal digit.
pub open spec fn is_lower_hex(c: char) -> bool {
    ('0' <= c && c <= '9') || ('a' <= c && c <= 'f')
}

proof fn lemma_hex_digit(n: int)
    requires
        0 <= n < 16,
    ensures
        is_lower_hex(digest::hex_digit(n)),
        hex_value(digest::hex_digit(n)) == n,
{
    reveal_strlit("0123456789abcdef");
}

/// A checksum is written with two digits for each byte, which give the byte back.
pub proof fn law_every_byte_is_written(data: Seq<u8>, i: int)
    requires
        0 <= i < data.len(),
    ensures
        ({
            let s = digest::hex_text(data);
            &&& s.len() == 2 * data.len()
            &&& is_lower_hex(s[2 * i]) && is_lower_hex(s[2 * i + 1])
            &&& hex_value(s[2 * i]) * 16 + hex_value(s[2 * i + 1]) == data[i]
        }),
    decreases data.len(),
{
    lemma_hex_len(data.drop_last());
    let last = data.last() as int;
    lemma_hex_digit(last / 16);
    lemma_hex_digit(last % 16);
    if i < data.len() - 1 {
        law_every_byte_is_written(data.drop_last(), i);
        assert(digest::hex_text(data)[2 * i] == digest::hex_text(data.drop_last())[2 * i]);
        assert(digest::hex_text(data)[2 * i + 1] == digest::hex_text(data.drop_last())[2 * i + 1]);
    }
}

proof fn lemma_hex_len(data: Seq<u8>)
    ensures
        digest::hex_text(data).len() == 2 * data.len(),
    decreases data.len(),
{
    if data.len() > 0 {
        lemma_hex_len(data.drop_last());
    }
}

/// Bytes with other content have another checksum text, for as many bytes.
pub proof fn law_checksum_texts_tell_bytes_apart(a: Seq<u8>, b: Seq<u8>)
    requires
        digest::hex_text(a) == digest::hex_text(b),
    ensures
        a == b,
{
    lemma_hex_len(a);
    lemma_hex_len(b);
    assert forall|i: int| 0 <= i < a.len() implies a[i] == b[i] by {
        law_every_byte_is_written(a, i);
        law_every_byte_is_written(b, i);
    }
    assert(a =~= b);
}

/// A download with another checksum is told with the one it should have had.
pub proof fn law_mismatch_tells_both(url: Seq<char>, expected: Seq<char>, got: Seq<char>)
    ensures
        text::is_part(url, digest::mismatch(url, expected, got)),
        crate::cli::screen_laws::ends_with(
            digest::mismatch(url, expected, got),
            ": expected "@ + expected + ", got "@ + got,
        ),
{
    let a = "SHA256 mismatch for "@;
    let t = ": expected "@ + expected + ", got "@ + got;
    let s = digest::mismatch(url, expected, got);
    let n = a.len() as int;
    assert(s =~= a + url + t);
    assert(s.subrange(n, n + url.len()) =~= url);
    text::lemma_subrange_is_part(s, n, n + url.len());
}

// ------------------------------------------------------------------------- defaults

/// What holds where nothing is configured: the daemon on the loopback address, its
/// directories below the home directory, the ports for servers, and the limits.
pub proof fn law_usual_settings(
    s: settings::Settings,
    home: Seq<char>,
    token: Option<Seq<char>>,
    windows: bool,
)
    requires
        is_directory(home, windows),
        settings::is_default(s, Some(home), token, windows),
    ensures
        s.daemon_host@ == "127.0.0.1"@ && s.daemon_port == 11435,
        ({
            let own = home + slash(windows) + ".localllm"@ + slash(windows);
            s.models_dir@ == own + "models"@ && s.gguf_dir@ == own + "gguf"@ && s.manifests_dir@
                == own + "manifests"@
        }),
        token matches Some(t) ==> (s.hf_token matches Some(u) && u@ == t),
        token is None ==> s.hf_token is None,
        s.sglang_port_range_start == 30000 && s.sglang_port_range_end == 31000,
        s.max_concurrent_downloads == 4,
        s.download_chunk_size_bytes == 64 * 1024 * 1024,
        s.sglang_startup_timeout_secs == 120 && s.model_ttl_secs == 300,
        s.llama_cpp_dir is None && s.llamacpp_threads is None && s.preload@.len() == 0,
        s.llamacpp_parallel_slots == 2 && s.llamacpp_batch_size == 512,
        s.llamacpp_flash_attn && s.llamacpp_mlock && !s.sglang_torch_compile,
        s.sglang_chunked_prefill_size == 8192,
        s.sglang_mem_fraction_bits == 0x3f59_999a,
{
    law_application_keeps_to_its_directory(home, windows);
}

/// Where there is no home directory, the current one takes its place.
pub proof fn law_current_directory_stands_in(name: Seq<char>, windows: bool)
    ensures
        settings::home_subdir(None, name, windows) == settings::home_subdir(
            Some("."@),
            name,
            windows,
        ),
        setup::managed_path(None, windows) == setup::managed_path(Some("."@), windows),
        server::lock_path(None, windows) == server::lock_path(Some("."@), windows),
{
}

/// A build that succeeds is done; one that fails is tried again for the CPU, and one for
/// the CPU that fails has failed.
pub proof fn law_failed_build_is_tried_for_the_cpu(b: Backend)
    ensures
        setup::after_try(setup::BuildStage::Try(b), true) == setup::BuildStage::Done,
        b != Backend::Cpu ==> setup::after_try(setup::BuildStage::Try(b), false)
            == setup::BuildStage::Try(Backend::Cpu),
        setup::after_try(setup::BuildStage::Try(Backend::Cpu), false)
            == setup::BuildStage::Failed,
{
}

/// What a conversion lacks is named with the place where it was looked for.
pub proof fn law_missing_parts_of_a_conversion_are_named(place: String, reason: String)
    ensures
        quantize::conversion_error_text(ConversionError::NoScript(place))
            == "convert_hf_to_gguf.py not found at "@ + text::path_debug_of(place@),
        quantize::conversion_error_text(ConversionError::NoQuantizer(place))
            == "llama-quantize not found under "@ + text::path_debug_of(place@) + "/build/bin/"@,
        quantize::conversion_error_text(ConversionError::CleanUp(place, reason))
            == "Failed to remove intermediate F16 "@ + text::path_debug_of(place@) + ": "@
            + reason@,
{
}

} // verus!
