//! What holds of the choice of a backend and of the command lines that start it.
use crate::api::json;
use crate::api::request_laws;
use crate::api::service_laws;
use crate::config::settings::Settings;
use crate::gpu::vram;
use crate::gpu::vram::GpuView;
use crate::inference::launch;
use crate::inference::launch::{PollStep, Route, StartupPoll};
use crate::number;
use vstd::prelude::*;

verus! {

/// The cards decide first: a model goes to sglang exactly where there is a card and
/// the free memory of all cards covers its weights, a sixteenth of its context length
/// in MiB, and 15% more. Any other model goes to llama.cpp exactly where it has a GGUF
/// file, however many cards there are, and else nowhere.
pub proof fn law_cards_and_memory_decide(
    weight_mb: u64,
    context_length: u32,
    gpus: Seq<GpuView>,
    has_gguf: bool,
)
    ensures
        ({
            let room = (vram::total_free(gpus) + 1) * 100 > (weight_mb + context_length as int / 16)
                * 115;
            let route = launch::routed(
                gpus.len() as int,
                vram::fits(weight_mb, context_length, gpus),
                has_gguf,
            );
            &&& route == Route::Sglang <==> gpus.len() > 0 && room
            &&& route == Route::LlamaCpp <==> !(gpus.len() > 0 && room) && has_gguf
            &&& route == Route::NoBackend <==> !(gpus.len() > 0 && room) && !has_gguf
        }),
{
    vram::law_fit_is_room_and_headroom(weight_mb, context_length, gpus);
}

/// A model that does not fit is served from its GGUF file whatever cards are there,
/// and adding a card without free memory changes nothing.
pub proof fn law_what_does_not_fit_runs_from_its_file(gpus: int, more: int)
    ensures
        launch::routed(gpus, false, true) == Route::LlamaCpp,
        launch::routed(gpus, false, false) == Route::NoBackend,
        launch::routed(gpus, false, true) == launch::routed(more, false, true),
        gpus > 0 ==> launch::routed(gpus, true, true) == Route::Sglang && launch::routed(
            gpus,
            true,
            false,
        ) == Route::Sglang,
        gpus <= 0 ==> launch::routed(gpus, true, true) == launch::routed(gpus, false, true),
{
}

/// A command line gives an option: its name, and its value right behind.
pub open spec fn gives(args: Seq<Seq<char>>, name: Seq<char>, value: Seq<char>) -> bool {
    exists|i: int| 0 <= i < args.len() - 1 && #[trigger] args[i] == name && args[i + 1] == value
}

proof fn lemma_gives(args: Seq<Seq<char>>, i: int)
    requires
        0 <= i < args.len() - 1,
    ensures
        gives(args, args[i], args[i + 1]),
{
}

/// The server of llama.cpp is told the model's file, the local address, its port, its
/// decoding slots and both thread counts, each behind its own option, and a context
/// within 2048 and 8192 that is the model's own where that is in between. The layers go
/// to the cards where there is one, embeddings are served where they are wanted, the
/// weights are locked where that is set, batch sizes are given where they are not the
/// usual 512, and nothing else is said.
pub proof fn law_llama_server_is_told_what_it_needs(
    gguf: Seq<char>,
    port: u16,
    context_length: u32,
    settings: Settings,
    threads: nat,
    threads_batch: nat,
    has_gpu: bool,
    embeddings: bool,
)
    ensures
        ({
            let args = launch::llama_args(
                gguf,
                port,
                context_length,
                settings,
                threads,
                threads_batch,
                has_gpu,
                embeddings,
            );
            let ctx = if context_length < 2048 {
                2048
            } else if context_length > 8192 {
                8192
            } else {
                context_length as nat
            };
            &&& gives(args, "--model"@, gguf)
            &&& gives(args, "--host"@, "127.0.0.1"@)
            &&& gives(args, "--port"@, number::decimal(port as nat))
            &&& gives(args, "--ctx-size"@, number::decimal(ctx))
            &&& gives(args, "-np"@, number::decimal(settings.llamacpp_parallel_slots as nat))
            &&& gives(args, "--threads"@, number::decimal(threads))
            &&& gives(args, "--threads-batch"@, number::decimal(threads_batch))
            &&& settings.llamacpp_flash_attn ==> gives(args, "--flash-attn"@, "on"@)
            &&& !settings.llamacpp_flash_attn ==> gives(args, "--flash-attn"@, "auto"@)
            &&& has_gpu ==> gives(args, "--n-gpu-layers"@, "999"@)
            &&& embeddings ==> args.contains("--embeddings"@)
            &&& settings.llamacpp_mlock ==> args.contains("--mlock"@)
            &&& settings.llamacpp_batch_size != 512 ==> gives(
                args,
                "--batch-size"@,
                number::decimal(settings.llamacpp_batch_size as nat),
            )
            &&& settings.llamacpp_batch_size < 512 ==> gives(
                args,
                "--ubatch-size"@,
                number::decimal(settings.llamacpp_batch_size as nat),
            )
            &&& settings.llamacpp_batch_size > 512 ==> gives(
                args,
                "--ubatch-size"@,
                number::decimal(512),
            )
            &&& args.len() == 16 + (if settings.llamacpp_batch_size == 512 {
                0int
            } else {
                4
            }) + (if settings.llamacpp_mlock {
                1int
            } else {
                0
            }) + (if has_gpu {
                2int
            } else {
                0
            }) + (if embeddings {
                1int
            } else {
                0
            })
        }),
{
    let args = launch::llama_args(
        gguf,
        port,
        context_length,
        settings,
        threads,
        threads_batch,
        has_gpu,
        embeddings,
    );
    let base = launch::llama_base_args(
        gguf,
        port,
        context_length,
        settings.llamacpp_parallel_slots,
        threads,
        threads_batch,
        settings.llamacpp_flash_attn,
    );
    assert forall|i: int| 0 <= i < 16 implies args[i] == #[trigger] base[i] by {}
    lemma_gives(args, 0);
    lemma_gives(args, 2);
    lemma_gives(args, 4);
    lemma_gives(args, 6);
    lemma_gives(args, 8);
    lemma_gives(args, 10);
    lemma_gives(args, 12);
    lemma_gives(args, 14);
    let after_batch: int = if settings.llamacpp_batch_size == 512 {
        16
    } else {
        20
    };
    if settings.llamacpp_batch_size != 512 {
        assert(args[16] == "--batch-size"@);
        lemma_gives(args, 16);
        assert(args[18] == "--ubatch-size"@);
        lemma_gives(args, 18);
    }
    let after_lock: int = if settings.llamacpp_mlock {
        after_batch + 1
    } else {
        after_batch
    };
    if settings.llamacpp_mlock {
        assert(args[after_batch] == "--mlock"@);
    }
    if has_gpu {
        assert(args[after_lock] == "--n-gpu-layers"@);
        lemma_gives(args, after_lock);
    }
    if embeddings {
        assert(args[args.len() - 1] == "--embeddings"@);
    }
}

/// The server of sglang is told the weights, the local address, its port, the share of
/// memory and the prefill size, each behind its own option; with more than one card it
/// spreads over all of them.
pub proof fn law_sglang_is_told_what_it_needs(
    gguf: Option<Seq<char>>,
    local: Seq<char>,
    port: u16,
    mem_fraction: Seq<char>,
    settings: Settings,
    gpu_count: nat,
)
    ensures
        ({
            let args = launch::sglang_args(
                launch::model_path_of(gguf, local),
                port,
                mem_fraction,
                settings,
                gpu_count,
            );
            &&& gguf matches Some(p) ==> gives(args, "--model-path"@, p)
            &&& gguf is None ==> gives(args, "--model-path"@, local)
            &&& gives(args, "-m"@, "sglang.launch_server"@)
            &&& gives(args, "--host"@, "127.0.0.1"@)
            &&& gives(args, "--port"@, number::decimal(port as nat))
            &&& gives(args, "--dtype"@, "bfloat16"@)
            &&& gives(args, "--mem-fraction-static"@, mem_fraction)
            &&& gives(
                args,
                "--chunked-prefill-size"@,
                number::decimal(settings.sglang_chunked_prefill_size as nat),
            )
            &&& gpu_count > 1 ==> gives(args, "--tp-size"@, number::decimal(gpu_count))
            &&& settings.sglang_torch_compile ==> args.contains("--enable-torch-compile"@)
            &&& args.len() == 14 + (if gpu_count > 1 {
                2int
            } else {
                0
            }) + (if settings.sglang_torch_compile {
                1int
            } else {
                0
            })
        }),
{
    let args = launch::sglang_args(
        launch::model_path_of(gguf, local),
        port,
        mem_fraction,
        settings,
        gpu_count,
    );
    lemma_gives(args, 0);
    lemma_gives(args, 2);
    lemma_gives(args, 4);
    lemma_gives(args, 6);
    lemma_gives(args, 8);
    lemma_gives(args, 10);
    lemma_gives(args, 12);
    if gpu_count > 1 {
        assert(args[14] == "--tp-size"@);
        lemma_gives(args, 14);
    }
    if settings.sglang_torch_compile {
        assert(args[args.len() - 1] == "--enable-torch-compile"@);
    }
}

/// Configured threads are taken as they are; else there are two logical cores for
/// each thread, and always at least one thread.
pub proof fn law_threads_follow_the_cores(settings: Settings, cores: usize)
    ensures
        settings.llamacpp_threads matches Some(n) ==> launch::decode_threads(settings, Some(cores))
            == n && launch::decode_threads(settings, None) == n,
        settings.llamacpp_threads is None ==> {
            let t = launch::decode_threads(settings, Some(cores));
            &&& t >= 1
            &&& cores >= 2 ==> 2 * t <= cores < 2 * t + 2
            &&& launch::decode_threads(settings, None) == 1
        },
{
}

/// A server that is up is ready, whatever time has passed; one that is not is given up
/// once the time is over, and asked again before.
pub proof fn law_a_server_that_answers_is_ready(p: StartupPoll)
    requires
        p.elapsed_ms + p.delay_ms <= u64::MAX,
    ensures
        launch::polled(p, true).1 == PollStep::Ready,
        launch::polled(p, true).0.elapsed_ms == p.elapsed_ms + p.delay_ms,
        launch::polled(p, false).0.elapsed_ms == p.elapsed_ms + p.delay_ms,
        launch::polled(p, false).0.timeout_secs == p.timeout_secs,
        p.elapsed_ms + p.delay_ms >= p.timeout_secs * 1000 ==> launch::polled(p, false).1
            == PollStep::TimedOut,
        p.elapsed_ms + p.delay_ms < p.timeout_secs * 1000 ==> launch::polled(p, false).1
            == PollStep::Sleep(launch::polled(p, false).0.delay_ms),
        100 <= p.delay_ms <= 1000 && p.elapsed_ms + p.delay_ms < p.timeout_secs * 1000
            ==> launch::polled(p, false).0.delay_ms == 2 * p.delay_ms,
        1000 <= p.delay_ms && p.elapsed_ms + p.delay_ms < p.timeout_secs * 1000 ==> launch::polled(
            p,
            false,
        ).0.delay_ms == 2000,
{
}

/// The endpoints of two servers are the same only where their ports are.
pub proof fn law_ports_tell_endpoints_apart(a: u16, b: u16)
    ensures
        launch::endpoint_of(a) == launch::endpoint_of(b) ==> a == b,
        "http://127.0.0.1:"@.is_prefix_of(launch::endpoint_of(a)),
        number::unsigned_of(
            launch::endpoint_of(a).skip("http://127.0.0.1:"@.len() as int),
            u16::MAX as nat,
        ) == Some(a as nat),
{
    let lead = "http://127.0.0.1:"@;
    let n = lead.len() as int;
    assert(launch::endpoint_of(a).skip(n) =~= number::decimal(a as nat));
    assert(launch::endpoint_of(b).skip(n) =~= number::decimal(b as nat));
    assert(launch::endpoint_of(a).subrange(0, n) =~= lead);
    if launch::endpoint_of(a) == launch::endpoint_of(b) {
        number::law_decimal_is_injective(a as nat, b as nat);
    }
    number::law_decimal_round_trips(a as nat, u16::MAX as nat);
}

/// A server's address is the loopback address at its port.
pub proof fn law_servers_listen_on_the_loopback_address(port: u16)
    ensures
        launch::endpoint_of(port) == "http://127.0.0.1:"@ + number::decimal(port as nat),
{
}

/// The context that a server gets is the model's own, but at least 2048 and at most 8192
/// tokens.
pub proof fn law_context_is_kept_in_bounds(context_length: u32)
    ensures
        2048 <= launch::clamped_ctx(context_length) <= 8192,
        2048 <= context_length <= 8192 ==> launch::clamped_ctx(context_length) == context_length,
        context_length < 2048 ==> launch::clamped_ctx(context_length) == 2048,
        context_length > 8192 ==> launch::clamped_ctx(context_length) == 8192,
{
}

/// A server is warmed up with a single token of its own model, not streamed.
pub proof fn law_warm_up_asks_for_one_token(alias: Seq<char>)
    ensures
        ({
            let v = launch::warmup_value(alias);
            &&& json::string_in(json::member(v, "model"@)) == Some(alias)
            &&& json::unsigned_in(json::member(v, "max_tokens"@)) == Some(1u64)
            &&& json::bool_in(json::member(v, "stream"@)) == Some(false)
            &&& json::array_in(json::member(v, "messages"@)) matches Some(a) && a.len() == 1
                && json::string_in(json::member(a[0], "role"@)) == Some("user"@)
                && json::string_in(json::member(a[0], "content"@)) == Some("hi"@)
        }),
{
    reveal_strlit("model");
    reveal_strlit("messages");
    reveal_strlit("max_tokens");
    reveal_strlit("stream");
    reveal_strlit("role");
    reveal_strlit("content");
    assert("model"@.len() == 5 && "messages"@.len() == 8 && "max_tokens"@.len() == 10
        && "stream"@.len() == 6 && "role"@.len() == 4 && "content"@.len() == 7);
    let o = request_laws::members_of(launch::warmup_value(alias));
    service_laws::lemma_lookup_at(o, 0, "model"@);
    service_laws::lemma_lookup_at(o, 1, "messages"@);
    service_laws::lemma_lookup_at(o, 2, "max_tokens"@);
    service_laws::lemma_lookup_at(o, 3, "stream"@);
    let turn = o[1].1->Array_0[0];
    service_laws::lemma_lookup_at(request_laws::members_of(turn), 0, "role"@);
    service_laws::lemma_lookup_at(request_laws::members_of(turn), 1, "content"@);
}

/// A model is served from its GGUF file where it has one, else from its directory.
pub proof fn law_gguf_file_is_served_where_there_is_one(path: Seq<char>, dir: Seq<char>)
    ensures
        launch::model_path_of(Some(path), dir) == path,
        launch::model_path_of(None, dir) == dir,
{
}

/// A server is waited for until it has had its time: it is first asked after 100 ms, each
/// wait is twice as long as the one before up to two seconds, and what has been waited
/// adds up.
pub proof fn law_waits_add_up_to_the_timeout(p: StartupPoll)
    requires
        p.elapsed_ms + p.delay_ms < u64::MAX,
        100 <= p.delay_ms <= 2000,
    ensures
        launch::FIRST_DELAY_MS == 100,
        launch::polled(p, false).0.elapsed_ms == p.elapsed_ms + p.delay_ms,
        launch::polled(p, false).1 == PollStep::TimedOut <==> p.elapsed_ms + p.delay_ms
            >= p.timeout_secs * 1000,
        launch::polled(p, false).1 matches PollStep::Sleep(d) ==> d == launch::polled(
            p,
            false,
        ).0.delay_ms && p.delay_ms <= d <= 2000 && (d == 2 * p.delay_ms || d == 2000),
{
}

} // verus!
