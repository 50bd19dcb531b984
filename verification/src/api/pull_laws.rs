//! Laws of downloads on request.
use crate::api::json;
use crate::api::json::JsonView;
use crate::api::pull;
use crate::api::pull::{EventView, JobView, PullPhase};
use crate::api::request_laws::members_of;
use crate::api::routes;
use crate::api::service_laws::lemma_lookup_at;
use crate::api::types;
use crate::cli::progress;
use crate::downloader::file_manager::PullProgress;
use crate::registry::manifest;
use crate::registry::manifest::ManifestView;
use crate::text;
use vstd::prelude::*;

verus! {

// -------------------------------------------------------------------------- course

/// A download without a level fetches the weights and saves them as they were fetched.
pub proof fn law_full_weights_are_saved_as_fetched(
    streaming: bool,
    repo_id: Seq<char>,
    has_engine: bool,
    m: ManifestView,
)
    ensures
        ({
            let start = pull::begun(streaming, repo_id, None, has_engine);
            let fetched = pull::stepped(start, EventView::Fetched(m));
            let end = pull::stepped(fetched, EventView::Saved);
            &&& start.phase == PullPhase::FetchWeights
            &&& fetched.phase == PullPhase::Save
            &&& end.phase == PullPhase::Done
            &&& end.manifest == Some(m)
            &&& end.error is None
        }),
{
}

/// Where there is no prebuilt file but an engine, the weights are fetched and converted,
/// and the client is told both; what is saved is the converted file at the level.
pub proof fn law_missing_prebuilt_file_is_converted(
    streaming: bool,
    repo_id: Seq<char>,
    level: Seq<char>,
    reason: Seq<char>,
    m: ManifestView,
    path: Seq<char>,
)
    requires
        routes::level_of(level) is Some,
    ensures
        ({
            let start = pull::begun(streaming, repo_id, Some(level), true);
            let missed = pull::stepped(start, EventView::FetchFailed(reason));
            let fetched = pull::stepped(missed, EventView::Fetched(m));
            let converted = pull::stepped(fetched, EventView::Converted(path));
            let end = pull::stepped(converted, EventView::Saved);
            &&& start.phase == PullPhase::FetchGguf
            &&& missed.phase == PullPhase::FetchWeights
            &&& fetched.phase == PullPhase::Convert
            &&& converted.phase == PullPhase::Save
            &&& end.phase == PullPhase::Done
            &&& end.manifest matches Some(n) && n.gguf_path == Some(path) && n.quantization
                == routes::level_of(level) && n.alias == m.alias && n.files == m.files
            &&& pull::announced(start, missed) == Some(
                "no prebuilt GGUF — converting from safetensors"@,
            )
            &&& pull::announced(missed, fetched) == Some("quantizing to "@ + level)
            &&& pull::announced(fetched, converted) is None
            &&& pull::announced(converted, end) is None
        }),
{
}

/// A level that is not known is refused at once and by its name, except where the client
/// follows the download.
pub proof fn law_unknown_level_is_refused(repo_id: Seq<char>, level: Seq<char>, has_engine: bool)
    requires
        routes::level_of(level) is None,
    ensures
        pull::begun(false, repo_id, Some(level), has_engine).phase == PullPhase::Failed,
        pull::begun(false, repo_id, Some(level), has_engine).error matches Some(e) && e.message
            == "Unknown quantization level: "@ + level && e.error_type == "invalid_request_error"@,
        pull::begun(true, repo_id, Some(level), has_engine).phase == PullPhase::FetchGguf,
{
}

proof fn lemma_stands_in(a: Seq<char>, t: Seq<char>, b: Seq<char>)
    ensures
        text::is_part(t, a + t + b),
        text::is_part(t, t + b),
        text::is_part(t, a + t),
{
    let n = a.len() as int;
    let s = a + t + b;
    assert(s.subrange(n, n + t.len()) =~= t);
    text::lemma_subrange_is_part(s, n, n + t.len());
    let u = t + b;
    assert(u.subrange(0, t.len() as int) =~= t);
    text::lemma_subrange_is_part(u, 0, t.len() as int);
    let v = a + t;
    assert(v.subrange(n, n + t.len()) =~= t);
    text::lemma_subrange_is_part(v, n, n + t.len());
}

/// A step that fails and leaves no way on ends the download with an error that tells
/// the reason, as a fault of the daemon's.
pub proof fn law_failed_step_is_told_with_its_reason(j: JobView, e: EventView, reason: Seq<char>)
    requires
        pull::job_wf(j),
        (j.phase == PullPhase::FetchGguf && !j.has_engine && e == EventView::FetchFailed(reason))
            || (j.phase == PullPhase::FetchWeights && e == EventView::FetchFailed(reason)) || (
        j.phase == PullPhase::Convert && e == EventView::ConvertFailed(reason)) || (j.phase
            == PullPhase::Save && e == EventView::SaveFailed(reason)),
    ensures
        pull::stepped(j, e).phase == PullPhase::Failed,
        pull::stepped(j, e).error matches Some(x) && text::is_part(reason, x.message)
            && x.error_type == "internal_error"@,
{
    let none = Seq::<char>::empty();
    assert(reason + none =~= reason);
    lemma_stands_in(none, reason, none);
    lemma_stands_in(
        "No prebuilt GGUF found for '"@ + j.repo_id + "' and local conversion is unavailable: "@,
        reason,
        none,
    );
    match j.gguf_error {
        Some(g) => lemma_stands_in(g + ". Also failed safetensors conversion: "@, reason, none),
        None => {},
    }
    let told = JobView { gguf_error: Some(reason), ..j };
    lemma_stands_in(
        none,
        reason,
        ". Also failed safetensors conversion: "@ + pull::conversion_obstacle(told),
    );
    assert(reason + (". Also failed safetensors conversion: "@ + pull::conversion_obstacle(told))
        =~= reason + ". Also failed safetensors conversion: "@ + pull::conversion_obstacle(told));
}

/// A client that follows a download hears of both failures: why there was no prebuilt
/// file, and why the conversion came to nothing.
pub proof fn law_both_failures_are_told(
    repo_id: Seq<char>,
    level: Seq<char>,
    first: Seq<char>,
    second: Seq<char>,
)
    ensures
        ({
            let start = pull::begun(true, repo_id, Some(level), true);
            let missed = pull::stepped(start, EventView::FetchFailed(first));
            let end = pull::stepped(missed, EventView::FetchFailed(second));
            end.error matches Some(x) && text::is_part(first, x.message) && text::is_part(
                second,
                x.message,
            )
        }),
{
    let mid = ". Also failed safetensors conversion: "@;
    let told = first + mid + second;
    assert(text::is_part(first, told) && text::is_part(second, told)) by {
        lemma_stands_in(Seq::empty(), first, mid + second);
        lemma_stands_in(first + mid, second, Seq::empty());
        assert(first + (mid + second) =~= told);
    }
    let start = pull::begun(true, repo_id, Some(level), true);
    let missed = pull::stepped(start, EventView::FetchFailed(first));
    let end = pull::stepped(missed, EventView::FetchFailed(second));
    assert(start.phase == PullPhase::FetchGguf);
    assert(missed.phase == PullPhase::FetchWeights && missed.gguf_error == Some(first));
    assert(end.error->0.message == told);
}

/// A request that is answered once, and not followed, is told where a token may help and
/// where a conversion could be set up.
pub proof fn law_hints_go_with_failures(j: JobView, reason: Seq<char>)
    requires
        pull::job_wf(j),
        !j.streaming,
    ensures
        j.phase == PullPhase::FetchWeights ==> (pull::stepped(
            j,
            EventView::FetchFailed(reason),
        ).error matches Some(x) && x.message == reason && x.hint == Some(
            "Verify HF_TOKEN if pulling a private model"@,
        )),
        j.phase == PullPhase::FetchGguf && !j.has_engine ==> (pull::stepped(
            j,
            EventView::FetchFailed(reason),
        ).error matches Some(x) && text::is_part(j.repo_id, x.message) && x.hint == Some(
            "Set llama_cpp_dir + install Python/torch to convert, or pick a model with a GGUF release"@,
        )),
        j.phase == PullPhase::Save ==> (pull::stepped(j, EventView::SaveFailed(reason)).error
            matches Some(x) && x.message == reason && x.hint is None),
{
    let a = "No prebuilt GGUF found for '"@;
    let b = "' and local conversion is unavailable: "@;
    lemma_stands_in(a, j.repo_id, b + reason);
    assert(a + j.repo_id + (b + reason) =~= a + j.repo_id + b + reason);
}

// -------------------------------------------------------------------------- frames

proof fn lemma_frame_words_differ()
    ensures
        "status"@ != "error"@,
        "status"@ != "downloaded"@,
        "status"@ != "total"@,
        "downloaded"@ != "total"@,
        "status"@ != "digest"@,
        "digest"@ != "total"@,
        "completed"@ != "status"@,
        "completed"@ != "digest"@,
        "completed"@ != "total"@,
        "status"@ != "alias"@,
        "status"@ != "architecture"@,
        "alias"@ != "architecture"@,
        "context_length"@ != "status"@,
        "context_length"@ != "alias"@,
        "context_length"@ != "architecture"@,
        "context_length"@ != "parameters_billion"@,
        "quantization"@ != "status"@,
        "quantization"@ != "alias"@,
        "quantization"@ != "architecture"@,
        "quantization"@ != "parameters_billion"@,
        "quantization"@ != "context_length"@,
{
    reveal_strlit("status");
    reveal_strlit("error");
    reveal_strlit("downloaded");
    reveal_strlit("total");
    reveal_strlit("digest");
    reveal_strlit("completed");
    reveal_strlit("alias");
    reveal_strlit("architecture");
    reveal_strlit("context_length");
    reveal_strlit("parameters_billion");
    reveal_strlit("quantization");
    assert("status"@[0] == 's' && "error"@[0] == 'e' && "downloaded"@[0] == 'd' && "total"@[0]
        == 't' && "digest"@[0] == 'd' && "completed"@[0] == 'c' && "alias"@[0] == 'a'
        && "architecture"@[0] == 'a' && "context_length"@[0] == 'c' && "parameters_billion"@[0]
        == 'p' && "quantization"@[0] == 'q');
    assert("alias"@.len() == 5 && "architecture"@.len() == 12);
}

/// What the daemon sends of a download that failed, the command line reads as its
/// failure, with the reason.
pub proof fn law_failure_reaches_the_screen(
    j: JobView,
    billions: Option<u64>,
    error: types::ErrorView,
)
    requires
        j.phase == PullPhase::Failed,
        j.error == Some(error),
    ensures
        pull::closing_value(j, billions) matches Some(v) && progress::failure_in(v) == Some(
            "Pull failed: "@ + error.message,
        ),
{
    lemma_frame_words_differ();
    let v = pull::error_value(error.message);
    lemma_lookup_at(members_of(v), 0, "status"@);
    lemma_lookup_at(members_of(v), 1, "error"@);
}

/// The end of a download that is done tells the model: its alias, its architecture, its
/// context length and its level. It is no failure.
pub proof fn law_done_download_is_described(j: JobView, m: ManifestView, billions: Option<u64>)
    requires
        j.phase == PullPhase::Done,
        j.manifest == Some(m),
    ensures
        pull::closing_value(j, billions) matches Some(v) && {
            &&& json::string_in(json::member(v, "status"@)) == Some("success"@)
            &&& json::string_in(json::member(v, "alias"@)) == Some(m.alias)
            &&& json::string_in(json::member(v, "architecture"@)) == Some(m.architecture)
            &&& json::unsigned_in(json::member(v, "context_length"@)) == Some(
                m.context_length as u64,
            )
            &&& json::string_in(json::member(v, "quantization"@)) == match m.quantization {
                Some(l) => Some(manifest::llama_name(l)),
                None => None,
            }
            &&& progress::failure_in(v) is None
        },
{
    lemma_frame_words_differ();
    let o = members_of(pull::success_value(m, billions));
    lemma_lookup_at(o, 0, "status"@);
    lemma_lookup_at(o, 1, "alias"@);
    lemma_lookup_at(o, 2, "architecture"@);
    lemma_lookup_at(o, 4, "context_length"@);
    lemma_lookup_at(o, 5, "quantization"@);
    reveal_strlit("success");
    reveal_strlit("error");
    assert("success"@.len() != "error"@.len());
}

/// A phase of a download is told whenever it comes; a count of bytes is told as it is.
pub proof fn law_progress_is_told_as_it_is(p: PullProgress, since_last_ms: u64, last: u64)
    ensures
        match p {
            PullProgress::Status(s) => pull::progress_value(p, since_last_ms, last) matches Some(v)
                && json::string_in(json::member(v, "status"@)) == Some(s@),
            PullProgress::Download { downloaded, total } => pull::progress_value(
                p,
                since_last_ms,
                last,
            ) matches Some(v) ==> {
                &&& json::string_in(json::member(v, "status"@)) == Some("download"@)
                &&& json::unsigned_in(json::member(v, "downloaded"@)) == Some(downloaded)
                &&& json::unsigned_in(json::member(v, "total"@)) == Some(total)
            },
        },
{
    lemma_frame_words_differ();
    match p {
        PullProgress::Status(s) => {
            lemma_lookup_at(members_of(pull::status_value(s@)), 0, "status"@);
        },
        PullProgress::Download { downloaded, total } => {
            let o = members_of(pull::bytes_value(downloaded, total));
            lemma_lookup_at(o, 0, "status"@);
            lemma_lookup_at(o, 1, "downloaded"@);
            lemma_lookup_at(o, 2, "total"@);
        },
    }
}

/// A count of bytes is told after a quarter of a second, after a hundredth of all bytes,
/// and at the end, and at no other time.
pub proof fn law_counts_are_told_now_and_then(
    downloaded: u64,
    total: u64,
    since_last_ms: u64,
    last: u64,
)
    ensures
        since_last_ms >= 250 ==> pull::count_is_due(downloaded, total, since_last_ms, last),
        total > 0 && downloaded >= last + total / 100 + 1 ==> pull::count_is_due(
            downloaded,
            total,
            since_last_ms,
            last,
        ),
        since_last_ms < 250 && (downloaded - last) * 100 < total && downloaded < total
            ==> !pull::count_is_due(downloaded, total, since_last_ms, last),
        since_last_ms < 250 && total == 0 ==> !pull::count_is_due(
            downloaded,
            total,
            since_last_ms,
            last,
        ),
{
}

/// Of a download that is done a client of the Ollama kind is told every file, with its
/// name, its digest and its size, and at the end how many bytes they take together.
pub proof fn law_every_file_is_told(m: ManifestView, i: int)
    requires
        0 <= i < m.files.len(),
        manifest::files_size(m.files) <= u64::MAX,
    ensures
        pull::pulled_frames(m).len() == m.files.len() + 3,
        json::string_in(json::member(pull::pulled_frames(m)[i], "status"@)) == Some(
            "pulling "@ + m.files[i].name@,
        ),
        json::string_in(json::member(pull::pulled_frames(m)[i], "digest"@)) == Some(
            m.files[i].sha256@,
        ),
        json::unsigned_in(json::member(pull::pulled_frames(m)[i], "total"@)) == Some(
            m.files[i].size_bytes,
        ),
        json::unsigned_in(json::member(pull::pulled_frames(m)[i], "completed"@)) == Some(
            m.files[i].size_bytes,
        ),
        json::string_in(json::member(pull::pulled_frames(m).last(), "status"@)) == Some(
            "success"@,
        ),
        json::string_in(json::member(pull::pulled_frames(m).last(), "digest"@)) == Some(
            m.revision,
        ),
        json::unsigned_in(json::member(pull::pulled_frames(m).last(), "total"@)) == Some(
            manifest::files_size(m.files) as u64,
        ),
{
    lemma_frame_words_differ();
    let f = m.files[i];
    let o = members_of(pull::file_value(f.name@, f.sha256@, f.size_bytes));
    assert(pull::pulled_frames(m)[i] == pull::file_value(f.name@, f.sha256@, f.size_bytes));
    lemma_lookup_at(o, 0, "status"@);
    lemma_lookup_at(o, 1, "digest"@);
    lemma_lookup_at(o, 2, "total"@);
    lemma_lookup_at(o, 3, "completed"@);
    let total = manifest::files_size(m.files) as int;
    let e = members_of(pull::pulled_value(m.revision, total));
    assert(pull::pulled_frames(m).last() == pull::pulled_value(m.revision, total));
    lemma_lookup_at(e, 0, "status"@);
    lemma_lookup_at(e, 1, "digest"@);
    lemma_lookup_at(e, 2, "total"@);
}

/// A client that follows a download hears first that the manifest is fetched; where the
/// weights are fetched at once, that too.
pub proof fn law_download_opens_with_its_manifest(j: JobView)
    ensures
        pull::opening_values(j).len() == if j.phase == PullPhase::FetchWeights {
            2nat
        } else {
            1
        },
        json::string_in(json::member(pull::opening_values(j)[0], "status"@)) == Some(
            "pulling manifest"@,
        ),
        j.phase == PullPhase::FetchWeights ==> json::string_in(
            json::member(pull::opening_values(j)[1], "status"@),
        ) == Some("downloading safetensors"@),
{
    lemma_lookup_at(members_of(pull::status_value("pulling manifest"@)), 0, "status"@);
    lemma_lookup_at(members_of(pull::status_value("downloading safetensors"@)), 0, "status"@);
}

// ------------------------------------------------------------------------- requests

/// A request is of the Ollama kind where it gives a name and no repository.
pub proof fn law_a_name_alone_is_of_the_ollama_kind(v: JsonView, name: JsonView, repo: JsonView)
    ensures
        json::member(v, "name"@) == Some(name) && json::member(v, "repo_id"@) is None
            ==> pull::is_ollama_shape(v),
        json::member(v, "repo_id"@) == Some(repo) ==> !pull::is_ollama_shape(v),
        json::member(v, "name"@) is None ==> !pull::is_ollama_shape(v),
{
}

/// Whether to stream is as the request says, and as usual where it does not say.
pub proof fn law_streaming_is_as_asked(v: JsonView, b: bool, otherwise: bool)
    ensures
        json::member(v, "stream"@) == Some(JsonView::Bool(b)) ==> routes::wants_stream(v, otherwise)
            == b,
        json::member(v, "stream"@) is None ==> routes::wants_stream(v, otherwise) == otherwise,
{
}

/// What is not there is answered with 404, what cannot be served as it stands with 400,
/// and a fault of the daemon's with 500; each answer tells its message.
pub proof fn law_errors_have_their_status(message: Seq<char>, hint: Option<Seq<char>>)
    ensures
        types::status_of(types::not_found_view(message, hint).error_type) == 404,
        types::status_of(types::bad_request_view(message).error_type) == 400,
        types::status_of(types::internal_view(message, hint).error_type) == 500,
        types::not_found_view(message, hint).message == message,
        types::bad_request_view(message).message == message,
        types::internal_view(message, hint).message == message,
        types::not_found_view(message, hint).hint == hint,
        types::internal_view(message, hint).hint == hint,
{
    reveal_strlit("not_found");
    reveal_strlit("invalid_request_error");
    reveal_strlit("internal_error");
    assert("not_found"@.len() == 9 && "invalid_request_error"@.len() == 21
        && "internal_error"@.len() == 14);
}

/// A derived model keeps the weights of its base and gets its own name and Modelfile.
pub proof fn law_derived_model_keeps_the_weights(
    base: ManifestView,
    name: Seq<char>,
    mf: crate::registry::modelfile::ModelfileView,
    downloaded_at: crate::time::Timestamp,
    last_used: crate::time::Timestamp,
)
    ensures
        ({
            let m = routes::derived(base, name, mf, downloaded_at, last_used);
            &&& m.alias == name
            &&& m.modelfile == Some(mf)
            &&& m.files == base.files
            &&& m.local_path == base.local_path
            &&& m.gguf_path == base.gguf_path
            &&& m.repo_id == base.repo_id
            &&& m.revision == base.revision
            &&& m.architecture == base.architecture
            &&& m.context_length == base.context_length
            &&& m.quantization == base.quantization
            &&& m.weight_format == base.weight_format
        }),
{
}

/// The answers to a create and to a load request tell the new model's name and the
/// server's address.
pub proof fn law_answers_tell_what_was_made(name: Seq<char>, endpoint: Seq<char>)
    ensures
        json::string_in(json::member(routes::created_value(name), "status"@)) == Some("success"@),
        json::string_in(json::member(routes::created_value(name), "name"@)) == Some(name),
        json::string_in(json::member(routes::loaded_value(endpoint), "status"@)) == Some(
            "loaded"@,
        ),
        json::string_in(json::member(routes::loaded_value(endpoint), "endpoint"@)) == Some(
            endpoint,
        ),
{
    reveal_strlit("status");
    reveal_strlit("name");
    reveal_strlit("endpoint");
    assert("status"@.len() == 6 && "name"@.len() == 4 && "endpoint"@.len() == 8);
    lemma_lookup_at(members_of(routes::created_value(name)), 0, "status"@);
    lemma_lookup_at(members_of(routes::created_value(name)), 1, "name"@);
    lemma_lookup_at(members_of(routes::loaded_value(endpoint)), 0, "status"@);
    lemma_lookup_at(members_of(routes::loaded_value(endpoint)), 1, "endpoint"@);
}

/// Behind the files a client of the Ollama kind is told that the digest is verified and
/// the manifest written.
pub proof fn law_last_steps_are_told(m: ManifestView)
    ensures
        ({
            let frames = pull::pulled_frames(m);
            let n = m.files.len() as int;
            &&& json::string_in(json::member(frames[n], "status"@)) == Some(
                "verifying sha256 digest"@,
            )
            &&& json::string_in(json::member(frames[n + 1], "status"@)) == Some(
                "writing manifest"@,
            )
        }),
{
    lemma_lookup_at(members_of(pull::status_value("verifying sha256 digest"@)), 0, "status"@);
    lemma_lookup_at(members_of(pull::status_value("writing manifest"@)), 0, "status"@);
}

/// In a stream a level that is not known fails when it is needed, and is named.
pub proof fn law_unknown_level_is_named_in_a_stream(
    repo_id: Seq<char>,
    level: Seq<char>,
    reason: Seq<char>,
    m: ManifestView,
)
    requires
        routes::level_of(level) is None,
    ensures
        ({
            let start = pull::begun(true, repo_id, Some(level), true);
            let missed = pull::stepped(start, EventView::FetchFailed(reason));
            let end = pull::stepped(missed, EventView::Fetched(m));
            &&& end.phase == PullPhase::Failed
            &&& end.error matches Some(x) && x.message == reason
                + ". Also failed safetensors conversion: "@ + ("Unknown quantization level: "@
                + level)
        }),
        ({
            let start = pull::begun(true, repo_id, Some(level), false);
            let end = pull::stepped(start, EventView::FetchFailed(reason));
            &&& end.phase == PullPhase::Failed
            &&& end.error matches Some(x) && x.message == reason
                + ". Also failed safetensors conversion: "@ + ("Unknown quantization level: "@
                + level)
        }),
{
}

} // verus!
