//! What holds of what the daemon tells: models, logs, health, counters and disk space.
use crate::api::disk;
use crate::api::disk::RemovalOutcome;
use crate::api::health;
use crate::api::health::{BackendHealth, Probe};
use crate::api::json;
use crate::api::json::{JsonNumber, JsonView};
use crate::api::listing;
use crate::api::metrics;
use crate::api::metrics::{Counter, Metrics};
use crate::api::request_laws;
use crate::api::routes;
use crate::api::types::{DiskUsageEntry, ModelStatusEntry, OllamaModelDetails, OllamaShowResponse};
use crate::number;
use crate::paths;
use crate::registry::manifest;
use crate::registry::manifest::{ManifestView, StoreView};
use crate::text;
use vstd::prelude::*;

verus! {

// ------------------------------------------------------------------------- models

/// A model is found by its alias, and where no alias is that name, by its repository or
/// by any part of its repository's name.
pub proof fn law_models_are_found_by_name(
    st: StoreView,
    m: ManifestView,
    before: Seq<char>,
    part: Seq<char>,
    after: Seq<char>,
)
    requires
        st.models.dom().contains(m.alias),
        st.models[m.alias] == m,
        m.repo_id == before + part + after,
    ensures
        listing::goes_by(st, m.alias, m),
        !st.models.dom().contains(part) ==> listing::goes_by(st, part, m),
        !listing::is_unknown(st, part),
        !listing::is_unknown(st, m.alias),
{
    let n = before.len() as int;
    assert(m.repo_id.subrange(n, n + part.len()) =~= part);
    assert(text::occurs_at(m.repo_id, part, n));
}

/// What is said of a model's state follows what runs: loaded where a process runs for
/// it, ready where none does.
pub proof fn law_status_follows_what_runs(e: ModelStatusEntry, m: ManifestView, loaded: bool)
    requires
        listing::is_status_of(e, m, loaded),
    ensures
        e.status@ == "loaded"@ <==> loaded,
        e.status@ == "ready"@ <==> !loaded,
        e.alias@ == m.alias,
        e.repo_id@ == m.repo_id,
        e.architecture@ == m.architecture,
        e.gguf_path is Some <==> m.gguf_path is Some,
        e.gguf_path matches Some(p) ==> m.gguf_path == Some(p@),
        e.quantization matches Some(q) ==> (m.quantization matches Some(l) && q@
            == manifest::llama_name(l)),
{
    reveal_strlit("loaded");
    reveal_strlit("ready");
    assert("loaded"@.len() != "ready"@.len());
}

/// The details of a model are its own: its family, and the name of its level, which is
/// half precision where it has none.
pub proof fn law_details_are_the_models_own(
    d: OllamaModelDetails,
    m: ManifestView,
    size: Seq<char>,
)
    requires
        listing::is_details_of(d, m, size),
    ensures
        d.family@ == m.architecture,
        d.parameter_size@ == size,
        m.quantization matches Some(l) ==> d.quantization_level@ == manifest::llama_name(l),
        m.quantization is None ==> d.quantization_level@ == "F16"@,
        d.families@.len() == 1,
{
    assert(text::string_texts(d.families@).len() == 1);
}

/// A model is described by its own Modelfile, as it was written, with its template and
/// all its parameters in order; one without a Modelfile by the repository it is from.
pub proof fn law_description_gives_the_modelfile(
    d: OllamaShowResponse,
    m: ManifestView,
    size: Seq<char>,
    billions: Option<u64>,
)
    requires
        listing::is_description_of(d, m, size, billions),
    ensures
        m.modelfile matches Some(mf) ==> d.modelfile@ == mf.source && (mf.template matches Some(t)
            ==> d.template@ == t),
        m.modelfile is None ==> d.modelfile@ == "FROM "@ + m.repo_id + "\n"@ && d.parameters@.len()
            == 0 && d.template@.len() == 0,
        json::member(d.model_info@, "context_length"@) == Some(
            JsonView::Number(JsonNumber::Unsigned(m.context_length as u64)),
        ),
        json::member(d.model_info@, "revision"@) == Some(JsonView::Str(m.revision)),
{
    reveal_strlit("context_length");
    reveal_strlit("parameters_billion");
    reveal_strlit("files");
    reveal_strlit("revision");
    reveal_strlit("downloaded_at");
    assert("context_length"@.len() == 14 && "parameters_billion"@.len() == 18 && "files"@.len() == 5
        && "revision"@.len() == 8 && "downloaded_at"@.len() == 13);
    let o = request_laws::members_of(listing::model_info_value(m, billions));
    assert(o.skip(1)[0] == o[1]);
    assert(o.skip(1).skip(1)[0] == o[2]);
    assert(o.skip(1).skip(1).skip(1)[0] == o[3]);
    reveal_with_fuel(json::lookup, 6);
}

/// The parameters of a Modelfile are told one on a line, each name before its value, in
/// their order.
pub proof fn law_parameters_are_told_in_order(
    p: Seq<(Seq<char>, Seq<char>)>,
    key: Seq<char>,
    value: Seq<char>,
)
    ensures
        listing::parameter_lines(seq![(key, value)]) == key + " "@ + value,
        p.len() > 0 ==> listing::parameter_lines(p.push((key, value))) == listing::parameter_lines(
            p,
        ) + "\n"@ + (key + " "@ + value),
{
    assert(p.push((key, value)).drop_last() =~= p);
}

/// The log of a process is told with its last lines, under the model's alias.
pub proof fn law_log_tells_the_last_lines(
    alias: Seq<char>,
    backend: Seq<char>,
    lines: Seq<String>,
    asked: nat,
    i: int,
)
    requires
        0 <= i < asked,
        i < lines.len(),
    ensures
        ({
            let shown = crate::inference::logbuf::tail(lines, asked);
            let v = listing::log_value(alias, backend, shown);
            &&& json::member(v, "alias"@) == Some(JsonView::Str(alias))
            &&& json::member(v, "backend"@) == Some(JsonView::Str(backend))
            &&& json::member(v, "lines"@) matches Some(JsonView::Array(a)) && {
                &&& a.len() == if lines.len() <= asked {
                    lines.len()
                } else {
                    asked
                }
                &&& a[a.len() - 1 - i] == JsonView::Str(lines[lines.len() - 1 - i]@)
            }
        }),
{
    reveal_strlit("alias");
    reveal_strlit("backend");
    reveal_strlit("lines");
    assert("alias"@[0] == 'a' && "lines"@[0] == 'l');
    assert("backend"@.len() == 7 && "alias"@.len() == 5 && "lines"@.len() == 5);
    let shown = crate::inference::logbuf::tail(lines, asked);
    let o = request_laws::members_of(listing::log_value(alias, backend, shown));
    assert(o.skip(1)[0] == o[1]);
    assert(o.skip(1).skip(1)[0] == o[2]);
    reveal_with_fuel(json::lookup, 4);
    assert(shown[shown.len() - 1 - i] == lines[lines.len() - 1 - i]);
}

/// What a request asks for is read from it: the model it names, and whether to stream,
/// which it does only where it says so.
pub proof fn law_routing_is_read_from_the_request(
    members: Seq<(Seq<char>, JsonView)>,
    model: Seq<char>,
    stream: bool,
    otherwise: bool,
)
    ensures
        json::lookup(members, "model"@) == Some(JsonView::Str(model)) ==> routes::model_named(
            JsonView::Object(members),
        ) == Some(model),
        json::lookup(members, "model"@) is None ==> routes::model_named(JsonView::Object(members)) is None,
        json::lookup(members, "stream"@) == Some(JsonView::Bool(stream)) ==> routes::wants_stream(
            JsonView::Object(members),
            otherwise,
        ) == stream,
        json::lookup(members, "stream"@) is None ==> routes::wants_stream(
            JsonView::Object(members),
            otherwise,
        ) == otherwise,
{
}

/// An embedding is asked for the text that the caller gave.
pub proof fn law_embedding_is_of_the_prompt(model: Seq<char>, prompt: Seq<char>)
    ensures
        json::member(routes::embedding_request(model, prompt), "model"@) == Some(
            JsonView::Str(model),
        ),
        json::member(routes::embedding_request(model, prompt), "input"@) == Some(
            JsonView::Str(prompt),
        ),
{
    reveal_strlit("model");
    reveal_strlit("input");
    assert("model"@[0] == 'm' && "input"@[0] == 'i');
    let o = request_laws::members_of(routes::embedding_request(model, prompt));
    assert(o.skip(1)[0] == o[1]);
    reveal_with_fuel(json::lookup, 3);
}

// ------------------------------------------------------------------------- health

/// A server that answers with success is healthy, and no other is; the reason that it is
/// not is kept, with the time of the look.
pub proof fn law_only_success_is_healthy(probe: Probe, now: i64)
    ensures
        health::noted(probe, now).healthy <==> probe is Success,
        health::noted(probe, now).last_checked == now,
        health::noted(probe, now).last_error is None <==> probe is Success,
        probe matches Probe::Failed(e) ==> health::noted(probe, now).last_error == Some(e@),
        probe matches Probe::Status(s) ==> (health::noted(probe, now).last_error matches Some(t)
            && s@.is_suffix_of(t)),
{
    if let Probe::Status(s) = probe {
        let t = "HTTP "@ + s@;
        assert(t.subrange(t.len() - s@.len(), t.len() as int) =~= s@);
    }
}

/// The report says that all is well exactly where no server is unhealthy; it counts the
/// processes of each backend and of both, and names every unhealthy server.
pub proof fn law_report_tells_the_health(
    models_total: u64,
    sglang: u64,
    llamacpp: u64,
    unhealthy: Seq<(String, BackendHealth)>,
)
    requires
        sglang + llamacpp <= u64::MAX,
    ensures
        ({
            let v = health::health_value(models_total, sglang, llamacpp, unhealthy);
            &&& json::member(v, "status"@) == Some(JsonView::Str("ok"@)) <==> unhealthy.len() == 0
            &&& json::member(v, "status"@) == Some(JsonView::Str("degraded"@)) <==> unhealthy.len()
                > 0
            &&& json::member(v, "models_total"@) == Some(
                JsonView::Number(JsonNumber::Unsigned(models_total)),
            )
            &&& json::member(v, "models_loaded"@) == Some(
                JsonView::Number(JsonNumber::Unsigned((sglang + llamacpp) as u64)),
            )
            &&& json::member(v, "sglang_processes"@) == Some(
                JsonView::Number(JsonNumber::Unsigned(sglang)),
            )
            &&& json::member(v, "llamacpp_processes"@) == Some(
                JsonView::Number(JsonNumber::Unsigned(llamacpp)),
            )
            &&& json::member(v, "unhealthy"@) matches Some(JsonView::Array(a)) && a.len()
                == unhealthy.len() && forall|i: int|
                0 <= i < unhealthy.len() ==> json::member(#[trigger] a[i], "alias"@) == Some(
                    JsonView::Str(unhealthy[i].0@),
                )
        }),
{
    reveal_strlit("status");
    reveal_strlit("version");
    reveal_strlit("models_total");
    reveal_strlit("models_loaded");
    reveal_strlit("sglang_processes");
    reveal_strlit("llamacpp_processes");
    reveal_strlit("unhealthy");
    reveal_strlit("ok");
    reveal_strlit("degraded");
    assert("status"@.len() == 6 && "version"@.len() == 7 && "models_total"@.len() == 12
        && "models_loaded"@.len() == 13 && "sglang_processes"@.len() == 16
        && "llamacpp_processes"@.len() == 18 && "unhealthy"@.len() == 9);
    assert("ok"@.len() != "degraded"@.len());
    let v = health::health_value(models_total, sglang, llamacpp, unhealthy);
    let o = request_laws::members_of(v);
    lemma_lookup_at(o, 0, "status"@);
    lemma_lookup_at(o, 2, "models_total"@);
    lemma_lookup_at(o, 3, "models_loaded"@);
    lemma_lookup_at(o, 4, "sglang_processes"@);
    lemma_lookup_at(o, 5, "llamacpp_processes"@);
    lemma_lookup_at(o, 6, "unhealthy"@);
    let a = health::unhealthy_values(unhealthy);
    assert forall|i: int| 0 <= i < unhealthy.len() implies json::member(#[trigger] a[i], "alias"@)
        == Some(JsonView::Str(unhealthy[i].0@)) by {
        lemma_lookup_at(request_laws::members_of(a[i]), 0, "alias"@);
    }
}

/// A member whose name no earlier one has is the one that is read.
pub proof fn lemma_lookup_at(members: Seq<(Seq<char>, JsonView)>, i: int, key: Seq<char>)
    requires
        0 <= i < members.len(),
        members[i].0 == key,
        forall|j: int| 0 <= j < i ==> (#[trigger] members[j]).0 != key,
    ensures
        json::lookup(members, key) == Some(members[i].1),
    decreases i,
{
    if i > 0 {
        let rest = members.skip(1);
        assert(members[0].0 != key);
        assert(rest[i - 1] == members[i]);
        assert forall|j: int| 0 <= j < i - 1 implies (#[trigger] rest[j]).0 != key by {
            assert(rest[j] == members[j + 1]);
        }
        lemma_lookup_at(rest, i - 1, key);
    }
}

// ----------------------------------------------------------------------- counters

/// Counting adds to one counter and leaves every other as it is.
pub proof fn law_counting_adds_to_one_counter(m: Metrics, n: u64)
    requires
        m.requests_total + n <= u64::MAX,
        m.chat_requests_total + n <= u64::MAX,
        m.completion_requests_total + n <= u64::MAX,
        m.embeddings_requests_total + n <= u64::MAX,
        m.model_loads_total + n <= u64::MAX,
        m.model_pulls_total + n <= u64::MAX,
        m.bytes_proxied_total + n <= u64::MAX,
        m.errors_total + n <= u64::MAX,
    ensures
        metrics::added(m, Counter::Requests, n) == (Metrics {
            requests_total: (m.requests_total + n) as u64,
            ..m
        }),
        metrics::added(m, Counter::ChatRequests, n) == (Metrics {
            chat_requests_total: (m.chat_requests_total + n) as u64,
            ..m
        }),
        metrics::added(m, Counter::CompletionRequests, n) == (Metrics {
            completion_requests_total: (m.completion_requests_total + n) as u64,
            ..m
        }),
        metrics::added(m, Counter::EmbeddingsRequests, n) == (Metrics {
            embeddings_requests_total: (m.embeddings_requests_total + n) as u64,
            ..m
        }),
        metrics::added(m, Counter::ModelLoads, n) == (Metrics {
            model_loads_total: (m.model_loads_total + n) as u64,
            ..m
        }),
        metrics::added(m, Counter::ModelPulls, n) == (Metrics {
            model_pulls_total: (m.model_pulls_total + n) as u64,
            ..m
        }),
        metrics::added(m, Counter::BytesProxied, n) == (Metrics {
            bytes_proxied_total: (m.bytes_proxied_total + n) as u64,
            ..m
        }),
        metrics::added(m, Counter::Errors, n) == (Metrics {
            errors_total: (m.errors_total + n) as u64,
            ..m
        }),
{
}

/// A text that ends in another holds it.
proof fn lemma_ends_in(front: Seq<char>, x: Seq<char>)
    ensures
        text::contains_text(front + x, x),
{
    let s = front + x;
    let n = front.len() as int;
    assert(s.subrange(n, n + x.len()) =~= x);
    assert(text::occurs_at(s, x, n));
}

/// What is in a part is in the whole.
proof fn lemma_held_in_both(a: Seq<char>, b: Seq<char>, x: Seq<char>)
    ensures
        text::contains_text(a, x) ==> text::contains_text(a + b, x),
        text::contains_text(b, x) ==> text::contains_text(a + b, x),
{
    let s = a + b;
    if text::contains_text(a, x) {
        let i = choose|i: int| text::occurs_at(a, x, i);
        assert(s.subrange(i, i + x.len()) =~= a.subrange(i, i + x.len()));
        assert(text::occurs_at(s, x, i));
    }
    if text::contains_text(b, x) {
        let i = choose|i: int| text::occurs_at(b, x, i);
        let k = a.len() + i;
        assert(s.subrange(k, k + x.len()) =~= b.subrange(i, i + x.len()));
        assert(text::occurs_at(s, x, k));
    }
}

/// The line of a counter: its name and its value.
pub open spec fn counter_line(name: Seq<char>, value: nat) -> Seq<char> {
    name + " "@ + number::decimal(value) + "\n"@
}

proof fn lemma_metric_has_its_line(
    name: Seq<char>,
    help: Seq<char>,
    kind: Seq<char>,
    value: nat,
)
    ensures
        text::contains_text(
            metrics::metric_text(name, help, kind, value),
            counter_line(name, value),
        ),
{
    let front = "# HELP "@ + name + " "@ + help + "\n# TYPE "@ + name + " "@ + kind + "\n"@;
    let digits = number::decimal(value);
    lemma_ends_in(front, counter_line(name, value));
    lemma_joined_alike(front, name, " "@);
    lemma_joined_alike(front, name + " "@, digits);
    lemma_joined_alike(front, name + " "@ + digits, "\n"@);
}

proof fn lemma_joined_alike(a: Seq<char>, b: Seq<char>, c: Seq<char>)
    ensures
        a + (b + c) == a + b + c,
{
    assert(a + (b + c) =~= a + b + c);
}

/// Every counter is told to the scraper under its own name, with its value.
pub proof fn law_every_counter_is_told(m: Metrics, loaded: u64)
    ensures
        ({
            let t = metrics::exposition(m, loaded);
            &&& text::contains_text(
                t,
                counter_line("localllm_requests_total"@, m.requests_total as nat),
            )
            &&& text::contains_text(
                t,
                counter_line("localllm_chat_requests_total"@, m.chat_requests_total as nat),
            )
            &&& text::contains_text(
                t,
                counter_line(
                    "localllm_completion_requests_total"@,
                    m.completion_requests_total as nat,
                ),
            )
            &&& text::contains_text(
                t,
                counter_line(
                    "localllm_embeddings_requests_total"@,
                    m.embeddings_requests_total as nat,
                ),
            )
            &&& text::contains_text(
                t,
                counter_line("localllm_model_loads_total"@, m.model_loads_total as nat),
            )
            &&& text::contains_text(
                t,
                counter_line("localllm_model_pulls_total"@, m.model_pulls_total as nat),
            )
            &&& text::contains_text(
                t,
                counter_line("localllm_bytes_proxied_total"@, m.bytes_proxied_total as nat),
            )
            &&& text::contains_text(
                t,
                counter_line("localllm_errors_total"@, m.errors_total as nat),
            )
            &&& text::contains_text(
                t,
                counter_line("localllm_tokens_generated_total"@, m.tokens_generated_total as nat),
            )
            &&& text::contains_text(
                t,
                counter_line("localllm_prompt_tokens_total"@, m.prompt_tokens_total as nat),
            )
            &&& text::contains_text(t, counter_line("localllm_models_loaded"@, loaded as nat))
        }),
{
    let t0 = metrics::metric_text(
        "localllm_requests_total"@,
        "Total HTTP requests received"@,
        "counter"@,
        m.requests_total as nat,
    );
    lemma_metric_has_its_line(
        "localllm_requests_total"@,
        "Total HTTP requests received"@,
        "counter"@,
        m.requests_total as nat,
    );
    let t1 = metrics::metric_text(
        "localllm_chat_requests_total"@,
        "Total chat completion requests"@,
        "counter"@,
        m.chat_requests_total as nat,
    );
    lemma_metric_has_its_line(
        "localllm_chat_requests_total"@,
        "Total chat completion requests"@,
        "counter"@,
        m.chat_requests_total as nat,
    );
    let t2 = metrics::metric_text(
        "localllm_completion_requests_total"@,
        "Total text completion requests"@,
        "counter"@,
        m.completion_requests_total as nat,
    );
    lemma_metric_has_its_line(
        "localllm_completion_requests_total"@,
        "Total text completion requests"@,
        "counter"@,
        m.completion_requests_total as nat,
    );
    let t3 = metrics::metric_text(
        "localllm_embeddings_requests_total"@,
        "Total embeddings requests"@,
        "counter"@,
        m.embeddings_requests_total as nat,
    );
    lemma_metric_has_its_line(
        "localllm_embeddings_requests_total"@,
        "Total embeddings requests"@,
        "counter"@,
        m.embeddings_requests_total as nat,
    );
    let t4 = metrics::metric_text(
        "localllm_model_loads_total"@,
        "Total model load events"@,
        "counter"@,
        m.model_loads_total as nat,
    );
    lemma_metric_has_its_line(
        "localllm_model_loads_total"@,
        "Total model load events"@,
        "counter"@,
        m.model_loads_total as nat,
    );
    let t5 = metrics::metric_text(
        "localllm_model_pulls_total"@,
        "Total model pull events"@,
        "counter"@,
        m.model_pulls_total as nat,
    );
    lemma_metric_has_its_line(
        "localllm_model_pulls_total"@,
        "Total model pull events"@,
        "counter"@,
        m.model_pulls_total as nat,
    );
    let t6 = metrics::metric_text(
        "localllm_bytes_proxied_total"@,
        "Bytes proxied through inference endpoints"@,
        "counter"@,
        m.bytes_proxied_total as nat,
    );
    lemma_metric_has_its_line(
        "localllm_bytes_proxied_total"@,
        "Bytes proxied through inference endpoints"@,
        "counter"@,
        m.bytes_proxied_total as nat,
    );
    let t7 = metrics::metric_text(
        "localllm_errors_total"@,
        "Errors returned to clients"@,
        "counter"@,
        m.errors_total as nat,
    );
    lemma_metric_has_its_line(
        "localllm_errors_total"@,
        "Errors returned to clients"@,
        "counter"@,
        m.errors_total as nat,
    );
    let t8 = metrics::metric_text(
        "localllm_tokens_generated_total"@,
        "Approx generation tokens streamed back to clients"@,
        "counter"@,
        m.tokens_generated_total as nat,
    );
    lemma_metric_has_its_line(
        "localllm_tokens_generated_total"@,
        "Approx generation tokens streamed back to clients"@,
        "counter"@,
        m.tokens_generated_total as nat,
    );
    let t9 = metrics::metric_text(
        "localllm_prompt_tokens_total"@,
        "Prompt tokens reported by upstream usage field"@,
        "counter"@,
        m.prompt_tokens_total as nat,
    );
    lemma_metric_has_its_line(
        "localllm_prompt_tokens_total"@,
        "Prompt tokens reported by upstream usage field"@,
        "counter"@,
        m.prompt_tokens_total as nat,
    );
    let t10 = metrics::metric_text(
        "localllm_models_loaded"@,
        "Currently loaded inference processes"@,
        "gauge"@,
        loaded as nat,
    );
    lemma_metric_has_its_line(
        "localllm_models_loaded"@,
        "Currently loaded inference processes"@,
        "gauge"@,
        loaded as nat,
    );
    let a0 = t0;
    let a1 = a0 + t1;
    let a2 = a1 + t2;
    let a3 = a2 + t3;
    let a4 = a3 + t4;
    let a5 = a4 + t5;
    let a6 = a5 + t6;
    let a7 = a6 + t7;
    let a8 = a7 + t8;
    let a9 = a8 + t9;
    let a10 = a9 + t10;
    let x0 = counter_line("localllm_requests_total"@, m.requests_total as nat);
    lemma_held_in_both(a0, t1, x0);
    lemma_held_in_both(a1, t2, x0);
    lemma_held_in_both(a2, t3, x0);
    lemma_held_in_both(a3, t4, x0);
    lemma_held_in_both(a4, t5, x0);
    lemma_held_in_both(a5, t6, x0);
    lemma_held_in_both(a6, t7, x0);
    lemma_held_in_both(a7, t8, x0);
    lemma_held_in_both(a8, t9, x0);
    lemma_held_in_both(a9, t10, x0);
    let x1 = counter_line("localllm_chat_requests_total"@, m.chat_requests_total as nat);
    lemma_held_in_both(a0, t1, x1);
    lemma_held_in_both(a1, t2, x1);
    lemma_held_in_both(a2, t3, x1);
    lemma_held_in_both(a3, t4, x1);
    lemma_held_in_both(a4, t5, x1);
    lemma_held_in_both(a5, t6, x1);
    lemma_held_in_both(a6, t7, x1);
    lemma_held_in_both(a7, t8, x1);
    lemma_held_in_both(a8, t9, x1);
    lemma_held_in_both(a9, t10, x1);
    let x2 = counter_line("localllm_completion_requests_total"@, m.completion_requests_total as nat);
    lemma_held_in_both(a1, t2, x2);
    lemma_held_in_both(a2, t3, x2);
    lemma_held_in_both(a3, t4, x2);
    lemma_held_in_both(a4, t5, x2);
    lemma_held_in_both(a5, t6, x2);
    lemma_held_in_both(a6, t7, x2);
    lemma_held_in_both(a7, t8, x2);
    lemma_held_in_both(a8, t9, x2);
    lemma_held_in_both(a9, t10, x2);
    let x3 = counter_line("localllm_embeddings_requests_total"@, m.embeddings_requests_total as nat);
    lemma_held_in_both(a2, t3, x3);
    lemma_held_in_both(a3, t4, x3);
    lemma_held_in_both(a4, t5, x3);
    lemma_held_in_both(a5, t6, x3);
    lemma_held_in_both(a6, t7, x3);
    lemma_held_in_both(a7, t8, x3);
    lemma_held_in_both(a8, t9, x3);
    lemma_held_in_both(a9, t10, x3);
    let x4 = counter_line("localllm_model_loads_total"@, m.model_loads_total as nat);
    lemma_held_in_both(a3, t4, x4);
    lemma_held_in_both(a4, t5, x4);
    lemma_held_in_both(a5, t6, x4);
    lemma_held_in_both(a6, t7, x4);
    lemma_held_in_both(a7, t8, x4);
    lemma_held_in_both(a8, t9, x4);
    lemma_held_in_both(a9, t10, x4);
    let x5 = counter_line("localllm_model_pulls_total"@, m.model_pulls_total as nat);
    lemma_held_in_both(a4, t5, x5);
    lemma_held_in_both(a5, t6, x5);
    lemma_held_in_both(a6, t7, x5);
    lemma_held_in_both(a7, t8, x5);
    lemma_held_in_both(a8, t9, x5);
    lemma_held_in_both(a9, t10, x5);
    let x6 = counter_line("localllm_bytes_proxied_total"@, m.bytes_proxied_total as nat);
    lemma_held_in_both(a5, t6, x6);
    lemma_held_in_both(a6, t7, x6);
    lemma_held_in_both(a7, t8, x6);
    lemma_held_in_both(a8, t9, x6);
    lemma_held_in_both(a9, t10, x6);
    let x7 = counter_line("localllm_errors_total"@, m.errors_total as nat);
    lemma_held_in_both(a6, t7, x7);
    lemma_held_in_both(a7, t8, x7);
    lemma_held_in_both(a8, t9, x7);
    lemma_held_in_both(a9, t10, x7);
    let x8 = counter_line("localllm_tokens_generated_total"@, m.tokens_generated_total as nat);
    lemma_held_in_both(a7, t8, x8);
    lemma_held_in_both(a8, t9, x8);
    lemma_held_in_both(a9, t10, x8);
    let x9 = counter_line("localllm_prompt_tokens_total"@, m.prompt_tokens_total as nat);
    lemma_held_in_both(a8, t9, x9);
    lemma_held_in_both(a9, t10, x9);
    let x10 = counter_line("localllm_models_loaded"@, loaded as nat);
    lemma_held_in_both(a9, t10, x10);
    assert(a10 == metrics::exposition(m, loaded));
}

// --------------------------------------------------------------------- disk space

/// What no manifest refers to is an orphan: every entry that is no path of a model and
/// holds none is listed to be cleaned up.
pub proof fn law_what_no_model_needs_is_an_orphan(
    entries: Seq<Seq<char>>,
    referenced: Seq<Seq<char>>,
    separator: char,
    i: int,
)
    requires
        0 <= i < entries.len(),
        forall|k: int|
            0 <= k < referenced.len() ==> !paths::lies_below(
                #[trigger] referenced[k],
                entries[i],
                separator,
            ),
    ensures
        disk::orphans_of(entries, referenced, separator).contains(entries[i]),
    decreases entries.len(),
{
    let before = disk::orphans_of(entries.drop_last(), referenced, separator);
    let all = disk::orphans_of(entries, referenced, separator);
    if i < entries.len() - 1 {
        assert(entries.drop_last()[i] == entries[i]);
        law_what_no_model_needs_is_an_orphan(entries.drop_last(), referenced, separator, i);
        let k = before.index_of(entries[i]);
        assert(all[k] == entries[i]);
    } else {
        assert(all[before.len() as int] == entries[i]);
    }
}

/// A manifest refers to the paths of its files that are there, and to no others.
pub proof fn law_manifest_refers_to_its_files(m: ManifestView, p: Seq<char>)
    ensures
        disk::paths_of(m, true, true).contains(m.local_path),
        m.gguf_path matches Some(g) ==> disk::paths_of(m, true, true).contains(g)
            && disk::paths_of(m, false, true).contains(g),
        disk::paths_of(m, true, true).contains(p) ==> p == m.local_path || m.gguf_path == Some(p),
        disk::paths_of(m, false, false).len() == 0,
{
    let both = disk::paths_of(m, true, true);
    assert(both[0] == m.local_path);
    if let Some(g) = m.gguf_path {
        assert(both[1] == g);
        assert(disk::paths_of(m, false, true)[0] == g);
    }
}

/// A directory holds itself and what stands behind it and a separator; what merely
/// begins with the same letters lies beside it.
pub proof fn law_only_what_is_inside_lies_below(dir: Seq<char>, c: char, rest: Seq<char>)
    requires
        dir.len() > 0,
        dir.last() != '/',
    ensures
        paths::lies_below(dir, dir, '/'),
        paths::lies_below(dir.push('/') + rest, dir, '/'),
        c != '/' ==> !paths::lies_below(dir.push(c) + rest, dir, '/'),
        !paths::lies_below(dir.drop_last(), dir, '/'),
{
    let d = paths::unified(dir, '/');
    assert(d =~= dir);
    let s = dir.push('/') + rest;
    let t = dir.push(c) + rest;
    assert(paths::unified(s, '/') =~= s);
    assert(paths::unified(t, '/') =~= t);
    assert(paths::unified(dir.drop_last(), '/') =~= dir.drop_last());
    assert(s.subrange(0, dir.len() as int) =~= dir);
    assert(dir.subrange(0, dir.len() as int) =~= dir);
    assert(t[dir.len() as int] == c);
}

/// The space that models take adds up, model by model, of both their directory and their
/// GGUF file.
pub proof fn law_usage_adds_up(a: Seq<DiskUsageEntry>, b: Seq<DiskUsageEntry>, e: DiskUsageEntry)
    ensures
        disk::usage_of(Seq::empty()) == 0,
        disk::usage_of(seq![e]) == e.local_path_bytes + e.gguf_bytes,
        disk::usage_of(a + b) == disk::usage_of(a) + disk::usage_of(b),
    decreases b.len(),
{
    assert(seq![e].drop_last() =~= Seq::<DiskUsageEntry>::empty());
    if b.len() == 0 {
        assert(a + b =~= a);
    } else {
        assert((a + b).drop_last() =~= a + b.drop_last());
        assert((a + b).last() == b.last());
        law_usage_adds_up(a, b.drop_last(), e);
    }
}

/// Sizes add up.
pub proof fn law_sizes_add_up(a: Seq<u64>, b: Seq<u64>, n: u64)
    ensures
        disk::sum_of(Seq::empty()) == 0,
        disk::sum_of(seq![n]) == n,
        disk::sum_of(a + b) == disk::sum_of(a) + disk::sum_of(b),
    decreases b.len(),
{
    assert(seq![n].drop_last() =~= Seq::<u64>::empty());
    if b.len() == 0 {
        assert(a + b =~= a);
    } else {
        assert((a + b).drop_last() =~= a + b.drop_last());
        assert((a + b).last() == b.last());
        law_sizes_add_up(a, b.drop_last(), n);
    }
}

/// Every removal is reported once: as removed where it went well, else as an error that
/// names the path and the reason.
pub proof fn law_every_removal_is_reported(s: Seq<RemovalOutcome>, i: int)
    requires
        0 <= i < s.len(),
    ensures
        disk::removed_of(s).len() + disk::errors_of(s).len() == s.len(),
        s[i].error is None ==> disk::removed_of(s).contains(s[i].path@),
        s[i].error matches Some(e) ==> disk::errors_of(s).contains(s[i].path@ + ": "@ + e@),
    decreases s.len(),
{
    lemma_reports_add_up(s);
    let front = s.drop_last();
    if i < s.len() - 1 {
        law_every_removal_is_reported(front, i);
        assert(front[i] == s[i]);
        if s[i].error is None {
            let k = disk::removed_of(front).index_of(s[i].path@);
            assert(disk::removed_of(s)[k] == s[i].path@);
        }
        if let Some(e) = s[i].error {
            let k = disk::errors_of(front).index_of(s[i].path@ + ": "@ + e@);
            assert(disk::errors_of(s)[k] == s[i].path@ + ": "@ + e@);
        }
    } else {
        if s[i].error is None {
            assert(disk::removed_of(s)[disk::removed_of(front).len() as int] == s[i].path@);
        }
        if let Some(e) = s[i].error {
            assert(disk::errors_of(s)[disk::errors_of(front).len() as int] == s[i].path@ + ": "@
                + e@);
        }
    }
}

proof fn lemma_reports_add_up(s: Seq<RemovalOutcome>)
    ensures
        disk::removed_of(s).len() + disk::errors_of(s).len() == s.len(),
    decreases s.len(),
{
    if s.len() > 0 {
        lemma_reports_add_up(s.drop_last());
    }
}

// -------------------------------------------------------------------- descriptions

/// What else is told of a model are its context length, the number of its files and its
/// revision.
pub proof fn law_model_info_is_the_models_own(m: ManifestView, billions: Option<u64>)
    requires
        m.files.len() <= u64::MAX,
    ensures
        ({
            let v = listing::model_info_value(m, billions);
            &&& json::unsigned_in(json::member(v, "context_length"@)) == Some(
                m.context_length as u64,
            )
            &&& json::unsigned_in(json::member(v, "files"@)) == Some(m.files.len() as u64)
            &&& json::string_in(json::member(v, "revision"@)) == Some(m.revision)
            &&& json::string_in(json::member(v, "downloaded_at"@)) == Some(
                crate::time::text_of_time(m.downloaded_at),
            )
        }),
{
    reveal_strlit("context_length");
    reveal_strlit("parameters_billion");
    reveal_strlit("files");
    reveal_strlit("revision");
    reveal_strlit("downloaded_at");
    assert("context_length"@.len() == 14 && "parameters_billion"@.len() == 18 && "files"@.len()
        == 5 && "revision"@.len() == 8 && "downloaded_at"@.len() == 13);
    let o = request_laws::members_of(listing::model_info_value(m, billions));
    lemma_lookup_at(o, 0, "context_length"@);
    lemma_lookup_at(o, 2, "files"@);
    lemma_lookup_at(o, 3, "revision"@);
    lemma_lookup_at(o, 4, "downloaded_at"@);
}

/// As many lines of a log are told as are asked for, and a hundred where none are.
pub proof fn law_lines_are_as_asked(n: usize)
    ensures
        listing::lines_asked(Some(n)) == n,
        listing::lines_asked(None) == 100,
{
}

/// The report on a clean-up tells what was removed and what could not be.
pub proof fn law_clean_up_tells_both(s: Seq<RemovalOutcome>)
    ensures
        json::member(disk::cleanup_value(s), "removed"@) == Some(
            json::text_list_view(disk::removed_of(s)),
        ),
        json::member(disk::cleanup_value(s), "errors"@) == Some(
            json::text_list_view(disk::errors_of(s)),
        ),
{
    reveal_strlit("removed");
    reveal_strlit("errors");
    assert("removed"@.len() == 7 && "errors"@.len() == 6);
    let o = request_laws::members_of(disk::cleanup_value(s));
    lemma_lookup_at(o, 0, "removed"@);
    lemma_lookup_at(o, 1, "errors"@);
}

/// Texts are listed in order, each as a text.
pub proof fn law_texts_are_listed_in_order(s: Seq<Seq<char>>, i: int)
    requires
        0 <= i < s.len(),
    ensures
        json::text_list_view(s) matches JsonView::Array(a) && a.len() == s.len() && a[i]
            == JsonView::Str(s[i]),
        json::string_in(Some(json::nullable_view(Some(s[i])))) == Some(s[i]),
        json::nullable_view(None) == JsonView::Null,
{
}

} // verus!
