//! The daemon's counters, and their text for a metrics scraper.
use crate::number;
use crate::text;
use vstd::prelude::*;

verus! {

broadcast use vstd::string::group_string_axioms;

/// What the daemon has counted since it started.
#[derive(Debug, Clone, Copy, PartialEq, Eq, Structural)]
pub struct Metrics {
    pub requests_total: u64,
    pub chat_requests_total: u64,
    pub completion_requests_total: u64,
    pub embeddings_requests_total: u64,
    pub model_loads_total: u64,
    pub model_pulls_total: u64,
    pub bytes_proxied_total: u64,
    pub errors_total: u64,
    /// Tokens generated over all streams: about one per word.
    pub tokens_generated_total: u64,
    /// Prompt tokens as the model servers report them.
    pub prompt_tokens_total: u64,
}

/// The counters by name.
#[derive(Debug, Clone, Copy, PartialEq, Eq, Structural)]
pub enum Counter {
    Requests,
    ChatRequests,
    CompletionRequests,
    EmbeddingsRequests,
    ModelLoads,
    ModelPulls,
    BytesProxied,
    Errors,
}

/// The counters with `n` added to one of them, which starts anew when it is full.
pub open spec fn added(m: Metrics, c: Counter, n: u64) -> Metrics {
    match c {
        Counter::Requests => Metrics { requests_total: number::wrapped(m.requests_total + n) as u64, ..m },
        Counter::ChatRequests => Metrics {
            chat_requests_total: number::wrapped(m.chat_requests_total + n) as u64,
            ..m
        },
        Counter::CompletionRequests => Metrics {
            completion_requests_total: number::wrapped(m.completion_requests_total + n) as u64,
            ..m
        },
        Counter::EmbeddingsRequests => Metrics {
            embeddings_requests_total: number::wrapped(m.embeddings_requests_total + n) as u64,
            ..m
        },
        Counter::ModelLoads => Metrics { model_loads_total: number::wrapped(m.model_loads_total + n) as u64, ..m },
        Counter::ModelPulls => Metrics { model_pulls_total: number::wrapped(m.model_pulls_total + n) as u64, ..m },
        Counter::BytesProxied => Metrics {
            bytes_proxied_total: number::wrapped(m.bytes_proxied_total + n) as u64,
            ..m
        },
        Counter::Errors => Metrics { errors_total: number::wrapped(m.errors_total + n) as u64, ..m },
    }
}

/// The text of one counter.
pub open spec fn metric_text(
    name: Seq<char>,
    help: Seq<char>,
    kind: Seq<char>,
    value: nat,
) -> Seq<char> {
    "# HELP "@ + name + " "@ + help + "\n# TYPE "@ + name + " "@ + kind + "\n"@ + name + " "@
        + number::decimal(value) + "\n"@
}

/// The text of all counters, and of how many model processes run.
pub open spec fn exposition(m: Metrics, loaded: u64) -> Seq<char> {
    metric_text(
        "localllm_requests_total"@,
        "Total HTTP requests received"@,
        "counter"@,
        m.requests_total as nat,
    ) + metric_text(
        "localllm_chat_requests_total"@,
        "Total chat completion requests"@,
        "counter"@,
        m.chat_requests_total as nat,
    ) + metric_text(
        "localllm_completion_requests_total"@,
        "Total text completion requests"@,
        "counter"@,
        m.completion_requests_total as nat,
    ) + metric_text(
        "localllm_embeddings_requests_total"@,
        "Total embeddings requests"@,
        "counter"@,
        m.embeddings_requests_total as nat,
    ) + metric_text(
        "localllm_model_loads_total"@,
        "Total model load events"@,
        "counter"@,
        m.model_loads_total as nat,
    ) + metric_text(
        "localllm_model_pulls_total"@,
        "Total model pull events"@,
        "counter"@,
        m.model_pulls_total as nat,
    ) + metric_text(
        "localllm_bytes_proxied_total"@,
        "Bytes proxied through inference endpoints"@,
        "counter"@,
        m.bytes_proxied_total as nat,
    ) + metric_text(
        "localllm_errors_total"@,
        "Errors returned to clients"@,
        "counter"@,
        m.errors_total as nat,
    ) + metric_text(
        "localllm_tokens_generated_total"@,
        "Approx generation tokens streamed back to clients"@,
        "counter"@,
        m.tokens_generated_total as nat,
    ) + metric_text(
        "localllm_prompt_tokens_total"@,
        "Prompt tokens reported by upstream usage field"@,
        "counter"@,
        m.prompt_tokens_total as nat,
    ) + metric_text(
        "localllm_models_loaded"@,
        "Currently loaded inference processes"@,
        "gauge"@,
        loaded as nat,
    )
}

fn push_metric(out: &mut Vec<char>, name: &str, help: &str, kind: &str, value: u64)
    ensures
        final(out)@ == old(out)@ + metric_text(name@, help@, kind@, value as nat),
{
    text::push_text(out, "# HELP ");
    text::push_text(out, name);
    text::push_text(out, " ");
    text::push_text(out, help);
    text::push_text(out, "\n# TYPE ");
    text::push_text(out, name);
    text::push_text(out, " ");
    text::push_text(out, kind);
    text::push_text(out, "\n");
    text::push_text(out, name);
    text::push_text(out, " ");
    let digits = number::to_decimal(value);
    text::push_text(out, digits.as_str());
    text::push_text(out, "\n");
}

impl Default for Metrics {
    fn default() -> (r: Self)
        ensures
            r == (Metrics {
                requests_total: 0,
                chat_requests_total: 0,
                completion_requests_total: 0,
                embeddings_requests_total: 0,
                model_loads_total: 0,
                model_pulls_total: 0,
                bytes_proxied_total: 0,
                errors_total: 0,
                tokens_generated_total: 0,
                prompt_tokens_total: 0,
            }),
    {
        Metrics {
            requests_total: 0,
            chat_requests_total: 0,
            completion_requests_total: 0,
            embeddings_requests_total: 0,
            model_loads_total: 0,
            model_pulls_total: 0,
            bytes_proxied_total: 0,
            errors_total: 0,
            tokens_generated_total: 0,
            prompt_tokens_total: 0,
        }
    }
}

fn wrapping_sum(a: u64, b: u64) -> (r: u64)
    ensures
        r == number::wrapped(a + b),
{
    a.wrapping_add(b)
}

impl Metrics {
    /// Adds `n` to a counter.
    pub fn count(&mut self, c: Counter, n: u64)
        ensures
            *final(self) == added(*old(self), c, n),
    {
        match c {
            Counter::Requests => {
                self.requests_total = wrapping_sum(self.requests_total, n);
            },
            Counter::ChatRequests => {
                self.chat_requests_total = wrapping_sum(self.chat_requests_total, n);
            },
            Counter::CompletionRequests => {
                self.completion_requests_total = wrapping_sum(self.completion_requests_total, n);
            },
            Counter::EmbeddingsRequests => {
                self.embeddings_requests_total = wrapping_sum(self.embeddings_requests_total, n);
            },
            Counter::ModelLoads => {
                self.model_loads_total = wrapping_sum(self.model_loads_total, n);
            },
            Counter::ModelPulls => {
                self.model_pulls_total = wrapping_sum(self.model_pulls_total, n);
            },
            Counter::BytesProxied => {
                self.bytes_proxied_total = wrapping_sum(self.bytes_proxied_total, n);
            },
            Counter::Errors => {
                self.errors_total = wrapping_sum(self.errors_total, n);
            },
        }
    }

    /// Writes the counters, and how many model processes run, for a scraper.
    pub fn render(&self, loaded: u64) -> (r: String)
        ensures
            r@ == exposition(*self, loaded),
    {
        let mut out: Vec<char> = Vec::new();
        push_metric(
            &mut out,
            "localllm_requests_total",
            "Total HTTP requests received",
            "counter",
            self.requests_total,
        );
        assert(out@ =~= metric_text(
            "localllm_requests_total"@,
            "Total HTTP requests received"@,
            "counter"@,
            self.requests_total as nat,
        ));
        push_metric(
            &mut out,
            "localllm_chat_requests_total",
            "Total chat completion requests",
            "counter",
            self.chat_requests_total,
        );
        push_metric(
            &mut out,
            "localllm_completion_requests_total",
            "Total text completion requests",
            "counter",
            self.completion_requests_total,
        );
        push_metric(
            &mut out,
            "localllm_embeddings_requests_total",
            "Total embeddings requests",
            "counter",
            self.embeddings_requests_total,
        );
        push_metric(
            &mut out,
            "localllm_model_loads_total",
            "Total model load events",
            "counter",
            self.model_loads_total,
        );
        push_metric(
            &mut out,
            "localllm_model_pulls_total",
            "Total model pull events",
            "counter",
            self.model_pulls_total,
        );
        push_metric(
            &mut out,
            "localllm_bytes_proxied_total",
            "Bytes proxied through inference endpoints",
            "counter",
            self.bytes_proxied_total,
        );
        push_metric(
            &mut out,
            "localllm_errors_total",
            "Errors returned to clients",
            "counter",
            self.errors_total,
        );
        push_metric(
            &mut out,
            "localllm_tokens_generated_total",
            "Approx generation tokens streamed back to clients",
            "counter",
            self.tokens_generated_total,
        );
        push_metric(
            &mut out,
            "localllm_prompt_tokens_total",
            "Prompt tokens reported by upstream usage field",
            "counter",
            self.prompt_tokens_total,
        );
        push_metric(
            &mut out,
            "localllm_models_loaded",
            "Currently loaded inference processes",
            "gauge",
            loaded,
        );
        text::string_of(out.as_slice())
    }
}

} // verus!
