//! Downloads on request: what is fetched, step by step, and what the client is
//! told on the way.
use crate::api::health::count_view;
use crate::api::json;
use crate::api::json::{nullable_json, put, str_json, unsigned_json, Json, JsonView};
use crate::api::listing;
use crate::api::listing::float_json;
use crate::api::routes;
use crate::api::routes::{quantized, requested_level};
use crate::api::types;
use crate::api::types::{sentence, ApiError, ErrorView};
use crate::downloader::file_manager;
use crate::downloader::file_manager::{ModelMeta, PullProgress};
use crate::downloader::hf_api::FileView;
use crate::inference::launch;
use crate::registry::manifest;
use crate::registry::manifest::{ManifestView, ModelManifest, QuantizationLevel};
use crate::registry::modelfile;
use crate::time::Timestamp;
use vstd::prelude::*;
use vstd::string::StringExecFns;

verus! {

broadcast use {vstd::string::group_string_axioms, crate::api::json::lemma_json_view};

// -------------------------------------------------------------------- dispatch

/// The two shapes of a download request.
#[derive(Debug)]
pub enum PullShape {
    /// The Ollama shape: a name, and whether to stream.
    Ollama { name: String, stream: bool },
    /// The native shape.
    Native,
}

/// A request has the Ollama shape: it has a name and no repository id.
pub open spec fn is_ollama_shape(v: JsonView) -> bool {
    json::member(v, "name"@) is Some && json::member(v, "repo_id"@) is None
}

/// Tells the shape of a download request.
pub fn pull_shape(body: &Json) -> (r: Result<PullShape, ApiError>)
    ensures
        match r {
            Ok(PullShape::Ollama { name, stream }) => is_ollama_shape(body@) && json::string_in(
                json::member(body@, "name"@),
            ) == Some(name@) && stream == routes::wants_stream(body@, true),
            Ok(PullShape::Native) => !is_ollama_shape(body@),
            Err(e) => is_ollama_shape(body@) && json::string_in(
                json::member(body@, "name"@),
            ) is None && e@ == types::bad_request_view("Missing 'name' field"@),
        },
{
    if body.get("name").is_some() && body.get("repo_id").is_none() {
        match body.get_str("name") {
            Some(n) => {
                let stream: bool = match body.get_bool("stream") {
                    Some(b) => b,
                    None => true,
                };
                Ok(PullShape::Ollama { name: n.clone(), stream })
            },
            None => Err(ApiError::bad_request(String::from_str("Missing 'name' field"))),
        }
    } else {
        Ok(PullShape::Native)
    }
}

/// The access token of a request that is to stand in for the daemon's own.
pub fn own_token(hf_token: Option<&str>) -> (r: Option<&str>)
    ensures
        match hf_token {
            Some(t) => r == if t@.len() > 0 {
                Some(t)
            } else {
                None
            },
            None => r is None,
        },
{
    match hf_token {
        Some(t) => {
            if t.is_empty() {
                None
            } else {
                Some(t)
            }
        },
        None => None,
    }
}

/// The level to fetch: the one asked for; else the usual one where there is no GPU
/// to run full weights on, and none where there is.
pub open spec fn level_to_fetch(requested: Option<Seq<char>>, has_gpu: bool) -> Option<Seq<char>> {
    match requested {
        Some(q) => Some(q),
        None => if has_gpu {
            None
        } else {
            Some("Q4_K_M"@)
        },
    }
}

/// The level to fetch.
pub fn effective_pull_quant(requested: Option<&str>, has_gpu: bool) -> (r: Option<String>)
    ensures
        modelfile::text_option(r) == level_to_fetch(
            match requested {
                Some(q) => Some(q@),
                None => None,
            },
            has_gpu,
        ),
{
    match requested {
        Some(q) => Some(String::from_str(q)),
        None => {
            if has_gpu {
                None
            } else {
                Some(String::from_str("Q4_K_M"))
            }
        },
    }
}

// ------------------------------------------------------------------------- job

/// Where a download stands.
#[derive(Debug, Clone, Copy, PartialEq, Eq, Structural)]
pub enum PullPhase {
    /// A prebuilt GGUF file is to be fetched.
    FetchGguf,
    /// The full weights are to be fetched.
    FetchWeights,
    /// The weights are to be converted to the wanted level.
    Convert,
    /// The manifest is to be saved.
    Save,
    /// All is done.
    Done,
    /// It failed.
    Failed,
}

/// What came of a step.
#[derive(Debug)]
pub enum PullEvent {
    /// What was to be fetched is there.
    Fetched(ModelManifest),
    /// It could not be fetched.
    FetchFailed(String),
    /// The converted file is at this path.
    Converted(String),
    /// It could not be converted.
    ConvertFailed(String),
    /// The manifest is saved.
    Saved,
    /// It could not be saved.
    SaveFailed(String),
}

/// What came of a step, as text.
pub enum EventView {
    Fetched(ManifestView),
    FetchFailed(Seq<char>),
    Converted(Seq<char>),
    ConvertFailed(Seq<char>),
    Saved,
    SaveFailed(Seq<char>),
}

impl View for PullEvent {
    type V = EventView;

    open spec fn view(&self) -> EventView {
        match self {
            PullEvent::Fetched(m) => EventView::Fetched(m@),
            PullEvent::FetchFailed(e) => EventView::FetchFailed(e@),
            PullEvent::Converted(p) => EventView::Converted(p@),
            PullEvent::ConvertFailed(e) => EventView::ConvertFailed(e@),
            PullEvent::Saved => EventView::Saved,
            PullEvent::SaveFailed(e) => EventView::SaveFailed(e@),
        }
    }
}

/// A download in progress.
#[derive(Debug)]
pub struct PullJob {
    streaming: bool,
    repo_id: String,
    quant: Option<String>,
    has_engine: bool,
    gguf_error: Option<String>,
    phase: PullPhase,
    manifest: Option<ModelManifest>,
    error: Option<ApiError>,
}

/// A download in progress, as text.
#[verifier::ext_equal]
pub struct JobView {
    pub streaming: bool,
    pub repo_id: Seq<char>,
    pub quant: Option<Seq<char>>,
    pub has_engine: bool,
    pub gguf_error: Option<Seq<char>>,
    pub phase: PullPhase,
    pub manifest: Option<ManifestView>,
    pub error: Option<ErrorView>,
}

impl View for PullJob {
    type V = JobView;

    closed spec fn view(&self) -> JobView {
        JobView {
            streaming: self.streaming,
            repo_id: self.repo_id@,
            quant: modelfile::text_option(self.quant),
            has_engine: self.has_engine,
            gguf_error: modelfile::text_option(self.gguf_error),
            phase: self.phase,
            manifest: match self.manifest {
                Some(m) => Some(m@),
                None => None,
            },
            error: match self.error {
                Some(e) => Some(e@),
                None => None,
            },
        }
    }
}

/// What a download that failed has come to.
pub open spec fn failed(j: JobView, error: ErrorView) -> JobView {
    JobView { phase: PullPhase::Failed, error: Some(error), ..j }
}

/// The hint where weights cannot be fetched.
pub open spec fn token_hint() -> Seq<char> {
    "Verify HF_TOKEN if pulling a private model"@
}

/// The hint where there is no prebuilt file and no way to convert.
pub open spec fn convert_hint() -> Seq<char> {
    "Set llama_cpp_dir + install Python/torch to convert, or pick a model with a GGUF release"@
}

/// The level that a download wants.
pub open spec fn wanted_level(j: JobView) -> Option<QuantizationLevel> {
    match j.quant {
        Some(q) => routes::level_of(q),
        None => None,
    }
}

/// Why a streamed conversion failed: after the prebuilt file, for this reason.
pub open spec fn both_failed(j: JobView, reason: Seq<char>) -> ErrorView {
    types::internal_view(
        match j.gguf_error {
            Some(g) => g + ". Also failed safetensors conversion: "@ + reason,
            None => reason,
        },
        None,
    )
}

/// A download as it begins. With a level it goes for a prebuilt file first; without
/// one for the full weights. A level that is not known fails at once, except in a
/// stream, where it comes to light when it is needed.
pub open spec fn begun(
    streaming: bool,
    repo_id: Seq<char>,
    quant: Option<Seq<char>>,
    has_engine: bool,
) -> JobView {
    let fresh = JobView {
        streaming,
        repo_id,
        quant,
        has_engine,
        gguf_error: None,
        phase: if quant is Some {
            PullPhase::FetchGguf
        } else {
            PullPhase::FetchWeights
        },
        manifest: None,
        error: None,
    };
    match quant {
        Some(q) => if !streaming && routes::level_of(q) is None {
            failed(fresh, types::bad_request_view("Unknown quantization level: "@ + q))
        } else {
            fresh
        },
        None => fresh,
    }
}

/// A download after the weights were fetched.
pub open spec fn after_weights(j: JobView, m: ManifestView) -> JobView {
    match j.quant {
        None => JobView { phase: PullPhase::Save, manifest: Some(m), ..j },
        Some(q) => if wanted_level(j) is None {
            failed(j, both_failed(j, "Unknown quantization level: "@ + q))
        } else {
            JobView { phase: PullPhase::Convert, manifest: Some(m), ..j }
        },
    }
}

/// A download after the weights could not be fetched.
pub open spec fn after_no_weights(j: JobView, e: Seq<char>) -> JobView {
    failed(
        j,
        if j.streaming {
            both_failed(j, e)
        } else {
            types::internal_view(e, Some(token_hint()))
        },
    )
}

/// Why weights cannot be converted where there is no engine.
pub open spec fn conversion_obstacle(j: JobView) -> Seq<char> {
    match j.quant {
        Some(q) => if wanted_level(j) is None {
            "Unknown quantization level: "@ + q
        } else {
            "llama_cpp_dir not configured for conversion"@
        },
        None => "llama_cpp_dir not configured for conversion"@,
    }
}

/// A download after no prebuilt file was found: it goes for the weights, unless
/// nothing could convert them.
pub open spec fn after_no_gguf(j: JobView, e: Seq<char>) -> JobView {
    let told = JobView { gguf_error: Some(e), ..j };
    if j.has_engine {
        JobView { phase: PullPhase::FetchWeights, ..told }
    } else if j.streaming {
        failed(told, both_failed(told, conversion_obstacle(told)))
    } else {
        failed(
            j,
            types::internal_view(
                "No prebuilt GGUF found for '"@ + j.repo_id
                    + "' and local conversion is unavailable: "@ + e,
                Some(convert_hint()),
            ),
        )
    }
}

/// Why a conversion or a save failed.
pub open spec fn step_error(j: JobView, e: Seq<char>) -> ErrorView {
    if j.streaming {
        both_failed(j, e)
    } else {
        types::internal_view(e, None)
    }
}

/// A download after a step. What does not belong to the phase changes nothing.
pub open spec fn stepped(j: JobView, e: EventView) -> JobView {
    match (j.phase, e) {
        (PullPhase::FetchGguf, EventView::Fetched(m)) => JobView {
            phase: PullPhase::Save,
            manifest: Some(m),
            ..j
        },
        (PullPhase::FetchGguf, EventView::FetchFailed(t)) => after_no_gguf(j, t),
        (PullPhase::FetchWeights, EventView::Fetched(m)) => after_weights(j, m),
        (PullPhase::FetchWeights, EventView::FetchFailed(t)) => after_no_weights(j, t),
        (PullPhase::Convert, EventView::Converted(p)) => match (j.manifest, wanted_level(j)) {
            (Some(m), Some(l)) => JobView {
                phase: PullPhase::Save,
                manifest: Some(
                    ManifestView { gguf_path: Some(p), quantization: Some(l), ..m },
                ),
                ..j
            },
            _ => j,
        },
        (PullPhase::Convert, EventView::ConvertFailed(t)) => failed(j, step_error(j, t)),
        (PullPhase::Save, EventView::Saved) => JobView { phase: PullPhase::Done, ..j },
        (PullPhase::Save, EventView::SaveFailed(t)) => failed(j, step_error(j, t)),
        _ => j,
    }
}

/// What a client that follows a download is told after a step, if anything.
pub open spec fn announced(before: JobView, after: JobView) -> Option<Seq<char>> {
    if before.phase == PullPhase::FetchGguf && after.phase == PullPhase::FetchWeights {
        Some("no prebuilt GGUF — converting from safetensors"@)
    } else if before.phase == PullPhase::FetchWeights && after.phase == PullPhase::Convert {
        match after.quant {
            Some(q) => Some("quantizing to "@ + q),
            None => None,
        }
    } else {
        None
    }
}

/// A download has what its phase needs.
pub open spec fn job_wf(j: JobView) -> bool {
    &&& (j.phase == PullPhase::Convert || j.phase == PullPhase::Save || j.phase == PullPhase::Done)
        ==> j.manifest is Some
    &&& j.phase == PullPhase::Failed ==> j.error is Some
    &&& j.phase == PullPhase::Convert ==> wanted_level(j) is Some && j.has_engine
    &&& j.phase == PullPhase::FetchGguf ==> j.quant is Some
    &&& j.phase == PullPhase::FetchWeights && j.quant is Some ==> j.has_engine
}

impl PullJob {
    #[verifier::type_invariant]
    spec fn is_ready(self) -> bool {
        job_wf(self@)
    }

    fn fail(&mut self, error: ApiError)
        ensures
            final(self)@ == failed(old(self)@, error@),
    {
        proof {
            use_type_invariant(&*self);
        }
        self.error = Some(error);
        self.phase = PullPhase::Failed;
    }

    /// Begins a download of a repository's model at a level, if one is wanted.
    /// `has_engine` tells whether weights can be converted here.
    pub fn begin(
        streaming: bool,
        repo_id: &str,
        quant: Option<&str>,
        has_engine: bool,
    ) -> (r: Self)
        ensures
            r@ == begun(
                streaming,
                repo_id@,
                match quant {
                    Some(q) => Some(q@),
                    None => None,
                },
                has_engine,
            ),
    {
        let phase: PullPhase = match quant {
            Some(_) => PullPhase::FetchGguf,
            None => PullPhase::FetchWeights,
        };
        let wanted: Option<String> = match quant {
            Some(q) => Some(String::from_str(q)),
            None => None,
        };
        let mut job = PullJob {
            streaming,
            repo_id: String::from_str(repo_id),
            quant: wanted,
            has_engine,
            gguf_error: None,
            phase,
            manifest: None,
            error: None,
        };
        if !streaming {
            if let Some(q) = quant {
                if let Err(e) = requested_level(q) {
                    job.fail(e);
                }
            }
        }
        job
    }

    /// What is to be done next. The download has what that needs.
    pub fn phase(&self) -> (r: PullPhase)
        ensures
            r == self@.phase,
            job_wf(self@),
    {
        proof {
            use_type_invariant(self);
        }
        self.phase
    }

    /// The manifest, as far as it is there.
    pub fn manifest(&self) -> (r: Option<&ModelManifest>)
        ensures
            match r {
                Some(m) => self@.manifest == Some(m@),
                None => self@.manifest is None,
            },
    {
        match &self.manifest {
            Some(m) => Some(m),
            None => None,
        }
    }

    /// Why the download failed.
    pub fn error(&self) -> (r: Option<&ApiError>)
        ensures
            match r {
                Some(e) => self@.error == Some(e@),
                None => self@.error is None,
            },
    {
        match &self.error {
            Some(e) => Some(e),
            None => None,
        }
    }

    /// The level to convert to.
    pub fn level(&self) -> (r: Option<QuantizationLevel>)
        ensures
            r == wanted_level(self@),
    {
        match &self.quant {
            Some(q) => QuantizationLevel::from_str(q.as_str()),
            None => None,
        }
    }

    fn both_failed(&self, reason: String) -> (r: ApiError)
        ensures
            r@ == both_failed(self@, reason@),
    {
        match &self.gguf_error {
            Some(g) => {
                let mut message = sentence(g.as_str(), ". Also failed safetensors conversion: ");
                message.append(reason.as_str());
                ApiError::internal(message)
            },
            None => ApiError::internal(reason),
        }
    }

    fn step_failed(&mut self, reason: String)
        ensures
            final(self)@ == failed(old(self)@, step_error(old(self)@, reason@)),
    {
        let error: ApiError = if self.streaming {
            self.both_failed(reason)
        } else {
            ApiError::internal(reason)
        };
        self.fail(error);
    }

    fn no_gguf(&mut self, reason: String)
        requires
            old(self)@.phase == PullPhase::FetchGguf,
        ensures
            final(self)@ == after_no_gguf(old(self)@, reason@),
    {
        if self.has_engine {
            proof {
                use_type_invariant(&*self);
            }
            self.gguf_error = Some(reason);
            self.phase = PullPhase::FetchWeights;
        } else if self.streaming {
            proof {
                use_type_invariant(&*self);
            }
            self.gguf_error = Some(reason);
            let obstacle: String = match &self.quant {
                Some(q) => if self.level().is_none() {
                    sentence("Unknown quantization level: ", q.as_str())
                } else {
                    String::from_str("llama_cpp_dir not configured for conversion")
                },
                None => String::from_str("llama_cpp_dir not configured for conversion"),
            };
            let error = self.both_failed(obstacle);
            self.fail(error);
        } else {
            let mut message = sentence("No prebuilt GGUF found for '", self.repo_id.as_str());
            message.append("' and local conversion is unavailable: ");
            message.append(reason.as_str());
            let error = ApiError::internal(message).with_hint(
                String::from_str(
                    "Set llama_cpp_dir + install Python/torch to convert, or pick a model with a GGUF release",
                ),
            );
            self.fail(error);
        }
    }

    fn weights_fetched(&mut self, m: ModelManifest)
        requires
            old(self)@.phase == PullPhase::FetchWeights,
        ensures
            final(self)@ == after_weights(old(self)@, m@),
    {
        proof {
            use_type_invariant(&*self);
        }
        match &self.quant {
            None => {
                self.manifest = Some(m);
                self.phase = PullPhase::Save;
            },
            Some(q) => {
                if self.level().is_none() {
                    let error = self.both_failed(
                        sentence("Unknown quantization level: ", q.as_str()),
                    );
                    self.fail(error);
                } else {
                    self.manifest = Some(m);
                    self.phase = PullPhase::Convert;
                }
            },
        }
    }

    fn weights_failed(&mut self, reason: String)
        requires
            old(self)@.phase == PullPhase::FetchWeights,
        ensures
            final(self)@ == after_no_weights(old(self)@, reason@),
    {
        let error: ApiError = if self.streaming {
            self.both_failed(reason)
        } else {
            ApiError::internal(reason).with_hint(
                String::from_str("Verify HF_TOKEN if pulling a private model"),
            )
        };
        self.fail(error);
    }

    fn converted(&mut self, path: &str)
        requires
            old(self)@.phase == PullPhase::Convert,
        ensures
            final(self)@ == stepped(old(self)@, EventView::Converted(path@)),
    {
        proof {
            use_type_invariant(&*self);
        }
        let level = self.level();
        let updated: Option<ModelManifest> = match (&self.manifest, level) {
            (Some(m), Some(l)) => Some(quantized(m, l, path)),
            _ => None,
        };
        if let Some(m) = updated {
            self.manifest = Some(m);
            self.phase = PullPhase::Save;
        }
    }

    fn advance(&mut self, event: PullEvent)
        ensures
            final(self)@ == stepped(old(self)@, event@),
    {
        proof {
            use_type_invariant(&*self);
        }
        match (self.phase, event) {
            (PullPhase::FetchGguf, PullEvent::Fetched(m)) => {
                self.manifest = Some(m);
                self.phase = PullPhase::Save;
            },
            (PullPhase::FetchGguf, PullEvent::FetchFailed(t)) => {
                self.no_gguf(t);
            },
            (PullPhase::FetchWeights, PullEvent::Fetched(m)) => {
                self.weights_fetched(m);
            },
            (PullPhase::FetchWeights, PullEvent::FetchFailed(t)) => {
                self.weights_failed(t);
            },
            (PullPhase::Convert, PullEvent::Converted(p)) => {
                self.converted(p.as_str());
            },
            (PullPhase::Convert, PullEvent::ConvertFailed(t)) => {
                self.step_failed(t);
            },
            (PullPhase::Save, PullEvent::Saved) => {
                self.phase = PullPhase::Done;
            },
            (PullPhase::Save, PullEvent::SaveFailed(t)) => {
                self.step_failed(t);
            },
            _ => {},
        }
    }

    /// Takes in what came of a step, and tells what a client that follows the
    /// download is told of it.
    pub fn step(&mut self, event: PullEvent) -> (r: Option<String>)
        ensures
            final(self)@ == stepped(old(self)@, event@),
            modelfile::text_option(r) == announced(old(self)@, final(self)@),
    {
        let before: PullPhase = self.phase;
        self.advance(event);
        match (before, self.phase) {
            (PullPhase::FetchGguf, PullPhase::FetchWeights) => Some(
                String::from_str("no prebuilt GGUF — converting from safetensors"),
            ),
            (PullPhase::FetchWeights, PullPhase::Convert) => match &self.quant {
                Some(q) => Some(sentence("quantizing to ", q.as_str())),
                None => None,
            },
            _ => None,
        }
    }
}

// ---------------------------------------------------------------------- frames

/// A frame that tells a phase.
pub open spec fn status_value(status: Seq<char>) -> JsonView {
    JsonView::Object(seq![("status"@, JsonView::Str(status))])
}

/// A frame that tells a phase.
pub fn status_frame(status: &str) -> (r: Json)
    ensures
        r@ == status_value(status@),
{
    let mut members: Vec<(String, Json)> = Vec::new();
    put(&mut members, "status", str_json(status));
    assert(json::member_views(members@) =~= status_value(status@)->Object_0);
    Json::Object(members)
}

/// The frame that ends a download that failed.
pub open spec fn error_value(message: Seq<char>) -> JsonView {
    JsonView::Object(
        seq![("status"@, JsonView::Str("error"@)), ("error"@, JsonView::Str(message))],
    )
}

/// The frame that ends a download that failed.
pub fn error_frame(message: &str) -> (r: Json)
    ensures
        r@ == error_value(message@),
{
    let mut members: Vec<(String, Json)> = Vec::new();
    put(&mut members, "status", str_json("error"));
    put(&mut members, "error", str_json(message));
    assert(json::member_views(members@) =~= error_value(message@)->Object_0);
    Json::Object(members)
}

/// The frame that ends a download that is done. `billions` is the bit pattern of the
/// parameter count as a 64-bit float, where it is a number.
pub open spec fn success_value(m: ManifestView, billions: Option<u64>) -> JsonView {
    JsonView::Object(
        seq![
            ("status"@, JsonView::Str("success"@)),
            ("alias"@, JsonView::Str(m.alias)),
            ("architecture"@, JsonView::Str(m.architecture)),
            ("parameters_billion"@, listing::float_view(billions)),
            ("context_length"@, count_view(m.context_length as int)),
            ("quantization"@, json::nullable_view(listing::level_text(m.quantization))),
        ],
    )
}

/// The frame that ends a download that is done.
pub fn success_frame(m: &ModelManifest, billions: Option<u64>) -> (r: Json)
    ensures
        r@ == success_value(m@, billions),
{
    let level: Option<&str> = match m.quantization {
        Some(l) => Some(l.to_llama_str()),
        None => None,
    };
    let mut members: Vec<(String, Json)> = Vec::new();
    put(&mut members, "status", str_json("success"));
    put(&mut members, "alias", str_json(m.alias.as_str()));
    put(&mut members, "architecture", str_json(m.architecture.as_str()));
    put(&mut members, "parameters_billion", float_json(billions));
    put(&mut members, "context_length", unsigned_json(m.context_length as u64));
    put(&mut members, "quantization", nullable_json(level));
    assert(json::member_views(members@) =~= success_value(m@, billions)->Object_0);
    Json::Object(members)
}

/// How long, in milliseconds, a client waits for the next count of bytes.
pub const PROGRESS_INTERVAL_MS: u64 = 250;

/// A count of bytes as a frame.
pub open spec fn bytes_value(downloaded: u64, total: u64) -> JsonView {
    JsonView::Object(
        seq![
            ("status"@, JsonView::Str("download"@)),
            ("downloaded"@, count_view(downloaded as int)),
            ("total"@, count_view(total as int)),
        ],
    )
}

/// A count of bytes is due: the last was told long enough ago, a hundredth of all
/// bytes came since, or all bytes are there.
pub open spec fn count_is_due(downloaded: u64, total: u64, since_last_ms: u64, last: u64) -> bool {
    ||| since_last_ms >= PROGRESS_INTERVAL_MS
    ||| total > 0 && (downloaded - last) * 100 >= total
    ||| total > 0 && downloaded >= total
}

fn is_count_due(downloaded: u64, total: u64, since_last_ms: u64, last: u64) -> (r: bool)
    ensures
        r == count_is_due(downloaded, total, since_last_ms, last),
{
    since_last_ms >= PROGRESS_INTERVAL_MS || (total > 0 && downloaded >= last && (downloaded
        - last) as u128 * 100 >= total as u128) || (total > 0 && downloaded >= total)
}

/// The frame for what happens during a download, if one is due: a phase always is,
/// a count of bytes now and then. `since_last_ms` is how long ago the last count was
/// told, and `last` is that count.
pub open spec fn progress_value(p: PullProgress, since_last_ms: u64, last: u64) -> Option<
    JsonView,
> {
    match p {
        PullProgress::Status(s) => Some(status_value(s@)),
        PullProgress::Download { downloaded, total } => if count_is_due(
            downloaded,
            total,
            since_last_ms,
            last,
        ) {
            Some(bytes_value(downloaded, total))
        } else {
            None
        },
    }
}

/// The frame for what happens during a download, if one is due.
pub fn progress_frame(p: &PullProgress, since_last_ms: u64, last: u64) -> (r: Option<Json>)
    ensures
        match r {
            Some(j) => progress_value(*p, since_last_ms, last) == Some(j@),
            None => progress_value(*p, since_last_ms, last) is None,
        },
{
    match p {
        PullProgress::Status(s) => Some(status_frame(s.as_str())),
        PullProgress::Download { downloaded, total } => {
            if is_count_due(*downloaded, *total, since_last_ms, last) {
                let mut members: Vec<(String, Json)> = Vec::new();
                put(&mut members, "status", str_json("download"));
                put(&mut members, "downloaded", unsigned_json(*downloaded));
                put(&mut members, "total", unsigned_json(*total));
                assert(json::member_views(members@) =~= bytes_value(
                    *downloaded,
                    *total,
                )->Object_0);
                Some(Json::Object(members))
            } else {
                None
            }
        },
    }
}

/// What a client that follows a download is told when it begins.
pub open spec fn opening_values(j: JobView) -> Seq<JsonView> {
    if j.phase == PullPhase::FetchWeights {
        seq![status_value("pulling manifest"@), status_value("downloading safetensors"@)]
    } else {
        seq![status_value("pulling manifest"@)]
    }
}

/// What a client that follows a download is told at its end: the model, or why there
/// is none.
pub open spec fn closing_value(j: JobView, billions: Option<u64>) -> Option<JsonView> {
    match (j.phase, j.manifest, j.error) {
        (PullPhase::Done, Some(m), _) => Some(success_value(m, billions)),
        (PullPhase::Failed, _, Some(e)) => Some(error_value(e.message)),
        _ => None,
    }
}

impl PullJob {
    /// What a client that follows the download is told when it begins.
    pub fn opening_frames(&self) -> (r: Vec<Json>)
        ensures
            json::element_views(r@) == opening_values(self@),
    {
        let mut out: Vec<Json> = Vec::new();
        out.push(status_frame("pulling manifest"));
        match self.phase {
            PullPhase::FetchWeights => {
                out.push(status_frame("downloading safetensors"));
            },
            _ => {},
        }
        assert(json::element_views(out@) =~= opening_values(self@));
        out
    }

    /// What a client that follows the download is told at its end: the model, or why
    /// there is none. Nothing while the download goes on.
    pub fn closing_frame(&self, billions: Option<u64>) -> (r: Option<Json>)
        ensures
            match r {
                Some(j) => closing_value(self@, billions) == Some(j@),
                None => closing_value(self@, billions) is None,
            },
    {
        match self.phase {
            PullPhase::Done => match &self.manifest {
                Some(m) => Some(success_frame(m, billions)),
                None => None,
            },
            PullPhase::Failed => match &self.error {
                Some(e) => Some(error_frame(e.error.message.as_str())),
                None => None,
            },
            _ => None,
        }
    }
}

// --------------------------------------------------------------- Ollama frames

/// A file that is there, as a frame.
pub open spec fn file_value(name: Seq<char>, sha256: Seq<char>, size: u64) -> JsonView {
    JsonView::Object(
        seq![
            ("status"@, JsonView::Str("pulling "@ + name)),
            ("digest"@, JsonView::Str(sha256)),
            ("total"@, count_view(size as int)),
            ("completed"@, count_view(size as int)),
        ],
    )
}

/// The answer to a download that is done.
pub open spec fn pulled_value(revision: Seq<char>, total: int) -> JsonView {
    JsonView::Object(
        seq![
            ("status"@, JsonView::Str("success"@)),
            ("digest"@, JsonView::Str(revision)),
            ("total"@, count_view(total)),
        ],
    )
}

/// The answer to a download that is done; none where its files take more bytes than
/// 64 bits can tell.
pub fn pulled_reply(m: &ModelManifest) -> (r: Option<Json>)
    ensures
        match r {
            Some(j) => j@ == pulled_value(m@.revision, manifest::files_size(m@.files) as int),
            None => manifest::files_size(m@.files) > u64::MAX,
        },
{
    match manifest::total_size(m.files.as_slice()) {
        Some(total) => {
            let mut members: Vec<(String, Json)> = Vec::new();
            put(&mut members, "status", str_json("success"));
            put(&mut members, "digest", str_json(m.revision.as_str()));
            put(&mut members, "total", unsigned_json(total));
            assert(json::member_views(members@) =~= pulled_value(
                m@.revision,
                total as int,
            )->Object_0);
            Some(Json::Object(members))
        },
        None => None,
    }
}

/// The frames for the files of a model.
pub open spec fn file_values(files: Seq<manifest::FileEntry>) -> Seq<JsonView> {
    files.map_values(|f: manifest::FileEntry| file_value(f.name@, f.sha256@, f.size_bytes))
}

/// The frames that tell of a download that is done: one for each file, then that the
/// digest is verified and the manifest written, then the end.
pub open spec fn pulled_frames(m: ManifestView) -> Seq<JsonView> {
    file_values(m.files) + seq![
        status_value("verifying sha256 digest"@),
        status_value("writing manifest"@),
        pulled_value(m.revision, manifest::files_size(m.files) as int),
    ]
}

fn file_frame(f: &manifest::FileEntry) -> (r: Json)
    ensures
        r@ == file_value(f.name@, f.sha256@, f.size_bytes),
{
    let status = sentence("pulling ", f.name.as_str());
    let mut members: Vec<(String, Json)> = Vec::new();
    put(&mut members, "status", str_json(status.as_str()));
    put(&mut members, "digest", str_json(f.sha256.as_str()));
    put(&mut members, "total", unsigned_json(f.size_bytes));
    put(&mut members, "completed", unsigned_json(f.size_bytes));
    assert(json::member_views(members@) =~= file_value(
        f.name@,
        f.sha256@,
        f.size_bytes,
    )->Object_0);
    Json::Object(members)
}

/// The frames that tell of a download that is done; none where its files take more
/// bytes than 64 bits can tell.
pub fn ollama_pull_frames(m: &ModelManifest) -> (r: Option<Vec<Json>>)
    ensures
        match r {
            Some(v) => json::element_views(v@) == pulled_frames(m@),
            None => manifest::files_size(m@.files) > u64::MAX,
        },
{
    let end: Json = match pulled_reply(m) {
        Some(j) => j,
        None => {
            return None;
        },
    };
    let ghost all = file_values(m@.files);
    let ghost last = end@;
    let mut out: Vec<Json> = Vec::new();
    assert(json::element_views(out@) =~= all.take(0));
    let mut i: usize = 0;
    while i < m.files.len()
        invariant
            i <= m.files@.len(),
            all == file_values(m@.files),
            json::element_views(out@) == all.take(i as int),
        decreases m.files@.len() - i,
    {
        let ghost before = json::element_views(out@);
        let f = file_frame(&m.files[i]);
        let ghost fv = f@;
        out.push(f);
        i = i + 1;
        assert(json::element_views(out@) =~= before.push(fv));
        assert(all.take(i as int) =~= all.take(i - 1).push(all[i - 1]));
    }
    assert(all.take(i as int) =~= all);
    out.push(status_frame("verifying sha256 digest"));
    out.push(status_frame("writing manifest"));
    out.push(end);
    assert(json::element_views(out@) =~= pulled_frames(m@));
    Some(out)
}

// ------------------------------------------------------------------------ laws

/// Every step keeps a download well-formed.
pub proof fn law_steps_keep_a_job_well_formed(j: JobView, e: EventView)
    requires
        job_wf(j),
    ensures
        job_wf(stepped(j, e)),
{
}

/// How far a download has come.
pub open spec fn phase_rank(p: PullPhase) -> int {
    match p {
        PullPhase::FetchGguf => 0,
        PullPhase::FetchWeights => 1,
        PullPhase::Convert => 2,
        PullPhase::Save => 3,
        PullPhase::Done => 4,
        PullPhase::Failed => 4,
    }
}

/// A download comes to an end: each step takes it further or changes nothing, and
/// once it has ended nothing changes it.
pub proof fn law_a_download_comes_to_an_end(j: JobView, e: EventView)
    requires
        job_wf(j),
    ensures
        stepped(j, e) == j || phase_rank(stepped(j, e).phase) > phase_rank(j.phase),
        j.phase == PullPhase::Done || j.phase == PullPhase::Failed ==> stepped(j, e) == j,
{
}

/// A prebuilt file needs no engine: once it is fetched and saved the download is
/// done, with the manifest as it was fetched.
pub proof fn law_prebuilt_file_needs_no_engine(
    streaming: bool,
    repo_id: Seq<char>,
    quant: Seq<char>,
    m: ManifestView,
)
    requires
        routes::level_of(quant) is Some,
    ensures
        ({
            let j = begun(streaming, repo_id, Some(quant), false);
            let end = stepped(stepped(j, EventView::Fetched(m)), EventView::Saved);
            end.phase == PullPhase::Done && end.manifest == Some(m)
        }),
{
}

/// What is saved after a conversion has the wanted level and the converted file.
pub proof fn law_converted_model_has_the_level(j: JobView, m: ManifestView, path: Seq<char>)
    requires
        j.phase == PullPhase::FetchWeights,
        j.has_engine,
        wanted_level(j) is Some,
    ensures
        ({
            let saved = stepped(
                stepped(j, EventView::Fetched(m)),
                EventView::Converted(path),
            );
            &&& saved.phase == PullPhase::Save
            &&& saved.manifest == Some(
                (ManifestView {
                    gguf_path: Some(path),
                    quantization: wanted_level(j),
                    ..m
                }),
            )
        }),
{
}

/// An explicit level always wins; without one a machine with no GPU gets a file that
/// runs on it, and one with a GPU gets the full weights.
pub proof fn law_what_is_fetched(requested: Seq<char>, has_gpu: bool)
    ensures
        level_to_fetch(Some(requested), has_gpu) == Some(requested),
        level_to_fetch(None, false) == Some("Q4_K_M"@),
        level_to_fetch(None, true) is None,
{
}

/// A download that asks for no level, on a machine with no GPU, ends with a model
/// that runs there: its prebuilt file, which llama.cpp serves.
pub proof fn law_plain_download_runs_without_a_gpu(
    streaming: bool,
    repo_id: Seq<char>,
    revision: Seq<char>,
    gguf_dir: Seq<char>,
    file: FileView,
    meta: ModelMeta,
    now: Timestamp,
    m: ManifestView,
    windows: bool,
    fits: bool,
)
    requires
        file_manager::is_gguf_manifest(
            m,
            repo_id,
            revision,
            gguf_dir,
            file,
            level_to_fetch(None, false)->0,
            meta,
            now,
            windows,
        ),
    ensures
        ({
            let j = begun(streaming, repo_id, level_to_fetch(None, false), false);
            let end = stepped(stepped(j, EventView::Fetched(m)), EventView::Saved);
            &&& end.phase == PullPhase::Done
            &&& end.manifest == Some(m)
            &&& launch::routed(0, fits, m.gguf_path is Some) == launch::Route::LlamaCpp
        }),
{
    manifest::law_level_names_round_trip(QuantizationLevel::Q4KM);
}

/// Without an engine no weights are fetched in place of a prebuilt file: what is
/// downloaded is never left unconverted.
pub proof fn law_fallback_needs_an_engine(j: JobView, e: EventView)
    requires
        job_wf(j),
        j.quant is Some,
        !j.has_engine,
    ensures
        stepped(j, e).phase != PullPhase::FetchWeights,
        stepped(j, e).phase != PullPhase::Convert,
{
}

/// The last count of bytes is always told.
pub proof fn law_last_count_is_told(total: u64, since_last_ms: u64, last: u64)
    requires
        total > 0,
    ensures
        progress_value(
            PullProgress::Download { downloaded: total, total },
            since_last_ms,
            last,
        ) == Some(bytes_value(total, total)),
{
}

/// A client that follows a download is told how it ended, once it has.
pub proof fn law_the_end_is_told(j: JobView, billions: Option<u64>)
    requires
        job_wf(j),
    ensures
        closing_value(j, billions) is Some <==> (j.phase == PullPhase::Done || j.phase
            == PullPhase::Failed),
{
}

} // verus!
