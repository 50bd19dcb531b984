//! Wire types of the HTTP interface, in three families: OpenAI-compatible
//! (`/v1/*`), Ollama-compatible (`/api/*`) and the command line's own.
use crate::api::json::Json;
use crate::text::same_text;
use vstd::prelude::*;
use vstd::string::StringExecFns;

verus! {

// --------------------------------------------------------- OpenAI-compatible

/// A single chat turn. `role` is one of `system`, `user`, `assistant`.
#[derive(Debug)]
pub struct ChatMessage {
    pub role: String,
    pub content: String,
}

/// A chat turn as text.
pub struct MessageView {
    pub role: Seq<char>,
    pub content: Seq<char>,
}

impl View for ChatMessage {
    type V = MessageView;

    open spec fn view(&self) -> MessageView {
        MessageView { role: self.role@, content: self.content@ }
    }
}

/// Chat turns as text.
pub open spec fn message_texts(s: Seq<ChatMessage>) -> Seq<MessageView> {
    s.map_values(|m: ChatMessage| m@)
}

impl Clone for ChatMessage {
    fn clone(&self) -> (r: Self)
        ensures
            r == *self,
    {
        ChatMessage { role: self.role.clone(), content: self.content.clone() }
    }
}

/// One element of `choices[]`: `message` when not streaming, `delta` when
/// streaming.
#[derive(Debug, Clone)]
pub struct Choice {
    pub index: u32,
    pub message: Option<ChatMessage>,
    pub delta: Option<ChatMessage>,
    pub finish_reason: Option<String>,
}

/// Token counts of a response.
#[derive(Debug, Clone, Copy, PartialEq, Eq, Structural)]
pub struct Usage {
    pub prompt_tokens: u32,
    pub completion_tokens: u32,
    pub total_tokens: u32,
}

/// A chat completion, or one streamed piece of it.
#[derive(Debug, Clone)]
pub struct ChatCompletionResponse {
    pub id: String,
    pub object: String,
    pub created: i64,
    pub model: String,
    pub choices: Vec<Choice>,
    pub usage: Option<Usage>,
}

/// One row of the model list.
#[derive(Debug, Clone)]
pub struct ModelObject {
    pub id: String,
    pub object: String,
    pub created: i64,
    pub owned_by: String,
}

impl ModelObject {
    /// A row for the model `id`, downloaded at the Unix time `created`.
    pub fn new(id: String, created: i64) -> (r: Self)
        ensures
            r.id == id,
            r.object@ == "model"@,
            r.created == created,
            r.owned_by@ == "localllm"@,
    {
        ModelObject {
            id,
            object: String::from_str("model"),
            created,
            owned_by: String::from_str("localllm"),
        }
    }
}

/// The model list.
#[derive(Debug, Clone)]
pub struct ModelListResponse {
    pub object: String,
    pub data: Vec<ModelObject>,
}

impl ModelListResponse {
    /// The list of the given rows.
    pub fn new(data: Vec<ModelObject>) -> (r: Self)
        ensures
            r.object@ == "list"@,
            r.data == data,
    {
        ModelListResponse { object: String::from_str("list"), data }
    }
}

// -------------------------------------------------------- command line's own

/// A request to download a model. `stream` asks for progress frames; `hf_token`
/// stands in for the daemon's own access token.
#[derive(Debug, Clone)]
pub struct PullRequest {
    pub repo_id: String,
    pub revision: Option<String>,
    pub quantize: Option<String>,
    pub stream: Option<bool>,
    pub hf_token: Option<String>,
}

/// A request to quantize a downloaded model.
#[derive(Debug, Clone)]
pub struct QuantizeRequest {
    pub alias: String,
    pub level: String,
}

/// A request to load a model.
#[derive(Debug, Clone)]
pub struct LoadRequest {
    pub alias: String,
}

/// A running model process.
#[derive(Debug, Clone)]
pub struct PsEntry {
    pub alias: String,
    pub port: u16,
    pub backend: String,
    pub started_at: String,
    pub last_used: String,
}

/// A model and whether it is loaded. The parameter count, in billions, is held as
/// the bit pattern of a 32-bit float.
#[derive(Debug, Clone)]
pub struct ModelStatusEntry {
    pub alias: String,
    pub repo_id: String,
    pub architecture: String,
    pub parameters_billion_bits: u32,
    pub quantization: Option<String>,
    pub weight_format: String,
    pub status: String,
    pub gguf_path: Option<String>,
}

// -------------------------------------------------------- Ollama-compatible

/// The answer to a tags request.
#[derive(Debug, Clone)]
pub struct OllamaTagsResponse {
    pub models: Vec<OllamaModelInfo>,
}

/// One model of a tags answer.
#[derive(Debug, Clone)]
pub struct OllamaModelInfo {
    pub name: String,
    pub modified_at: String,
    pub size: u64,
    pub digest: String,
    pub details: OllamaModelDetails,
}

/// The details of a model.
#[derive(Debug, Clone)]
pub struct OllamaModelDetails {
    pub format: String,
    pub family: String,
    pub families: Vec<String>,
    pub parameter_size: String,
    pub quantization_level: String,
}

/// A request to describe a model.
#[derive(Debug, Clone)]
pub struct OllamaShowRequest {
    pub name: String,
    pub verbose: bool,
}

/// The description of a model.
#[derive(Debug)]
pub struct OllamaShowResponse {
    pub modelfile: String,
    pub parameters: String,
    pub template: String,
    pub details: OllamaModelDetails,
    pub model_info: Json,
}

/// A request to generate text.
#[derive(Debug)]
pub struct OllamaGenerateRequest {
    pub model: String,
    pub prompt: String,
    pub stream: bool,
    pub options: Json,
    pub system: Option<String>,
    pub template: Option<String>,
}

/// A request to answer a chat.
#[derive(Debug)]
pub struct OllamaChatRequest {
    pub model: String,
    pub messages: Vec<ChatMessage>,
    pub stream: bool,
    pub options: Json,
}

/// A request to embed a text.
#[derive(Debug)]
pub struct OllamaEmbeddingsRequest {
    pub model: String,
    pub prompt: String,
    pub options: Json,
}

/// One frame of a streamed answer: `response` for generation, `message` for
/// chat.
#[derive(Debug, Clone)]
pub struct OllamaStreamFrame {
    pub model: String,
    pub created_at: String,
    pub response: Option<String>,
    pub message: Option<ChatMessage>,
    pub done: bool,
    pub total_duration: Option<u64>,
    pub prompt_eval_count: Option<u32>,
    pub eval_count: Option<u32>,
}

/// A request to copy a model under another name.
#[derive(Debug, Clone)]
pub struct OllamaCopyRequest {
    pub source: String,
    pub destination: String,
}

/// A request to create a model from a Modelfile.
#[derive(Debug, Clone)]
pub struct OllamaCreateRequest {
    pub name: String,
    pub modelfile: String,
    pub stream: bool,
}

/// Whether an answer streams where the request does not say.
pub fn default_stream() -> (r: bool)
    ensures
        r,
{
    true
}

// --------------------------------------------------------------------- errors

/// What went wrong, of which kind, and what the user can do about it.
#[derive(Debug, Clone)]
pub struct ApiErrorDetail {
    pub message: String,
    pub error_type: String,
    pub hint: Option<String>,
}

/// An error answer.
#[derive(Debug, Clone)]
pub struct ApiError {
    pub error: ApiErrorDetail,
}

/// An error answer as text.
pub struct ErrorView {
    pub message: Seq<char>,
    pub error_type: Seq<char>,
    pub hint: Option<Seq<char>>,
}

impl View for ApiError {
    type V = ErrorView;

    open spec fn view(&self) -> ErrorView {
        ErrorView {
            message: self.error.message@,
            error_type: self.error.error_type@,
            hint: crate::registry::modelfile::text_option(self.error.hint),
        }
    }
}

/// The answer for something that is not there.
pub open spec fn not_found_view(message: Seq<char>, hint: Option<Seq<char>>) -> ErrorView {
    ErrorView { message, error_type: "not_found"@, hint }
}

/// The answer to a request that cannot be served as it stands.
pub open spec fn bad_request_view(message: Seq<char>) -> ErrorView {
    ErrorView { message, error_type: "invalid_request_error"@, hint: None }
}

/// The answer for a failure on the daemon's side.
pub open spec fn internal_view(message: Seq<char>, hint: Option<Seq<char>>) -> ErrorView {
    ErrorView { message, error_type: "internal_error"@, hint }
}

/// The text `what` followed by `about`.
pub fn sentence(what: &str, about: &str) -> (r: String)
    ensures
        r@ == what@ + about@,
{
    String::from_str(what).concat(about)
}

/// The HTTP status code that goes with a kind of error.
pub open spec fn status_of(error_type: Seq<char>) -> u16 {
    if error_type == "not_found"@ {
        404
    } else if error_type == "invalid_request_error"@ {
        400
    } else {
        500
    }
}

impl ApiError {
    /// An error of the given kind, with no hint.
    pub fn new(message: String, error_type: String) -> (r: Self)
        ensures
            r.error.message == message,
            r.error.error_type == error_type,
            r.error.hint is None,
    {
        ApiError { error: ApiErrorDetail { message, error_type, hint: None } }
    }

    /// The error with a hint for the user attached.
    pub fn with_hint(self, hint: String) -> (r: Self)
        ensures
            r.error.message == self.error.message,
            r.error.error_type == self.error.error_type,
            r.error.hint == Some(hint),
    {
        ApiError {
            error: ApiErrorDetail {
                message: self.error.message,
                error_type: self.error.error_type,
                hint: Some(hint),
            },
        }
    }

    /// A failure on the daemon's side.
    pub fn internal(message: String) -> (r: Self)
        ensures
            r.error.message == message,
            r.error.error_type@ == "internal_error"@,
            r.error.hint is None,
            status_of(r.error.error_type@) == 500,
    {
        proof {
            reveal_strlit("internal_error");
            reveal_strlit("not_found");
            reveal_strlit("invalid_request_error");
            assert("internal_error"@.len() != "not_found"@.len());
            assert("internal_error"@.len() != "invalid_request_error"@.len());
        }
        ApiError::new(message, String::from_str("internal_error"))
    }

    /// Something that is not there, such as an unknown model.
    pub fn not_found(message: String) -> (r: Self)
        ensures
            r.error.message == message,
            r.error.error_type@ == "not_found"@,
            r.error.hint is None,
            status_of(r.error.error_type@) == 404,
    {
        ApiError::new(message, String::from_str("not_found"))
    }

    /// A request that cannot be served as it stands.
    pub fn bad_request(message: String) -> (r: Self)
        ensures
            r.error.message == message,
            r.error.error_type@ == "invalid_request_error"@,
            r.error.hint is None,
            status_of(r.error.error_type@) == 400,
    {
        proof {
            reveal_strlit("not_found");
            reveal_strlit("invalid_request_error");
            assert("invalid_request_error"@.len() != "not_found"@.len());
        }
        ApiError::new(message, String::from_str("invalid_request_error"))
    }

    /// The HTTP status code of the answer.
    pub fn status_code(&self) -> (r: u16)
        ensures
            r == status_of(self.error.error_type@),
    {
        if same_text(self.error.error_type.as_str(), "not_found") {
            404
        } else if same_text(self.error.error_type.as_str(), "invalid_request_error") {
            400
        } else {
            500
        }
    }
}

// ----------------------------------------------------------------- disk usage

/// The disk space that a model takes.
#[derive(Debug, Clone, PartialEq, Eq)]
pub struct DiskUsageEntry {
    pub alias: String,
    pub local_path_bytes: u64,
    pub gguf_bytes: u64,
}

/// The disk space of all models, and the files that belong to none.
#[derive(Debug, Clone, PartialEq, Eq)]
pub struct DiskUsageResponse {
    pub models: Vec<DiskUsageEntry>,
    pub total_bytes: u64,
    pub orphans: Vec<String>,
    pub orphan_bytes: u64,
}

} // verus!
