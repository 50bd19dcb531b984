//! What the daemon decides for a request: which model it is about, what is
//! refused, what changes in the registry, and what goes on to the model server.
use crate::api::bodies;
use crate::api::bodies::apply_modelfile_to_body;
use crate::api::json;
use crate::api::json::{parse_json, put, str_json, Json, JsonView};
use crate::api::listing;
use crate::api::listing::find_manifest;
use crate::api::types;
use crate::api::types::{sentence, ApiError, OllamaCreateRequest};
use crate::registry::manifest;
use crate::registry::manifest::{
    ManifestStore, ManifestView, ModelManifest, QuantizationLevel, StoreError,
};
use crate::registry::modelfile;
use crate::registry::modelfile::Modelfile;
use crate::text;
use crate::time::Timestamp;
use vstd::prelude::*;
use vstd::string::StringExecFns;

verus! {

broadcast use {vstd::string::group_string_axioms, crate::api::json::lemma_json_view};

// --------------------------------------------------------------------- routing

/// The fields of a request that decide where it goes.
#[derive(Debug)]
pub struct Routing {
    pub model: String,
    pub stream: bool,
}

/// The model that a request names.
pub open spec fn model_named(v: JsonView) -> Option<Seq<char>> {
    json::string_in(json::member(v, "model"@))
}

/// Whether a request asks for a stream.
pub open spec fn wants_stream(v: JsonView, otherwise: bool) -> bool {
    match json::bool_in(json::member(v, "stream"@)) {
        Some(b) => b,
        None => otherwise,
    }
}

/// Reads the fields of a request that decide where it goes: the model, which has
/// to be there, and whether to stream, which is off unless it is on.
pub fn routing_of(body: &Json) -> (r: Result<Routing, ApiError>)
    ensures
        match r {
            Ok(x) => model_named(body@) == Some(x.model@) && x.stream == wants_stream(body@, false),
            Err(e) => model_named(body@) is None && e@ == types::bad_request_view(
                "Missing 'model' field"@,
            ),
        },
{
    match body.get_str("model") {
        Some(m) => {
            let stream: bool = match body.get_bool("stream") {
                Some(b) => b,
                None => false,
            };
            Ok(Routing { model: m.clone(), stream })
        },
        None => Err(ApiError::bad_request(String::from_str("Missing 'model' field"))),
    }
}

/// Reads a request and its routing fields. Nothing else of it is looked at.
pub fn read_routing(bytes: &[u8]) -> (r: Result<(Routing, Json), ApiError>)
    ensures
        match (r, json::json_of(bytes@)) {
            (Ok((x, j)), Ok(v)) => j@ == v && model_named(v) == Some(x.model@) && x.stream
                == wants_stream(v, false),
            (Err(e), Ok(v)) => model_named(v) is None && e@ == types::bad_request_view(
                "Missing 'model' field"@,
            ),
            (Err(e), Err(t)) => e@ == types::bad_request_view("Invalid JSON: "@ + t),
            (Ok(_), Err(_)) => false,
        },
{
    match parse_json(bytes) {
        Ok(j) => match routing_of(&j) {
            Ok(x) => Ok((x, j)),
            Err(e) => Err(e),
        },
        Err(t) => Err(ApiError::bad_request(sentence("Invalid JSON: ", t.as_str()))),
    }
}

/// Finds the model of a request, by any name it goes by.
pub fn requested_model<'a>(store: &'a ManifestStore, model: &str) -> (r: Result<
    &'a ModelManifest,
    ApiError,
>)
    ensures
        match r {
            Ok(m) => listing::goes_by(store@, model@, m@),
            Err(e) => listing::is_unknown(store@, model@) && e@ == types::not_found_view(
                "Model not found: "@ + model@,
                None,
            ),
        },
{
    match find_manifest(store, model) {
        Some(m) => Ok(m),
        None => Err(ApiError::not_found(sentence("Model not found: ", model))),
    }
}

/// Finds the model of a completion request, with a hint where there is none.
pub fn completion_model<'a>(store: &'a ManifestStore, model: &str) -> (r: Result<
    &'a ModelManifest,
    ApiError,
>)
    ensures
        match r {
            Ok(m) => listing::goes_by(store@, model@, m@),
            Err(e) => listing::is_unknown(store@, model@) && e@ == types::not_found_view(
                "Model not found: "@ + model@,
                Some("Run: localllm pull <huggingface-repo>"@),
            ),
        },
{
    match requested_model(store, model) {
        Ok(m) => Ok(m),
        Err(e) => Err(e.with_hint(String::from_str("Run: localllm pull <huggingface-repo>"))),
    }
}

/// Finds a model by its alias alone.
pub fn model_with_alias<'a>(store: &'a ManifestStore, alias: &str) -> (r: Result<
    &'a ModelManifest,
    ApiError,
>)
    ensures
        match r {
            Ok(m) => store@.models.dom().contains(alias@) && m@ == store@.models[alias@],
            Err(e) => !store@.models.dom().contains(alias@) && e@ == types::not_found_view(
                "Model not found: "@ + alias@,
                None,
            ),
        },
{
    match store.get(alias) {
        Some(m) => Ok(m),
        None => Err(ApiError::not_found(sentence("Model not found: ", alias))),
    }
}

/// The request as it goes on where it does not go on as it came: with the model's
/// Modelfile applied. None where the model has none, or the messages of a chat
/// cannot be read; the bytes then go on untouched. `floats` holds, for each
/// parameter of the Modelfile, the bit pattern of the finite float that its text
/// stands for, if it stands for one.
pub fn outbound_body(
    body: &Json,
    mf: Option<&Modelfile>,
    floats: &[Option<u64>],
    is_chat: bool,
) -> (r: Option<Json>)
    requires
        mf matches Some(m) ==> floats@.len() == m@.parameters.len(),
    ensures
        match mf {
            Some(m) => match r {
                Some(j) => bodies::body_with_modelfile(body@, m@, floats@, is_chat) == Some(j@),
                None => bodies::body_with_modelfile(body@, m@, floats@, is_chat) is None,
            },
            None => r is None,
        },
{
    match mf {
        Some(m) => apply_modelfile_to_body(body, m, floats, is_chat),
        None => None,
    }
}

// ------------------------------------------------------------------ embeddings

/// The manifest to save before a model can embed: with the flag set. None where it
/// is set. The model's processes are then to be restarted.
pub fn with_embeddings(m: &ModelManifest) -> (r: Option<ModelManifest>)
    ensures
        match r {
            Some(u) => !m@.embeddings && u@ == (ManifestView { embeddings: true, ..m@ }),
            None => m@.embeddings,
        },
{
    if m.embeddings {
        None
    } else {
        let mut updated = m.clone();
        updated.embeddings = true;
        assert(updated@ =~= (ManifestView { embeddings: true, ..m@ }));
        Some(updated)
    }
}

/// The request for the embedding of a text.
pub open spec fn embedding_request(model: Seq<char>, prompt: Seq<char>) -> JsonView {
    JsonView::Object(seq![("model"@, JsonView::Str(model)), ("input"@, JsonView::Str(prompt))])
}

/// Builds the request for the embedding of a text.
pub fn build_embedding_request(model: &str, prompt: &str) -> (r: Json)
    ensures
        r@ == embedding_request(model@, prompt@),
{
    let mut members: Vec<(String, Json)> = Vec::new();
    put(&mut members, "model", str_json(model));
    put(&mut members, "input", str_json(prompt));
    assert(json::member_views(members@) =~= embedding_request(model@, prompt@)->Object_0);
    Json::Object(members)
}

/// The embedding to answer with: the first one, or none at all.
pub fn first_embedding<T>(data: Vec<Vec<T>>) -> (r: Vec<T>)
    ensures
        r@ == if data@.len() == 0 {
            Seq::empty()
        } else {
            data@[0]@
        },
{
    let mut rest = data;
    if rest.len() == 0 {
        Vec::new()
    } else {
        rest.swap_remove(0)
    }
}

// ------------------------------------------------------- changes to the registry

/// The answer to a copy that the registry refuses.
pub fn copy_refused(e: &StoreError) -> (r: ApiError)
    ensures
        r@ == types::bad_request_view(
            match e {
                StoreError::NotFound(a) => "Manifest not found: "@ + a@,
                StoreError::SourceNotFound(a) => "Source model not found: "@ + a@,
                StoreError::DestinationExists(a) => "Destination alias already exists: "@ + a@,
            },
        ),
{
    ApiError::bad_request(e.message())
}

/// The manifest of a model that a Modelfile derives from another one.
pub open spec fn derived(
    base: ManifestView,
    name: Seq<char>,
    mf: modelfile::ModelfileView,
    downloaded_at: Timestamp,
    last_used: Timestamp,
) -> ManifestView {
    ManifestView { alias: name, modelfile: Some(mf), downloaded_at, last_used, ..base }
}

/// The manifest that a create request asks for: the base model of its Modelfile,
/// on the same weights, under the new name and with the Modelfile attached. It is
/// to be written and saved.
pub fn create_model(
    store: &ManifestStore,
    req: &OllamaCreateRequest,
    downloaded_at: Timestamp,
    last_used: Timestamp,
) -> (r: Result<ModelManifest, ApiError>)
    ensures
        ({
            let parse = modelfile::parsed(req.modelfile@);
            let from = parse.taken.from;
            match r {
                Ok(m) => parse.open is None && (from matches Some(b)
                    && store@.models.dom().contains(b) && m@ == derived(
                    store@.models[b],
                    req.name@,
                    parse.taken,
                    downloaded_at,
                    last_used,
                )),
                Err(e) => if parse.open is Some {
                    e@ == types::bad_request_view(
                        "Modelfile parse error: "@
                            + "Unterminated triple-quoted block in Modelfile"@,
                    )
                } else {
                    match from {
                        None => e@ == types::bad_request_view("Modelfile missing FROM directive"@),
                        Some(b) => !store@.models.dom().contains(b) && e@ == types::not_found_view(
                            "Base model not found: "@ + b,
                            Some("Run: localllm pull <repo>"@),
                        ),
                    }
                },
            }
        }),
{
    let mf = match Modelfile::parse(req.modelfile.as_str()) {
        Ok(mf) => mf,
        Err(e) => {
            let why = e.message();
            return Err(ApiError::bad_request(sentence("Modelfile parse error: ", why.as_str())));
        },
    };
    let base: &ModelManifest = match &mf.from {
        Some(b) => match store.get(b.as_str()) {
            Some(m) => m,
            None => {
                return Err(
                    ApiError::not_found(sentence("Base model not found: ", b.as_str())).with_hint(
                        String::from_str("Run: localllm pull <repo>"),
                    ),
                );
            },
        },
        None => {
            return Err(
                ApiError::bad_request(String::from_str("Modelfile missing FROM directive")),
            );
        },
    };
    let ghost mv = mf@;
    let mut created = base.clone();
    created.alias = req.name.clone();
    created.modelfile = Some(mf);
    created.downloaded_at = downloaded_at;
    created.last_used = last_used;
    assert(created@ =~= derived(base@, req.name@, mv, downloaded_at, last_used));
    Ok(created)
}

/// The answer to a create request.
pub open spec fn created_value(name: Seq<char>) -> JsonView {
    JsonView::Object(seq![("status"@, JsonView::Str("success"@)), ("name"@, JsonView::Str(name))])
}

/// The answer to a create request.
pub fn created_reply(name: &str) -> (r: Json)
    ensures
        r@ == created_value(name@),
{
    let mut members: Vec<(String, Json)> = Vec::new();
    put(&mut members, "status", str_json("success"));
    put(&mut members, "name", str_json(name));
    assert(json::member_views(members@) =~= created_value(name@)->Object_0);
    Json::Object(members)
}

/// The answer to a load request.
pub open spec fn loaded_value(endpoint: Seq<char>) -> JsonView {
    JsonView::Object(
        seq![("status"@, JsonView::Str("loaded"@)), ("endpoint"@, JsonView::Str(endpoint))],
    )
}

/// The answer to a load request.
pub fn loaded_reply(endpoint: &str) -> (r: Json)
    ensures
        r@ == loaded_value(endpoint@),
{
    let mut members: Vec<(String, Json)> = Vec::new();
    put(&mut members, "status", str_json("loaded"));
    put(&mut members, "endpoint", str_json(endpoint));
    assert(json::member_views(members@) =~= loaded_value(endpoint@)->Object_0);
    Json::Object(members)
}

/// The files to remove when a model is deleted: its directory, and its GGUF file.
#[derive(Debug)]
pub struct Removal {
    pub local_path: String,
    pub gguf_path: Option<String>,
}

/// What deleting a model removes.
pub fn plan_removal(store: &ManifestStore, alias: &str) -> (r: Result<Removal, ApiError>)
    ensures
        match r {
            Ok(x) => store@.models.dom().contains(alias@) && x.local_path@
                == store@.models[alias@].local_path && modelfile::text_option(x.gguf_path)
                == store@.models[alias@].gguf_path,
            Err(e) => !store@.models.dom().contains(alias@) && e@ == types::not_found_view(
                "Model not found: "@ + alias@,
                None,
            ),
        },
{
    match model_with_alias(store, alias) {
        Ok(m) => {
            let gguf_path: Option<String> = match &m.gguf_path {
                Some(p) => Some(p.clone()),
                None => None,
            };
            Ok(Removal { local_path: m.local_path.clone(), gguf_path })
        },
        Err(e) => Err(e),
    }
}

/// The name in a delete request.
pub fn name_to_delete(body: &Json) -> (r: Result<String, ApiError>)
    ensures
        match r {
            Ok(n) => json::string_in(json::member(body@, "name"@)) == Some(n@),
            Err(e) => json::string_in(json::member(body@, "name"@)) is None && e@
                == types::bad_request_view("Missing 'name' field"@),
        },
{
    match body.get_str("name") {
        Some(n) => Ok(n.clone()),
        None => Err(ApiError::bad_request(String::from_str("Missing 'name' field"))),
    }
}

// ---------------------------------------------------------------- quantization

/// The level that a name stands for, in any case.
pub open spec fn level_of(name: Seq<char>) -> Option<QuantizationLevel> {
    manifest::level_named(text::uppercase_of(name))
}

/// The level that a request names.
pub fn requested_level(name: &str) -> (r: Result<QuantizationLevel, ApiError>)
    ensures
        match r {
            Ok(l) => level_of(name@) == Some(l),
            Err(e) => level_of(name@) is None && e@ == types::bad_request_view(
                "Unknown quantization level: "@ + name@,
            ),
        },
{
    match QuantizationLevel::from_str(name) {
        Some(l) => Ok(l),
        None => Err(ApiError::bad_request(sentence("Unknown quantization level: ", name))),
    }
}

/// The model and the level of a quantize request, where the model is there, the
/// level is known, and there is an engine to do it.
pub fn plan_quantize<'a>(
    store: &'a ManifestStore,
    alias: &str,
    level: &str,
    has_engine: bool,
) -> (r: Result<(&'a ModelManifest, QuantizationLevel), ApiError>)
    ensures
        match r {
            Ok((m, l)) => store@.models.dom().contains(alias@) && m@ == store@.models[alias@]
                && level_of(level@) == Some(l) && has_engine,
            Err(e) => if !store@.models.dom().contains(alias@) {
                e@ == types::not_found_view(
                    "Model not found: "@ + alias@,
                    Some("Run: localllm pull <repo_id>"@),
                )
            } else if level_of(level@) is None {
                e@ == types::bad_request_view("Unknown quantization level: "@ + level@)
            } else {
                !has_engine && e@ == types::internal_view(
                    "Compression engine not available"@,
                    Some("Set llama_cpp_dir in ~/.localllm/config.toml"@),
                )
            },
        },
{
    let m = match model_with_alias(store, alias) {
        Ok(m) => m,
        Err(e) => {
            return Err(e.with_hint(String::from_str("Run: localllm pull <repo_id>")));
        },
    };
    let l = match requested_level(level) {
        Ok(l) => l,
        Err(e) => {
            return Err(e);
        },
    };
    if has_engine {
        Ok((m, l))
    } else {
        Err(
            ApiError::internal(String::from_str("Compression engine not available")).with_hint(
                String::from_str("Set llama_cpp_dir in ~/.localllm/config.toml"),
            ),
        )
    }
}

/// The manifest of a model after it was quantized. It is to be written and saved.
pub fn quantized(m: &ModelManifest, level: QuantizationLevel, gguf_path: &str) -> (r:
    ModelManifest)
    ensures
        r@ == (ManifestView {
            gguf_path: Some(gguf_path@),
            quantization: Some(level),
            ..m@
        }),
{
    let mut updated = m.clone();
    updated.gguf_path = Some(String::from_str(gguf_path));
    updated.quantization = Some(level);
    assert(updated@ =~= (ManifestView {
        gguf_path: Some(gguf_path@),
        quantization: Some(level),
        ..m@
    }));
    updated
}

// ------------------------------------------------------------------------ laws

/// A derived model runs on the weights of its base, and its base stays as it is.
pub proof fn law_derived_model_shares_the_weights(
    st: manifest::StoreView,
    base: Seq<char>,
    name: Seq<char>,
    mf: modelfile::ModelfileView,
    downloaded_at: Timestamp,
    last_used: Timestamp,
)
    requires
        st.models.dom().contains(base),
        name != base,
    ensures
        ({
            let m = derived(st.models[base], name, mf, downloaded_at, last_used);
            let after = manifest::saved(st, m);
            &&& after.models[base] == st.models[base]
            &&& after.models[name].local_path == st.models[base].local_path
            &&& after.models[name].gguf_path == st.models[base].gguf_path
            &&& after.models[name].modelfile == Some(mf)
        }),
{
}

} // verus!
