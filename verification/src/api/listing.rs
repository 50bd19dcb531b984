//! What the daemon tells of its models: the lists, the descriptions, the running
//! processes and their logs.
use crate::api::health::count_view;
use crate::api::json;
use crate::api::json::{put, str_json, text_list_json, unsigned_json, Json, JsonNumber, JsonView};
use crate::api::types;
use crate::api::types::{
    sentence, ApiError, ModelListResponse, ModelObject, ModelStatusEntry, OllamaModelDetails,
    OllamaModelInfo, OllamaShowResponse, PsEntry,
};
use crate::inference::logbuf;
use crate::inference::logbuf::LogRingBuffer;
use crate::inference::pool::PoolEntry;
use crate::registry::manifest;
use crate::registry::manifest::{ManifestStore, ManifestView, ModelManifest, StoreView};
use crate::registry::modelfile;
use crate::registry::modelfile::Modelfile;
use crate::text;
use crate::time;
use crate::time::Timestamp;
use vstd::prelude::*;
use vstd::string::StringExecFns;

verus! {

broadcast use {vstd::string::group_string_axioms, crate::api::json::lemma_json_view};

// ------------------------------------------------------------------- look-up

/// `m` is a model that goes by the name `model`: the one with that alias, or,
/// where none has it, one whose repository id holds it.
pub open spec fn goes_by(st: StoreView, model: Seq<char>, m: ManifestView) -> bool {
    &&& st.models.dom().contains(m.alias)
    &&& st.models[m.alias] == m
    &&& if st.models.dom().contains(model) {
        m.alias == model
    } else {
        text::contains_text(m.repo_id, model)
    }
}

/// No model goes by the name `model`.
pub open spec fn is_unknown(st: StoreView, model: Seq<char>) -> bool {
    &&& !st.models.dom().contains(model)
    &&& forall|k: Seq<char>| #[trigger]
        st.models.dom().contains(k) ==> !text::contains_text(st.models[k].repo_id, model)
}

/// Finds a model by its alias, else by its repository id.
pub fn find_manifest<'a>(store: &'a ManifestStore, model: &str) -> (r: Option<&'a ModelManifest>)
    ensures
        match r {
            Some(m) => goes_by(store@, model@, m@),
            None => is_unknown(store@, model@),
        },
{
    match store.get(model) {
        Some(m) => Some(m),
        None => store.find_by_repo_id(model),
    }
}

/// An alias always finds its own model, whatever the others are called.
pub proof fn law_alias_comes_first(st: StoreView, model: Seq<char>, m: ManifestView)
    requires
        st.models.dom().contains(model),
        goes_by(st, model, m),
    ensures
        m == st.models[model],
        !is_unknown(st, model),
{
}

// --------------------------------------------------------------- OpenAI lists

/// The row of a model in the list.
pub open spec fn is_row_of(row: ModelObject, m: ManifestView) -> bool {
    &&& row.id@ == m.alias
    &&& row.object@ == "model"@
    &&& row.created == m.downloaded_at.secs
    &&& row.owned_by@ == "localllm"@
}

/// The row of a model in the list.
pub fn model_row(m: &ModelManifest) -> (r: ModelObject)
    ensures
        is_row_of(r, m@),
{
    ModelObject::new(m.alias.clone(), m.downloaded_at.secs)
}

/// The list of the given models.
pub fn list_models_v1(models: &[&ModelManifest]) -> (r: ModelListResponse)
    ensures
        r.object@ == "list"@,
        r.data@.len() == models@.len(),
        forall|i: int| 0 <= i < models@.len() ==> is_row_of(#[trigger] r.data@[i], models@[i]@),
{
    let mut rows: Vec<ModelObject> = Vec::new();
    let mut i: usize = 0;
    while i < models.len()
        invariant
            i <= models@.len(),
            rows@.len() == i,
            forall|j: int| 0 <= j < i ==> is_row_of(#[trigger] rows@[j], models@[j]@),
        decreases models@.len() - i,
    {
        rows.push(model_row(models[i]));
        i = i + 1;
    }
    ModelListResponse::new(rows)
}

/// The row of one model, by any name it goes by.
pub fn retrieve_model_v1(store: &ManifestStore, id: &str) -> (r: Result<ModelObject, ApiError>)
    ensures
        match r {
            Ok(row) => exists|m: ManifestView| #[trigger]
                goes_by(store@, id@, m) && is_row_of(row, m),
            Err(e) => is_unknown(store@, id@) && e@ == types::not_found_view(
                "Model not found: "@ + id@,
                None,
            ),
        },
{
    match find_manifest(store, id) {
        Some(m) => {
            assert(goes_by(store@, id@, m@));
            Ok(model_row(m))
        },
        None => Err(ApiError::not_found(sentence("Model not found: ", id))),
    }
}

// --------------------------------------------------------------- native lists

/// The name of a level that may be absent.
pub open spec fn level_text(level: Option<manifest::QuantizationLevel>) -> Option<Seq<char>> {
    match level {
        Some(l) => Some(manifest::llama_name(l)),
        None => None,
    }
}

/// A model with its status: loaded where a process runs for it, else ready.
pub open spec fn is_status_of(e: ModelStatusEntry, m: ManifestView, loaded: bool) -> bool {
    &&& e.alias@ == m.alias
    &&& e.repo_id@ == m.repo_id
    &&& e.architecture@ == m.architecture
    &&& e.parameters_billion_bits == m.parameters_billion_bits
    &&& modelfile::text_option(e.quantization) == level_text(m.quantization)
    &&& e.weight_format@ == manifest::format_name(m.weight_format)
    &&& e.status@ == if loaded {
        "loaded"@
    } else {
        "ready"@
    }
    &&& modelfile::text_option(e.gguf_path) == m.gguf_path
}

/// A model with its status.
pub fn model_status(m: &ModelManifest, loaded: bool) -> (r: ModelStatusEntry)
    ensures
        is_status_of(r, m@, loaded),
{
    let quantization: Option<String> = match m.quantization {
        Some(l) => Some(String::from_str(l.to_llama_str())),
        None => None,
    };
    let gguf_path: Option<String> = match &m.gguf_path {
        Some(p) => Some(p.clone()),
        None => None,
    };
    let status: &str = if loaded {
        "loaded"
    } else {
        "ready"
    };
    ModelStatusEntry {
        alias: m.alias.clone(),
        repo_id: m.repo_id.clone(),
        architecture: m.architecture.clone(),
        parameters_billion_bits: m.parameters_billion_bits,
        quantization,
        weight_format: String::from_str(m.weight_format.name()),
        status: String::from_str(status),
        gguf_path,
    }
}

/// A running process in the list.
pub open spec fn is_process(
    p: PsEntry,
    alias: Seq<char>,
    e: PoolEntry,
    backend: Seq<char>,
) -> bool {
    &&& p.alias@ == alias
    &&& p.port == e.port
    &&& p.backend@ == backend
    &&& p.started_at@ == time::text_of_time(e.started_at)
    &&& p.last_used@ == time::text_of_time(Timestamp { secs: e.last_used, nanos: 0 })
}

fn process_entry(alias: &str, e: &PoolEntry, backend: &str) -> (r: PsEntry)
    ensures
        is_process(r, alias@, *e, backend@),
{
    PsEntry {
        alias: String::from_str(alias),
        port: e.port,
        backend: String::from_str(backend),
        started_at: time::time_text(e.started_at),
        last_used: time::time_text(Timestamp { secs: e.last_used, nanos: 0 }),
    }
}

/// The running processes of both backends, each on its own even where both run
/// the same model.
pub fn list_processes(
    sglang: &[(String, PoolEntry)],
    llamacpp: &[(String, PoolEntry)],
) -> (r: Vec<PsEntry>)
    ensures
        r@.len() == sglang@.len() + llamacpp@.len(),
        forall|i: int|
            0 <= i < sglang@.len() ==> is_process(
                #[trigger] r@[i],
                sglang@[i].0@,
                sglang@[i].1,
                "sglang"@,
            ),
        forall|i: int|
            sglang@.len() <= i < r@.len() ==> is_process(
                #[trigger] r@[i],
                llamacpp@[i - sglang@.len()].0@,
                llamacpp@[i - sglang@.len()].1,
                "llamacpp"@,
            ),
{
    let mut out: Vec<PsEntry> = Vec::new();
    let mut i: usize = 0;
    while i < sglang.len()
        invariant
            i <= sglang@.len(),
            out@.len() == i,
            forall|j: int|
                0 <= j < i ==> is_process(
                    #[trigger] out@[j],
                    sglang@[j].0@,
                    sglang@[j].1,
                    "sglang"@,
                ),
        decreases sglang@.len() - i,
    {
        out.push(process_entry(sglang[i].0.as_str(), &sglang[i].1, "sglang"));
        i = i + 1;
    }
    let mut k: usize = 0;
    while k < llamacpp.len()
        invariant
            k <= llamacpp@.len(),
            out@.len() == sglang@.len() + k,
            forall|j: int|
                0 <= j < sglang@.len() ==> is_process(
                    #[trigger] out@[j],
                    sglang@[j].0@,
                    sglang@[j].1,
                    "sglang"@,
                ),
            forall|j: int|
                sglang@.len() <= j < out@.len() ==> is_process(
                    #[trigger] out@[j],
                    llamacpp@[j - sglang@.len()].0@,
                    llamacpp@[j - sglang@.len()].1,
                    "llamacpp"@,
                ),
        decreases llamacpp@.len() - k,
    {
        out.push(process_entry(llamacpp[k].0.as_str(), &llamacpp[k].1, "llamacpp"));
        k = k + 1;
    }
    out
}

// ------------------------------------------------------------------------ logs

/// How many lines of a log are told unless the request says.
pub const DEFAULT_LOG_LINES: usize = 100;

/// The last lines of a process's log, as told.
pub open spec fn log_value(alias: Seq<char>, backend: Seq<char>, lines: Seq<String>) -> JsonView {
    JsonView::Object(
        seq![
            ("alias"@, JsonView::Str(alias)),
            ("backend"@, JsonView::Str(backend)),
            ("lines"@, json::text_list_view(text::string_texts(lines))),
        ],
    )
}

/// How many lines a request asks for.
pub open spec fn lines_asked(lines: Option<usize>) -> nat {
    match lines {
        Some(n) => n as nat,
        None => DEFAULT_LOG_LINES as nat,
    }
}

/// The answer to a request for the log of a model's process: that of sglang where
/// it runs, else that of llama.cpp.
pub fn logs_reply(
    alias: &str,
    sglang: Option<&LogRingBuffer>,
    llamacpp: Option<&LogRingBuffer>,
    lines: Option<usize>,
) -> (r: Result<Json, ApiError>)
    ensures
        match r {
            Ok(j) => match (sglang, llamacpp) {
                (Some(b), _) => j@ == log_value(
                    alias@,
                    "sglang"@,
                    logbuf::tail(b.lines(), lines_asked(lines)),
                ),
                (None, Some(b)) => j@ == log_value(
                    alias@,
                    "llamacpp"@,
                    logbuf::tail(b.lines(), lines_asked(lines)),
                ),
                (None, None) => false,
            },
            Err(e) => sglang is None && llamacpp is None && e@ == types::not_found_view(
                "No running inference process for '"@ + alias@ + "'"@,
                Some("Run: localllm load <alias>"@),
            ),
        },
{
    let n: usize = match lines {
        Some(n) => n,
        None => DEFAULT_LOG_LINES,
    };
    let (backend, buffer): (&str, &LogRingBuffer) = match sglang {
        Some(b) => ("sglang", b),
        None => match llamacpp {
            Some(b) => ("llamacpp", b),
            None => {
                let mut message = sentence("No running inference process for '", alias);
                message.append("'");
                return Err(
                    ApiError::not_found(message).with_hint(
                        String::from_str("Run: localllm load <alias>"),
                    ),
                );
            },
        },
    };
    let shown = buffer.snapshot(n);
    let mut members: Vec<(String, Json)> = Vec::new();
    put(&mut members, "alias", str_json(alias));
    put(&mut members, "backend", str_json(backend));
    put(&mut members, "lines", text_list_json(shown.as_slice()));
    assert(json::member_views(members@) =~= log_value(alias@, backend@, shown@)->Object_0);
    Ok(Json::Object(members))
}

// ---------------------------------------------------------------- Ollama lists

/// The details of a model. `size` is its parameter count as text.
pub open spec fn is_details_of(
    d: OllamaModelDetails,
    m: ManifestView,
    size: Seq<char>,
) -> bool {
    &&& d.format@ == manifest::format_lower_name(m.weight_format)
    &&& d.family@ == m.architecture
    &&& text::string_texts(d.families@) == seq![m.architecture]
    &&& d.parameter_size@ == size
    &&& d.quantization_level@ == match m.quantization {
        Some(l) => manifest::llama_name(l),
        None => "F16"@,
    }
}

fn model_details(m: &ModelManifest, size: &str) -> (r: OllamaModelDetails)
    ensures
        is_details_of(r, m@, size@),
{
    let mut families: Vec<String> = Vec::new();
    families.push(m.architecture.clone());
    assert(text::string_texts(families@) =~= seq![m@.architecture]);
    let level: &str = match m.quantization {
        Some(l) => l.to_llama_str(),
        None => "F16",
    };
    OllamaModelDetails {
        format: String::from_str(m.weight_format.lower_name()),
        family: m.architecture.clone(),
        families,
        parameter_size: String::from_str(size),
        quantization_level: String::from_str(level),
    }
}

/// A model in the tags list. `size` is its parameter count as text. None where
/// its files take more bytes than 64 bits can tell.
pub fn model_tag(m: &ModelManifest, size: &str) -> (r: Option<OllamaModelInfo>)
    ensures
        match r {
            Some(t) => t.name@ == m@.alias && t.modified_at@ == time::text_of_time(m@.last_used)
                && t.size == manifest::files_size(m@.files) && t.digest@ == m@.revision
                && is_details_of(t.details, m@, size@),
            None => manifest::files_size(m@.files) > u64::MAX,
        },
{
    match manifest::total_size(m.files.as_slice()) {
        Some(bytes) => Some(
            OllamaModelInfo {
                name: m.alias.clone(),
                modified_at: time::time_text(m.last_used),
                size: bytes,
                digest: m.revision.clone(),
                details: model_details(m, size),
            },
        ),
        None => None,
    }
}

/// The parameters of a Modelfile, one on a line.
pub open spec fn parameter_lines(p: Seq<(Seq<char>, Seq<char>)>) -> Seq<char>
    decreases p.len(),
{
    if p.len() == 0 {
        Seq::empty()
    } else {
        let line = p.last().0 + " "@ + p.last().1;
        if p.len() == 1 {
            line
        } else {
            parameter_lines(p.drop_last()) + "\n"@ + line
        }
    }
}

fn write_parameters(mf: &Modelfile) -> (r: String)
    ensures
        r@ == parameter_lines(mf@.parameters),
{
    let ghost all = mf@.parameters;
    let mut out = String::new();
    let mut i: usize = 0;
    assert(all.take(0) =~= Seq::<(Seq<char>, Seq<char>)>::empty());
    while i < mf.parameters.len()
        invariant
            i <= mf.parameters@.len(),
            all == mf@.parameters,
            all.len() == mf.parameters@.len(),
            out@ == parameter_lines(all.take(i as int)),
        decreases mf.parameters@.len() - i,
    {
        let p = &mf.parameters[i];
        assert(all[i as int] == (p.0@, p.1@));
        assert(all.take(i + 1).drop_last() =~= all.take(i as int));
        let ghost before = out@;
        if i > 0 {
            out.append("\n");
        }
        out.append(p.0.as_str());
        out.append(" ");
        out.append(p.1.as_str());
        assert(out@ =~= parameter_lines(all.take(i + 1))) by {
            let line = p.0@ + " "@ + p.1@;
            if i == 0 {
                assert(before =~= Seq::<char>::empty());
                assert(out@ =~= line);
            } else {
                assert(out@ =~= before + "\n"@ + line);
            }
        }
        i = i + 1;
    }
    assert(all.take(i as int) =~= all);
    out
}

/// What else is told of a model. `billions` is the bit pattern of its parameter
/// count as a 64-bit float, where it is a number.
pub open spec fn model_info_value(m: ManifestView, billions: Option<u64>) -> JsonView {
    JsonView::Object(
        seq![
            ("context_length"@, count_view(m.context_length as int)),
            ("parameters_billion"@, float_view(billions)),
            ("files"@, count_view(m.files.len() as int)),
            ("revision"@, JsonView::Str(m.revision)),
            ("downloaded_at"@, JsonView::Str(time::text_of_time(m.downloaded_at))),
        ],
    )
}

/// A float as a value, by its bit pattern; null where it is not a number.
pub open spec fn float_view(bits: Option<u64>) -> JsonView {
    match bits {
        Some(b) => JsonView::Number(JsonNumber::Float(b)),
        None => JsonView::Null,
    }
}

/// A float as a value, by its bit pattern.
pub fn float_json(bits: Option<u64>) -> (r: Json)
    ensures
        r@ == float_view(bits),
{
    match bits {
        Some(b) => Json::Number(JsonNumber::Float(b)),
        None => Json::Null,
    }
}

fn model_info(m: &ModelManifest, billions: Option<u64>) -> (r: Json)
    ensures
        r@ == model_info_value(m@, billions),
{
    let downloaded = time::time_text(m.downloaded_at);
    let mut members: Vec<(String, Json)> = Vec::new();
    put(&mut members, "context_length", unsigned_json(m.context_length as u64));
    put(&mut members, "parameters_billion", float_json(billions));
    put(&mut members, "files", unsigned_json(m.files.len() as u64));
    put(&mut members, "revision", str_json(m.revision.as_str()));
    put(&mut members, "downloaded_at", str_json(downloaded.as_str()));
    assert(json::member_views(members@) =~= model_info_value(m@, billions)->Object_0);
    Json::Object(members)
}

/// The description of a model: its Modelfile, or one that names its repository;
/// the Modelfile's template and parameters; its details.
pub open spec fn is_description_of(
    d: OllamaShowResponse,
    m: ManifestView,
    size: Seq<char>,
    billions: Option<u64>,
) -> bool {
    &&& d.modelfile@ == match m.modelfile {
        Some(mf) => mf.source,
        None => "FROM "@ + m.repo_id + "\n"@,
    }
    &&& d.parameters@ == match m.modelfile {
        Some(mf) => parameter_lines(mf.parameters),
        None => Seq::empty(),
    }
    &&& d.template@ == match m.modelfile {
        Some(mf) => match mf.template {
            Some(t) => t,
            None => Seq::empty(),
        },
        None => Seq::empty(),
    }
    &&& is_details_of(d.details, m, size)
    &&& d.model_info@ == model_info_value(m, billions)
}

/// Describes the model with an alias. `size` is its parameter count as text,
/// `billions` the bit pattern of it as a 64-bit float.
pub fn describe_model(
    store: &ManifestStore,
    name: &str,
    size: &str,
    billions: Option<u64>,
) -> (r: Result<OllamaShowResponse, ApiError>)
    ensures
        match r {
            Ok(d) => store@.models.dom().contains(name@) && is_description_of(
                d,
                store@.models[name@],
                size@,
                billions,
            ),
            Err(e) => !store@.models.dom().contains(name@) && e@ == types::not_found_view(
                "Model not found: "@ + name@,
                None,
            ),
        },
{
    match store.get(name) {
        Some(m) => {
            let (source, parameters, template): (String, String, String) = match &m.modelfile {
                Some(mf) => {
                    let template: String = match &mf.template {
                        Some(t) => t.clone(),
                        None => String::new(),
                    };
                    (mf.source.clone(), write_parameters(mf), template)
                },
                None => {
                    let mut source = sentence("FROM ", m.repo_id.as_str());
                    source.append("\n");
                    (source, String::new(), String::new())
                },
            };
            Ok(
                OllamaShowResponse {
                    modelfile: source,
                    parameters,
                    template,
                    details: model_details(m, size),
                    model_info: model_info(m, billions),
                },
            )
        },
        None => Err(ApiError::not_found(sentence("Model not found: ", name))),
    }
}

} // verus!
