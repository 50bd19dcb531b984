//! Whole downloads: which files make up a model, where they go, and the manifest
//! that comes of it.
use crate::api::json;
use crate::api::json::{Json, JsonView};
use crate::downloader::hf_api;
use crate::downloader::hf_api::{FileView, RepoFile};
use crate::paths;
use crate::registry::manifest;
use crate::registry::manifest::{
    alias_from_repo_id, is_safe_filename, sanitize_path, FileEntry, ManifestView, ModelManifest,
    QuantizationLevel, WeightFormat,
};
use crate::text;
use crate::time::Timestamp;
use vstd::prelude::*;
use vstd::slice::slice_subrange;
use vstd::string::StringExecFns;

verus! {

broadcast use {vstd::string::group_string_axioms, crate::api::json::lemma_json_view};

/// What happens during a download.
#[derive(Debug)]
pub enum PullProgress {
    /// A new phase began.
    Status(String),
    /// So many bytes of so many are there; a total of zero is not known.
    Download { downloaded: u64, total: u64 },
}

// ------------------------------------------------------------ full weights

/// The revision to download: the one asked for, else the repository's.
pub fn choose_revision(requested: Option<&str>, current: &str) -> (r: String)
    ensures
        r@ == match requested {
            Some(rev) => rev@,
            None => current@,
        },
{
    match requested {
        Some(rev) => String::from_str(rev),
        None => String::from_str(current),
    }
}

/// The directory that a revision of a model is downloaded to.
pub open spec fn model_dir(
    models_dir: Seq<char>,
    repo_id: Seq<char>,
    revision: Seq<char>,
    windows: bool,
) -> Seq<char> {
    paths::joined(paths::joined(models_dir, manifest::sanitized(repo_id), windows), revision, windows)
}

/// The directory that a revision of a model is downloaded to.
pub fn local_dir(models_dir: &str, repo_id: &str, revision: &str, windows: bool) -> (r: String)
    ensures
        r@ == model_dir(models_dir@, repo_id@, revision@, windows),
{
    let repo = sanitize_path(repo_id);
    let dir = paths::join(models_dir, repo.as_str(), windows);
    paths::join(dir.as_str(), revision, windows)
}

/// The position of the first file whose name is not safe.
pub open spec fn first_unsafe(files: Seq<FileView>, i: int) -> Option<int>
    decreases files.len() - i,
{
    if i < 0 || i >= files.len() {
        None
    } else if !manifest::safe_filename(files[i].name) {
        Some(i)
    } else {
        first_unsafe(files, i + 1)
    }
}

/// Refuses a download that has no files, or has one whose name is not safe: no
/// file of it is then fetched.
pub fn check_files(files: &[RepoFile], repo_id: &str) -> (r: Result<(), String>)
    ensures
        ({
            let views = hf_api::file_views(files@);
            match r {
                Ok(_) => views.len() > 0 && first_unsafe(views, 0) is None,
                Err(e) => if views.len() == 0 {
                    e@ == "No suitable files found in repository "@ + repo_id@
                } else {
                    first_unsafe(views, 0) matches Some(i) && e@
                        == "Refusing to download unsafe filename from HF: '"@ + views[i].name
                        + "'"@
                },
            }
        }),
{
    if files.len() == 0 {
        return Err(String::from_str("No suitable files found in repository ").concat(repo_id));
    }
    let ghost views = hf_api::file_views(files@);
    let mut i: usize = 0;
    while i < files.len()
        invariant
            i <= files@.len(),
            files@.len() > 0,
            views == hf_api::file_views(files@),
            first_unsafe(views, i as int) == first_unsafe(views, 0),
        decreases files@.len() - i,
    {
        if !is_safe_filename(files[i].rfilename.as_str()) {
            let mut message = String::from_str(
                "Refusing to download unsafe filename from HF: '",
            ).concat(files[i].rfilename.as_str());
            message.append("'");
            return Err(message);
        }
        i = i + 1;
    }
    Ok(())
}

/// Refuses a file that would be written outside the model's directory. `parent`
/// and `dir` are the canonical paths of the file's directory and of the model's.
pub fn check_containment(
    parent: &str,
    dir: &str,
    dest: &str,
    separator: char,
) -> (r: Result<(), String>)
    ensures
        match r {
            Ok(_) => paths::lies_below(parent@, dir@, separator),
            Err(e) => !paths::lies_below(parent@, dir@, separator) && e@
                == "Refusing to write outside models dir: "@ + text::path_debug_of(dest@),
        },
{
    if paths::is_below(parent, dir, separator) {
        Ok(())
    } else {
        let shown = text::path_debug(dest);
        Err(String::from_str("Refusing to write outside models dir: ").concat(shown.as_str()))
    }
}

// -------------------------------------------------------------------- metadata

/// The first architecture that a model's configuration names.
pub open spec fn raw_architecture(config: JsonView) -> Option<Seq<char>> {
    match json::array_in(json::member(config, "architectures"@)) {
        Some(a) => if a.len() > 0 {
            json::string_in(Some(a[0]))
        } else {
            None
        },
        None => None,
    }
}

/// The short family name of an architecture.
pub open spec fn family_of(raw: Option<Seq<char>>) -> Seq<char> {
    match raw {
        Some(a) => if a == "LlamaForCausalLM"@ {
            "llama"@
        } else if a == "MistralForCausalLM"@ {
            "mistral"@
        } else if a == "PhiForCausalLM"@ {
            "phi"@
        } else if a == "GemmaForCausalLM"@ {
            "gemma"@
        } else if a == "Qwen2ForCausalLM"@ {
            "qwen2"@
        } else {
            "unknown"@
        },
        None => "unknown"@,
    }
}

/// The short family name of the model that a configuration describes.
pub fn extract_architecture(config: &Json) -> (r: String)
    ensures
        r@ == family_of(raw_architecture(config@)),
{
    let raw: Option<&String> = match config.get("architectures") {
        Some(v) => match v.as_array() {
            Some(a) => {
                if a.len() > 0 {
                    a[0].as_str()
                } else {
                    None
                }
            },
            None => None,
        },
        None => None,
    };
    let family: &str = match raw {
        Some(a) => {
            if text::same_text(a.as_str(), "LlamaForCausalLM") {
                "llama"
            } else if text::same_text(a.as_str(), "MistralForCausalLM") {
                "mistral"
            } else if text::same_text(a.as_str(), "PhiForCausalLM") {
                "phi"
            } else if text::same_text(a.as_str(), "GemmaForCausalLM") {
                "gemma"
            } else if text::same_text(a.as_str(), "Qwen2ForCausalLM") {
                "qwen2"
            } else {
                "unknown"
            }
        },
        None => "unknown",
    };
    String::from_str(family)
}

/// A count in a configuration, or what it is taken for where it is not there.
pub open spec fn count_in(config: JsonView, name: Seq<char>, otherwise: u64) -> u64 {
    match json::unsigned_in(json::member(config, name)) {
        Some(n) => n,
        None => otherwise,
    }
}

fn read_count(config: &Json, name: &str, otherwise: u64) -> (r: u64)
    ensures
        r == count_in(config@, name@, otherwise),
{
    match config.get_u64(name) {
        Some(n) => n,
        None => otherwise,
    }
}

/// The context length that a configuration gives, in its lower 32 bits.
pub open spec fn context_of(config: JsonView) -> int {
    count_in(config, "max_position_embeddings"@, 4096) as int % 0x1_0000_0000
}

/// The context length that a configuration gives.
pub fn context_length(config: &Json) -> (r: u32)
    ensures
        r == context_of(config@),
{
    let n: u64 = read_count(config, "max_position_embeddings", 4096);
    (n % 0x1_0000_0000) as u32
}

/// The size of each layer of a model, of its inner layers, how many layers it has,
/// and how many words it knows.
pub struct Geometry {
    pub hidden: int,
    pub intermediate: int,
    pub layers: int,
    pub vocabulary: int,
}

/// What a configuration tells of a model's size.
pub open spec fn geometry_of(config: JsonView) -> Geometry {
    let hidden = count_in(config, "hidden_size"@, 4096) as int;
    Geometry {
        hidden,
        intermediate: match json::unsigned_in(json::member(config, "intermediate_size"@)) {
            Some(n) => n as int,
            None => 4 * hidden,
        },
        layers: count_in(config, "num_hidden_layers"@, 32) as int,
        vocabulary: count_in(config, "vocab_size"@, 32000) as int,
    }
}

/// Roughly how many parameters a model has: attention and inner layers, and the
/// embedding of the words.
pub open spec fn parameter_count(g: Geometry) -> int {
    g.layers * (4 * (g.hidden * g.hidden) + 3 * (g.hidden * g.intermediate)) + g.vocabulary
        * g.hidden
}

/// Roughly how many parameters a model has, from its configuration; none where it
/// is more than 128 bits can tell.
pub fn estimate_parameters(config: &Json) -> (r: Option<u128>)
    ensures
        match r {
            Some(n) => n == parameter_count(geometry_of(config@)),
            None => parameter_count(geometry_of(config@)) > u128::MAX,
        },
{
    let h: u64 = read_count(config, "hidden_size", 4096);
    let l: u64 = read_count(config, "num_hidden_layers", 32);
    let v: u64 = read_count(config, "vocab_size", 32000);
    let i: u128 = match config.get_u64("intermediate_size") {
        Some(n) => n as u128,
        None => 4 * (h as u128),
    };
    let ghost g = geometry_of(config@);
    assert(g.hidden == h && g.layers == l && g.vocabulary == v && g.intermediate == i);
    let ghost hh = g.hidden * g.hidden;
    let ghost hi = g.hidden * g.intermediate;
    let ghost per_layer = 4 * hh + 3 * hi;
    let ghost vh = g.vocabulary * g.hidden;
    let ghost total = parameter_count(g);
    assert(total == g.layers * per_layer + vh);
    assert(0 <= hh <= 0xffff_ffff_ffff_ffff * 0xffff_ffff_ffff_ffff) by (nonlinear_arith)
        requires
            hh == g.hidden * g.hidden,
            0 <= g.hidden <= 0xffff_ffff_ffff_ffff,
    ;
    assert(0 <= vh <= 0xffff_ffff_ffff_ffff * 0xffff_ffff_ffff_ffff) by (nonlinear_arith)
        requires
            vh == g.vocabulary * g.hidden,
            0 <= g.hidden <= 0xffff_ffff_ffff_ffff,
            0 <= g.vocabulary <= 0xffff_ffff_ffff_ffff,
    ;
    assert(0 <= hi) by (nonlinear_arith)
        requires
            hi == g.hidden * g.intermediate,
            0 <= g.hidden,
            0 <= g.intermediate,
    ;
    if l == 0 {
        assert(g.layers * per_layer == 0) by (nonlinear_arith)
            requires
                g.layers == 0,
        ;
        assert(vh == v * h);
        return Some((v as u128) * (h as u128));
    }
    assert(g.layers * per_layer >= per_layer) by (nonlinear_arith)
        requires
            g.layers >= 1,
            per_layer >= 0,
    ;
    assert(hh == h * h);
    assert(hi == h * i);
    let square: u128 = (h as u128) * (h as u128);
    let product: u128 = match (h as u128).checked_mul(i) {
        Some(p) => p,
        None => {
            return None;
        },
    };
    let four: u128 = match square.checked_mul(4) {
        Some(p) => p,
        None => {
            return None;
        },
    };
    let three: u128 = match product.checked_mul(3) {
        Some(p) => p,
        None => {
            return None;
        },
    };
    let layer: u128 = match four.checked_add(three) {
        Some(p) => p,
        None => {
            return None;
        },
    };
    assert(layer == per_layer);
    assert(g.layers * per_layer == layer * l) by (nonlinear_arith)
        requires
            layer == per_layer,
            g.layers == l,
    ;
    let stack: u128 = match layer.checked_mul(l as u128) {
        Some(p) => p,
        None => {
            return None;
        },
    };
    assert(vh == v * h);
    let words: u128 = (v as u128) * (h as u128);
    stack.checked_add(words)
}

/// A larger model has no fewer parameters.
pub proof fn law_parameter_count_grows(a: Geometry, b: Geometry)
    requires
        0 <= a.hidden <= b.hidden,
        0 <= a.intermediate <= b.intermediate,
        0 <= a.layers <= b.layers,
        0 <= a.vocabulary <= b.vocabulary,
    ensures
        0 <= parameter_count(a) <= parameter_count(b),
{
    let pa = 4 * (a.hidden * a.hidden) + 3 * (a.hidden * a.intermediate);
    let pb = 4 * (b.hidden * b.hidden) + 3 * (b.hidden * b.intermediate);
    assert(0 <= a.hidden * a.hidden <= b.hidden * b.hidden) by (nonlinear_arith)
        requires
            0 <= a.hidden <= b.hidden,
    ;
    assert(0 <= a.hidden * a.intermediate <= b.hidden * b.intermediate) by (nonlinear_arith)
        requires
            0 <= a.hidden <= b.hidden,
            0 <= a.intermediate <= b.intermediate,
    ;
    assert(0 <= a.layers * pa <= b.layers * pb) by (nonlinear_arith)
        requires
            0 <= a.layers <= b.layers,
            0 <= pa <= pb,
    ;
    assert(0 <= a.vocabulary * a.hidden <= b.vocabulary * b.hidden) by (nonlinear_arith)
        requires
            0 <= a.hidden <= b.hidden,
            0 <= a.vocabulary <= b.vocabulary,
    ;
}

// ------------------------------------------------------------------- manifests

/// What a model's configuration tells of it. The parameter count, in billions, is
/// held as the bit pattern of a 32-bit float.
#[derive(Debug)]
pub struct ModelMeta {
    pub architecture: String,
    pub context_length: u32,
    pub parameters_billion_bits: u32,
}

impl ModelMeta {
    /// What is taken for granted of a model without a configuration: no family, the
    /// usual context length, and no parameter count.
    pub fn unknown() -> (r: Self)
        ensures
            r.architecture@ == "unknown"@,
            r.context_length == 4096,
            r.parameters_billion_bits == 0,
    {
        ModelMeta {
            architecture: String::from_str("unknown"),
            context_length: 4096,
            parameters_billion_bits: 0,
        }
    }
}

/// A file of a manifest stands for a file of a repository, with no checksum.
pub open spec fn is_entry_of(e: FileEntry, f: FileView) -> bool {
    &&& e.name@ == f.name
    &&& e.sha256@ == Seq::<char>::empty()
    &&& e.size_bytes == match f.size {
        Some(n) => n,
        None => 0,
    }
}

fn file_entry(f: &RepoFile) -> (r: FileEntry)
    ensures
        is_entry_of(r, f@),
{
    let size_bytes: u64 = match f.size {
        Some(n) => n,
        None => 0,
    };
    FileEntry { name: f.rfilename.clone(), sha256: String::new(), size_bytes }
}

/// The files of a manifest stand for those of a repository, one for one.
pub open spec fn are_entries_of(e: Seq<FileEntry>, f: Seq<FileView>) -> bool {
    &&& e.len() == f.len()
    &&& forall|i: int| 0 <= i < e.len() ==> is_entry_of(#[trigger] e[i], f[i])
}

fn file_entries(files: &[RepoFile]) -> (r: Vec<FileEntry>)
    ensures
        are_entries_of(r@, hf_api::file_views(files@)),
{
    let mut out: Vec<FileEntry> = Vec::new();
    let mut i: usize = 0;
    while i < files.len()
        invariant
            i <= files@.len(),
            out@.len() == i,
            forall|j: int| 0 <= j < i ==> is_entry_of(#[trigger] out@[j], files@[j]@),
        decreases files@.len() - i,
    {
        out.push(file_entry(&files[i]));
        i = i + 1;
    }
    out
}

/// The alias of a repository's model.
pub open spec fn alias_of(repo_id: Seq<char>) -> Seq<char> {
    manifest::dashed(text::lowercase_of(manifest::last_component(repo_id)))
}

/// The manifest of a model whose full weights were downloaded.
pub open spec fn is_weights_manifest(
    m: ManifestView,
    repo_id: Seq<char>,
    revision: Seq<char>,
    dir: Seq<char>,
    files: Seq<FileView>,
    meta: ModelMeta,
    now: Timestamp,
) -> bool {
    &&& are_entries_of(m.files, files)
    &&& m == (ManifestView {
        repo_id,
        alias: alias_of(repo_id),
        revision,
        local_path: dir,
        architecture: meta.architecture@,
        weight_format: WeightFormat::Safetensors,
        parameters_billion_bits: meta.parameters_billion_bits,
        context_length: meta.context_length,
        quantization: None,
        gguf_path: None,
        files: m.files,
        downloaded_at: now,
        last_used: now,
        embeddings: false,
        modelfile: None,
    })
}

/// The manifest of a model whose full weights were downloaded.
pub fn weights_manifest(
    repo_id: &str,
    revision: &str,
    dir: &str,
    files: &[RepoFile],
    meta: ModelMeta,
    now: Timestamp,
) -> (r: ModelManifest)
    ensures
        is_weights_manifest(
            r@,
            repo_id@,
            revision@,
            dir@,
            hf_api::file_views(files@),
            meta,
            now,
        ),
{
    ModelManifest {
        repo_id: String::from_str(repo_id),
        alias: alias_from_repo_id(repo_id),
        revision: String::from_str(revision),
        local_path: String::from_str(dir),
        architecture: meta.architecture,
        weight_format: WeightFormat::Safetensors,
        parameters_billion_bits: meta.parameters_billion_bits,
        context_length: meta.context_length,
        quantization: None,
        gguf_path: None,
        files: file_entries(files),
        downloaded_at: now,
        last_used: now,
        embeddings: false,
        modelfile: None,
    }
}

// -------------------------------------------------------------- prebuilt GGUF

/// `s` without `suffix` at its end, as often as it stands there.
pub open spec fn without_suffix(s: Seq<char>, suffix: Seq<char>) -> Seq<char>
    decreases s.len(),
{
    if suffix.len() > 0 && suffix.is_suffix_of(s) {
        without_suffix(s.take(s.len() - suffix.len()), suffix)
    } else {
        s
    }
}

fn strip_suffixes<'a>(s: &'a [char], suffix: &str) -> (r: &'a [char])
    requires
        suffix@.len() > 0,
    ensures
        r@ == without_suffix(s@, suffix@),
{
    let mut rest: &[char] = s;
    loop
        invariant
            suffix@.len() > 0,
            without_suffix(rest@, suffix@) == without_suffix(s@, suffix@),
        decreases rest@.len(),
    {
        match text::strip_suffix(rest, suffix) {
            Some(shorter) => {
                assert(shorter@ =~= rest@.take(rest@.len() - suffix@.len()));
                rest = shorter;
            },
            None => {
                return rest;
            },
        }
    }
}

/// The name under which others publish a model's GGUF files.
pub open spec fn base_name(repo_id: Seq<char>) -> Seq<char> {
    without_suffix(without_suffix(manifest::last_component(repo_id), "-GGUF"@), "-gguf"@)
}

/// Where a model's GGUF files are looked for: in its own repository, then in those
/// of the usual publishers.
pub open spec fn gguf_places(repo_id: Seq<char>) -> Seq<Seq<char>> {
    let base = base_name(repo_id);
    seq![
        repo_id,
        "bartowski/"@ + base + "-GGUF"@,
        "unsloth/"@ + base + "-GGUF"@,
        "QuantFactory/"@ + base + "-GGUF"@,
        "lmstudio-community/"@ + base + "-GGUF"@,
    ]
}

fn mirror(publisher: &str, base: &[char]) -> (r: String)
    ensures
        r@ == publisher@ + base@ + "-GGUF"@,
{
    let mut r = String::from_str(publisher);
    text::append_chars(&mut r, base);
    r.append("-GGUF");
    r
}

/// Where a model's GGUF files are looked for, in order.
pub fn gguf_sources(repo_id: &str) -> (r: Vec<String>)
    ensures
        text::string_texts(r@) == gguf_places(repo_id@),
{
    proof {
        reveal_strlit("-GGUF");
        reveal_strlit("-gguf");
        assert("-GGUF"@.len() == 5);
        assert("-gguf"@.len() == 5);
    }
    let chars = text::chars_of(repo_id);
    let name = manifest::after_last_slash(chars.as_slice());
    let base = strip_suffixes(strip_suffixes(name, "-GGUF"), "-gguf");
    let mut out: Vec<String> = Vec::new();
    out.push(String::from_str(repo_id));
    out.push(mirror("bartowski/", base));
    out.push(mirror("unsloth/", base));
    out.push(mirror("QuantFactory/", base));
    out.push(mirror("lmstudio-community/", base));
    assert(text::string_texts(out@) =~= gguf_places(repo_id@));
    out
}

/// A search for a model's GGUF files, place by place.
#[derive(Debug)]
pub struct GgufSearch {
    sources: Vec<String>,
    at: usize,
}

impl GgufSearch {
    /// The places that are left, the next one first.
    pub closed spec fn places_left(&self) -> Seq<Seq<char>> {
        text::string_texts(self.sources@).skip(self.at as int)
    }

    /// Whether the model's own repository has been looked at.
    pub closed spec fn past_own(&self) -> bool {
        self.at > 0
    }

    #[verifier::type_invariant]
    spec fn in_range(self) -> bool {
        self.at <= self.sources@.len()
    }

    /// A search that has not looked anywhere.
    pub fn new(repo_id: &str) -> (r: Self)
        ensures
            r.places_left() == gguf_places(repo_id@),
            !r.past_own(),
    {
        let sources = gguf_sources(repo_id);
        let r = GgufSearch { sources, at: 0 };
        assert(r.places_left() =~= gguf_places(repo_id@));
        r
    }

    /// Where to look next, and whether to ask first if there is such a repository:
    /// the model's own is looked at without asking.
    pub fn next_place(&self) -> (r: Option<(&String, bool)>)
        ensures
            match r {
                Some((s, ask)) => self.places_left().len() > 0 && s@ == self.places_left()[0] && ask
                    == self.past_own(),
                None => self.places_left().len() == 0,
            },
    {
        proof {
            use_type_invariant(self);
        }
        if self.at < self.sources.len() {
            Some((&self.sources[self.at], self.at > 0))
        } else {
            None
        }
    }

    /// Takes note that the place has no GGUF files.
    pub fn miss(&mut self)
        requires
            old(self).places_left().len() > 0,
        ensures
            final(self).places_left() == old(self).places_left().skip(1),
            final(self).past_own(),
    {
        proof {
            use_type_invariant(&*self);
        }
        let ghost before = self.places_left();
        let n: usize = self.sources.len();
        assert(self.at < n);
        self.at = self.at + 1;
        assert(self.places_left() =~= before.skip(1));
    }
}

/// The message where no place has GGUF files.
pub fn no_gguf_message(repo_id: &str) -> (r: String)
    ensures
        r@ == "No prebuilt GGUF found for '"@ + repo_id@
            + "' (checked the repo and bartowski/unsloth/QuantFactory mirrors). Either the model has no GGUF release, or install torch to convert from safetensors."@,
{
    let mut r = String::from_str("No prebuilt GGUF found for '").concat(repo_id);
    r.append(
        "' (checked the repo and bartowski/unsloth/QuantFactory mirrors). Either the model has no GGUF release, or install torch to convert from safetensors.",
    );
    r
}

/// A name in lower case without underscores.
pub open spec fn compact(lower: Seq<char>) -> Seq<char> {
    text::replaced_chars(lower, seq!['_'], Seq::empty())
}

/// The position, from `i` on, of the first name that holds the wanted one, both in
/// lower case and without underscores.
pub open spec fn matching_from(lowers: Seq<Seq<char>>, wanted: Seq<char>, i: int) -> Option<int>
    decreases lowers.len() - i,
{
    if i < 0 || i >= lowers.len() {
        None
    } else if text::contains_text(compact(lowers[i]), compact(wanted)) {
        Some(i)
    } else {
        matching_from(lowers, wanted, i + 1)
    }
}

/// The position of the file to fetch: the first that matches the wanted level, else
/// the first.
pub open spec fn chosen_gguf(lowers: Seq<Seq<char>>, wanted: Seq<char>) -> Option<int> {
    match matching_from(lowers, wanted, 0) {
        Some(i) => Some(i),
        None => if lowers.len() > 0 {
            Some(0)
        } else {
            None
        },
    }
}

fn compact_name(lower: &str) -> (r: Vec<char>)
    ensures
        r@ == compact(lower@),
{
    let chars = text::chars_of(lower);
    let set: [char; 1] = ['_'];
    assert(set@ == seq!['_']);
    proof {
        reveal_strlit("");
        assert(""@ =~= Seq::<char>::empty());
    }
    text::replace_chars(chars.as_slice(), &set, "")
}

/// Chooses the file to fetch, by the names in lower case and the wanted level in
/// lower case.
pub fn choose_by_lower(lowers: &[String], wanted: &str) -> (r: Option<usize>)
    ensures
        text::position(r) == chosen_gguf(text::string_texts(lowers@), wanted@),
{
    let ghost all = text::string_texts(lowers@);
    let want = text::string_of(compact_name(wanted).as_slice());
    let mut i: usize = 0;
    while i < lowers.len()
        invariant
            i <= lowers@.len(),
            all == text::string_texts(lowers@),
            want@ == compact(wanted@),
            matching_from(all, wanted@, i as int) == matching_from(all, wanted@, 0),
        decreases lowers@.len() - i,
    {
        let name = compact_name(lowers[i].as_str());
        if text::contains(name.as_slice(), want.as_str()) {
            return Some(i);
        }
        i = i + 1;
    }
    if lowers.len() > 0 {
        Some(0)
    } else {
        None
    }
}

/// The names of files in lower case.
pub open spec fn lower_names(files: Seq<FileView>) -> Seq<Seq<char>> {
    files.map_values(|f: FileView| text::lowercase_of(f.name))
}

/// Chooses the file to fetch: the first whose name holds the wanted level, whatever
/// the case and the underscores, else the first.
pub fn choose_gguf(files: &[RepoFile], quant: &str) -> (r: Option<usize>)
    ensures
        text::position(r) == chosen_gguf(
            lower_names(hf_api::file_views(files@)),
            text::lowercase_of(quant@),
        ),
{
    let ghost all = lower_names(hf_api::file_views(files@));
    let mut lowers: Vec<String> = Vec::new();
    assert(text::string_texts(lowers@) =~= all.take(0));
    let mut i: usize = 0;
    while i < files.len()
        invariant
            i <= files@.len(),
            all == lower_names(hf_api::file_views(files@)),
            text::string_texts(lowers@) == all.take(i as int),
        decreases files@.len() - i,
    {
        let ghost before = text::string_texts(lowers@);
        let lower = files[i].rfilename.to_lowercase();
        let ghost lv = lower@;
        lowers.push(lower);
        i = i + 1;
        assert(text::string_texts(lowers@) =~= before.push(lv));
        assert(all.take(i as int) =~= all.take(i - 1).push(all[i - 1]));
    }
    assert(all.take(i as int) =~= all);
    let wanted = quant.to_lowercase();
    choose_by_lower(lowers.as_slice(), wanted.as_str())
}

/// The level of a GGUF file: the one in its name, else the one asked for.
pub open spec fn detected_level(name: Seq<char>, quant: Seq<char>) -> Option<QuantizationLevel> {
    match manifest::level_in(text::uppercase_of(name)) {
        Some(l) => Some(l),
        None => manifest::level_named(text::uppercase_of(quant)),
    }
}

/// The level of a GGUF file.
pub fn detect_level(name: &str, quant: &str) -> (r: Option<QuantizationLevel>)
    ensures
        r == detected_level(name@, quant@),
{
    match QuantizationLevel::from_filename(name) {
        Some(l) => Some(l),
        None => QuantizationLevel::from_str(quant),
    }
}

/// The path that a GGUF file is downloaded to.
pub open spec fn gguf_path_of(
    gguf_dir: Seq<char>,
    repo_id: Seq<char>,
    level: Option<QuantizationLevel>,
    windows: bool,
) -> Seq<char> {
    paths::joined(
        gguf_dir,
        alias_of(repo_id) + "-"@ + match level {
            Some(l) => manifest::llama_name(l),
            None => "GGUF"@,
        } + ".gguf"@,
        windows,
    )
}

/// The path that a GGUF file is downloaded to.
pub fn gguf_dest(
    gguf_dir: &str,
    repo_id: &str,
    level: Option<QuantizationLevel>,
    windows: bool,
) -> (r: String)
    ensures
        r@ == gguf_path_of(gguf_dir@, repo_id@, level, windows),
{
    let mut name = alias_from_repo_id(repo_id);
    name.append("-");
    match level {
        Some(l) => {
            name.append(l.to_llama_str());
        },
        None => {
            name.append("GGUF");
        },
    }
    name.append(".gguf");
    paths::join(gguf_dir, name.as_str(), windows)
}

/// The phase in which a file is downloaded.
pub fn downloading_status(name: &str, source: &str) -> (r: String)
    ensures
        r@ == "downloading "@ + name@ + " from "@ + source@,
{
    let mut r = String::from_str("downloading ").concat(name);
    r.append(" from ");
    r.append(source);
    r
}

/// The manifest of a model whose GGUF file was downloaded.
pub open spec fn is_gguf_manifest(
    m: ManifestView,
    repo_id: Seq<char>,
    revision: Seq<char>,
    gguf_dir: Seq<char>,
    file: FileView,
    quant: Seq<char>,
    meta: ModelMeta,
    now: Timestamp,
    windows: bool,
) -> bool {
    let level = detected_level(file.name, quant);
    &&& are_entries_of(m.files, seq![file])
    &&& m == (ManifestView {
        repo_id,
        alias: alias_of(repo_id),
        revision,
        local_path: paths::joined(gguf_dir, "__gguf_only__"@, windows),
        architecture: meta.architecture@,
        weight_format: WeightFormat::GGUF,
        parameters_billion_bits: meta.parameters_billion_bits,
        context_length: meta.context_length,
        quantization: level,
        gguf_path: Some(gguf_path_of(gguf_dir, repo_id, level, windows)),
        files: m.files,
        downloaded_at: now,
        last_used: now,
        embeddings: false,
        modelfile: None,
    })
}

/// The manifest of a model whose GGUF file was downloaded. It has no directory of
/// full weights.
pub fn gguf_manifest(
    repo_id: &str,
    revision: &str,
    gguf_dir: &str,
    file: &RepoFile,
    quant: &str,
    meta: ModelMeta,
    now: Timestamp,
    windows: bool,
) -> (r: ModelManifest)
    ensures
        is_gguf_manifest(
            r@,
            repo_id@,
            revision@,
            gguf_dir@,
            file@,
            quant@,
            meta,
            now,
            windows,
        ),
{
    let level = detect_level(file.rfilename.as_str(), quant);
    let mut files: Vec<FileEntry> = Vec::new();
    files.push(file_entry(file));
    ModelManifest {
        repo_id: String::from_str(repo_id),
        alias: alias_from_repo_id(repo_id),
        revision: String::from_str(revision),
        local_path: paths::join(gguf_dir, "__gguf_only__", windows),
        architecture: meta.architecture,
        weight_format: WeightFormat::GGUF,
        parameters_billion_bits: meta.parameters_billion_bits,
        context_length: meta.context_length,
        quantization: level,
        gguf_path: Some(gguf_dest(gguf_dir, repo_id, level, windows)),
        files,
        downloaded_at: now,
        last_used: now,
        embeddings: false,
        modelfile: None,
    }
}

/// Whether a repository has a configuration to read.
pub fn has_config(siblings: &[RepoFile]) -> (r: bool)
    ensures
        r == exists|i: int|
            0 <= i < siblings@.len() && (#[trigger] siblings@[i]).rfilename@ == "config.json"@,
{
    let mut i: usize = 0;
    while i < siblings.len()
        invariant
            i <= siblings@.len(),
            forall|j: int|
                0 <= j < i ==> (#[trigger] siblings@[j]).rfilename@ != "config.json"@,
        decreases siblings@.len() - i,
    {
        if text::same_text(siblings[i].rfilename.as_str(), "config.json") {
            return true;
        }
        i = i + 1;
    }
    false
}

// ------------------------------------------------------------------------ laws

/// A file that passed the check is written below the model's directory: its name is
/// relative and climbs nowhere.
pub proof fn law_checked_files_stay_in_the_directory(
    files: Seq<FileView>,
    dir: Seq<char>,
    windows: bool,
    i: int,
    a: int,
    b: int,
)
    requires
        first_unsafe(files, 0) is None,
        0 <= i < files.len(),
        0 <= a <= b <= files[i].name.len(),
    ensures
        dir.is_prefix_of(paths::joined(dir, files[i].name, windows)),
        files[i].name.subrange(a, b) != ".."@,
{
    lemma_none_unsafe(files, 0, i);
    manifest::law_safe_filename_stays_inside(files[i].name, a, b);
    paths::law_relative_name_stays_below(dir, files[i].name, windows);
}

proof fn lemma_none_unsafe(files: Seq<FileView>, from: int, i: int)
    requires
        first_unsafe(files, from) is None,
        0 <= from <= i < files.len(),
    ensures
        manifest::safe_filename(files[i].name),
    decreases i - from,
{
    if from < i {
        lemma_none_unsafe(files, from + 1, i);
    }
}

/// What passes the listing's filter passes the check.
pub proof fn law_listed_files_pass_the_check(s: Seq<FileView>)
    ensures
        first_unsafe(hf_api::model_files(s), 0) is None,
{
    lemma_all_safe(hf_api::model_files(s), s, 0);
}

proof fn lemma_all_safe(files: Seq<FileView>, s: Seq<FileView>, i: int)
    requires
        files == hf_api::model_files(s),
        0 <= i <= files.len(),
    ensures
        first_unsafe(files, i) is None,
    decreases files.len() - i,
{
    if i < files.len() {
        hf_api::law_downloads_are_safe_and_listed(s, i);
        lemma_all_safe(files, s, i + 1);
    }
}

} // verus!
