//! What holds of the files that a download fetches, and of the manifest that comes of
//! it.
use crate::api::json;
use crate::api::json::{JsonNumber, JsonView};
use crate::downloader::file_manager;
use crate::downloader::file_manager::{Geometry, ModelMeta};
use crate::downloader::hf_api;
use crate::downloader::hf_api::FileView;
use crate::registry::manifest;
use crate::registry::manifest::{ManifestView, WeightFormat};
use crate::registry::registry_laws;
use crate::text;
use crate::time::Timestamp;
use vstd::prelude::*;

verus! {

// ---------------------------------------------------------------- which files come

/// One of the files that every model has under the same name.
pub open spec fn is_companion(n: Seq<char>) -> bool {
    seq![
        "config.json"@,
        "tokenizer.json"@,
        "tokenizer_config.json"@,
        "tokenizer.model"@,
        "special_tokens_map.json"@,
        "generation_config.json"@,
        "model.safetensors.index.json"@,
    ].contains(n)
}

/// Every weights file and every companion file that a repository lists is downloaded:
/// nothing that a model needs is left out, however many pieces its weights come in.
pub proof fn law_every_needed_file_comes(s: Seq<FileView>, i: int)
    requires
        0 <= i < s.len(),
        manifest::safe_filename(s[i].name),
        ".safetensors"@.is_suffix_of(s[i].name) || is_companion(s[i].name),
    ensures
        hf_api::model_files(s).contains(s[i]),
    decreases s.len(),
{
    let n = s[i].name;
    lemma_needed_is_not_denied(n);
    lemma_companions_are_wanted(n);
    assert(hf_api::is_model_file(n));
    let before = hf_api::model_files(s.drop_last());
    if i < s.len() - 1 {
        law_every_needed_file_comes(s.drop_last(), i);
        assert(s.drop_last()[i] == s[i]);
        let k = before.index_of(s[i]);
        assert(hf_api::model_files(s)[k] == s[i]);
    } else {
        assert(hf_api::model_files(s)[before.len() as int] == s[i]);
    }
}

proof fn lemma_companions_are_wanted(n: Seq<char>)
    ensures
        hf_api::wanted_name(n) == is_companion(n),
{
    let all = seq![
        "config.json"@,
        "tokenizer.json"@,
        "tokenizer_config.json"@,
        "tokenizer.model"@,
        "special_tokens_map.json"@,
        "generation_config.json"@,
        "model.safetensors.index.json"@,
    ];
    assert(all[0] == "config.json"@ && all[1] == "tokenizer.json"@ && all[2]
        == "tokenizer_config.json"@ && all[3] == "tokenizer.model"@ && all[4]
        == "special_tokens_map.json"@ && all[5] == "generation_config.json"@ && all[6]
        == "model.safetensors.index.json"@);
}

proof fn lemma_last_char(suffix: Seq<char>, n: Seq<char>, back: int)
    requires
        suffix.is_suffix_of(n),
        0 < back <= suffix.len(),
    ensures
        n[n.len() - back] == suffix[suffix.len() - back],
{
    assert(n.subrange(n.len() - suffix.len(), n.len() as int)[suffix.len() - back] == n[n.len()
        - back]);
}

proof fn lemma_needed_is_not_denied(n: Seq<char>)
    requires
        ".safetensors"@.is_suffix_of(n) || is_companion(n),
    ensures
        !hf_api::denied_name(n),
{
    reveal_strlit(".safetensors");
    reveal_strlit("config.json");
    reveal_strlit("tokenizer.json");
    reveal_strlit("tokenizer_config.json");
    reveal_strlit("tokenizer.model");
    reveal_strlit("special_tokens_map.json");
    reveal_strlit("generation_config.json");
    reveal_strlit("model.safetensors.index.json");
    reveal_strlit(".msgpack");
    reveal_strlit(".h5");
    reveal_strlit(".ot");
    reveal_strlit(".npz");
    reveal_strlit(".pt");
    lemma_companions_are_wanted(n);
    if ".safetensors"@.is_suffix_of(n) {
        lemma_last_char(".safetensors"@, n, 1);
    }
    if ".msgpack"@.is_suffix_of(n) {
        lemma_last_char(".msgpack"@, n, 1);
    }
    if ".h5"@.is_suffix_of(n) {
        lemma_last_char(".h5"@, n, 1);
    }
    if ".ot"@.is_suffix_of(n) {
        lemma_last_char(".ot"@, n, 1);
    }
    if ".npz"@.is_suffix_of(n) {
        lemma_last_char(".npz"@, n, 1);
    }
    if ".pt"@.is_suffix_of(n) {
        lemma_last_char(".pt"@, n, 1);
    }
}

/// Nothing else is downloaded: every file that comes is a weights file or a companion,
/// and none is a copy of the weights in another format.
pub proof fn law_only_needed_files_come(s: Seq<FileView>, i: int)
    requires
        0 <= i < hf_api::model_files(s).len(),
    ensures
        ({
            let n = hf_api::model_files(s)[i].name;
            &&& ".safetensors"@.is_suffix_of(n) || is_companion(n)
            &&& !".msgpack"@.is_suffix_of(n) && !".h5"@.is_suffix_of(n) && !".ot"@.is_suffix_of(n)
            &&& !".npz"@.is_suffix_of(n) && !".pt"@.is_suffix_of(n)
        }),
    decreases s.len(),
{
    let before = hf_api::model_files(s.drop_last());
    if i < before.len() {
        law_only_needed_files_come(s.drop_last(), i);
    } else {
        lemma_companions_are_wanted(s.last().name);
    }
}

/// The files come in the order in which they are listed.
pub proof fn law_files_come_in_order(a: Seq<FileView>, b: Seq<FileView>)
    ensures
        hf_api::model_files(a + b) == hf_api::model_files(a) + hf_api::model_files(b),
    decreases b.len(),
{
    if b.len() == 0 {
        assert(a + b =~= a);
        assert(hf_api::model_files(a) + hf_api::model_files(b) =~= hf_api::model_files(a));
    } else {
        assert((a + b).drop_last() =~= a + b.drop_last());
        assert((a + b).last() == b.last());
        law_files_come_in_order(a, b.drop_last());
        assert(hf_api::model_files(a + b) =~= hf_api::model_files(a) + hf_api::model_files(b));
    }
}

// ----------------------------------------------------------------- prebuilt files

/// A name of a GGUF file that is not split into pieces, in any case.
pub open spec fn is_whole_gguf(n: Seq<char>) -> bool {
    let lower = text::lowercase_of(n);
    ".gguf"@.is_suffix_of(lower) && !(exists|i: int| text::occurs_at(lower, "-of-"@, i))
}

/// Every GGUF file in one piece that a repository lists can be chosen.
pub proof fn law_every_whole_gguf_can_be_chosen(s: Seq<FileView>, i: int)
    requires
        0 <= i < s.len(),
        manifest::safe_filename(s[i].name),
        is_whole_gguf(s[i].name),
    ensures
        hf_api::gguf_files(s).contains(s[i]),
    decreases s.len(),
{
    let before = hf_api::gguf_files(s.drop_last());
    let last = s.last();
    lemma_place_is_inside(before, hf_api::size_key(last));
    let at = hf_api::place_for(before, hf_api::size_key(last));
    if i < s.len() - 1 {
        law_every_whole_gguf_can_be_chosen(s.drop_last(), i);
        assert(s.drop_last()[i] == s[i]);
        let k = before.index_of(s[i]);
        if hf_api::is_single_gguf(last.name, text::lowercase_of(last.name)) {
            let now = before.insert(at, last);
            if k < at {
                assert(now[k] == s[i]);
            } else {
                assert(now[k + 1] == s[i]);
            }
        }
    } else {
        assert(hf_api::is_single_gguf(last.name, text::lowercase_of(last.name)));
        assert(before.insert(at, last)[at] == last);
    }
}

proof fn lemma_place_is_inside(s: Seq<FileView>, key: u64)
    ensures
        0 <= hf_api::place_for(s, key) <= s.len(),
    decreases s.len(),
{
    if s.len() > 0 {
        lemma_place_is_inside(s.drop_last(), key);
    }
}

/// What can be chosen is listed, is a GGUF file in one piece and has a safe name, and
/// a file that is listed once is there once.
pub proof fn law_only_whole_gguf_files_can_be_chosen(s: Seq<FileView>, i: int)
    requires
        0 <= i < hf_api::gguf_files(s).len(),
    ensures
        s.contains(hf_api::gguf_files(s)[i]),
        is_whole_gguf(hf_api::gguf_files(s)[i].name),
        manifest::safe_filename(hf_api::gguf_files(s)[i].name),
        hf_api::gguf_files(s).len() <= s.len(),
    decreases s.len(),
{
    let before = hf_api::gguf_files(s.drop_last());
    let last = s.last();
    lemma_place_is_inside(before, hf_api::size_key(last));
    let at = hf_api::place_for(before, hf_api::size_key(last));
    let x = hf_api::gguf_files(s)[i];
    assert(s[s.len() - 1] == last);
    lemma_no_more_than_listed(s.drop_last());
    if hf_api::is_single_gguf(last.name, text::lowercase_of(last.name)) {
        if i == at {
            assert(x == last);
        } else {
            let k = if i < at {
                i
            } else {
                i - 1
            };
            assert(x == before[k]);
            law_only_whole_gguf_files_can_be_chosen(s.drop_last(), k);
            let j = s.drop_last().index_of(x);
            assert(s[j] == x);
        }
    } else {
        law_only_whole_gguf_files_can_be_chosen(s.drop_last(), i);
        let j = s.drop_last().index_of(x);
        assert(s[j] == x);
    }
}

proof fn lemma_no_more_than_listed(s: Seq<FileView>)
    ensures
        hf_api::gguf_files(s).len() <= s.len(),
    decreases s.len(),
{
    if s.len() > 0 {
        lemma_no_more_than_listed(s.drop_last());
        let before = hf_api::gguf_files(s.drop_last());
        lemma_place_is_inside(before, hf_api::size_key(s.last()));
    }
}

/// Two names match whatever their underscores: what is compared is each name without
/// them.
pub proof fn law_underscores_do_not_count(s: Seq<char>)
    ensures
        file_manager::compact(s) == s.filter(|c: char| c != '_'),
    decreases s.len(),
{
    broadcast use vstd::seq_lib::group_filter_ensures;

    reveal(Seq::filter);
    let set = seq!['_'];
    assert(set[0] == '_');
    if s.len() > 0 {
        law_underscores_do_not_count(s.drop_last());
        assert(set.contains(s.last()) == (s.last() == '_'));
        assert(file_manager::compact(s) =~= s.filter(|c: char| c != '_'));
    } else {
        assert(file_manager::compact(s) =~= s.filter(|c: char| c != '_'));
    }
}

/// A name holds a level, whatever the underscores of both.
pub open spec fn names_level(lower: Seq<char>, wanted: Seq<char>) -> bool {
    text::contains_text(
        lower.filter(|c: char| c != '_'),
        wanted.filter(|c: char| c != '_'),
    )
}

/// The file that is fetched is the first of the wanted level; only where none is of
/// that level it is the first of all. Some file is fetched wherever there is one.
pub proof fn law_first_file_of_the_level_is_fetched(lowers: Seq<Seq<char>>, wanted: Seq<char>)
    ensures
        lowers.len() == 0 <==> file_manager::chosen_gguf(lowers, wanted) is None,
        file_manager::chosen_gguf(lowers, wanted) matches Some(i) ==> {
            &&& 0 <= i < lowers.len()
            &&& forall|j: int| 0 <= j < i ==> !names_level(#[trigger] lowers[j], wanted)
            &&& (exists|j: int| 0 <= j < lowers.len() && names_level(#[trigger] lowers[j], wanted))
                ==> names_level(lowers[i], wanted)
            &&& (forall|j: int|
                0 <= j < lowers.len() ==> !names_level(#[trigger] lowers[j], wanted)) ==> i == 0
        },
{
    lemma_matching_from(lowers, wanted, 0);
    assert forall|j: int| 0 <= j < lowers.len() implies names_level(#[trigger] lowers[j], wanted)
        == text::contains_text(
        file_manager::compact(lowers[j]),
        file_manager::compact(wanted),
    ) by {
        law_underscores_do_not_count(lowers[j]);
        law_underscores_do_not_count(wanted);
    }
}

proof fn lemma_matching_from(lowers: Seq<Seq<char>>, wanted: Seq<char>, i: int)
    requires
        0 <= i <= lowers.len(),
    ensures
        match file_manager::matching_from(lowers, wanted, i) {
            Some(k) => i <= k < lowers.len() && text::contains_text(
                file_manager::compact(lowers[k]),
                file_manager::compact(wanted),
            ) && forall|j: int|
                i <= j < k ==> !text::contains_text(
                    file_manager::compact(#[trigger] lowers[j]),
                    file_manager::compact(wanted),
                ),
            None => forall|j: int|
                i <= j < lowers.len() ==> !text::contains_text(
                    file_manager::compact(#[trigger] lowers[j]),
                    file_manager::compact(wanted),
                ),
        },
    decreases lowers.len() - i,
{
    if i < lowers.len() {
        lemma_matching_from(lowers, wanted, i + 1);
    }
}

/// A model's prebuilt file is looked for in its own repository first, then under its
/// name with the usual publishers; that it was asked for under a name that says GGUF
/// already changes nothing but the first place.
pub proof fn law_mirrors_go_by_the_model_name(org: Seq<char>, name: Seq<char>)
    requires
        !name.contains('/'),
        !"-GGUF"@.is_suffix_of(name),
        !"-gguf"@.is_suffix_of(name),
    ensures
        ({
            let repo = org + "/"@ + name;
            let places = file_manager::gguf_places(repo);
            let others = file_manager::gguf_places(repo + "-GGUF"@);
            &&& places.len() == 5 && others.len() == 5
            &&& places[0] == repo && others[0] == repo + "-GGUF"@
            &&& places[1] == "bartowski/"@ + name + "-GGUF"@
            &&& places[2] == "unsloth/"@ + name + "-GGUF"@
            &&& places[3] == "QuantFactory/"@ + name + "-GGUF"@
            &&& places[4] == "lmstudio-community/"@ + name + "-GGUF"@
            &&& forall|i: int| 1 <= i < 5 ==> #[trigger] others[i] == places[i]
        }),
{
    let repo = org + "/"@ + name;
    let long = name + "-GGUF"@;
    reveal_strlit("-GGUF");
    reveal_strlit("-gguf");
    reveal_strlit("/");
    registry_laws::lemma_name_is_last(org, name);
    assert forall|i: int| 0 <= i < long.len() implies long[i] != '/' by {
        if i < name.len() {
            assert(name.contains(name[i]));
        }
    }
    registry_laws::lemma_name_is_last(org, long);
    assert(repo + "-GGUF"@ =~= org + "/"@ + long);
    assert("-GGUF"@.is_suffix_of(long)) by {
        assert(long.subrange(long.len() - 5, long.len() as int) =~= "-GGUF"@);
    }
    assert(long.take(long.len() - 5) =~= name);
}

// ------------------------------------------------------------------- what is told

/// A file that the hub tells of under its name comes with that name, and with the size
/// it is told with; a large file's size stands beside its pointer.
pub proof fn law_listed_file_is_read(members: Seq<(Seq<char>, JsonView)>, name: Seq<char>)
    requires
        json::lookup(members, "rfilename"@) == Some(JsonView::Str(name)),
        name.len() > 0,
    ensures
        hf_api::file_of(JsonView::Object(members)) matches Some(f) && {
            &&& f.name == name
            &&& json::lookup(members, "size"@) matches Some(JsonView::Number(JsonNumber::Unsigned(n)))
                ==> f.size == Some(n)
            &&& json::lookup(members, "size"@) is None ==> {
                &&& json::lookup(members, "lfs"@) is None ==> f.size is None
                &&& json::lookup(members, "lfs"@) matches Some(JsonView::Object(l)) ==> (
                json::lookup(l, "size"@) matches Some(JsonView::Number(JsonNumber::Unsigned(n)))
                    ==> f.size == Some(n))
            }
        },
{
}

/// Every named item of the hub's list is read, in order.
pub proof fn law_listing_is_read_in_order(a: Seq<JsonView>, b: Seq<JsonView>)
    ensures
        hf_api::files_of(a + b) == hf_api::files_of(a) + hf_api::files_of(b),
        b.len() == 1 && hf_api::file_of(b[0]) is Some ==> hf_api::files_of(b) == seq![
            hf_api::file_of(b[0])->0,
        ],
        b.len() == 1 && hf_api::file_of(b[0]) is None ==> hf_api::files_of(b).len() == 0,
    decreases b.len(),
{
    if b.len() == 0 {
        assert(a + b =~= a);
        assert(hf_api::files_of(a) + hf_api::files_of(b) =~= hf_api::files_of(a));
    } else {
        assert((a + b).drop_last() =~= a + b.drop_last());
        assert((a + b).last() == b.last());
        law_listing_is_read_in_order(a, b.drop_last());
        assert(hf_api::files_of(a + b) =~= hf_api::files_of(a) + hf_api::files_of(b));
        if b.len() == 1 {
            assert(b.drop_last() =~= Seq::<JsonView>::empty());
            if hf_api::file_of(b[0]) is Some {
                assert(hf_api::files_of(b) =~= seq![hf_api::file_of(b[0])->0]);
            }
        }
    }
}

/// A layer more adds four squares of the hidden size and three of its products with the
/// inner size; a word more adds one hidden size; a model without layers has just the
/// embedding of its words.
pub proof fn law_parameters_by_layer_and_word(g: Geometry)
    ensures
        file_manager::parameter_count(Geometry { layers: g.layers + 1, ..g })
            - file_manager::parameter_count(g) == 4 * (g.hidden * g.hidden) + 3 * (g.hidden
            * g.intermediate),
        file_manager::parameter_count(Geometry { vocabulary: g.vocabulary + 1, ..g })
            - file_manager::parameter_count(g) == g.hidden,
        file_manager::parameter_count(Geometry { layers: 0, vocabulary: 0, ..g }) == 0,
{
    let per = 4 * (g.hidden * g.hidden) + 3 * (g.hidden * g.intermediate);
    assert((g.layers + 1) * per == g.layers * per + per) by (nonlinear_arith);
    assert((g.vocabulary + 1) * g.hidden == g.vocabulary * g.hidden + g.hidden)
        by (nonlinear_arith);
    assert(0 * per == 0);
    assert(0 * g.hidden == 0);
}

/// The sizes of a model are those that its configuration gives.
pub proof fn law_geometry_is_what_the_configuration_gives(
    members: Seq<(Seq<char>, JsonView)>,
    hidden: u64,
    intermediate: u64,
    layers: u64,
    vocabulary: u64,
)
    requires
        json::lookup(members, "hidden_size"@) == Some(
            JsonView::Number(JsonNumber::Unsigned(hidden)),
        ),
        json::lookup(members, "intermediate_size"@) == Some(
            JsonView::Number(JsonNumber::Unsigned(intermediate)),
        ),
        json::lookup(members, "num_hidden_layers"@) == Some(
            JsonView::Number(JsonNumber::Unsigned(layers)),
        ),
        json::lookup(members, "vocab_size"@) == Some(
            JsonView::Number(JsonNumber::Unsigned(vocabulary)),
        ),
    ensures
        file_manager::geometry_of(JsonView::Object(members)) == (Geometry {
            hidden: hidden as int,
            intermediate: intermediate as int,
            layers: layers as int,
            vocabulary: vocabulary as int,
        }),
{
}

/// Without a word of its own in the configuration, the inner size is four times the
/// hidden size, and the usual sizes are taken for the rest.
pub proof fn law_usual_geometry(hidden: u64)
    ensures
        file_manager::geometry_of(JsonView::Object(Seq::empty())) == (Geometry {
            hidden: 4096,
            intermediate: 16384,
            layers: 32,
            vocabulary: 32000,
        }),
        file_manager::geometry_of(
            JsonView::Object(
                seq![("hidden_size"@, JsonView::Number(JsonNumber::Unsigned(hidden)))],
            ),
        ).intermediate == 4 * hidden,
        file_manager::context_of(JsonView::Object(Seq::empty())) == 4096,
{
    let m = seq![("hidden_size"@, JsonView::Number(JsonNumber::Unsigned(hidden)))];
    reveal_strlit("hidden_size");
    reveal_strlit("intermediate_size");
    assert("hidden_size"@.len() != "intermediate_size"@.len());
    assert(m.skip(1) =~= Seq::<(Seq<char>, JsonView)>::empty());
    reveal_with_fuel(json::lookup, 3);
}

/// The context length is the one that the configuration gives, wherever it fits 32
/// bits.
pub proof fn law_context_is_what_the_configuration_gives(
    members: Seq<(Seq<char>, JsonView)>,
    n: u64,
)
    requires
        json::lookup(members, "max_position_embeddings"@) == Some(
            JsonView::Number(JsonNumber::Unsigned(n)),
        ),
        n <= u32::MAX,
    ensures
        file_manager::context_of(JsonView::Object(members)) == n,
{
}

/// A known architecture goes by its own name: what stands before `ForCausalLM`, in
/// lower case.
pub proof fn law_family_is_the_architectures_name(raw: Seq<char>)
    ensures
        file_manager::family_of(Some(raw)) != "unknown"@ ==> text::ascii_lower(raw)
            == file_manager::family_of(Some(raw)) + "forcausallm"@,
        file_manager::family_of(None) == "unknown"@,
        file_manager::family_of(Some("LlamaForCausalLM"@)) != "unknown"@,
        file_manager::family_of(Some("MistralForCausalLM"@)) != "unknown"@,
        file_manager::family_of(Some("PhiForCausalLM"@)) != "unknown"@,
        file_manager::family_of(Some("GemmaForCausalLM"@)) != "unknown"@,
        file_manager::family_of(Some("Qwen2ForCausalLM"@)) != "unknown"@,
{
    reveal_strlit("LlamaForCausalLM");
    reveal_strlit("MistralForCausalLM");
    reveal_strlit("PhiForCausalLM");
    reveal_strlit("GemmaForCausalLM");
    reveal_strlit("Qwen2ForCausalLM");
    reveal_strlit("llama");
    reveal_strlit("mistral");
    reveal_strlit("phi");
    reveal_strlit("gemma");
    reveal_strlit("qwen2");
    reveal_strlit("unknown");
    reveal_strlit("forcausallm");
    assert("llama"@.len() != "unknown"@.len());
    assert("mistral"@[0] != "unknown"@[0]);
    assert("phi"@.len() != "unknown"@.len());
    assert("gemma"@.len() != "unknown"@.len());
    assert("qwen2"@.len() != "unknown"@.len());
    assert("LlamaForCausalLM"@.len() == 16);
    assert("MistralForCausalLM"@.len() == 18);
    assert("PhiForCausalLM"@.len() == 14);
    assert("GemmaForCausalLM"@[0] == 'G');
    assert("Qwen2ForCausalLM"@[0] == 'Q');
    assert("LlamaForCausalLM"@[0] == 'L');
    assert(text::ascii_lower("LlamaForCausalLM"@) =~= "llama"@ + "forcausallm"@);
    assert(text::ascii_lower("MistralForCausalLM"@) =~= "mistral"@ + "forcausallm"@);
    assert(text::ascii_lower("PhiForCausalLM"@) =~= "phi"@ + "forcausallm"@);
    assert(text::ascii_lower("GemmaForCausalLM"@) =~= "gemma"@ + "forcausallm"@);
    assert(text::ascii_lower("Qwen2ForCausalLM"@) =~= "qwen2"@ + "forcausallm"@);
}

// ---------------------------------------------------------------------- manifests

/// A model that was downloaded as weights is registered under the alias of its
/// repository, with its directory, what is known of it, and each of its files by name
/// and size; it has no GGUF file and no level.
pub proof fn law_weights_manifest_tells_the_download(
    m: ManifestView,
    repo_id: Seq<char>,
    revision: Seq<char>,
    dir: Seq<char>,
    files: Seq<FileView>,
    meta: ModelMeta,
    now: Timestamp,
    i: int,
)
    requires
        file_manager::is_weights_manifest(m, repo_id, revision, dir, files, meta, now),
        0 <= i < files.len(),
    ensures
        m.repo_id == repo_id,
        m.revision == revision,
        m.local_path == dir,
        m.weight_format == WeightFormat::Safetensors,
        m.architecture == meta.architecture@,
        m.context_length == meta.context_length,
        m.parameters_billion_bits == meta.parameters_billion_bits,
        m.gguf_path is None,
        m.quantization is None,
        m.modelfile is None,
        !m.embeddings,
        m.downloaded_at == now,
        m.files.len() == files.len(),
        m.files[i].name@ == files[i].name,
        files[i].size matches Some(n) ==> m.files[i].size_bytes == n,
        files[i].size is None ==> m.files[i].size_bytes == 0,
{
    assert(file_manager::is_entry_of(m.files[i], files[i]));
}

/// A model that was downloaded as a GGUF file is registered with the path that the file
/// was written to, the level in its name, and that one file; it can be served by
/// llama.cpp.
pub proof fn law_gguf_manifest_tells_the_download(
    m: ManifestView,
    repo_id: Seq<char>,
    revision: Seq<char>,
    gguf_dir: Seq<char>,
    file: FileView,
    quant: Seq<char>,
    meta: ModelMeta,
    now: Timestamp,
    windows: bool,
)
    requires
        file_manager::is_gguf_manifest(
            m,
            repo_id,
            revision,
            gguf_dir,
            file,
            quant,
            meta,
            now,
            windows,
        ),
    ensures
        m.repo_id == repo_id,
        m.revision == revision,
        m.weight_format == WeightFormat::GGUF,
        m.gguf_path == Some(
            file_manager::gguf_path_of(gguf_dir, repo_id, m.quantization, windows),
        ),
        m.quantization == file_manager::detected_level(file.name, quant),
        m.architecture == meta.architecture@,
        m.context_length == meta.context_length,
        m.modelfile is None,
        m.files.len() == 1,
        m.files[0].name@ == file.name,
        file.size matches Some(n) ==> m.files[0].size_bytes == n,
{
    assert(file_manager::is_entry_of(m.files[0], seq![file][0]));
}

/// Where the path of a GGUF file tells the alias and the level: it ends in the level's
/// name behind the alias, and files of different levels have different paths.
pub proof fn law_levels_have_their_own_files(
    gguf_dir: Seq<char>,
    repo_id: Seq<char>,
    a: manifest::QuantizationLevel,
    b: manifest::QuantizationLevel,
    windows: bool,
)
    requires
        a != b,
    ensures
        file_manager::gguf_path_of(gguf_dir, repo_id, Some(a), windows)
            != file_manager::gguf_path_of(gguf_dir, repo_id, Some(b), windows),
{
    let alias = file_manager::alias_of(repo_id);
    let x = "-"@ + manifest::llama_name(a) + ".gguf"@;
    let y = "-"@ + manifest::llama_name(b) + ".gguf"@;
    reveal_strlit("-");
    reveal_strlit(".gguf");
    reveal_strlit("Q4_0");
    reveal_strlit("Q4_K_M");
    reveal_strlit("Q5_K_M");
    reveal_strlit("Q6_K");
    reveal_strlit("Q8_0");
    reveal_strlit("F16");
    reveal_strlit("F32");
    assert(alias + "-"@ + manifest::llama_name(a) + ".gguf"@ =~= alias + x);
    assert(alias + "-"@ + manifest::llama_name(b) + ".gguf"@ =~= alias + y);
    assert forall|i: int| 0 <= i < x.len() implies !crate::paths::is_separator(
        #[trigger] x[i],
        true,
    ) by {}
    assert forall|i: int| 0 <= i < y.len() implies !crate::paths::is_separator(
        #[trigger] y[i],
        true,
    ) by {}
    let n = alias.len() as int;
    if alias + x == alias + y {
        assert((alias + x).skip(n) =~= x);
        assert((alias + y).skip(n) =~= y);
        assert(x[1] == y[1] && x[2] == y[2] && x.len() == y.len());
        assert(x[3] == y[3] && x[4] == y[4]);
    }
    crate::paths::lemma_join_tells_names_apart(gguf_dir, alias, x, y, windows);
}

// ---------------------------------------------------------------------- transfers

/// A file is fetched from its repository, at its revision, by its name; files of other
/// names of one revision have other places.
pub proof fn law_file_is_fetched_by_its_name(
    repo_id: Seq<char>,
    revision: Seq<char>,
    a: Seq<char>,
    b: Seq<char>,
)
    ensures
        hf_api::file_place(repo_id, revision, a) == "https://huggingface.co/"@ + repo_id
            + "/resolve/"@ + revision + "/"@ + a,
        hf_api::file_place(repo_id, revision, a) == hf_api::file_place(repo_id, revision, b)
            ==> a == b,
{
    let front = "https://huggingface.co/"@ + repo_id + "/resolve/"@ + revision + "/"@;
    let n = front.len() as int;
    assert((front + a).skip(n) =~= a);
    assert((front + b).skip(n) =~= b);
}

/// The files of the hub's answer are those that it lists.
pub proof fn law_listing_is_what_the_hub_lists(v: JsonView, a: Seq<JsonView>)
    ensures
        json::member(v, "siblings"@) == Some(JsonView::Array(a)) ==> hf_api::siblings_of(v)
            == hf_api::files_of(a),
        json::member(v, "siblings"@) is None ==> hf_api::siblings_of(v).len() == 0,
{
}

/// A transfer is complete where the server has no more, refused where it says so, goes on
/// where the rest was asked for and comes, and else begins anew.
pub proof fn law_answers_of_a_transfer(status: u16, asked_rest: bool)
    ensures
        hf_api::reception(status, asked_rest) == hf_api::Reception::Complete <==> status == 416,
        hf_api::reception(status, asked_rest) == hf_api::Reception::Refused <==> (status < 200
            || status >= 300) && status != 416,
        hf_api::reception(status, asked_rest) == hf_api::Reception::Append <==> status == 206
            && asked_rest,
{
}

/// What is told first of a transfer: the bytes that are there where they are kept, none
/// where the file is written anew, and nothing of a refused one.
pub proof fn law_first_count_is_what_is_kept(existing: u64, expected: u64)
    ensures
        hf_api::first_report(hf_api::Reception::Append, existing, Some(expected)) matches Some(r)
            && r.there == existing && r.total == expected,
        hf_api::first_report(hf_api::Reception::Fresh, existing, Some(expected)) matches Some(r)
            && r.there == 0 && r.total == expected,
        hf_api::first_report(hf_api::Reception::Complete, existing, Some(expected)) matches Some(r)
            && r.there == existing && r.total >= existing && r.total >= expected,
        hf_api::first_report(hf_api::Reception::Refused, existing, Some(expected)) is None,
{
}

/// Each wait before another try is twice as long as the one before it.
pub proof fn law_waits_double(n: nat)
    ensures
        hf_api::power_of_two(0) == 1,
        hf_api::power_of_two(n + 1) == 2 * hf_api::power_of_two(n),
{
}

/// A configuration without a context length stands for 4096, and one without an
/// architecture for none.
pub proof fn law_what_a_configuration_leaves_out(members: Seq<(Seq<char>, JsonView)>)
    ensures
        json::lookup(members, "max_position_embeddings"@) is None ==> file_manager::context_of(
            JsonView::Object(members),
        ) == 4096,
        json::lookup(members, "architectures"@) is None ==> file_manager::raw_architecture(
            JsonView::Object(members),
        ) is None,
{
}

/// The first architecture that a configuration names is the model's.
pub proof fn law_first_architecture_counts(
    members: Seq<(Seq<char>, JsonView)>,
    name: Seq<char>,
    others: Seq<JsonView>,
)
    requires
        json::lookup(members, "architectures"@) == Some(
            JsonView::Array(seq![JsonView::Str(name)] + others),
        ),
    ensures
        file_manager::raw_architecture(JsonView::Object(members)) == Some(name),
{
    assert((seq![JsonView::Str(name)] + others)[0] == JsonView::Str(name));
}

/// The level of a downloaded file is the one in its name; a name without one leaves it to
/// what was asked for.
pub proof fn law_level_comes_from_the_files_name(
    name: Seq<char>,
    quant: Seq<char>,
    level: manifest::QuantizationLevel,
)
    ensures
        manifest::level_in(text::uppercase_of(name)) == Some(level) ==> file_manager::detected_level(
            name,
            quant,
        ) == Some(level),
        manifest::level_in(text::uppercase_of(name)) is None && manifest::level_named(
            text::uppercase_of(quant),
        ) == Some(level) ==> file_manager::detected_level(name, quant) == Some(level),
        manifest::level_in(text::uppercase_of(name)) is None && manifest::level_named(
            text::uppercase_of(quant),
        ) is None ==> file_manager::detected_level(name, quant) is None,
{
}

/// A GGUF file is kept under the alias of its model and its level.
pub proof fn law_gguf_file_is_kept_under_alias_and_level(
    gguf_dir: Seq<char>,
    repo_id: Seq<char>,
    level: manifest::QuantizationLevel,
    windows: bool,
)
    ensures
        file_manager::gguf_path_of(gguf_dir, repo_id, Some(level), windows)
            == crate::paths::joined(
            gguf_dir,
            file_manager::alias_of(repo_id) + "-"@ + manifest::llama_name(level) + ".gguf"@,
            windows,
        ),
        file_manager::gguf_path_of(gguf_dir, repo_id, None, windows) == crate::paths::joined(
            gguf_dir,
            file_manager::alias_of(repo_id) + "-"@ + "GGUF"@ + ".gguf"@,
            windows,
        ),
{
}

/// A revision of a model is kept below its repository's directory.
pub proof fn law_revisions_are_kept_apart(
    models_dir: Seq<char>,
    publisher: Seq<char>,
    name: Seq<char>,
    revision: Seq<char>,
    windows: bool,
)
    requires
        !publisher.contains('/'),
        !name.contains('/'),
    ensures
        file_manager::model_dir(models_dir, publisher + "/"@ + name, revision, windows)
            == crate::paths::joined(
            crate::paths::joined(models_dir, publisher + "--"@ + name, windows),
            revision,
            windows,
        ),
{
    registry_laws::law_directory_follows_the_repository(publisher, name);
}

} // verus!
