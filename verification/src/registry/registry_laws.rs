//! What holds of the names that models, files and levels go by.
use crate::registry::manifest;
use crate::registry::manifest::{ManifestView, QuantizationLevel, StoreView, WeightFormat};
use crate::text;
use crate::time::Timestamp;
use vstd::prelude::*;

verus! {

// ---------------------------------------------------------------------- levels

/// The level in a file's name is one whose canonical name stands there; wherever one
/// stands there, a level is found.
pub proof fn law_level_stands_in_the_name(name: Seq<char>, level: QuantizationLevel)
    ensures
        manifest::level_in(name) matches Some(l) ==> text::contains_text(
            name,
            manifest::llama_name(l),
        ),
        text::contains_text(name, manifest::llama_name(level)) ==> manifest::level_in(name) is Some,
        (text::contains_text(name, manifest::llama_name(level)) && forall|other: QuantizationLevel|
            #[trigger] text::contains_text(name, manifest::llama_name(other)) ==> other == level)
            ==> manifest::level_in(name) == Some(level),
{
    assert(text::contains_text(name, manifest::llama_name(QuantizationLevel::Q4KM))
        == text::contains_text(name, "Q4_K_M"@));
    if let Some(l) = manifest::level_in(name) {
        assert(text::contains_text(name, manifest::llama_name(l)));
    }
}

/// A name that is read as a level is that level's canonical name, but for underscores.
pub proof fn law_level_is_read_by_its_name(s: Seq<char>)
    ensures
        manifest::level_named(s) matches Some(l) ==> s == manifest::llama_name(l) || s
            == manifest::llama_name(l).filter(|c: char| c != '_'),
{
    reveal_strlit("Q4_K_M");
    reveal_strlit("Q5_K_M");
    reveal_strlit("Q6_K");
    reveal_strlit("Q4KM");
    reveal_strlit("Q5KM");
    reveal_strlit("Q6K");
    lemma_filter_six("Q4_K_M"@);
    lemma_filter_six("Q5_K_M"@);
    lemma_filter_four("Q6_K"@);
    assert("Q4_K_M"@.filter(|c: char| c != '_') =~= "Q4KM"@);
    assert("Q5_K_M"@.filter(|c: char| c != '_') =~= "Q5KM"@);
    assert("Q6_K"@.filter(|c: char| c != '_') =~= "Q6K"@);
}

proof fn lemma_filter_six(s: Seq<char>)
    requires
        s.len() == 6,
        s[2] == '_' && s[4] == '_',
        s[0] != '_' && s[1] != '_' && s[3] != '_' && s[5] != '_',
    ensures
        s.filter(|c: char| c != '_') == seq![s[0], s[1], s[3], s[5]],
{
    let f = |c: char| c != '_';
    let e = Seq::<char>::empty();
    assert(s =~= e.push(s[0]).push(s[1]).push(s[2]).push(s[3]).push(s[4]).push(s[5]));
    lemma_filter_push(e, s[0]);
    lemma_filter_push(e.push(s[0]), s[1]);
    lemma_filter_push(e.push(s[0]).push(s[1]), s[2]);
    lemma_filter_push(e.push(s[0]).push(s[1]).push(s[2]), s[3]);
    lemma_filter_push(e.push(s[0]).push(s[1]).push(s[2]).push(s[3]), s[4]);
    lemma_filter_push(e.push(s[0]).push(s[1]).push(s[2]).push(s[3]).push(s[4]), s[5]);
    reveal(Seq::filter);
    assert(e.filter(f) =~= e);
    assert(s.filter(f) =~= seq![s[0], s[1], s[3], s[5]]);
}

proof fn lemma_filter_four(s: Seq<char>)
    requires
        s.len() == 4,
        s[2] == '_',
        s[0] != '_' && s[1] != '_' && s[3] != '_',
    ensures
        s.filter(|c: char| c != '_') == seq![s[0], s[1], s[3]],
{
    let f = |c: char| c != '_';
    let e = Seq::<char>::empty();
    assert(s =~= e.push(s[0]).push(s[1]).push(s[2]).push(s[3]));
    lemma_filter_push(e, s[0]);
    lemma_filter_push(e.push(s[0]), s[1]);
    lemma_filter_push(e.push(s[0]).push(s[1]), s[2]);
    lemma_filter_push(e.push(s[0]).push(s[1]).push(s[2]), s[3]);
    reveal(Seq::filter);
    assert(e.filter(f) =~= e);
    assert(s.filter(f) =~= seq![s[0], s[1], s[3]]);
}

proof fn lemma_filter_push(s: Seq<char>, c: char)
    ensures
        s.push(c).filter(|x: char| x != '_') == if c != '_' {
            s.filter(|x: char| x != '_').push(c)
        } else {
            s.filter(|x: char| x != '_')
        },
{
    reveal(Seq::filter);
    assert(s.push(c).drop_last() =~= s);
}

// ----------------------------------------------------------------------- names

/// The name behind an organisation is what follows the last slash.
pub proof fn lemma_name_is_last(org: Seq<char>, name: Seq<char>)
    requires
        !name.contains('/'),
    ensures
        manifest::last_component(org + "/"@ + name) == name,
        manifest::last_component(name) == name,
    decreases org.len(),
{
    reveal_strlit("/");
    let s = org + "/"@ + name;
    text::lemma_char_from(name, '/', 0);
    if let Some(k) = text::char_from(name, '/', 0) {
        assert(name.contains(name[k]));
    }
    assert(manifest::last_component(name) == name);
    text::lemma_char_from(s, '/', 0);
    assert(s[org.len() as int] == '/');
    match text::char_from(s, '/', 0) {
        Some(k) => {
            if k < org.len() {
                let rest = org.skip(k + 1);
                assert(s.skip(k + 1) =~= rest + "/"@ + name);
                lemma_name_is_last(rest, name);
            } else {
                assert(k == org.len());
                assert(s.skip(k + 1) =~= name);
            }
            assert(manifest::last_component(s) == manifest::last_component(s.skip(k + 1)));
        },
        None => {},
    }
}

/// The character of an alias that stands for a character of a lower case name.
pub open spec fn alias_char(c: char) -> char {
    if c == '.' || c == ' ' {
        '-'
    } else {
        c
    }
}

/// An alias has one character for each of the name: a hyphen for a dot or a space, and
/// the character itself for any other.
pub proof fn law_alias_follows_the_name(lower: Seq<char>)
    ensures
        manifest::dashed(lower) == lower.map_values(|c: char| alias_char(c)),
    decreases lower.len(),
{
    reveal_strlit("-");
    let set = seq!['.', ' '];
    assert(set[0] == '.' && set[1] == ' ');
    if lower.len() > 0 {
        law_alias_follows_the_name(lower.drop_last());
        assert(set.contains(lower.last()) == (lower.last() == '.' || lower.last() == ' '));
        assert(manifest::dashed(lower) =~= lower.map_values(|c: char| alias_char(c)));
    } else {
        assert(manifest::dashed(lower) =~= lower.map_values(|c: char| alias_char(c)));
    }
}

/// The alias of a repository is that of its name: who publishes it does not matter.
pub proof fn law_alias_leaves_the_publisher_out(org: Seq<char>, name: Seq<char>)
    requires
        !name.contains('/'),
        text::is_ascii_text(name),
    ensures
        manifest::dashed(text::lowercase_of(manifest::last_component(org + "/"@ + name)))
            == name.map_values(|c: char| alias_char(text::ascii_lower_char(c))),
{
    lemma_name_is_last(org, name);
    law_alias_follows_the_name(text::lowercase_of(name));
    assert(manifest::dashed(text::lowercase_of(name)) =~= name.map_values(
        |c: char| alias_char(text::ascii_lower_char(c)),
    ));
}

/// The directory of a repository has its slashes written as two hyphens, and nothing
/// else changed.
pub proof fn law_directory_follows_the_repository(a: Seq<char>, b: Seq<char>)
    requires
        !a.contains('/'),
        !b.contains('/'),
    ensures
        manifest::sanitized(a + "/"@ + b) == a + "--"@ + b,
        manifest::sanitized(a) == a,
{
    reveal_strlit("/");
    let set = seq!['/'];
    assert(set[0] == '/');
    lemma_sanitized_both(a + "/"@, b);
    lemma_sanitized_both(a, "/"@);
    lemma_sanitized_free(a);
    lemma_sanitized_free(b);
    assert(a + "/"@ + b =~= (a + "/"@) + b);
    assert("/"@.drop_last() =~= Seq::<char>::empty());
    assert(set.contains("/"@.last()));
    assert(text::replaced_chars("/"@.drop_last(), set, "--"@) =~= Seq::<char>::empty());
    assert(manifest::sanitized("/"@) =~= "--"@);
}

proof fn lemma_sanitized_both(a: Seq<char>, b: Seq<char>)
    ensures
        manifest::sanitized(a + b) == manifest::sanitized(a) + manifest::sanitized(b),
    decreases b.len(),
{
    if b.len() == 0 {
        assert(a + b =~= a);
        assert(manifest::sanitized(a) + manifest::sanitized(b) =~= manifest::sanitized(a));
    } else {
        assert((a + b).drop_last() =~= a + b.drop_last());
        lemma_sanitized_both(a, b.drop_last());
        assert(manifest::sanitized(a + b) =~= manifest::sanitized(a) + manifest::sanitized(b));
    }
}

proof fn lemma_sanitized_free(a: Seq<char>)
    requires
        !a.contains('/'),
    ensures
        manifest::sanitized(a) == a,
    decreases a.len(),
{
    if a.len() > 0 {
        let front = a.drop_last();
        assert forall|i: int| 0 <= i < front.len() implies front[i] != '/' by {
            assert(a.contains(a[i]));
        }
        lemma_sanitized_free(front);
        let set = seq!['/'];
        assert(a.contains(a.last()));
        if set.contains(a.last()) {
            assert(a.last() == '/');
        }
        assert(manifest::sanitized(a) =~= a);
    }
}

/// A name of letters, digits, hyphens, underscores, single dots and slashes, with no
/// slash at its start, is safe: ordinary files of a repository are never refused, in
/// whatever folder they are.
pub proof fn law_ordinary_names_are_safe(name: Seq<char>)
    requires
        name.len() > 0,
        name[0] != '/',
        forall|i: int|
            0 <= i < name.len() ==> text::is_ascii_word(#[trigger] name[i]) || name[i] == '-'
                || name[i] == '_' || name[i] == '.' || name[i] == '/',
        forall|i: int| 0 <= i < name.len() - 1 && #[trigger] name[i] == '.' ==> name[i + 1] != '.',
    ensures
        manifest::safe_filename(name),
{
    reveal_strlit("..");
    assert forall|i: int| !text::occurs_at(name, ".."@, i) by {
        if text::occurs_at(name, ".."@, i) {
            assert(name.subrange(i, i + 2)[0] == name[i]);
            assert(name.subrange(i, i + 2)[1] == name[i + 1]);
        }
    }
    assert(text::is_ascii_word(name[0]) || name[0] == '-' || name[0] == '_' || name[0] == '.');
    if name.len() >= 2 {
        assert(name[1] != ':');
    }
}

/// What climbs, starts at a root or a drive, or holds a control character is refused.
pub proof fn law_unsafe_names_are_refused(before: Seq<char>, after: Seq<char>, c: char)
    ensures
        !manifest::safe_filename(before + ".."@ + after),
        !manifest::safe_filename("/"@ + after),
        !manifest::safe_filename("\\"@ + after),
        !manifest::safe_filename(Seq::empty()),
        c < ' ' || c == '\x7f' ==> !manifest::safe_filename(before.push(c) + after),
        ('a' <= c <= 'z') || ('A' <= c <= 'Z') ==> !manifest::safe_filename(
            seq![c, ':'] + after,
        ),
{
    let s = before + ".."@ + after;
    let n = before.len() as int;
    reveal_strlit("/");
    reveal_strlit("\\");
    assert(text::occurs_at(s, ".."@, n)) by {
        assert(s.subrange(n, n + ".."@.len()) =~= ".."@);
    }
    assert(("/"@ + after)[0] == '/');
    assert(("\\"@ + after)[0] == '\\');
    assert((before.push(c) + after)[n] == c);
    let d = seq![c, ':'] + after;
    assert(d[0] == c && d[1] == ':');
}

/// The size of files adds up, file by file.
pub proof fn law_sizes_add_up(
    a: Seq<manifest::FileEntry>,
    b: Seq<manifest::FileEntry>,
    f: manifest::FileEntry,
)
    ensures
        manifest::files_size(Seq::empty()) == 0,
        manifest::files_size(seq![f]) == f.size_bytes,
        manifest::files_size(a + b) == manifest::files_size(a) + manifest::files_size(b),
    decreases b.len(),
{
    assert(seq![f].drop_last() =~= Seq::<manifest::FileEntry>::empty());
    if b.len() == 0 {
        assert(a + b =~= a);
    } else {
        assert((a + b).drop_last() =~= a + b.drop_last());
        assert((a + b).last() == b.last());
        law_sizes_add_up(a, b.drop_last(), f);
    }
}

// ------------------------------------------------------------------------ registry

/// A weight takes as many bits as its level's name says: 4, 5, 6, 8, 16 or 32.
pub proof fn law_bits_follow_the_name()
    ensures
        manifest::level_bits(QuantizationLevel::Q4_0) == 4,
        manifest::level_bits(QuantizationLevel::Q4KM) == 4,
        manifest::level_bits(QuantizationLevel::Q5KM) == 5,
        manifest::level_bits(QuantizationLevel::Q6K) == 6,
        manifest::level_bits(QuantizationLevel::Q8_0) == 8,
        manifest::level_bits(QuantizationLevel::F16) == 16,
        manifest::level_bits(QuantizationLevel::F32) == 32,
{
}

/// A manifest is kept under its alias, with an underscore for each character that a
/// path gives a meaning; the rest of the alias stands as it is.
pub proof fn law_manifest_is_kept_under_its_alias(alias: Seq<char>, i: int)
    requires
        0 <= i < alias.len(),
    ensures
        ({
            let name = manifest::manifest_file_name(alias);
            &&& name.len() == alias.len() + 5
            &&& name.skip(alias.len() as int) == ".json"@
            &&& name[i] == (if alias[i] == '/' || alias[i] == '\\' || alias[i] == ':' {
                '_'
            } else {
                alias[i]
            })
            &&& manifest::manifest_stem(alias) == name.take(alias.len() as int)
        }),
{
    lemma_safe_stem(alias);
    reveal_strlit(".json");
    let stem = manifest::safe_stem(alias);
    let name = manifest::manifest_file_name(alias);
    assert(name.skip(alias.len() as int) =~= ".json"@);
    assert(name.take(alias.len() as int) =~= stem);
}

proof fn lemma_safe_stem(alias: Seq<char>)
    ensures
        manifest::safe_stem(alias).len() == alias.len(),
        forall|i: int|
            0 <= i < alias.len() ==> #[trigger] manifest::safe_stem(alias)[i] == (if alias[i] == '/'
                || alias[i] == '\\' || alias[i] == ':' {
                '_'
            } else {
                alias[i]
            }),
    decreases alias.len(),
{
    reveal_strlit("_");
    let set = seq!['/', '\\', ':'];
    if alias.len() > 0 {
        let front = alias.drop_last();
        lemma_safe_stem(front);
        assert(set[0] == '/' && set[1] == '\\' && set[2] == ':');
        assert forall|i: int| 0 <= i < alias.len() implies #[trigger] manifest::safe_stem(alias)[i]
            == (if alias[i] == '/' || alias[i] == '\\' || alias[i] == ':' {
            '_'
        } else {
            alias[i]
        }) by {
            if i < front.len() {
                assert(manifest::safe_stem(alias)[i] == manifest::safe_stem(front)[i]);
                assert(front[i] == alias[i]);
            } else {
                assert(set.contains(alias.last()) <==> (alias.last() == '/' || alias.last()
                    == '\\' || alias.last() == ':'));
            }
        }
    }
}

/// Noting a use changes no model, and what is to be written of other models neither.
pub proof fn law_noted_use_is_of_one_model(
    st: StoreView,
    alias: Seq<char>,
    other: Seq<char>,
    now: i64,
)
    requires
        manifest::well_keyed(st.models),
        other != alias,
    ensures
        manifest::used(st, alias, now).models == st.models,
        manifest::to_flush(manifest::used(st, alias, now), other) == manifest::to_flush(st, other),
        manifest::used(st, alias, now).last_used_live[alias] == now,
{
}

/// Saving a model leaves what is pending, and keeps every model under its own alias.
pub proof fn law_saving_leaves_what_is_pending(st: StoreView, m: ManifestView)
    requires
        manifest::well_keyed(st.models),
    ensures
        manifest::saved(st, m).dirty == st.dirty,
        manifest::saved(st, m).last_used_live == st.last_used_live,
        manifest::well_keyed(manifest::saved(st, m).models),
{
}

/// A copy is the same model under another name: all that is known of its source is known
/// of it, but for when it came and was used.
pub proof fn law_copy_is_the_same_model(
    st: StoreView,
    src: Seq<char>,
    dst: Seq<char>,
    downloaded_at: Timestamp,
    last_used: Timestamp,
)
    ensures
        ({
            let c = manifest::copied(st, src, dst, downloaded_at, last_used);
            let s = st.models[src];
            &&& c.alias == dst
            &&& c.downloaded_at == downloaded_at
            &&& c.last_used == last_used
            &&& c.repo_id == s.repo_id
            &&& c.revision == s.revision
            &&& c.local_path == s.local_path
            &&& c.gguf_path == s.gguf_path
            &&& c.files == s.files
            &&& c.architecture == s.architecture
            &&& c.context_length == s.context_length
            &&& c.quantization == s.quantization
            &&& c.weight_format == s.weight_format
            &&& c.modelfile == s.modelfile
            &&& c.embeddings == s.embeddings
        }),
{
}

/// The formats of weights have their own names.
pub proof fn law_formats_have_their_names()
    ensures
        manifest::format_name(WeightFormat::Safetensors) == "Safetensors"@,
        manifest::format_name(WeightFormat::GGUF) == "GGUF"@,
        manifest::format_name(WeightFormat::PyTorch) == "PyTorch"@,
        manifest::format_lower_name(WeightFormat::Safetensors) == "safetensors"@,
        manifest::format_lower_name(WeightFormat::GGUF) == "gguf"@,
        manifest::format_lower_name(WeightFormat::PyTorch) == "pytorch"@,
{
}

/// The names that stand for a level; three of them have a short form too.
pub proof fn law_levels_have_these_names()
    ensures
        manifest::llama_name(QuantizationLevel::Q4_0) == "Q4_0"@,
        manifest::llama_name(QuantizationLevel::Q4KM) == "Q4_K_M"@,
        manifest::llama_name(QuantizationLevel::Q5KM) == "Q5_K_M"@,
        manifest::llama_name(QuantizationLevel::Q6K) == "Q6_K"@,
        manifest::llama_name(QuantizationLevel::Q8_0) == "Q8_0"@,
        manifest::llama_name(QuantizationLevel::F16) == "F16"@,
        manifest::llama_name(QuantizationLevel::F32) == "F32"@,
        manifest::level_named("Q4KM"@) == Some(QuantizationLevel::Q4KM),
        manifest::level_named("Q5KM"@) == Some(QuantizationLevel::Q5KM),
        manifest::level_named("Q6K"@) == Some(QuantizationLevel::Q6K),
{
    reveal_strlit("Q4_0");
    reveal_strlit("Q4_K_M");
    reveal_strlit("Q4KM");
    reveal_strlit("Q5_K_M");
    reveal_strlit("Q5KM");
    reveal_strlit("Q6K");
    assert("Q4KM"@[2] == 'K' && "Q4_0"@[2] == '_' && "Q5KM"@[2] == 'K');
    assert("Q5KM"@[1] == '5' && "Q4KM"@[1] == '4');
    assert("Q6K"@.len() == 3 && "Q4KM"@.len() == 4 && "Q5_K_M"@.len() == 6 && "Q4_K_M"@.len()
        == 6);
}

} // verus!
