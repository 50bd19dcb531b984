//! Disk space: what each model takes, what belongs to no model, and what was
//! cleaned up.
use crate::api::json;
use crate::api::json::{put, text_list_json, Json, JsonView};
use crate::api::types::{DiskUsageEntry, DiskUsageResponse};
use crate::paths;
use crate::registry::manifest::{ManifestView, ModelManifest};
use crate::text;
use vstd::prelude::*;
use vstd::string::StringExecFns;

verus! {

broadcast use {vstd::string::group_string_axioms, crate::api::json::lemma_json_view};

// --------------------------------------------------------------------- orphans

/// The paths that a manifest refers to, of those that are there.
pub open spec fn paths_of(m: ManifestView, local_exists: bool, gguf_exists: bool) -> Seq<
    Seq<char>,
> {
    let local = if local_exists {
        seq![m.local_path]
    } else {
        Seq::empty()
    };
    match m.gguf_path {
        Some(p) => if gguf_exists {
            local.push(p)
        } else {
            local
        },
        None => local,
    }
}

/// The paths that a manifest refers to, of those that are there.
pub fn referenced_paths(m: &ModelManifest, local_exists: bool, gguf_exists: bool) -> (r: Vec<
    String,
>)
    ensures
        text::string_texts(r@) == paths_of(m@, local_exists, gguf_exists),
{
    let mut out: Vec<String> = Vec::new();
    if local_exists {
        out.push(m.local_path.clone());
    }
    if let Some(p) = &m.gguf_path {
        if gguf_exists {
            out.push(p.clone());
        }
    }
    assert(text::string_texts(out@) =~= paths_of(m@, local_exists, gguf_exists));
    out
}

/// An entry of the data directories belongs to a model: a path that a manifest
/// refers to is the entry or lies below it.
pub open spec fn is_referenced(
    entry: Seq<char>,
    referenced: Seq<Seq<char>>,
    separator: char,
) -> bool {
    exists|i: int|
        0 <= i < referenced.len() && paths::lies_below(#[trigger] referenced[i], entry, separator)
}

/// The entries that belong to no model, in order.
pub open spec fn orphans_of(
    entries: Seq<Seq<char>>,
    referenced: Seq<Seq<char>>,
    separator: char,
) -> Seq<Seq<char>>
    decreases entries.len(),
{
    if entries.len() == 0 {
        Seq::empty()
    } else {
        let before = orphans_of(entries.drop_last(), referenced, separator);
        if is_referenced(entries.last(), referenced, separator) {
            before
        } else {
            before.push(entries.last())
        }
    }
}

/// Whether an entry of the data directories belongs to a model.
pub fn belongs_to_a_model(entry: &str, referenced: &[String], separator: char) -> (r: bool)
    ensures
        r == is_referenced(entry@, text::string_texts(referenced@), separator),
{
    let ghost all = text::string_texts(referenced@);
    let mut i: usize = 0;
    while i < referenced.len()
        invariant
            i <= referenced@.len(),
            all == text::string_texts(referenced@),
            forall|j: int|
                0 <= j < i ==> !paths::lies_below(#[trigger] all[j], entry@, separator),
        decreases referenced@.len() - i,
    {
        assert(all[i as int] == referenced@[i as int]@);
        if paths::is_below(referenced[i].as_str(), entry, separator) {
            return true;
        }
        i = i + 1;
    }
    false
}

/// The entries of the data directories that belong to no model.
pub fn find_orphans(entries: &[String], referenced: &[String], separator: char) -> (r: Vec<
    String,
>)
    ensures
        text::string_texts(r@) == orphans_of(
            text::string_texts(entries@),
            text::string_texts(referenced@),
            separator,
        ),
{
    let ghost all = text::string_texts(entries@);
    let ghost refs = text::string_texts(referenced@);
    let mut out: Vec<String> = Vec::new();
    assert(text::string_texts(out@) =~= Seq::<Seq<char>>::empty());
    assert(all.take(0) =~= Seq::<Seq<char>>::empty());
    let mut i: usize = 0;
    while i < entries.len()
        invariant
            i <= entries@.len(),
            all == text::string_texts(entries@),
            refs == text::string_texts(referenced@),
            text::string_texts(out@) == orphans_of(all.take(i as int), refs, separator),
        decreases entries@.len() - i,
    {
        assert(all.take(i + 1).drop_last() =~= all.take(i as int));
        assert(all[i as int] == entries@[i as int]@);
        let ghost before = text::string_texts(out@);
        if !belongs_to_a_model(entries[i].as_str(), referenced, separator) {
            out.push(entries[i].clone());
            assert(text::string_texts(out@) =~= before.push(entries@[i as int]@));
        }
        i = i + 1;
    }
    assert(all.take(i as int) =~= all);
    out
}

/// Nothing that a manifest refers to is cleaned up: no orphan is or holds a path of
/// a model, and each orphan is an entry that was found.
pub proof fn law_models_are_no_orphans(
    entries: Seq<Seq<char>>,
    referenced: Seq<Seq<char>>,
    separator: char,
    i: int,
    k: int,
)
    requires
        0 <= i < orphans_of(entries, referenced, separator).len(),
        0 <= k < referenced.len(),
    ensures
        !paths::lies_below(
            referenced[k],
            orphans_of(entries, referenced, separator)[i],
            separator,
        ),
        referenced[k] != orphans_of(entries, referenced, separator)[i],
        entries.contains(orphans_of(entries, referenced, separator)[i]),
    decreases entries.len(),
{
    let before = orphans_of(entries.drop_last(), referenced, separator);
    let o = orphans_of(entries, referenced, separator)[i];
    if i < before.len() {
        law_models_are_no_orphans(entries.drop_last(), referenced, separator, i, k);
        let j = entries.drop_last().index_of(before[i]);
        assert(entries[j] == before[i]);
    } else {
        assert(entries[entries.len() - 1] == o);
        if referenced[k] == o {
            assert(o.subrange(0, o.len() as int) =~= o);
            assert(paths::lies_below(referenced[k], o, separator));
        }
    }
}

// ----------------------------------------------------------------------- usage

/// Numbers added up.
pub open spec fn sum_of(s: Seq<u64>) -> nat
    decreases s.len(),
{
    if s.len() == 0 {
        0
    } else {
        sum_of(s.drop_last()) + s.last() as nat
    }
}

proof fn lemma_sum_grows(s: Seq<u64>, i: int)
    requires
        0 <= i <= s.len(),
    ensures
        sum_of(s.take(i)) <= sum_of(s),
    decreases s.len() - i,
{
    if i < s.len() {
        assert(s.take(i + 1).drop_last() =~= s.take(i));
        lemma_sum_grows(s, i + 1);
    } else {
        assert(s.take(i) =~= s);
    }
}

/// Adds numbers up; none where the sum is beyond 64 bits.
pub fn total_of(sizes: &[u64]) -> (r: Option<u64>)
    ensures
        match r {
            Some(n) => n == sum_of(sizes@),
            None => sum_of(sizes@) > u64::MAX,
        },
{
    let mut total: u64 = 0;
    let mut i: usize = 0;
    assert(sizes@.take(0) =~= Seq::<u64>::empty());
    while i < sizes.len()
        invariant
            i <= sizes@.len(),
            total == sum_of(sizes@.take(i as int)),
        decreases sizes@.len() - i,
    {
        assert(sizes@.take(i + 1).drop_last() =~= sizes@.take(i as int));
        match total.checked_add(sizes[i]) {
            Some(t) => {
                total = t;
            },
            None => {
                proof {
                    lemma_sum_grows(sizes@, i + 1);
                }
                return None;
            },
        }
        i = i + 1;
    }
    assert(sizes@.take(i as int) =~= sizes@);
    Some(total)
}

/// What all models take together.
pub open spec fn usage_of(models: Seq<DiskUsageEntry>) -> nat
    decreases models.len(),
{
    if models.len() == 0 {
        0
    } else {
        usage_of(models.drop_last()) + models.last().local_path_bytes as nat
            + models.last().gguf_bytes as nat
    }
}

proof fn lemma_usage_grows(models: Seq<DiskUsageEntry>, i: int)
    requires
        0 <= i <= models.len(),
    ensures
        usage_of(models.take(i)) <= usage_of(models),
    decreases models.len() - i,
{
    if i < models.len() {
        assert(models.take(i + 1).drop_last() =~= models.take(i));
        lemma_usage_grows(models, i + 1);
    } else {
        assert(models.take(i) =~= models);
    }
}

fn total_usage(models: &[DiskUsageEntry]) -> (r: Option<u64>)
    ensures
        match r {
            Some(n) => n == usage_of(models@),
            None => usage_of(models@) > u64::MAX,
        },
{
    let mut total: u64 = 0;
    let mut i: usize = 0;
    assert(models@.take(0) =~= Seq::<DiskUsageEntry>::empty());
    while i < models.len()
        invariant
            i <= models@.len(),
            total == usage_of(models@.take(i as int)),
        decreases models@.len() - i,
    {
        assert(models@.take(i + 1).drop_last() =~= models@.take(i as int));
        proof {
            lemma_usage_grows(models@, i + 1);
        }
        let with_local: u64 = match total.checked_add(models[i].local_path_bytes) {
            Some(t) => t,
            None => {
                return None;
            },
        };
        total = match with_local.checked_add(models[i].gguf_bytes) {
            Some(t) => t,
            None => {
                return None;
            },
        };
        i = i + 1;
    }
    assert(models@.take(i as int) =~= models@);
    Some(total)
}

/// The report on disk space: what the models take, one by one and together, and
/// what belongs to none of them. None where a sum is beyond 64 bits.
pub fn disk_usage(
    models: Vec<DiskUsageEntry>,
    orphans: Vec<String>,
    orphan_sizes: &[u64],
) -> (r: Option<DiskUsageResponse>)
    ensures
        match r {
            Some(d) => d.models == models && d.total_bytes == usage_of(models@) && d.orphans
                == orphans && d.orphan_bytes == sum_of(orphan_sizes@),
            None => usage_of(models@) > u64::MAX || sum_of(orphan_sizes@) > u64::MAX,
        },
{
    match (total_usage(models.as_slice()), total_of(orphan_sizes)) {
        (Some(total_bytes), Some(orphan_bytes)) => Some(
            DiskUsageResponse { models, total_bytes, orphans, orphan_bytes },
        ),
        _ => None,
    }
}

// -------------------------------------------------------------------- clean-up

/// What came of removing a path: nothing but its removal, or an error.
#[derive(Debug)]
pub struct RemovalOutcome {
    pub path: String,
    pub error: Option<String>,
}

/// The paths that were removed, in order.
pub open spec fn removed_of(s: Seq<RemovalOutcome>) -> Seq<Seq<char>>
    decreases s.len(),
{
    if s.len() == 0 {
        Seq::empty()
    } else {
        let before = removed_of(s.drop_last());
        match s.last().error {
            Some(_) => before,
            None => before.push(s.last().path@),
        }
    }
}

/// The errors, in order, each with its path.
pub open spec fn errors_of(s: Seq<RemovalOutcome>) -> Seq<Seq<char>>
    decreases s.len(),
{
    if s.len() == 0 {
        Seq::empty()
    } else {
        let before = errors_of(s.drop_last());
        match s.last().error {
            Some(e) => before.push(s.last().path@ + ": "@ + e@),
            None => before,
        }
    }
}

/// The report on a clean-up.
pub open spec fn cleanup_value(s: Seq<RemovalOutcome>) -> JsonView {
    JsonView::Object(
        seq![
            ("removed"@, json::text_list_view(removed_of(s))),
            ("errors"@, json::text_list_view(errors_of(s))),
        ],
    )
}

/// The report on a clean-up.
pub fn gc_reply(outcomes: &[RemovalOutcome]) -> (r: Json)
    ensures
        r@ == cleanup_value(outcomes@),
{
    let mut removed: Vec<String> = Vec::new();
    let mut errors: Vec<String> = Vec::new();
    assert(text::string_texts(removed@) =~= Seq::<Seq<char>>::empty());
    assert(text::string_texts(errors@) =~= Seq::<Seq<char>>::empty());
    assert(outcomes@.take(0) =~= Seq::<RemovalOutcome>::empty());
    let mut i: usize = 0;
    while i < outcomes.len()
        invariant
            i <= outcomes@.len(),
            text::string_texts(removed@) == removed_of(outcomes@.take(i as int)),
            text::string_texts(errors@) == errors_of(outcomes@.take(i as int)),
        decreases outcomes@.len() - i,
    {
        assert(outcomes@.take(i + 1).drop_last() =~= outcomes@.take(i as int));
        let ghost gone = text::string_texts(removed@);
        let ghost bad = text::string_texts(errors@);
        let o = &outcomes[i];
        match &o.error {
            Some(e) => {
                let mut message = o.path.clone();
                message.append(": ");
                message.append(e.as_str());
                let ghost mv = message@;
                errors.push(message);
                assert(text::string_texts(errors@) =~= bad.push(mv));
            },
            None => {
                removed.push(o.path.clone());
                assert(text::string_texts(removed@) =~= gone.push(o.path@));
            },
        }
        i = i + 1;
    }
    assert(outcomes@.take(i as int) =~= outcomes@);
    let mut members: Vec<(String, Json)> = Vec::new();
    put(&mut members, "removed", text_list_json(removed.as_slice()));
    put(&mut members, "errors", text_list_json(errors.as_slice()));
    assert(json::member_views(members@) =~= cleanup_value(outcomes@)->Object_0);
    Json::Object(members)
}

} // verus!
