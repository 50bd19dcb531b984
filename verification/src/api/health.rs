//! What the daemon knows of the health of its model servers, and its report.
use crate::api::json;
use crate::api::json::{nullable_json, put, signed_json, str_json, unsigned_json, Json, JsonNumber, JsonView};
use crate::inference::launch;
use crate::inference::pool::PoolEntry;
use crate::registry::alias_map::AliasMap;
use crate::registry::modelfile;
use crate::text;
use vstd::prelude::*;
use vstd::string::StringExecFns;

verus! {

broadcast use {vstd::string::group_string_axioms, crate::api::json::lemma_json_view};

/// The last look at a model server.
#[derive(Debug)]
pub struct BackendHealth {
    pub healthy: bool,
    pub last_checked: i64,
    pub last_error: Option<String>,
}

/// The last look at a model server, as text.
pub struct HealthView {
    pub healthy: bool,
    pub last_checked: i64,
    pub last_error: Option<Seq<char>>,
}

impl View for BackendHealth {
    type V = HealthView;

    open spec fn view(&self) -> HealthView {
        HealthView {
            healthy: self.healthy,
            last_checked: self.last_checked,
            last_error: modelfile::text_option(self.last_error),
        }
    }
}

impl Clone for BackendHealth {
    fn clone(&self) -> (r: Self)
        ensures
            r@ == self@,
    {
        let last_error: Option<String> = match &self.last_error {
            Some(e) => Some(e.clone()),
            None => None,
        };
        BackendHealth { healthy: self.healthy, last_checked: self.last_checked, last_error }
    }
}

/// How a model server answered when it was asked for its health.
#[derive(Debug)]
pub enum Probe {
    /// With a success.
    Success,
    /// With another status, such as `503 Service Unavailable`.
    Status(String),
    /// Not at all, for this reason.
    Failed(String),
}

/// What is noted of a look at the Unix time `now`.
pub open spec fn noted(probe: Probe, now: i64) -> HealthView {
    match probe {
        Probe::Success => HealthView { healthy: true, last_checked: now, last_error: None },
        Probe::Status(s) => HealthView {
            healthy: false,
            last_checked: now,
            last_error: Some("HTTP "@ + s@),
        },
        Probe::Failed(e) => HealthView {
            healthy: false,
            last_checked: now,
            last_error: Some(e@),
        },
    }
}

fn note(probe: Probe, now: i64) -> (r: BackendHealth)
    ensures
        r@ == noted(probe, now),
{
    match probe {
        Probe::Success => BackendHealth { healthy: true, last_checked: now, last_error: None },
        Probe::Status(s) => {
            let mut message = String::from_str("HTTP ");
            message.append(s.as_str());
            BackendHealth { healthy: false, last_checked: now, last_error: Some(message) }
        },
        Probe::Failed(e) => BackendHealth { healthy: false, last_checked: now, last_error: Some(e) },
    }
}

/// Where the server on a port is asked for its health.
pub fn health_url(port: u16) -> (r: String)
    ensures
        r@ == launch::endpoint_of(port) + "/health"@,
{
    let mut r = launch::endpoint_url(port);
    r.append("/health");
    r
}

/// The last look at each model server.
#[derive(Debug)]
pub struct HealthBoard {
    probes: AliasMap<BackendHealth>,
}

/// Looks as text.
pub open spec fn health_views(m: Map<Seq<char>, BackendHealth>) -> Map<Seq<char>, HealthView> {
    m.map_values(|h: BackendHealth| h@)
}

impl View for HealthBoard {
    type V = Map<Seq<char>, HealthView>;

    closed spec fn view(&self) -> Map<Seq<char>, HealthView> {
        health_views(self.probes@)
    }
}

/// A text is one of a list.
pub open spec fn is_listed(list: Seq<String>, key: Seq<char>) -> bool {
    text::string_texts(list).contains(key)
}

/// Entries that are the unhealthy ones of a board, each once.
pub open spec fn lists_unhealthy(
    entries: Seq<(String, BackendHealth)>,
    board: Map<Seq<char>, HealthView>,
) -> bool {
    &&& forall|i: int|
        0 <= i < entries.len() ==> board.dom().contains((#[trigger] entries[i]).0@)
            && board[entries[i].0@] == entries[i].1@ && !entries[i].1.healthy
    &&& forall|k: Seq<char>| #[trigger]
        board.dom().contains(k) && !board[k].healthy ==> exists|i: int|
            0 <= i < entries.len() && (#[trigger] entries[i]).0@ == k
    &&& forall|i: int, j: int|
        0 <= i < j < entries.len() ==> (#[trigger] entries[i]).0@ != (#[trigger] entries[j]).0@
}

impl HealthBoard {
    /// A board with no looks.
    pub fn new() -> (r: Self)
        ensures
            r@ == Map::<Seq<char>, HealthView>::empty(),
    {
        let r = HealthBoard { probes: AliasMap::new() };
        assert(r@ =~= Map::<Seq<char>, HealthView>::empty());
        r
    }

    /// Notes how a model's server answered at the Unix time `now`.
    pub fn record(&mut self, alias: &str, probe: Probe, now: i64)
        ensures
            final(self)@ == old(self)@.insert(alias@, noted(probe, now)),
    {
        let ghost before = self@;
        self.probes.insert(String::from_str(alias), note(probe, now));
        assert(self@ =~= before.insert(alias@, noted(probe, now)));
    }

    /// Forgets the servers that no longer run.
    pub fn retain(&mut self, active: &[String])
        ensures
            final(self)@ == old(self)@.restrict(Set::new(|k: Seq<char>| is_listed(active@, k))),
    {
        let ghost before = self.probes@;
        let ghost names = text::string_texts(active@);
        let mut kept: AliasMap<BackendHealth> = AliasMap::new();
        let mut i: usize = 0;
        while i < active.len()
            invariant
                i <= active@.len(),
                before == self.probes@,
                names == text::string_texts(active@),
                forall|k: Seq<char>| #[trigger]
                    kept@.dom().contains(k) == (before.dom().contains(k) && names.take(
                        i as int,
                    ).contains(k)),
                forall|k: Seq<char>| #[trigger]
                    kept@.dom().contains(k) ==> kept@[k]@ == before[k]@,
            decreases active@.len() - i,
        {
            let ghost so_far = kept@;
            let ghost name = active@[i as int]@;
            if let Some(h) = self.probes.get(active[i].as_str()) {
                kept.insert(active[i].clone(), h.clone());
            }
            assert forall|k: Seq<char>| #[trigger]
                kept@.dom().contains(k) == (before.dom().contains(k) && names.take(i + 1).contains(
                    k,
                )) by {
                let a = names.take(i as int);
                let b = names.take(i + 1);
                assert(b =~= a.push(name));
                if a.contains(k) {
                    let j = a.index_of(k);
                    assert(b[j] == k);
                }
                if b.contains(k) && k != name {
                    let j = b.index_of(k);
                    assert(a[j] == k);
                }
                assert(b[i as int] == name);
            }
            i = i + 1;
        }
        assert(names.take(i as int) =~= names);
        assert(health_views(kept@) =~= health_views(before).restrict(
            Set::new(|k: Seq<char>| is_listed(active@, k)),
        ));
        self.probes = kept;
    }

    /// The servers that did not answer well, each once.
    pub fn unhealthy(&self) -> (r: Vec<(String, BackendHealth)>)
        ensures
            lists_unhealthy(r@, self@),
    {
        let mut out: Vec<(String, BackendHealth)> = Vec::new();
        let n: usize = self.probes.len();
        let ghost all = self.probes.spec_entries();
        proof {
            self.probes.lemma_entries();
        }
        let mut i: usize = 0;
        while i < n
            invariant
                i <= n,
                n == all.len(),
                all == self.probes.spec_entries(),
                crate::registry::alias_map::distinct_keys(all),
                forall|j: int|
                    0 <= j < out@.len() ==> self@.dom().contains((#[trigger] out@[j]).0@)
                        && self@[out@[j].0@] == out@[j].1@ && !out@[j].1.healthy && exists|a: int|
                        0 <= a < i && (#[trigger] all[a]).0@ == out@[j].0@,
                forall|a: int|
                    0 <= a < i && !(#[trigger] all[a]).1.healthy ==> exists|j: int|
                        0 <= j < out@.len() && (#[trigger] out@[j]).0@ == all[a].0@,
                forall|j: int, k: int|
                    0 <= j < k < out@.len() ==> (#[trigger] out@[j]).0@ != (#[trigger] out@[k]).0@,
            decreases n - i,
        {
            let ghost so_far = out@;
            let (k, h) = self.probes.entry(i);
            if !h.healthy {
                out.push((k.clone(), h.clone()));
                let ghost last = out@.len() - 1;
                assert(out@[last].0@ == all[i as int].0@);
                assert forall|j: int, k: int| 0 <= j < k < out@.len() implies (
                #[trigger] out@[j]).0@ != (#[trigger] out@[k]).0@ by {
                    if k == last {
                        let a = choose|a: int| 0 <= a < i && (#[trigger] all[a]).0@ == so_far[j].0@;
                        assert(all[a].0@ != all[i as int].0@);
                    }
                }
                assert forall|a: int| 0 <= a < i + 1 && !(#[trigger] all[a]).1.healthy implies exists|
                    j: int,
                | 0 <= j < out@.len() && (#[trigger] out@[j]).0@ == all[a].0@ by {
                    if a < i {
                        let j = choose|j: int|
                            0 <= j < so_far.len() && (#[trigger] so_far[j]).0@ == all[a].0@;
                        assert(out@[j].0@ == all[a].0@);
                    }
                }
            }
            i = i + 1;
        }
        assert forall|k: Seq<char>| #[trigger] self@.dom().contains(k) && !self@[k].healthy implies exists|
            j: int,
        | 0 <= j < out@.len() && (#[trigger] out@[j]).0@ == k by {
            assert(self.probes@.dom().contains(k));
            let a = choose|a: int| 0 <= a < all.len() && (#[trigger] all[a]).0@ == k;
            assert(self.probes@[all[a].0@] == all[a].1);
        }
        out
    }
}

/// The servers to be asked for their health: those of both backends.
pub fn health_targets(
    sglang: &[(String, PoolEntry)],
    llamacpp: &[(String, PoolEntry)],
) -> (r: Vec<(String, u16)>)
    ensures
        r@.len() == sglang@.len() + llamacpp@.len(),
        forall|i: int|
            0 <= i < sglang@.len() ==> (#[trigger] r@[i]).0@ == sglang@[i].0@ && r@[i].1
                == sglang@[i].1.port,
        forall|i: int|
            sglang@.len() <= i < r@.len() ==> (#[trigger] r@[i]).0@ == llamacpp@[i
                - sglang@.len()].0@ && r@[i].1 == llamacpp@[i - sglang@.len()].1.port,
{
    let mut out: Vec<(String, u16)> = Vec::new();
    let mut i: usize = 0;
    while i < sglang.len()
        invariant
            i <= sglang@.len(),
            out@.len() == i,
            forall|j: int|
                0 <= j < i ==> (#[trigger] out@[j]).0@ == sglang@[j].0@ && out@[j].1
                    == sglang@[j].1.port,
        decreases sglang@.len() - i,
    {
        out.push((sglang[i].0.clone(), sglang[i].1.port));
        i = i + 1;
    }
    let mut k: usize = 0;
    while k < llamacpp.len()
        invariant
            k <= llamacpp@.len(),
            out@.len() == sglang@.len() + k,
            forall|j: int|
                0 <= j < sglang@.len() ==> (#[trigger] out@[j]).0@ == sglang@[j].0@ && out@[j].1
                    == sglang@[j].1.port,
            forall|j: int|
                sglang@.len() <= j < out@.len() ==> (#[trigger] out@[j]).0@ == llamacpp@[j
                    - sglang@.len()].0@ && out@[j].1 == llamacpp@[j - sglang@.len()].1.port,
        decreases llamacpp@.len() - k,
    {
        out.push((llamacpp[k].0.clone(), llamacpp[k].1.port));
        k = k + 1;
    }
    out
}

// ---------------------------------------------------------------------- report

/// An unhealthy server in the report.
pub open spec fn unhealthy_value(alias: Seq<char>, h: HealthView) -> JsonView {
    JsonView::Object(
        seq![
            ("alias"@, JsonView::Str(alias)),
            ("last_checked"@, json::signed_view(h.last_checked as int)),
            ("error"@, json::nullable_view(h.last_error)),
        ],
    )
}

/// The unhealthy servers in the report.
pub open spec fn unhealthy_values(entries: Seq<(String, BackendHealth)>) -> Seq<JsonView> {
    entries.map_values(|e: (String, BackendHealth)| unhealthy_value(e.0@, e.1@))
}

/// A count as a value.
pub open spec fn count_view(n: int) -> JsonView {
    JsonView::Number(JsonNumber::Unsigned(n as u64))
}

/// The daemon's report: `degraded` where a server is unhealthy, else `ok`.
pub open spec fn health_value(
    models_total: u64,
    sglang: u64,
    llamacpp: u64,
    unhealthy: Seq<(String, BackendHealth)>,
) -> JsonView {
    JsonView::Object(
        seq![
            (
                "status"@,
                JsonView::Str(
                    if unhealthy.len() == 0 {
                        "ok"@
                    } else {
                        "degraded"@
                    },
                ),
            ),
            ("version"@, JsonView::Str("0.1.0"@)),
            ("models_total"@, count_view(models_total as int)),
            ("models_loaded"@, count_view(sglang + llamacpp)),
            ("sglang_processes"@, count_view(sglang as int)),
            ("llamacpp_processes"@, count_view(llamacpp as int)),
            ("unhealthy"@, JsonView::Array(unhealthy_values(unhealthy))),
        ],
    )
}

fn unhealthy_json(entries: &[(String, BackendHealth)]) -> (r: Json)
    ensures
        r@ == JsonView::Array(unhealthy_values(entries@)),
{
    let ghost all = unhealthy_values(entries@);
    let mut out: Vec<Json> = Vec::new();
    assert(json::element_views(out@) =~= all.take(0));
    let mut i: usize = 0;
    while i < entries.len()
        invariant
            i <= entries@.len(),
            all == unhealthy_values(entries@),
            json::element_views(out@) == all.take(i as int),
        decreases entries@.len() - i,
    {
        let ghost before = json::element_views(out@);
        let h = &entries[i].1;
        let error: Option<&str> = match &h.last_error {
            Some(e) => Some(e.as_str()),
            None => None,
        };
        let mut members: Vec<(String, Json)> = Vec::new();
        put(&mut members, "alias", str_json(entries[i].0.as_str()));
        put(&mut members, "last_checked", signed_json(h.last_checked));
        put(&mut members, "error", nullable_json(error));
        let value = Json::Object(members);
        let ghost v = value@;
        assert(v == unhealthy_value(entries@[i as int].0@, entries@[i as int].1@)) by {
            assert(json::member_views(members@) =~= unhealthy_value(
                entries@[i as int].0@,
                entries@[i as int].1@,
            )->Object_0);
        }
        out.push(value);
        i = i + 1;
        assert(json::element_views(out@) =~= before.push(v));
        assert(all.take(i as int) =~= all.take(i - 1).push(all[i - 1]));
    }
    assert(all.take(i as int) =~= all);
    Json::Array(out)
}

/// Writes the daemon's report: how many models it knows, how many processes of
/// each backend run, and which servers are unhealthy.
pub fn health_report(
    models_total: u64,
    sglang: u64,
    llamacpp: u64,
    unhealthy: &[(String, BackendHealth)],
) -> (r: Json)
    requires
        sglang + llamacpp <= u64::MAX,
    ensures
        r@ == health_value(models_total, sglang, llamacpp, unhealthy@),
{
    let mut members: Vec<(String, Json)> = Vec::new();
    let status: &str = if unhealthy.len() == 0 {
        "ok"
    } else {
        "degraded"
    };
    put(&mut members, "status", str_json(status));
    put(&mut members, "version", str_json("0.1.0"));
    put(&mut members, "models_total", unsigned_json(models_total));
    put(&mut members, "models_loaded", unsigned_json(sglang + llamacpp));
    put(&mut members, "sglang_processes", unsigned_json(sglang));
    put(&mut members, "llamacpp_processes", unsigned_json(llamacpp));
    put(&mut members, "unhealthy", unhealthy_json(unhealthy));
    assert(json::member_views(members@) =~= health_value(
        models_total,
        sglang,
        llamacpp,
        unhealthy@,
    )->Object_0);
    Json::Object(members)
}

// ------------------------------------------------------------------------ laws

/// A board says that all is well exactly where no server that it knows is
/// unhealthy.
pub proof fn law_degraded_means_unhealthy(
    entries: Seq<(String, BackendHealth)>,
    board: Map<Seq<char>, HealthView>,
)
    requires
        lists_unhealthy(entries, board),
    ensures
        (entries.len() == 0) == (forall|k: Seq<char>| #[trigger]
            board.dom().contains(k) ==> board[k].healthy),
{
    if entries.len() > 0 {
        assert(board.dom().contains(entries[0].0@));
    }
}

/// A look replaces the one before it, and touches no other server's.
pub proof fn law_last_look_counts(
    board: Map<Seq<char>, HealthView>,
    alias: Seq<char>,
    first: Probe,
    second: Probe,
    then: i64,
    now: i64,
    other: Seq<char>,
)
    requires
        other != alias,
    ensures
        ({
            let after = board.insert(alias, noted(first, then)).insert(alias, noted(second, now));
            &&& after[alias] == noted(second, now)
            &&& after.dom().contains(other) == board.dom().contains(other)
            &&& board.dom().contains(other) ==> after[other] == board[other]
        }),
{
}

} // verus!
