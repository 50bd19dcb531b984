//! The pool of running model servers of one backend.
//!
//! The operating system's side of a server (its process handle and its log) is
//! the caller's; the pool holds what the decisions read: the port, when it was
//! started, when it was last used.
use crate::registry::alias_map::AliasMap;
use crate::text;
use crate::time::Timestamp;
use vstd::prelude::*;
use vstd::string::StringExecFns;

verus! {

/// A running server.
#[derive(Debug, Clone, Copy, PartialEq, Eq, Structural)]
pub struct PoolEntry {
    pub port: u16,
    pub started_at: Timestamp,
    pub last_used: i64,
}

/// Entries that are those of a map, each once, in some order.
pub open spec fn lists_map(
    entries: Seq<(String, PoolEntry)>,
    m: Map<Seq<char>, PoolEntry>,
) -> bool {
    &&& forall|i: int|
        0 <= i < entries.len() ==> m.dom().contains((#[trigger] entries[i]).0@)
            && m[entries[i].0@] == entries[i].1
    &&& forall|k: Seq<char>| #[trigger]
        m.dom().contains(k) ==> exists|i: int|
            0 <= i < entries.len() && (#[trigger] entries[i]).0@ == k
    &&& forall|i: int, j: int|
        0 <= i < j < entries.len() ==> (#[trigger] entries[i]).0@ != (#[trigger] entries[j]).0@
}

fn map_entries(m: &AliasMap<PoolEntry>) -> (r: Vec<(String, PoolEntry)>)
    ensures
        lists_map(r@, m@),
{
    let mut out: Vec<(String, PoolEntry)> = Vec::new();
    let n: usize = m.len();
    let ghost all = m.spec_entries();
    let mut i: usize = 0;
    while i < n
        invariant
            i <= n,
            n == all.len(),
            all == m.spec_entries(),
            out@.len() == i,
            forall|j: int| 0 <= j < i ==> (#[trigger] out@[j]).0@ == all[j].0@,
            forall|j: int| 0 <= j < i ==> (#[trigger] out@[j]).1 == all[j].1,
        decreases n - i,
    {
        let (k, e) = m.entry(i);
        out.push((k.clone(), *e));
        i = i + 1;
    }
    proof {
        m.lemma_entries();
        assert forall|k: Seq<char>| #[trigger] m@.dom().contains(k) implies exists|i: int|
            0 <= i < out@.len() && (#[trigger] out@[i]).0@ == k by {
            let j = choose|j: int| 0 <= j < all.len() && (#[trigger] all[j]).0@ == k;
            assert(out@[j].0@ == k);
        }
    }
    out
}

// ------------------------------------------------------------------- decisions

/// A pool: the running servers by alias, and the aliases whose server is being
/// started.
#[verifier::ext_equal]
pub struct PoolView {
    pub servers: Map<Seq<char>, PoolEntry>,
    pub starting: Set<Seq<char>>,
}

/// What to do for a request.
#[derive(Debug, Clone, Copy, PartialEq, Eq, Structural)]
pub enum Lookup {
    /// A live server listens on this port.
    Reuse(u16),
    /// A server has to be started.
    Spawn,
}

/// Who starts a server that several requests ask for.
#[derive(Debug, Clone, Copy, PartialEq, Eq, Structural)]
pub enum Role {
    /// This request starts it.
    Lead,
    /// Another request is starting it; this one waits.
    Wait,
}

/// What a waiting request finds.
#[derive(Debug, Clone, Copy, PartialEq, Eq, Structural)]
pub enum WaitOutcome {
    /// The server is up on this port.
    Ready(u16),
    /// Nobody is starting it any more and it is not up: start it.
    SpawnSelf,
    /// It is still being started.
    KeepWaiting,
}

/// The running servers of one backend.
#[derive(Debug)]
pub struct ProcessPool {
    processes: AliasMap<PoolEntry>,
    spawn_in_flight: AliasMap<()>,
}

impl View for ProcessPool {
    type V = PoolView;

    closed spec fn view(&self) -> PoolView {
        PoolView {
            servers: self.processes@,
            starting: self.spawn_in_flight@.dom(),
        }
    }
}

/// The pool after a request for a model: a live server is marked as used now, a
/// dead one is dropped.
pub open spec fn looked_up(
    p: PoolView,
    alias: Seq<char>,
    alive: bool,
    now: i64,
) -> (PoolView, Lookup) {
    if !p.servers.dom().contains(alias) {
        (p, Lookup::Spawn)
    } else if alive {
        let e = p.servers[alias];
        (
            PoolView {
                servers: p.servers.insert(alias, PoolEntry { last_used: now, ..e }),
                ..p
            },
            Lookup::Reuse(e.port),
        )
    } else {
        (PoolView { servers: p.servers.remove(alias), ..p }, Lookup::Spawn)
    }
}

/// The pool after a request asked who is to start a model's server, and the
/// answer: the first to ask leads.
pub open spec fn begun(p: PoolView, alias: Seq<char>) -> (PoolView, Role) {
    (
        PoolView { starting: p.starting.insert(alias), ..p },
        if p.starting.contains(alias) {
            Role::Wait
        } else {
            Role::Lead
        },
    )
}

/// The pool after the start of a model's server has ended.
pub open spec fn ended(p: PoolView, alias: Seq<char>) -> PoolView {
    PoolView { starting: p.starting.remove(alias), ..p }
}

/// What a waiting request finds.
pub open spec fn wait_outcome(p: PoolView, alias: Seq<char>) -> WaitOutcome {
    if p.servers.dom().contains(alias) {
        WaitOutcome::Ready(p.servers[alias].port)
    } else if p.starting.contains(alias) {
        WaitOutcome::KeepWaiting
    } else {
        WaitOutcome::SpawnSelf
    }
}

/// A server was idle for longer than its time to live.
pub open spec fn is_expired(e: PoolEntry, now: i64, ttl_secs: u64) -> bool {
    now - e.last_used > ttl_secs
}

impl ProcessPool {
    /// An empty pool.
    pub fn new() -> (r: Self)
        ensures
            r@.servers == Map::<Seq<char>, PoolEntry>::empty(),
            r@.starting == Set::<Seq<char>>::empty(),
    {
        let r = ProcessPool { processes: AliasMap::new(), spawn_in_flight: AliasMap::new() };
        assert(r@.starting =~= Set::<Seq<char>>::empty());
        r
    }

    /// The server of a model.
    pub fn get(&self, alias: &str) -> (r: Option<PoolEntry>)
        ensures
            match r {
                Some(e) => self@.servers.dom().contains(alias@) && e == self@.servers[alias@],
                None => !self@.servers.dom().contains(alias@),
            },
    {
        match self.processes.get(alias) {
            Some(e) => Some(*e),
            None => None,
        }
    }

    /// Takes a request for a model at the Unix time `now`, given whether the
    /// process of its server, if it has one, is alive.
    pub fn get_or_spawn(&mut self, alias: &str, alive: bool, now: i64) -> (r: Lookup)
        ensures
            (final(self)@, r) == looked_up(old(self)@, alias@, alive, now),
    {
        let ghost before = self@;
        match self.processes.get(alias) {
            None => Lookup::Spawn,
            Some(e) => {
                if alive {
                    let port: u16 = e.port;
                    let used = PoolEntry { port, started_at: e.started_at, last_used: now };
                    self.processes.insert(String::from_str(alias), used);
                    Lookup::Reuse(port)
                } else {
                    let _ = self.processes.remove(alias);
                    Lookup::Spawn
                }
            },
        }
    }

    /// Asks who is to start a model's server. The first to ask leads, and is
    /// noted as starting it.
    pub fn begin_spawn(&mut self, alias: &str) -> (r: Role)
        ensures
            (final(self)@, r) == begun(old(self)@, alias@),
    {
        let ghost before = self@;
        if self.spawn_in_flight.contains_key(alias) {
            assert(before.starting =~= before.starting.insert(alias@));
            Role::Wait
        } else {
            self.spawn_in_flight.insert(String::from_str(alias), ());
            assert(self@.starting =~= before.starting.insert(alias@));
            Role::Lead
        }
    }

    /// Puts a started server into the pool.
    pub fn add_server(&mut self, alias: &str, entry: PoolEntry)
        ensures
            final(self)@ == (PoolView {
                servers: old(self)@.servers.insert(alias@, entry),
                ..old(self)@
            }),
    {
        self.processes.insert(String::from_str(alias), entry);
    }

    /// Ends the start of a model's server, whether it came up or not.
    pub fn end_spawn(&mut self, alias: &str)
        ensures
            final(self)@ == ended(old(self)@, alias@),
    {
        let ghost before = self@;
        let _ = self.spawn_in_flight.remove(alias);
        assert(self@.starting =~= before.starting.remove(alias@));
    }

    /// Tells a waiting request where its server stands.
    pub fn poll_spawn(&self, alias: &str) -> (r: WaitOutcome)
        ensures
            r == wait_outcome(self@, alias@),
    {
        match self.processes.get(alias) {
            Some(e) => WaitOutcome::Ready(e.port),
            None => {
                if self.spawn_in_flight.contains_key(alias) {
                    WaitOutcome::KeepWaiting
                } else {
                    WaitOutcome::SpawnSelf
                }
            },
        }
    }

    /// Takes a server out of the pool, to be killed. Nothing happens where there
    /// is none.
    pub fn kill(&mut self, alias: &str) -> (r: Option<PoolEntry>)
        ensures
            final(self)@ == (PoolView {
                servers: old(self)@.servers.remove(alias@),
                ..old(self)@
            }),
            match r {
                Some(e) => old(self)@.servers.dom().contains(alias@) && e
                    == old(self)@.servers[alias@],
                None => !old(self)@.servers.dom().contains(alias@),
            },
    {
        self.processes.remove(alias)
    }

    /// All running servers, each once.
    pub fn entries(&self) -> (r: Vec<(String, PoolEntry)>)
        ensures
            lists_map(r@, self@.servers),
    {
        map_entries(&self.processes)
    }

    /// The server that was used least recently; none where no server was used
    /// before the end of time.
    pub fn evict_lru(&self) -> (r: Option<String>)
        ensures
            match r {
                Some(a) => self@.servers.dom().contains(a@) && self@.servers[a@].last_used
                    < i64::MAX && forall|k: Seq<char>| #[trigger]
                    self@.servers.dom().contains(k) ==> self@.servers[a@].last_used
                        <= self@.servers[k].last_used,
                None => forall|k: Seq<char>| #[trigger]
                    self@.servers.dom().contains(k) ==> self@.servers[k].last_used == i64::MAX,
            },
    {
        let entries = map_entries(&self.processes);
        let mut oldest: Option<usize> = None;
        let mut oldest_ts: i64 = i64::MAX;
        let mut i: usize = 0;
        while i < entries.len()
            invariant
                i <= entries@.len(),
                lists_map(entries@, self@.servers),
                forall|j: int| 0 <= j < i ==> oldest_ts <= (#[trigger] entries@[j]).1.last_used,
                match oldest {
                    Some(k) => k < i && entries@[k as int].1.last_used == oldest_ts && oldest_ts
                        < i64::MAX,
                    None => oldest_ts == i64::MAX,
                },
            decreases entries@.len() - i,
        {
            let ts: i64 = entries[i].1.last_used;
            if ts < oldest_ts {
                oldest_ts = ts;
                oldest = Some(i);
            }
            i = i + 1;
        }
        assert forall|k: Seq<char>| #[trigger] self@.servers.dom().contains(k) implies oldest_ts
            <= self@.servers[k].last_used by {
            let j = choose|j: int| 0 <= j < entries@.len() && (#[trigger] entries@[j]).0@ == k;
            assert(self@.servers[entries@[j].0@] == entries@[j].1);
        }
        match oldest {
            Some(k) => {
                assert(self@.servers.dom().contains(entries@[k as int].0@));
                Some(entries[k].0.clone())
            },
            None => None,
        }
    }

    /// The servers that were idle for longer than the time to live, each once.
    pub fn expired(&self, now: i64, ttl_secs: u64) -> (r: Vec<String>)
        ensures
            forall|i: int|
                0 <= i < r@.len() ==> self@.servers.dom().contains((#[trigger] r@[i])@)
                    && is_expired(self@.servers[r@[i]@], now, ttl_secs),
            forall|k: Seq<char>| #[trigger]
                self@.servers.dom().contains(k) && is_expired(self@.servers[k], now, ttl_secs)
                    ==> exists|i: int| 0 <= i < r@.len() && (#[trigger] r@[i])@ == k,
            forall|i: int, j: int|
                0 <= i < j < r@.len() ==> (#[trigger] r@[i])@ != (#[trigger] r@[j])@,
    {
        let entries = map_entries(&self.processes);
        let mut out: Vec<String> = Vec::new();
        let mut i: usize = 0;
        while i < entries.len()
            invariant
                i <= entries@.len(),
                lists_map(entries@, self@.servers),
                forall|j: int|
                    0 <= j < out@.len() ==> self@.servers.dom().contains((#[trigger] out@[j])@)
                        && is_expired(self@.servers[out@[j]@], now, ttl_secs) && exists|a: int|
                        0 <= a < i && (#[trigger] entries@[a]).0@ == out@[j]@,
                forall|a: int|
                    0 <= a < i && is_expired((#[trigger] entries@[a]).1, now, ttl_secs)
                        ==> exists|j: int|
                        0 <= j < out@.len() && (#[trigger] out@[j])@ == entries@[a].0@,
                forall|j: int, k: int|
                    0 <= j < k < out@.len() ==> (#[trigger] out@[j])@ != (#[trigger] out@[k])@,
            decreases entries@.len() - i,
        {
            let ghost so_far = out@;
            let e: PoolEntry = entries[i].1;
            assert(self@.servers[entries@[i as int].0@] == e);
            if now as i128 - e.last_used as i128 > ttl_secs as i128 {
                out.push(entries[i].0.clone());
                assert(out@[out@.len() - 1]@ == entries@[i as int].0@);
                assert forall|j: int, k: int| 0 <= j < k < out@.len() implies (#[trigger] out@[j])@
                    != (#[trigger] out@[k])@ by {
                    if k == out@.len() - 1 {
                        let a = choose|a: int|
                            0 <= a < i && (#[trigger] entries@[a]).0@ == so_far[j]@;
                        assert(entries@[a].0@ != entries@[i as int].0@);
                    }
                }
                assert forall|a: int|
                    0 <= a < i + 1 && is_expired(
                        (#[trigger] entries@[a]).1,
                        now,
                        ttl_secs,
                    ) implies exists|j: int|
                    0 <= j < out@.len() && (#[trigger] out@[j])@ == entries@[a].0@ by {
                    if a < i {
                        let j = choose|j: int|
                            0 <= j < so_far.len() && (#[trigger] so_far[j])@ == entries@[a].0@;
                        assert(out@[j]@ == entries@[a].0@);
                    }
                }
            }
            i = i + 1;
        }
        assert forall|k: Seq<char>| #[trigger]
            self@.servers.dom().contains(k) && is_expired(
                self@.servers[k],
                now,
                ttl_secs,
            ) implies exists|i: int| 0 <= i < out@.len() && (#[trigger] out@[i])@ == k by {
            let a = choose|a: int| 0 <= a < entries@.len() && (#[trigger] entries@[a]).0@ == k;
            assert(self@.servers[entries@[a].0@] == entries@[a].1);
        }
        out
    }
}

// ------------------------------------------------------------------------ laws

/// Once a server is up it is reused: a request that finds its process alive gets
/// its port, changes no other server, and makes it the most recently used where
/// time has not gone back.
pub proof fn law_live_server_is_reused(p: PoolView, alias: Seq<char>, other: Seq<char>, now: i64)
    requires
        p.servers.dom().contains(alias),
        other != alias,
    ensures
        looked_up(p, alias, true, now).1 == Lookup::Reuse(p.servers[alias].port),
        looked_up(p, alias, true, now).0.servers[alias].last_used == now,
        looked_up(p, alias, true, now).0.servers[alias].port == p.servers[alias].port,
        looked_up(p, alias, true, now).0.servers.dom() == p.servers.dom(),
        p.servers.dom().contains(other) ==> looked_up(p, alias, true, now).0.servers[other]
            == p.servers[other],
{
    assert(looked_up(p, alias, true, now).0.servers.dom() =~= p.servers.dom());
}

/// A dead server is dropped before a new one is started.
pub proof fn law_dead_server_is_dropped(p: PoolView, alias: Seq<char>, now: i64)
    ensures
        looked_up(p, alias, false, now).1 == Lookup::Spawn,
        !looked_up(p, alias, false, now).0.servers.dom().contains(alias),
{
}

/// Of several requests that ask to start a model, one leads: after it, others
/// wait, until the start has ended; and models do not stand in each other's way.
pub proof fn law_one_request_leads(p: PoolView, alias: Seq<char>, other: Seq<char>)
    requires
        other != alias,
    ensures
        begun(begun(p, alias).0, alias).1 == Role::Wait,
        begun(ended(p, alias), alias).1 == Role::Lead,
        begun(begun(p, alias).0, other).1 == begun(p, other).1,
{
}

/// A waiting request never misses the server: once the leader has put it into the
/// pool and ended the start, the next look finds it.
pub proof fn law_waiter_finds_the_server(p: PoolView, alias: Seq<char>, entry: PoolEntry)
    ensures
        wait_outcome(
            ended(PoolView { servers: p.servers.insert(alias, entry), ..p }, alias),
            alias,
        ) == WaitOutcome::Ready(entry.port),
        !p.servers.dom().contains(alias) ==> wait_outcome(ended(p, alias), alias)
            == WaitOutcome::SpawnSelf,
{
}

/// A server that was just used does not expire.
pub proof fn law_used_server_does_not_expire(e: PoolEntry, now: i64, ttl_secs: u64)
    requires
        e.last_used >= now - ttl_secs,
    ensures
        !is_expired(e, now, ttl_secs),
{
}

/// A model without a server is to be started, and asking changes nothing; the first to
/// ask who starts it is the one.
pub proof fn law_missing_server_is_started(p: PoolView, alias: Seq<char>, alive: bool, now: i64)
    requires
        !p.servers.dom().contains(alias),
    ensures
        looked_up(p, alias, alive, now) == (p, Lookup::Spawn),
        !p.starting.contains(alias) ==> begun(p, alias).1 == Role::Lead,
        begun(p, alias).0.starting.contains(alias),
        begun(p, alias).0.servers == p.servers,
        !ended(p, alias).starting.contains(alias),
        ended(p, alias).servers == p.servers,
{
}

/// A waiting request goes on waiting while another starts the server, and only then.
pub proof fn law_waiting_ends_with_the_start(p: PoolView, alias: Seq<char>)
    ensures
        wait_outcome(p, alias) == WaitOutcome::KeepWaiting <==> !p.servers.dom().contains(alias)
            && p.starting.contains(alias),
        p.servers.dom().contains(alias) ==> wait_outcome(p, alias) == WaitOutcome::Ready(
            p.servers[alias].port,
        ),
{
}

/// A server expires once it was idle for longer than its time to live, and not before;
/// one that has expired stays so until it is used.
pub proof fn law_idle_server_expires(e: PoolEntry, now: i64, later: i64, ttl_secs: u64)
    requires
        now <= later,
    ensures
        now > e.last_used + ttl_secs <==> is_expired(e, now, ttl_secs),
        is_expired(e, now, ttl_secs) ==> is_expired(e, later, ttl_secs),
        !is_expired(PoolEntry { last_used: now, ..e }, now, ttl_secs),
{
}

} // verus!
