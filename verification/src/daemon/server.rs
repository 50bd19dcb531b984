//! The daemon's lock file, and the wait for a daemon that was just started.
use crate::number;
use crate::paths;
use crate::text;
use vstd::prelude::*;
use vstd::string::StringExecFns;

verus! {

broadcast use vstd::string::group_string_axioms;

// ------------------------------------------------------------------------ lock

/// The lock of a running daemon: a file that holds its process id.
#[derive(Debug)]
pub struct PidLock {
    path: String,
}

/// The path of the lock file: beside the manifests' directory.
pub open spec fn lock_path(parent: Option<Seq<char>>, windows: bool) -> Seq<char> {
    paths::joined(
        match parent {
            Some(p) => p,
            None => "."@,
        },
        "daemon.pid"@,
        windows,
    )
}

/// The path of the lock file, given the parent of the manifests' directory, if it
/// has one.
pub fn pid_file_path(parent: Option<&str>, windows: bool) -> (r: String)
    ensures
        r@ == lock_path(
            match parent {
                Some(p) => Some(p@),
                None => None,
            },
            windows,
        ),
{
    let dir: &str = match parent {
        Some(p) => p,
        None => ".",
    };
    paths::join(dir, "daemon.pid", windows)
}

/// The process id that a lock file holds.
pub open spec fn recorded(content: Seq<char>) -> Option<nat> {
    number::unsigned_of(text::trimmed(content), u32::MAX as nat)
}

/// The process id that a lock file holds; none where it holds something else.
pub fn recorded_pid(content: &str) -> (r: Option<u32>)
    ensures
        match r {
            Some(p) => recorded(content@) == Some(p as nat),
            None => recorded(content@) is None,
        },
{
    let chars = text::chars_of(content);
    match number::parse_unsigned(text::trim(chars.as_slice()), u32::MAX as u64) {
        Some(p) => Some(p as u32),
        None => None,
    }
}

/// Another daemon holds the lock: the file names a process, which is not this one,
/// and it lives.
pub open spec fn is_held(owner: Option<u32>, our_pid: u32, owner_lives: bool) -> bool {
    owner matches Some(p) && p != our_pid && owner_lives
}

impl PidLock {
    /// The path of the lock file.
    pub closed spec fn spec_path(&self) -> Seq<char> {
        self.path@
    }

    /// Takes the lock at a path, or tells who holds it. `owner` is the process that
    /// the lock file names, if it is there and names one, and `owner_lives` whether
    /// that process is alive. A lock whose owner is dead is taken over. The
    /// caller's process id is then to be written to the file.
    pub fn acquire(path: &str, our_pid: u32, owner: Option<u32>, owner_lives: bool) -> (r: Result<
        Self,
        String,
    >)
        ensures
            match r {
                Ok(lock) => !is_held(owner, our_pid, owner_lives) && lock.spec_path() == path@,
                Err(e) => is_held(owner, our_pid, owner_lives) && (owner matches Some(p) && e@
                    == "Another localllm daemon is already running (pid "@ + number::decimal(
                    p as nat,
                ) + "). If this is wrong, remove "@ + text::path_debug_of(path@) + " manually."@),
            },
    {
        if let Some(p) = owner {
            if p != our_pid && owner_lives {
                let digits = number::to_decimal(p as u64);
                let shown = text::path_debug(path);
                let mut message = String::from_str(
                    "Another localllm daemon is already running (pid ",
                ).concat(digits.as_str());
                message.append("). If this is wrong, remove ");
                message.append(shown.as_str());
                message.append(" manually.");
                return Err(message);
            }
        }
        Ok(PidLock { path: String::from_str(path) })
    }

    /// The path of the lock file, to be removed when the daemon ends.
    pub fn path(&self) -> (r: &String)
        ensures
            r@ == self.spec_path(),
    {
        &self.path
    }
}

/// A daemon that holds the lock keeps every other one out, and once its process is
/// gone the lock can be taken.
pub proof fn law_one_daemon_holds_the_lock(owner: u32, other: u32)
    requires
        other != owner,
    ensures
        is_held(Some(owner), other, true),
        !is_held(Some(owner), other, false),
        !is_held(Some(owner), owner, true),
{
}

/// A lock file that a daemon wrote names that daemon.
pub proof fn law_written_pid_is_read_back(pid: u32)
    ensures
        recorded(number::decimal(pid as nat)) == Some(pid as nat),
{
    number::law_decimal_round_trips(pid as nat, u32::MAX as nat);
    number::lemma_decimal_digits(pid as nat);
    let s = number::decimal(pid as nat);
    assert(!text::is_space(s[0]) && !text::is_space(s.last())) by {
        assert(number::is_digit(s[0]));
        assert(number::is_digit(s[s.len() - 1]));
    }
    text::lemma_leading_spaces_unique(s, 0);
    assert(text::trimmed_start(s) =~= s);
}

// ------------------------------------------------------------------------ wait

/// How long, in milliseconds, a daemon that was started is waited for.
pub const START_TIMEOUT_MS: u64 = 5000;

/// How long, in milliseconds, the wait pauses before each look.
pub const START_POLL_MS: u64 = 100;

/// A wait for a daemon that was started.
#[derive(Debug, Clone, Copy, PartialEq, Eq, Structural)]
pub struct DaemonWait {
    waited_ms: u64,
}

/// What a wait does after a look.
#[derive(Debug, Clone, Copy, PartialEq, Eq, Structural)]
pub enum WaitStep {
    /// The daemon answers.
    Up,
    /// Look again after a pause.
    Again,
    /// It has been long enough.
    GiveUp,
}

impl DaemonWait {
    /// How long the wait has been, in milliseconds.
    pub closed spec fn waited(&self) -> u64 {
        self.waited_ms
    }

    #[verifier::type_invariant]
    spec fn bounded(self) -> bool {
        self.waited_ms <= START_TIMEOUT_MS && self.waited_ms % START_POLL_MS == 0
    }

    /// A wait that has not begun.
    pub fn new() -> (r: Self)
        ensures
            r.waited() == 0,
    {
        DaemonWait { waited_ms: 0 }
    }

    /// Takes in what a look found after a pause.
    pub fn look(&mut self, answers: bool) -> (r: WaitStep)
        requires
            old(self).waited() < START_TIMEOUT_MS,
        ensures
            final(self).waited() == old(self).waited() + START_POLL_MS,
            r == if answers {
                WaitStep::Up
            } else if final(self).waited() < START_TIMEOUT_MS {
                WaitStep::Again
            } else {
                WaitStep::GiveUp
            },
    {
        proof {
            use_type_invariant(&*self);
        }
        self.waited_ms = self.waited_ms + START_POLL_MS;
        if answers {
            WaitStep::Up
        } else if self.waited_ms < START_TIMEOUT_MS {
            WaitStep::Again
        } else {
            WaitStep::GiveUp
        }
    }
}

/// Where the daemon is: at the URL that was given, else at the configured one.
pub fn daemon_url(given: Option<&str>, configured: String) -> (r: String)
    ensures
        r@ == match given {
            Some(u) => u@,
            None => configured@,
        },
{
    match given {
        Some(u) => String::from_str(u),
        None => configured,
    }
}

} // verus!
