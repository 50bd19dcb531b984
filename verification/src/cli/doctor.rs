//! The diagnosis of a setup: one finding after another, and what they come to.
use crate::cli::style;
use crate::cli::table;
use crate::number;
use crate::text;
use vstd::prelude::*;
use vstd::string::StringExecFns;

verus! {

broadcast use vstd::string::group_string_axioms;

/// A diagnosis in progress: how many findings are fine, and how many are not.
#[derive(Debug, Clone, Copy, PartialEq, Eq, Structural)]
pub struct Doctor {
    ok: u32,
    warn: u32,
}

/// How a finding counts.
#[derive(Debug, Clone, Copy, PartialEq, Eq, Structural)]
pub enum Verdict {
    Fine,
    Warning,
    Neither,
}

/// The line that opens a diagnosis.
pub fn opening() -> (r: String)
    ensures
        r@ == style::styled(style::DIM@, "Running localllm doctor..."@) + "\n"@,
{
    let mut r = style::dim("Running localllm doctor...");
    r.append("\n");
    r
}

/// The words that lead a finding: its number, and what it is about.
pub open spec fn lead(n: Seq<char>, about: Seq<char>) -> Seq<char> {
    "  "@ + style::styled(style::DIM@, n) + " "@ + about + "... "@
}

fn write_lead(n: &str, about: &str) -> (r: String)
    ensures
        r@ == lead(n@, about@),
{
    let number = style::dim(n);
    let mut r = String::from_str("  ").concat(number.as_str());
    r.append(" ");
    r.append(about);
    r.append("... ");
    r
}

/// A colored word with a remark in brackets.
pub open spec fn remarked(word: Seq<char>, remark: Seq<char>) -> Seq<char> {
    word + " ("@ + remark + ")"@
}

fn with_remark(word: String, remark: &str) -> (r: String)
    ensures
        r@ == remarked(word@, remark@),
{
    let mut r = word;
    r.append(" (");
    r.append(remark);
    r.append(")");
    r
}

/// How the daemon answered.
#[derive(Debug)]
pub enum DaemonAnswer {
    /// Well.
    Success,
    /// With another status, such as `503 Service Unavailable`.
    Status(String),
    /// Not at all, for this reason.
    Unreachable(String),
}

/// The finding on the daemon.
pub open spec fn daemon_finding(url: Seq<char>, answer: DaemonAnswer) -> Seq<char> {
    lead("[1/7]"@, "Daemon at "@ + url + " "@) + match answer {
        DaemonAnswer::Success => style::styled(style::GREEN@, "OK"@),
        DaemonAnswer::Status(s) => remarked(
            style::styled(style::YELLOW@, "WARN"@),
            "HTTP "@ + s@,
        ),
        DaemonAnswer::Unreachable(e) => remarked(style::styled(style::RED@, "MISSING"@), e@),
    }
}

/// The finding on the GPU: how much memory is free, where that is known.
pub open spec fn gpu_finding(present: bool, free_mb: Option<u64>) -> Seq<char> {
    lead("[2/7]"@, "NVIDIA GPU      "@) + if present {
        match free_mb {
            Some(n) => remarked(
                style::styled(style::GREEN@, "OK"@),
                number::decimal(n as nat)
                    + " MiB free — models will GPU-offload as many layers as fit"@,
            ),
            None => remarked(style::styled(style::GREEN@, "OK"@), "GPU offload enabled"@),
        }
    } else {
        style::styled(style::DIM@, "absent (will run on CPU via llama.cpp)"@)
    }
}

/// The finding on Python: its version where it runs.
pub open spec fn python_finding(command: Seq<char>, version: Option<Seq<char>>) -> Seq<char> {
    lead("[3/7]"@, "python ("@ + table::cell(command, 7) + ")"@) + match version {
        Some(v) => remarked(style::styled(style::GREEN@, "OK"@), text::trimmed(v)),
        None => style::styled(style::RED@, "MISSING"@) + " — required for sglang backend"@,
    }
}

/// The finding on sglang: its version where it is installed, and nothing where there
/// is no Python to ask.
pub open spec fn sglang_finding(has_python: bool, version: Option<Seq<char>>) -> Seq<char> {
    lead("[4/7]"@, "sglang          "@) + if !has_python {
        style::styled(style::DIM@, "skipped (no Python)"@)
    } else {
        match version {
            Some(v) => remarked(style::styled(style::GREEN@, "OK"@), text::trimmed(v)),
            None => style::styled(style::DIM@, "missing"@)
                + " — install with: pip install sglang"@,
        }
    }
}

/// The finding on the engine: where it is configured, and whether it is built there.
pub open spec fn engine_finding(dir: Option<Seq<char>>, built: bool) -> Seq<char> {
    lead("[5/7]"@, "llama.cpp       "@) + match dir {
        Some(d) => if built {
            remarked(style::styled(style::GREEN@, "OK"@), text::path_debug_of(d))
        } else {
            style::styled(style::YELLOW@, "WARN"@) + " build/bin/ missing at "@ + text::path_debug_of(d)
        },
        None => style::styled(style::YELLOW@, "absent"@)
            + " — runs automatically on first use, or run: localllm setup"@,
    }
}

/// The finding on the access token.
pub open spec fn token_finding(set: bool) -> Seq<char> {
    lead("[6/7]"@, "HF_TOKEN        "@) + if set {
        remarked(style::styled(style::GREEN@, "set"@), "private models accessible"@)
    } else {
        style::styled(style::DIM@, "not set (public models only)"@)
    }
}

/// The finding on the models' directory.
pub open spec fn models_finding(dir: Seq<char>, usable: bool) -> Seq<char> {
    lead("[7/7]"@, "Models dir      "@) + if usable {
        remarked(style::styled(style::GREEN@, "OK"@), text::path_debug_of(dir))
    } else {
        style::styled(style::RED@, "WARN"@) + " — can't create "@ + text::path_debug_of(dir)
    }
}

/// What the findings come to.
pub open spec fn summary_text(ok: u32, warn: u32) -> Seq<char> {
    let counts = "\nSummary: "@ + number::decimal(ok as nat) + " OK, "@ + number::decimal(
        warn as nat,
    ) + " warning(s)"@;
    if warn == 0 {
        style::styled(style::GREEN@, counts) + "\n"@ + style::styled(
            style::GREEN@,
            "Everything looks good."@,
        )
    } else {
        style::styled(style::YELLOW@, counts) + "\n"@ + style::styled(
            style::DIM@,
            "Review warnings above. Fix each line marked WARN/MISSING."@,
        )
    }
}

/// The line on how many threads decode on the CPU.
pub fn threads_line(cores: usize) -> (r: String)
    ensures
        r@ == style::styled(
            style::DIM@,
            "        CPU decode threads (auto): "@ + number::decimal(cores as nat)
                + " physical cores"@,
        ),
{
    let digits = number::to_decimal(cores as u64);
    let mut line = String::from_str("        CPU decode threads (auto): ").concat(digits.as_str());
    line.append(" physical cores");
    style::dim(line.as_str())
}

impl Doctor {
    /// How many findings are fine.
    pub closed spec fn fine(&self) -> u32 {
        self.ok
    }

    /// How many findings are not.
    pub closed spec fn warnings(&self) -> u32 {
        self.warn
    }

    /// The counts after one more finding.
    pub open spec fn counted(&self, v: Verdict, after: Doctor) -> bool {
        &&& after.fine() == self.fine() + if v == Verdict::Fine {
            1int
        } else {
            0int
        }
        &&& after.warnings() == self.warnings() + if v == Verdict::Warning {
            1int
        } else {
            0int
        }
    }

    /// The counts have room for another finding.
    pub open spec fn has_room(&self) -> bool {
        self.fine() < u32::MAX && self.warnings() < u32::MAX
    }

    /// A diagnosis with no findings.
    pub fn new() -> (r: Self)
        ensures
            r.fine() == 0,
            r.warnings() == 0,
    {
        Doctor { ok: 0, warn: 0 }
    }

    fn count(&mut self, v: Verdict)
        requires
            old(self).has_room(),
        ensures
            old(self).counted(v, *final(self)),
    {
        match v {
            Verdict::Fine => {
                self.ok = self.ok + 1;
            },
            Verdict::Warning => {
                self.warn = self.warn + 1;
            },
            Verdict::Neither => {},
        }
    }

    /// Looks at the daemon.
    pub fn daemon(&mut self, url: &str, answer: &DaemonAnswer) -> (r: String)
        requires
            old(self).has_room(),
        ensures
            r@ == daemon_finding(url@, *answer),
            old(self).counted(
                if answer is Success {
                    Verdict::Fine
                } else {
                    Verdict::Warning
                },
                *final(self),
            ),
    {
        let mut about = String::from_str("Daemon at ").concat(url);
        about.append(" ");
        let mut out = write_lead("[1/7]", about.as_str());
        let word: String = match answer {
            DaemonAnswer::Success => {
                self.count(Verdict::Fine);
                style::ok("OK")
            },
            DaemonAnswer::Status(s) => {
                self.count(Verdict::Warning);
                let status = String::from_str("HTTP ").concat(s.as_str());
                with_remark(style::warn("WARN"), status.as_str())
            },
            DaemonAnswer::Unreachable(e) => {
                self.count(Verdict::Warning);
                with_remark(style::err("MISSING"), e.as_str())
            },
        };
        out.append(word.as_str());
        out
    }

    /// Looks at the GPU. That there is none is no fault.
    pub fn gpu(&mut self, present: bool, free_mb: Option<u64>) -> (r: String)
        requires
            old(self).has_room(),
        ensures
            r@ == gpu_finding(present, free_mb),
            old(self).counted(
                if present {
                    Verdict::Fine
                } else {
                    Verdict::Neither
                },
                *final(self),
            ),
    {
        let mut out = write_lead("[2/7]", "NVIDIA GPU      ");
        let word: String = if present {
            self.count(Verdict::Fine);
            match free_mb {
                Some(n) => {
                    let digits = number::to_decimal(n);
                    let remark = digits.concat(
                        " MiB free — models will GPU-offload as many layers as fit",
                    );
                    with_remark(style::ok("OK"), remark.as_str())
                },
                None => with_remark(style::ok("OK"), "GPU offload enabled"),
            }
        } else {
            style::dim("absent (will run on CPU via llama.cpp)")
        };
        out.append(word.as_str());
        out
    }

    /// Looks at Python, given its version where it runs.
    pub fn python(&mut self, command: &str, version: Option<&str>) -> (r: String)
        requires
            old(self).has_room(),
        ensures
            r@ == python_finding(command@, text::text_of(version)),
            old(self).counted(
                if version is Some {
                    Verdict::Fine
                } else {
                    Verdict::Warning
                },
                *final(self),
            ),
    {
        let padded = table::pad_right(command, 7);
        let mut about = String::from_str("python (").concat(padded.as_str());
        about.append(")");
        let mut out = write_lead("[3/7]", about.as_str());
        match version {
            Some(v) => {
                self.count(Verdict::Fine);
                let chars = text::chars_of(v);
                let shown = text::string_of(text::trim(chars.as_slice()));
                let word = with_remark(style::ok("OK"), shown.as_str());
                out.append(word.as_str());
            },
            None => {
                self.count(Verdict::Warning);
                let mut word = style::err("MISSING");
                word.append(" — required for sglang backend");
                out.append(word.as_str());
            },
        }
        out
    }

    /// Looks at sglang, given its version where it is installed. Without Python it
    /// is not looked at.
    pub fn sglang(&mut self, has_python: bool, version: Option<&str>) -> (r: String)
        requires
            old(self).has_room(),
        ensures
            r@ == sglang_finding(has_python, text::text_of(version)),
            old(self).counted(
                if !has_python {
                    Verdict::Neither
                } else if version is Some {
                    Verdict::Fine
                } else {
                    Verdict::Warning
                },
                *final(self),
            ),
    {
        let mut out = write_lead("[4/7]", "sglang          ");
        let word: String = if !has_python {
            style::dim("skipped (no Python)")
        } else {
            match version {
                Some(v) => {
                    self.count(Verdict::Fine);
                    let chars = text::chars_of(v);
                    let shown = text::string_of(text::trim(chars.as_slice()));
                    with_remark(style::ok("OK"), shown.as_str())
                },
                None => {
                    self.count(Verdict::Warning);
                    let mut w = style::dim("missing");
                    w.append(" — install with: pip install sglang");
                    w
                },
            }
        };
        out.append(word.as_str());
        out
    }

    /// Looks at the engine, given where it is configured and whether it is built.
    pub fn engine(&mut self, dir: Option<&str>, built: bool) -> (r: String)
        requires
            old(self).has_room(),
        ensures
            r@ == engine_finding(text::text_of(dir), built),
            old(self).counted(
                if dir is Some && built {
                    Verdict::Fine
                } else {
                    Verdict::Warning
                },
                *final(self),
            ),
    {
        let mut out = write_lead("[5/7]", "llama.cpp       ");
        let word: String = match dir {
            Some(d) => {
                let shown = text::path_debug(d);
                if built {
                    self.count(Verdict::Fine);
                    with_remark(style::ok("OK"), shown.as_str())
                } else {
                    self.count(Verdict::Warning);
                    let mut w = style::warn("WARN");
                    w.append(" build/bin/ missing at ");
                    w.append(shown.as_str());
                    w
                }
            },
            None => {
                self.count(Verdict::Warning);
                let mut w = style::warn("absent");
                w.append(" — runs automatically on first use, or run: localllm setup");
                w
            },
        };
        let ghost before = out@;
        let ghost wv = word@;
        out.append(word.as_str());
        assert(out@ =~= before + wv);
        out
    }

    /// Looks at the access token. That there is none is no fault.
    pub fn token(&mut self, set: bool) -> (r: String)
        requires
            old(self).has_room(),
        ensures
            r@ == token_finding(set),
            old(self).counted(
                if set {
                    Verdict::Fine
                } else {
                    Verdict::Neither
                },
                *final(self),
            ),
    {
        let mut out = write_lead("[6/7]", "HF_TOKEN        ");
        let word: String = if set {
            self.count(Verdict::Fine);
            with_remark(style::ok("set"), "private models accessible")
        } else {
            style::dim("not set (public models only)")
        };
        out.append(word.as_str());
        out
    }

    /// Looks at the models' directory, given whether it is there or can be made.
    pub fn models_dir(&mut self, dir: &str, usable: bool) -> (r: String)
        requires
            old(self).has_room(),
        ensures
            r@ == models_finding(dir@, usable),
            old(self).counted(
                if usable {
                    Verdict::Fine
                } else {
                    Verdict::Warning
                },
                *final(self),
            ),
    {
        let shown = text::path_debug(dir);
        let mut out = write_lead("[7/7]", "Models dir      ");
        let word: String = if usable {
            self.count(Verdict::Fine);
            with_remark(style::ok("OK"), shown.as_str())
        } else {
            self.count(Verdict::Warning);
            let mut w = style::err("WARN");
            w.append(" — can't create ");
            w.append(shown.as_str());
            w
        };
        out.append(word.as_str());
        out
    }

    /// Tells what the findings come to.
    pub fn summary(&self) -> (r: String)
        ensures
            r@ == summary_text(self.fine(), self.warnings()),
    {
        let ok = number::to_decimal(self.ok as u64);
        let warn = number::to_decimal(self.warn as u64);
        let mut counts = String::from_str("\nSummary: ").concat(ok.as_str());
        counts.append(" OK, ");
        counts.append(warn.as_str());
        counts.append(" warning(s)");
        if self.warn == 0 {
            let mut r = style::ok(counts.as_str());
            let all_well = style::ok("Everything looks good.");
            r.append("\n");
            r.append(all_well.as_str());
            r
        } else {
            let mut r = style::warn(counts.as_str());
            let advice = style::dim("Review warnings above. Fix each line marked WARN/MISSING.");
            r.append("\n");
            r.append(advice.as_str());
            r
        }
    }
}

// ------------------------------------------------------------------ free memory

/// The numbers among lines, added up.
pub open spec fn numbers_sum(lines: Seq<Seq<char>>) -> nat
    decreases lines.len(),
{
    if lines.len() == 0 {
        0
    } else {
        numbers_sum(lines.drop_last()) + match number::unsigned_of(
            text::trimmed(lines.last()),
            u64::MAX as nat,
        ) {
            Some(n) => n,
            None => 0,
        }
    }
}

proof fn lemma_sum_grows(lines: Seq<Seq<char>>, i: int)
    requires
        0 <= i <= lines.len(),
    ensures
        numbers_sum(lines.take(i)) <= numbers_sum(lines),
    decreases lines.len() - i,
{
    if i < lines.len() {
        assert(lines.take(i + 1).drop_last() =~= lines.take(i));
        lemma_sum_grows(lines, i + 1);
    } else {
        assert(lines.take(i) =~= lines);
    }
}

/// The free memory of all GPUs, from a report with a number on each line; none where
/// it is zero or beyond 64 bits.
pub fn free_memory(report: &str) -> (r: Option<u64>)
    ensures
        ({
            let sum = numbers_sum(text::lines_of(report@));
            match r {
                Some(n) => n == sum && n > 0,
                None => sum == 0 || sum > u64::MAX,
            }
        }),
{
    let chars = text::chars_of(report);
    let lines = text::split_lines(chars.as_slice());
    let ghost all = text::texts(lines@);
    let mut total: u64 = 0;
    let mut i: usize = 0;
    assert(all.take(0) =~= Seq::<Seq<char>>::empty());
    while i < lines.len()
        invariant
            i <= lines@.len(),
            all == text::texts(lines@),
            all == text::lines_of(report@),
            total == numbers_sum(all.take(i as int)),
        decreases lines@.len() - i,
    {
        assert(all.take(i + 1).drop_last() =~= all.take(i as int));
        assert(all[i as int] == lines@[i as int]@);
        if let Some(n) = number::parse_unsigned(text::trim(lines[i].as_slice()), u64::MAX) {
            match total.checked_add(n) {
                Some(t) => {
                    total = t;
                },
                None => {
                    proof {
                        lemma_sum_grows(all, i + 1);
                    }
                    return None;
                },
            }
        }
        i = i + 1;
    }
    assert(all.take(i as int) =~= all);
    if total > 0 {
        Some(total)
    } else {
        None
    }
}

// ------------------------------------------------------------------------ laws

/// All is well exactly where nothing was found wanting.
pub proof fn law_no_warning_means_all_well(before: Doctor, v: Verdict, after: Doctor)
    requires
        before.counted(v, after),
    ensures
        after.warnings() == 0 ==> before.warnings() == 0 && v != Verdict::Warning,
        after.fine() >= before.fine(),
        after.warnings() >= before.warnings(),
{
}

} // verus!
