//! Downloads as the command line shows them: sizes, the bar, and the frames that
//! the daemon sends.
use crate::api::json;
use crate::api::json::{nullable_json, put, str_json, Json, JsonView};
use crate::cli::style;
use crate::cli::table;
use crate::cli::table::{append_line, append_optional, number_or_zero, text_or};
use crate::number;
use crate::text;
use vstd::prelude::*;
use vstd::string::StringExecFns;

verus! {

broadcast use {vstd::string::group_string_axioms, crate::api::json::lemma_json_view};

// ----------------------------------------------------------------------- sizes

/// A quotient to the nearest whole number; of two that are as near, the even one.
pub open spec fn nearest(n: nat, d: nat) -> nat {
    let q = n / d;
    let r = n % d;
    if 2 * r < d || (2 * r == d && q % 2 == 0) {
        q
    } else {
        q + 1
    }
}

/// A number of bytes in a unit, with one decimal.
pub open spec fn in_unit(n: nat, unit: nat, name: Seq<char>) -> Seq<char> {
    let tenths = nearest(10 * n, unit);
    number::decimal(tenths / 10) + "."@ + number::decimal(tenths % 10) + name
}

/// A number of bytes for a person to read.
pub open spec fn bytes_text(n: u64) -> Seq<char> {
    if n >= 0x4000_0000 {
        in_unit(n as nat, 0x4000_0000, " GB"@)
    } else if n >= 0x10_0000 {
        in_unit(n as nat, 0x10_0000, " MB"@)
    } else if n >= 0x400 {
        in_unit(n as nat, 0x400, " KB"@)
    } else {
        number::decimal(n as nat) + " B"@
    }
}

fn write_in_unit(n: u64, unit: u64, name: &str) -> (r: String)
    requires
        unit >= 0x400,
    ensures
        r@ == in_unit(n as nat, unit as nat, name@),
{
    let ten: u128 = 10 * (n as u128);
    let q: u128 = ten / (unit as u128);
    let rest: u128 = ten % (unit as u128);
    assert(q <= ten / 0x400) by (nonlinear_arith)
        requires
            q == ten / (unit as u128),
            unit >= 0x400,
    ;
    let tenths: u128 = if 2 * rest < unit as u128 || (2 * rest == unit as u128 && q % 2 == 0) {
        q
    } else {
        q + 1
    };
    assert(tenths == nearest(10 * (n as nat), unit as nat));
    let whole: u64 = (tenths / 10) as u64;
    let part: u64 = (tenths % 10) as u64;
    let a = number::to_decimal(whole);
    let b = number::to_decimal(part);
    let mut out = a;
    out.append(".");
    out.append(b.as_str());
    out.append(name);
    out
}

/// Writes a number of bytes for a person to read: in bytes, or in the largest unit
/// that it fills, with one decimal.
pub fn fmt_bytes(n: u64) -> (r: String)
    ensures
        r@ == bytes_text(n),
{
    if n >= 0x4000_0000 {
        write_in_unit(n, 0x4000_0000, " GB")
    } else if n >= 0x10_0000 {
        write_in_unit(n, 0x10_0000, " MB")
    } else if n >= 0x400 {
        write_in_unit(n, 0x400, " KB")
    } else {
        let digits = number::to_decimal(n);
        digits.concat(" B")
    }
}

/// What is shown is off by at most a twentieth of the unit.
pub proof fn law_shown_size_is_close(n: nat, unit: nat)
    requires
        unit > 0,
    ensures
        2 * nearest(10 * n, unit) * unit <= 2 * (10 * n) + unit,
        2 * (10 * n) <= 2 * nearest(10 * n, unit) * unit + unit,
{
    let m = 10 * n;
    let q = m / unit;
    let r = m % unit;
    vstd::arithmetic::div_mod::lemma_fundamental_div_mod(m as int, unit as int);
    assert(m == unit * q + r);
    assert(2 * q * unit == 2 * (unit * q)) by (nonlinear_arith);
    assert(2 * (q + 1) * unit == 2 * (unit * q) + 2 * unit) by (nonlinear_arith);
}

// ------------------------------------------------------------------------- bar

/// How many cells the bar has.
pub const BAR_WIDTH: usize = 28;

/// The bar with so many cells filled.
pub open spec fn bar_cells(filled: nat) -> Seq<char> {
    Seq::new(
        BAR_WIDTH as nat,
        |i: int|
            if i < filled {
                '='
            } else if i == filled {
                '>'
            } else {
                ' '
            },
    )
}

/// A number in at least three columns, to the right.
pub open spec fn three_columns(n: nat) -> Seq<char> {
    style::spaces(style::padding(number::decimal(n).len(), 3)) + number::decimal(n)
}

/// The bar of a download with so many cells filled and so much of a hundred done.
/// Where the total is not known there is no bar, just what is there and the speed.
pub open spec fn progress_text(
    filled: nat,
    percent: nat,
    downloaded: u64,
    total: u64,
    speed: u64,
) -> Seq<char> {
    if total == 0 {
        bytes_text(downloaded) + "  "@ + bytes_text(speed) + "/s"@
    } else {
        "["@ + bar_cells(filled) + "] "@ + three_columns(percent) + "%  "@ + bytes_text(downloaded)
            + " / "@ + bytes_text(total) + "  "@ + bytes_text(speed) + "/s"@
    }
}

fn draw_bar(filled: usize) -> (r: String)
    ensures
        r@ == bar_cells(filled as nat),
{
    let mut out = String::new();
    let mut i: usize = 0;
    while i < BAR_WIDTH
        invariant
            i <= BAR_WIDTH,
            out@ == bar_cells(filled as nat).take(i as int),
        decreases BAR_WIDTH - i,
    {
        if i < filled {
            out.push('=');
        } else if i == filled {
            out.push('>');
        } else {
            out.push(' ');
        }
        i = i + 1;
        assert(bar_cells(filled as nat).take(i as int) =~= bar_cells(filled as nat).take(
            i - 1,
        ).push(bar_cells(filled as nat)[i - 1]));
    }
    assert(bar_cells(filled as nat).take(i as int) =~= bar_cells(filled as nat));
    out
}

/// Draws the bar of a download, given how many cells are filled, how much of a
/// hundred is done, and the speed in bytes per second.
pub fn render_progress_bar(
    filled: usize,
    percent: u64,
    downloaded: u64,
    total: u64,
    speed: u64,
) -> (r: String)
    ensures
        r@ == progress_text(filled as nat, percent as nat, downloaded, total, speed),
{
    let there = fmt_bytes(downloaded);
    let rate = fmt_bytes(speed);
    if total == 0 {
        let mut out = there;
        out.append("  ");
        out.append(rate.as_str());
        out.append("/s");
        return out;
    }
    let all = fmt_bytes(total);
    let bar = draw_bar(filled);
    let digits = number::to_decimal(percent);
    let count = text::chars_of(digits.as_str());
    let lead = style::pad_colored("", count.len(), 3);
    proof {
        reveal_strlit("");
        assert(""@ =~= Seq::<char>::empty());
        assert(lead@ =~= style::spaces(style::padding(digits@.len(), 3)));
    }
    let mut out = String::from_str("[").concat(bar.as_str());
    out.append("] ");
    out.append(lead.as_str());
    out.append(digits.as_str());
    out.append("%  ");
    out.append(there.as_str());
    out.append(" / ");
    out.append(all.as_str());
    out.append("  ");
    out.append(rate.as_str());
    out.append("/s");
    assert(out@ =~= progress_text(filled as nat, percent as nat, downloaded, total, speed));
    out
}

// ---------------------------------------------------------------------- frames

/// What the screen shows of a download.
#[derive(Debug)]
pub struct PullScreen {
    last_status: String,
    bar_active: bool,
    total_announced: bool,
}

/// What the screen shows of a download, as text.
#[verifier::ext_equal]
pub struct ScreenView {
    pub last_status: Seq<char>,
    pub bar_active: bool,
    pub total_announced: bool,
}

impl View for PullScreen {
    type V = ScreenView;

    closed spec fn view(&self) -> ScreenView {
        ScreenView {
            last_status: self.last_status@,
            bar_active: self.bar_active,
            total_announced: self.total_announced,
        }
    }
}

/// A line end where a bar stands on the line.
pub open spec fn off_the_bar(st: ScreenView) -> Seq<char> {
    if st.bar_active {
        "\n"@
    } else {
        Seq::empty()
    }
}

/// The phase that a frame tells.
pub open spec fn frame_status(frame: JsonView) -> Seq<char> {
    table::text_in(frame, "status"@, Seq::empty())
}

/// The screen after a frame.
pub open spec fn screen_after(st: ScreenView, frame: JsonView) -> ScreenView {
    let status = frame_status(frame);
    if status == "error"@ || status == "success"@ {
        st
    } else if status == "download"@ {
        ScreenView {
            bar_active: true,
            total_announced: st.total_announced || table::number_in(frame, "total"@) > 0,
            ..st
        }
    } else if status != st.last_status {
        ScreenView { last_status: status, bar_active: false, ..st }
    } else {
        st
    }
}

/// What is printed for a download that is done. `params` is the parameter count as
/// text.
pub open spec fn done_text(frame: JsonView, params: Seq<char>) -> Seq<char> {
    "\nModel pulled successfully:\n"@ + table::report_line(
        "  alias:        "@,
        table::text_in(frame, "alias"@, "-"@),
    ) + table::report_line(
        "  architecture: "@,
        table::text_in(frame, "architecture"@, "-"@),
    ) + table::report_line("  parameters:   "@, params) + table::report_line(
        "  context:      "@,
        number::decimal(table::number_in(frame, "context_length"@)),
    ) + table::optional_line("  quantization: "@, frame, "quantization"@)
}

/// What is printed for a frame. `bar` is the bar for the frame's count of bytes.
pub open spec fn printed(
    st: ScreenView,
    frame: JsonView,
    bar: Seq<char>,
    params: Seq<char>,
) -> Seq<char> {
    let status = frame_status(frame);
    let total = table::number_in(frame, "total"@);
    if status == "error"@ {
        off_the_bar(st)
    } else if status == "download"@ {
        (if !st.total_announced && total > 0 {
            "  Total download: "@ + bytes_text(total as u64) + "\n"@
        } else {
            Seq::empty()
        }) + "\r\x1b[K  "@ + bar
    } else if status == "success"@ {
        off_the_bar(st) + done_text(frame, params)
    } else if status != st.last_status {
        off_the_bar(st) + "  "@ + status + "...\n"@
    } else {
        Seq::empty()
    }
}

/// Why a download failed, where a frame says so.
pub open spec fn failure_in(frame: JsonView) -> Option<Seq<char>> {
    if frame_status(frame) == "error"@ {
        Some("Pull failed: "@ + table::text_in(frame, "error"@, "unknown error"@))
    } else {
        None
    }
}

/// What a frame leads to: what to print, and why the download failed if it did.
#[derive(Debug)]
pub struct Shown {
    pub text: String,
    pub failure: Option<String>,
}

impl PullScreen {
    /// A screen that shows nothing.
    pub fn new() -> (r: Self)
        ensures
            r@.last_status == Seq::<char>::empty(),
            !r@.bar_active,
            !r@.total_announced,
    {
        PullScreen { last_status: String::new(), bar_active: false, total_announced: false }
    }

    fn leave_bar(&self) -> (r: String)
        ensures
            r@ == off_the_bar(self@),
    {
        if self.bar_active {
            String::from_str("\n")
        } else {
            String::new()
        }
    }

    fn show_success(&self, frame: &Json, params: &str) -> (r: String)
        ensures
            r@ == off_the_bar(self@) + done_text(frame@, params@),
    {
        let context = number_or_zero(frame, "context_length");
        let mut out = self.leave_bar();
        out.append("\nModel pulled successfully:\n");
        append_line(&mut out, "  alias:        ", text_or(frame, "alias", "-"));
        append_line(&mut out, "  architecture: ", text_or(frame, "architecture", "-"));
        append_line(&mut out, "  parameters:   ", params);
        append_line(&mut out, "  context:      ", context.as_str());
        append_optional(&mut out, "  quantization: ", frame, "quantization");
        assert(out@ =~= off_the_bar(self@) + done_text(frame@, params@));
        out
    }

    fn show_download(&mut self, frame: &Json, bar: &str, params: &str) -> (r: String)
        requires
            frame_status(frame@) == "download"@,
        ensures
            final(self)@ == screen_after(old(self)@, frame@),
            r@ == printed(old(self)@, frame@, bar@, params@),
    {
        proof {
            reveal_strlit("error");
            reveal_strlit("download");
            reveal_strlit("success");
            assert("error"@.len() == 5 && "download"@.len() == 8 && "success"@.len() == 7);
        }
        let ghost before = self@;
        let total: u64 = match frame.get_u64("total") {
            Some(n) => n,
            None => 0,
        };
        let mut out = String::new();
        if total > 0 {
            if !self.total_announced {
                let size = fmt_bytes(total);
                out.append("  Total download: ");
                out.append(size.as_str());
                out.append("\n");
            }
            self.total_announced = true;
        }
        out.append("\r\x1b[K  ");
        out.append(bar);
        self.bar_active = true;
        assert(out@ =~= printed(before, frame@, bar@, params@));
        assert(self@ =~= screen_after(before, frame@));
        out
    }

    /// Takes in a frame, given the bar for its count of bytes and the parameter
    /// count as text, and tells what to print.
    pub fn show(&mut self, frame: &Json, bar: &str, params: &str) -> (r: Shown)
        ensures
            final(self)@ == screen_after(old(self)@, frame@),
            r.text@ == printed(old(self)@, frame@, bar@, params@),
            crate::registry::modelfile::text_option(r.failure) == failure_in(frame@),
    {
        proof {
            reveal_strlit("");
            assert(""@ =~= Seq::<char>::empty());
            reveal_strlit("error");
            reveal_strlit("download");
            reveal_strlit("success");
            assert("error"@.len() == 5 && "download"@.len() == 8 && "success"@.len() == 7);
        }
        let ghost before = self@;
        let status: &str = text_or(frame, "status", "");
        if text::same_text(status, "error") {
            let message = String::from_str("Pull failed: ").concat(
                text_or(frame, "error", "unknown error"),
            );
            Shown { text: self.leave_bar(), failure: Some(message) }
        } else if text::same_text(status, "download") {
            let text = self.show_download(frame, bar, params);
            Shown { text, failure: None }
        } else if text::same_text(status, "success") {
            Shown { text: self.show_success(frame, params), failure: None }
        } else if !text::same_text(status, self.last_status.as_str()) {
            let mut out = self.leave_bar();
            out.append("  ");
            out.append(status);
            out.append("...\n");
            self.bar_active = false;
            self.last_status = String::from_str(status);
            assert(self@ =~= screen_after(before, frame@));
            Shown { text: out, failure: None }
        } else {
            Shown { text: String::new(), failure: None }
        }
    }
}

/// A phase is printed once, however often it is told in a row.
pub proof fn law_phase_is_printed_once(
    st: ScreenView,
    frame: JsonView,
    bar: Seq<char>,
    params: Seq<char>,
)
    requires
        frame_status(frame) != "error"@,
        frame_status(frame) != "download"@,
        frame_status(frame) != "success"@,
    ensures
        printed(screen_after(st, frame), frame, bar, params) == Seq::<char>::empty(),
{
}

// --------------------------------------------------------------------- request

/// The request for a download.
pub open spec fn pull_request(
    repo_id: Seq<char>,
    revision: Option<Seq<char>>,
    quantize: Option<Seq<char>>,
    hf_token: Option<Seq<char>>,
) -> JsonView {
    JsonView::Object(
        seq![
            ("repo_id"@, JsonView::Str(repo_id)),
            ("revision"@, json::nullable_view(revision)),
            ("quantize"@, json::nullable_view(quantize)),
            ("stream"@, JsonView::Bool(true)),
            ("hf_token"@, json::nullable_view(hf_token)),
        ],
    )
}

/// Builds the request for a download that is followed frame by frame.
pub fn build_pull_request(
    repo_id: &str,
    revision: Option<&str>,
    quantize: Option<&str>,
    hf_token: Option<&str>,
) -> (r: Json)
    ensures
        r@ == pull_request(repo_id@, text::text_of(revision), text::text_of(quantize), text::text_of(hf_token)),
{
    let mut members: Vec<(String, Json)> = Vec::new();
    put(&mut members, "repo_id", str_json(repo_id));
    put(&mut members, "revision", nullable_json(revision));
    put(&mut members, "quantize", nullable_json(quantize));
    put(&mut members, "stream", Json::Bool(true));
    put(&mut members, "hf_token", nullable_json(hf_token));
    assert(json::member_views(members@) =~= pull_request(
        repo_id@,
        text::text_of(revision),
        text::text_of(quantize),
        text::text_of(hf_token),
    )->Object_0);
    Json::Object(members)
}

} // verus!
