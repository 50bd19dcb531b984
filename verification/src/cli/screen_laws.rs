//! Laws of what the command line prints of downloads, models and processes.
use crate::api::json;
use crate::api::json::JsonView;
use crate::api::service_laws;
use crate::cli::progress;
use crate::cli::progress::ScreenView;
use crate::cli::style;
use crate::cli::table;
use crate::number;
use crate::text;
use vstd::prelude::*;

verus! {

// -------------------------------------------------------------------------- sizes

/// A number of bytes that fills no unit is written out.
pub proof fn law_small_sizes_are_written_out(n: u64)
    requires
        n < 1024,
    ensures
        progress::bytes_text(n) == number::decimal(n as nat) + " B"@,
{
}

proof fn lemma_whole_units(k: nat, unit: nat)
    requires
        unit > 0,
    ensures
        progress::nearest(10 * (k * unit), unit) == 10 * k,
{
    let n = 10 * (k * unit);
    assert(n == (10 * k) * unit) by (nonlinear_arith)
        requires
            n == 10 * (k * unit),
    ;
    vstd::arithmetic::div_mod::lemma_div_multiples_vanish((10 * k) as int, unit as int);
    vstd::arithmetic::div_mod::lemma_mod_multiples_basic((10 * k) as int, unit as int);
    assert((10 * k) * unit == unit * (10 * k)) by (nonlinear_arith);
}

/// A whole number of kilobytes, megabytes or gigabytes is shown as that number.
pub proof fn law_whole_sizes_are_exact(k: u64)
    requires
        1 <= k < 0x4_0000_0000,
    ensures
        k < 1024 ==> progress::bytes_text((k * 1024) as u64) == number::decimal(k as nat)
            + ".0 KB"@,
        k < 1024 ==> progress::bytes_text((k * 1024 * 1024) as u64) == number::decimal(k as nat)
            + ".0 MB"@,
        progress::bytes_text((k * 1024 * 1024 * 1024) as u64) == number::decimal(k as nat)
            + ".0 GB"@,
{
    lemma_whole_units(k as nat, 0x400);
    lemma_whole_units(k as nat, 0x10_0000);
    lemma_whole_units(k as nat, 0x4000_0000);
    let d = number::decimal(k as nat);
    assert((10 * k as nat) / 10 == k as nat && (10 * k as nat) % 10 == 0);
    number::lemma_decimal_digits(0);
    assert(number::decimal(0) =~= "0"@) by {
        reveal_strlit("0");
        reveal_with_fuel(number::decimal, 2);
    }
    reveal_strlit("0");
    reveal_strlit(".");
    reveal_strlit(" KB");
    reveal_strlit(" MB");
    reveal_strlit(" GB");
    reveal_strlit(".0 KB");
    reveal_strlit(".0 MB");
    reveal_strlit(".0 GB");
    assert(d + "."@ + "0"@ + " KB"@ =~= d + ".0 KB"@);
    assert(d + "."@ + "0"@ + " MB"@ =~= d + ".0 MB"@);
    assert(d + "."@ + "0"@ + " GB"@ =~= d + ".0 GB"@);
    assert(k as nat * 0x400 == k * 1024);
    assert(k as nat * 0x10_0000 == k * 1024 * 1024);
    assert(k as nat * 0x4000_0000 == k * 1024 * 1024 * 1024);
}

/// A text tells a number of bytes in a unit to within a twentieth of it, with one
/// decimal.
pub open spec fn tells(s: Seq<char>, n: int, unit: int, name: Seq<char>, tenths: nat) -> bool {
    &&& s == number::decimal(tenths / 10) + "."@ + number::decimal(tenths % 10) + name
    &&& 20 * n - unit <= 2 * tenths * unit <= 20 * n + unit
}

/// A larger number of bytes is told in the largest unit that it fills.
pub proof fn law_sizes_are_told_in_the_largest_unit(n: u64)
    ensures
        n >= 0x4000_0000 ==> exists|t: nat|
            tells(progress::bytes_text(n), n as int, 0x4000_0000, " GB"@, t),
        0x10_0000 <= n < 0x4000_0000 ==> exists|t: nat|
            tells(progress::bytes_text(n), n as int, 0x10_0000, " MB"@, t),
        0x400 <= n < 0x10_0000 ==> exists|t: nat|
            tells(progress::bytes_text(n), n as int, 0x400, " KB"@, t),
{
    progress::law_shown_size_is_close(n as nat, 0x4000_0000);
    progress::law_shown_size_is_close(n as nat, 0x10_0000);
    progress::law_shown_size_is_close(n as nat, 0x400);
    let g = progress::nearest(10 * n as nat, 0x4000_0000);
    let m = progress::nearest(10 * n as nat, 0x10_0000);
    let k = progress::nearest(10 * n as nat, 0x400);
    let s = progress::bytes_text(n);
    if n >= 0x4000_0000 {
        assert(tells(s, n as int, 0x4000_0000, " GB"@, g));
    } else if n >= 0x10_0000 {
        assert(tells(s, n as int, 0x10_0000, " MB"@, m));
    } else if n >= 0x400 {
        assert(tells(s, n as int, 0x400, " KB"@, k));
    }
}

// ---------------------------------------------------------------------------- bar

/// The bar fills from the left, with an arrow at the head of what is filled: one cell
/// more makes the arrow's cell a filled one and moves the arrow on.
pub proof fn law_bar_fills_from_the_left(filled: nat)
    requires
        filled < 28,
    ensures
        progress::bar_cells(filled).len() == 28,
        progress::bar_cells(filled)[filled as int] == '>',
        forall|i: int| 0 <= i < filled ==> #[trigger] progress::bar_cells(filled)[i] == '=',
        forall|i: int| filled < i < 28 ==> #[trigger] progress::bar_cells(filled)[i] == ' ',
        forall|i: int| 0 <= i < 28 ==> #[trigger] progress::bar_cells(28)[i] == '=',
        progress::bar_cells(28).len() == 28,
{
}

/// `s` ends with `t`.
pub open spec fn ends_with(s: Seq<char>, t: Seq<char>) -> bool {
    exists|front: Seq<char>| s == #[trigger] (front + t)
}

/// The line of a download ends with what is there, what there will be and the speed,
/// each for a person to read; before that stand the bar and how much of a hundred is
/// done.
pub proof fn law_bar_tells_sizes_and_speed(
    filled: nat,
    percent: nat,
    downloaded: u64,
    total: u64,
    speed: u64,
)
    requires
        total > 0,
    ensures
        ends_with(
            progress::progress_text(filled, percent, downloaded, total, speed),
            number::decimal(percent) + "%  "@ + progress::bytes_text(downloaded) + " / "@
                + progress::bytes_text(total) + "  "@ + progress::bytes_text(speed) + "/s"@,
        ),
        (seq!['['] + progress::bar_cells(filled) + seq![']']).is_prefix_of(
            progress::progress_text(filled, percent, downloaded, total, speed),
        ),
        progress::progress_text(filled, percent, downloaded, 0, speed) == progress::bytes_text(
            downloaded,
        ) + "  "@ + progress::bytes_text(speed) + "/s"@,
{
    let p = number::decimal(percent);
    let front = "["@ + progress::bar_cells(filled) + "] "@ + style::spaces(
        style::padding(p.len(), 3),
    );
    let t = p + "%  "@ + progress::bytes_text(downloaded) + " / "@ + progress::bytes_text(total)
        + "  "@ + progress::bytes_text(speed) + "/s"@;
    let s = progress::progress_text(filled, percent, downloaded, total, speed);
    assert(s =~= front + t);
    reveal_strlit("[");
    reveal_strlit("] ");
    let lead = seq!['['] + progress::bar_cells(filled) + seq![']'];
    assert(s.take(lead.len() as int) =~= lead);
}

// ------------------------------------------------------------------------- frames

/// A frame of a phase.
pub open spec fn tells_status(frame: JsonView, status: Seq<char>) -> bool {
    json::member(frame, "status"@) == Some(JsonView::Str(status))
}

proof fn lemma_words_differ()
    ensures
        "error"@ != "download"@,
        "error"@ != "success"@,
        "download"@ != "success"@,
{
    reveal_strlit("error");
    reveal_strlit("download");
    reveal_strlit("success");
    assert("error"@[0] != "download"@[0]);
    assert("error"@[0] != "success"@[0]);
    assert("download"@[0] != "success"@[0]);
}

/// The whole size of a download is announced with its first count, and not again; each
/// count draws the bar anew over the old one.
pub proof fn law_total_is_announced_once(
    st: ScreenView,
    first: JsonView,
    next: JsonView,
    total: u64,
    bar: Seq<char>,
    params: Seq<char>,
)
    requires
        !st.total_announced,
        tells_status(first, "download"@),
        tells_status(next, "download"@),
        json::unsigned_in(json::member(first, "total"@)) == Some(total),
        total > 0,
    ensures
        progress::printed(st, first, bar, params) == "  Total download: "@ + progress::bytes_text(
            total,
        ) + "\n"@ + "\r\x1b[K  "@ + bar,
        progress::printed(progress::screen_after(st, first), next, bar, params)
            == "\r\x1b[K  "@ + bar,
        progress::screen_after(st, first).bar_active,
        progress::screen_after(st, first).last_status == st.last_status,
{
    lemma_words_differ();
    let none = Seq::<char>::empty();
    assert(none + "\r\x1b[K  "@ + bar =~= "\r\x1b[K  "@ + bar);
}

/// A phase that is not the last one told is printed on a line of its own, below the bar
/// where one stands there, and is the last one told from then on.
pub proof fn law_new_phase_is_printed(
    st: ScreenView,
    frame: JsonView,
    phase: Seq<char>,
    bar: Seq<char>,
    params: Seq<char>,
)
    requires
        tells_status(frame, phase),
        phase != "error"@,
        phase != "download"@,
        phase != "success"@,
        phase != st.last_status,
    ensures
        st.bar_active ==> progress::printed(st, frame, bar, params) == "\n  "@ + phase + "...\n"@,
        !st.bar_active ==> progress::printed(st, frame, bar, params) == "  "@ + phase + "...\n"@,
        progress::screen_after(st, frame) == (ScreenView {
            last_status: phase,
            bar_active: false,
            total_announced: st.total_announced,
        }),
{
    reveal_strlit("\n");
    reveal_strlit("  ");
    reveal_strlit("\n  ");
    let none = Seq::<char>::empty();
    assert("\n"@ + "  "@ + phase + "...\n"@ =~= "\n  "@ + phase + "...\n"@);
    assert(none + "  "@ + phase + "...\n"@ =~= "  "@ + phase + "...\n"@);
}

/// Only a frame that tells an error ends the download as failed, and with its reason.
pub proof fn law_failure_is_told_with_its_reason(
    frame: JsonView,
    status: Seq<char>,
    reason: Seq<char>,
)
    requires
        tells_status(frame, status),
    ensures
        status != "error"@ ==> progress::failure_in(frame) is None,
        status == "error"@ ==> progress::failure_in(frame) is Some,
        status == "error"@ && json::member(frame, "error"@) == Some(JsonView::Str(reason))
            ==> progress::failure_in(frame) == Some("Pull failed: "@ + reason),
{
}

proof fn lemma_in_the_middle(a: Seq<char>, t: Seq<char>, b: Seq<char>)
    ensures
        text::is_part(t, a + t + b),
{
    let s = a + t + b;
    assert(s.subrange(a.len() as int, a.len() as int + t.len()) =~= t);
    text::lemma_subrange_is_part(s, a.len() as int, a.len() as int + t.len());
}

/// A download that is done tells the model's alias, its architecture and its context
/// length.
pub proof fn law_done_download_tells_the_model(
    st: ScreenView,
    frame: JsonView,
    alias: Seq<char>,
    architecture: Seq<char>,
    context: u64,
    bar: Seq<char>,
    params: Seq<char>,
)
    requires
        tells_status(frame, "success"@),
        json::member(frame, "alias"@) == Some(JsonView::Str(alias)),
        json::member(frame, "architecture"@) == Some(JsonView::Str(architecture)),
        json::unsigned_in(json::member(frame, "context_length"@)) == Some(context),
    ensures
        progress::printed(st, frame, bar, params) == (if st.bar_active {
            "\n"@
        } else {
            Seq::<char>::empty()
        }) + "\nModel pulled successfully:\n"@ + ("  alias:        "@ + alias + "\n"@) + (
        "  architecture: "@ + architecture + "\n"@) + ("  parameters:   "@ + params + "\n"@) + (
        "  context:      "@ + number::decimal(context as nat) + "\n"@) + (match json::string_in(
            json::member(frame, "quantization"@),
        ) {
            Some(q) => "  quantization: "@ + q + "\n"@,
            None => Seq::<char>::empty(),
        }),
        progress::screen_after(st, frame) == st,
{
    lemma_words_differ();
    let lead = progress::off_the_bar(st);
    let a = "\nModel pulled successfully:\n"@;
    assert(progress::printed(st, frame, bar, params) =~= (if st.bar_active {
        "\n"@
    } else {
        Seq::<char>::empty()
    }) + a + ("  alias:        "@ + alias + "\n"@) + ("  architecture: "@ + architecture + "\n"@) + (
    "  parameters:   "@ + params + "\n"@) + ("  context:      "@ + number::decimal(context as nat)
        + "\n"@) + (match json::string_in(json::member(frame, "quantization"@)) {
        Some(q) => "  quantization: "@ + q + "\n"@,
        None => Seq::<char>::empty(),
    }));
}

/// A download is asked for with its repository, its revision, its level and its token,
/// each under its own name, and to be followed frame by frame.
pub proof fn law_download_is_asked_for_in_full(
    repo_id: Seq<char>,
    revision: Option<Seq<char>>,
    quantize: Option<Seq<char>>,
    hf_token: Option<Seq<char>>,
)
    ensures
        ({
            let v = progress::pull_request(repo_id, revision, quantize, hf_token);
            &&& json::string_in(json::member(v, "repo_id"@)) == Some(repo_id)
            &&& json::string_in(json::member(v, "revision"@)) == revision
            &&& json::string_in(json::member(v, "quantize"@)) == quantize
            &&& json::string_in(json::member(v, "hf_token"@)) == hf_token
            &&& json::bool_in(json::member(v, "stream"@)) == Some(true)
        }),
{
    reveal_strlit("repo_id");
    reveal_strlit("revision");
    reveal_strlit("quantize");
    reveal_strlit("stream");
    reveal_strlit("hf_token");
    assert("revision"@ != "repo_id"@) by { assert("revision"@.len() != "repo_id"@.len()); }
    assert("quantize"@ != "repo_id"@) by { assert("quantize"@.len() != "repo_id"@.len()); }
    assert("hf_token"@ != "repo_id"@) by { assert("hf_token"@.len() != "repo_id"@.len()); }
    assert("stream"@ != "repo_id"@) by { assert("stream"@.len() != "repo_id"@.len()); }
    assert("stream"@ != "revision"@) by { assert("stream"@.len() != "revision"@.len()); }
    assert("stream"@ != "quantize"@) by { assert("stream"@.len() != "quantize"@.len()); }
    assert("stream"@ != "hf_token"@) by { assert("stream"@.len() != "hf_token"@.len()); }
    assert("quantize"@[0] == 'q' && "revision"@[0] == 'r' && "hf_token"@[0] == 'h');
    let o = crate::api::request_laws::members_of(
        progress::pull_request(repo_id, revision, quantize, hf_token),
    );
    service_laws::lemma_lookup_at(o, 0, "repo_id"@);
    service_laws::lemma_lookup_at(o, 1, "revision"@);
    service_laws::lemma_lookup_at(o, 2, "quantize"@);
    service_laws::lemma_lookup_at(o, 3, "stream"@);
    service_laws::lemma_lookup_at(o, 4, "hf_token"@);
}

// ------------------------------------------------------------------------- tables

/// `t` stands in `s` from column `at` on.
pub open spec fn stands_at(s: Seq<char>, t: Seq<char>, at: int) -> bool {
    0 <= at && at + t.len() <= s.len() && s.subrange(at, at + t.len()) == t
}

/// In the list of models every column begins where its head does.
pub proof fn law_model_columns_stand_below_their_heads(
    alias: Seq<char>,
    repo_id: Seq<char>,
    params: Seq<char>,
    quant: Seq<char>,
    format: Seq<char>,
    status: Seq<char>,
)
    requires
        alias.len() <= 25,
        repo_id.len() <= 40,
        params.len() <= 8,
        quant.len() <= 10,
        format.len() <= 14,
    ensures
        ({
            let row = table::model_columns(alias, repo_id, params, quant, format, status);
            &&& row.len() == 102 + status.len()
            &&& stands_at(row, alias, 0)
            &&& stands_at(row, repo_id, 26)
            &&& stands_at(row, params, 67)
            &&& stands_at(row, quant, 76)
            &&& stands_at(row, format, 87)
            &&& stands_at(row, status, 102)
        }),
{
    reveal_strlit(" ");
    let row = table::model_columns(alias, repo_id, params, quant, format, status);
    table::law_cells_line_up(alias, 25);
    table::law_cells_line_up(repo_id, 40);
    table::law_cells_line_up(params, 8);
    table::law_cells_line_up(quant, 10);
    table::law_cells_line_up(format, 14);
    assert(row.subrange(0, alias.len() as int) =~= alias);
    assert(row.subrange(26, 26int + repo_id.len()) =~= repo_id);
    assert(row.subrange(67, 67int + params.len()) =~= params);
    assert(row.subrange(76, 76int + quant.len()) =~= quant);
    assert(row.subrange(87, 87int + format.len()) =~= format);
    assert(row.subrange(102, 102int + status.len()) =~= status);
}

/// In the list of processes every column begins where its head does, the codes of the
/// backend's color not counted.
pub proof fn law_process_columns_stand_below_their_heads(
    alias: Seq<char>,
    backend: Seq<char>,
    port: Seq<char>,
    started: Seq<char>,
    used: Seq<char>,
)
    requires
        alias.len() <= 25,
        backend.len() <= 10,
        port.len() <= 6,
        started.len() <= 35,
    ensures
        ({
            let row = table::process_columns(
                alias,
                table::backend_cell(backend),
                port,
                started,
                used,
            );
            let codes = table::colored_backend(backend).len() - backend.len();
            &&& stands_at(row, alias, 0)
            &&& stands_at(row, table::colored_backend(backend), 26)
            &&& stands_at(row, port, 37 + codes)
            &&& stands_at(row, started, 44 + codes)
            &&& stands_at(row, used, 80 + codes)
        }),
{
    reveal_strlit(" ");
    let c = table::colored_backend(backend);
    let row = table::process_columns(alias, table::backend_cell(backend), port, started, used);
    let codes = c.len() - backend.len();
    table::law_cells_line_up(alias, 25);
    table::law_cells_line_up(backend, 10);
    table::law_cells_line_up(port, 6);
    table::law_cells_line_up(started, 35);
    assert(row.subrange(0, alias.len() as int) =~= alias);
    assert(row.subrange(26, 26int + c.len()) =~= c);
    assert(row.subrange(37 + codes, 37 + codes + port.len()) =~= port);
    assert(row.subrange(44 + codes, 44 + codes + started.len()) =~= started);
    assert(row.subrange(80 + codes, 80 + codes + used.len()) =~= used);
}

/// What is running is green, what can run cyan and the rest dim; a color is always
/// reset, and changes no word.
pub proof fn law_colors_tell_the_state(s: Seq<char>)
    ensures
        s == "loaded"@ ==> table::colored_status(s) == "\x1b[32m"@ + s + "\x1b[0m"@,
        s == "ready"@ ==> table::colored_status(s) == "\x1b[36m"@ + s + "\x1b[0m"@,
        s != "loaded"@ && s != "ready"@ ==> table::colored_status(s) == "\x1b[2m"@ + s
            + "\x1b[0m"@,
        s == "sglang"@ ==> table::colored_backend(s) == "\x1b[36m"@ + s + "\x1b[0m"@,
        s == "llamacpp"@ ==> table::colored_backend(s) == "\x1b[32m"@ + s + "\x1b[0m"@,
        s != "sglang"@ && s != "llamacpp"@ ==> table::colored_backend(s) == s,
{
    reveal_strlit("loaded");
    reveal_strlit("ready");
    reveal_strlit("sglang");
    reveal_strlit("llamacpp");
    assert("loaded"@.len() != "ready"@.len());
    assert("sglang"@.len() != "llamacpp"@.len());
}

// ------------------------------------------------------------------------ reports

/// The lines of a log are printed in order, each text on a line of its own.
pub proof fn law_log_is_printed_line_by_line(a: Seq<JsonView>, b: Seq<JsonView>, s: Seq<char>)
    ensures
        table::text_lines(a + b) == table::text_lines(a) + table::text_lines(b),
        table::text_lines(seq![JsonView::Str(s)]) == s + "\n"@,
        table::text_lines(Seq::empty()) == Seq::<char>::empty(),
    decreases b.len(),
{
    let one = seq![JsonView::Str(s)];
    assert(one.drop_last() =~= Seq::<JsonView>::empty());
    assert(table::text_lines(one.drop_last()) =~= Seq::<char>::empty());
    assert(table::text_lines(one) =~= s + "\n"@);
    if b.len() == 0 {
        assert(a + b =~= a);
        assert(table::text_lines(a) + table::text_lines(b) =~= table::text_lines(a));
    } else {
        assert((a + b).drop_last() =~= a + b.drop_last());
        assert((a + b).last() == b.last());
        law_log_is_printed_line_by_line(a, b.drop_last(), s);
        assert(table::text_lines(a + b) =~= table::text_lines(a) + table::text_lines(b));
    }
}

/// The log that is printed is the list of lines that the daemon sends.
pub proof fn law_log_is_what_the_daemon_sends(v: JsonView, a: Seq<JsonView>)
    requires
        json::member(v, "lines"@) == Some(JsonView::Array(a)),
    ensures
        table::log_text(v) == table::text_lines(a),
{
}

/// The description of a model tells its name, and, where they are there, its template,
/// its parameters and its modelfile, each under its title.
pub proof fn law_description_tells_every_part(model: Seq<char>, v: JsonView, body: Seq<char>)
    requires
        body.len() > 0,
    ensures
        ("Model: "@ + model + "\n"@).is_prefix_of(table::description_text(model, v)),
        json::member(v, "template"@) == Some(JsonView::Str(body)) ==> text::is_part(
            "\nTemplate:\n"@ + body + "\n"@,
            table::description_text(model, v),
        ),
        json::member(v, "parameters"@) == Some(JsonView::Str(body)) ==> text::is_part(
            "\nParameters:\n"@ + body + "\n"@,
            table::description_text(model, v),
        ),
        json::member(v, "modelfile"@) == Some(JsonView::Str(body)) ==> text::is_part(
            "\nModelfile:\n"@ + body + "\n"@,
            table::description_text(model, v),
        ),
{
    let none = Seq::<char>::empty();
    let head = "Model: "@ + model + "\n"@;
    let front = head + "\nDetails:\n"@ + table::details_part(v) + table::info_part(v);
    let t = table::titled("Template"@, table::text_in(v, "template"@, none));
    let p = table::titled("Parameters"@, table::text_in(v, "parameters"@, none));
    let m = table::titled("Modelfile"@, table::text_in(v, "modelfile"@, none));
    let s = table::description_text(model, v);
    assert(s =~= front + t + (p + m));
    assert(s =~= front + t + p + m);
    assert(s =~= front + t + p + m + none);
    assert(s.take(head.len() as int) =~= head);
    lemma_in_the_middle(front, t, p + m);
    lemma_in_the_middle(front + t, p, m);
    lemma_in_the_middle(front + t + p, m, none);
    reveal_strlit("\n");
    reveal_strlit(":\n");
    reveal_strlit("Template");
    reveal_strlit("\nTemplate:\n");
    reveal_strlit("Parameters");
    reveal_strlit("\nParameters:\n");
    reveal_strlit("Modelfile");
    reveal_strlit("\nModelfile:\n");
    assert("\n"@ + "Template"@ + ":\n"@ =~= "\nTemplate:\n"@);
    assert("\n"@ + "Parameters"@ + ":\n"@ =~= "\nParameters:\n"@);
    assert("\n"@ + "Modelfile"@ + ":\n"@ =~= "\nModelfile:\n"@);
}

/// The details that are printed are those under their own names, in their order.
pub proof fn law_details_are_printed_by_name(
    v: JsonView,
    d: JsonView,
    family: Seq<char>,
    format: Seq<char>,
    size: Seq<char>,
    level: Seq<char>,
)
    requires
        json::member(v, "details"@) == Some(d),
        json::member(d, "family"@) == Some(JsonView::Str(family)),
        json::member(d, "format"@) == Some(JsonView::Str(format)),
        json::member(d, "parameter_size"@) == Some(JsonView::Str(size)),
        json::member(d, "quantization_level"@) == Some(JsonView::Str(level)),
    ensures
        table::details_part(v) == "  family:           "@ + family + "\n"@ + (
        "  format:           "@ + format + "\n"@) + ("  parameter_size:   "@ + size + "\n"@) + (
        "  quantization:     "@ + level + "\n"@),
{
}

/// What is printed besides are the context length, the number of files and the revision.
pub proof fn law_info_is_printed_by_name(
    v: JsonView,
    mi: JsonView,
    context: u64,
    files: u64,
    revision: Seq<char>,
)
    requires
        json::member(v, "model_info"@) == Some(mi),
        json::unsigned_in(json::member(mi, "context_length"@)) == Some(context),
        json::unsigned_in(json::member(mi, "files"@)) == Some(files),
        json::member(mi, "revision"@) == Some(JsonView::Str(revision)),
    ensures
        table::info_part(v) == "\nModel info:\n"@ + ("  context_length: "@ + number::decimal(
            context as nat,
        ) + "\n"@) + ("  files:          "@ + number::decimal(files as nat) + "\n"@) + (
        "  revision:       "@ + revision + "\n"@),
{
}

/// A member that is there is read as it is; one that is not is told by the word that
/// stands for it, a number by zero.
pub proof fn law_missing_members_are_stood_in_for(
    v: JsonView,
    key: Seq<char>,
    otherwise: Seq<char>,
    s: Seq<char>,
    n: u64,
)
    ensures
        json::member(v, key) == Some(JsonView::Str(s)) ==> table::text_in(v, key, otherwise) == s,
        json::member(v, key) is None ==> table::text_in(v, key, otherwise) == otherwise,
        json::unsigned_in(json::member(v, key)) == Some(n) ==> table::number_in(v, key) == n,
        json::member(v, key) is None ==> table::number_in(v, key) == 0,
{
}

/// What lies halfway between two tenths is shown as the even one.
pub proof fn law_halves_go_to_the_even(n: nat, d: nat)
    requires
        d > 0,
        2 * (n % d) == d,
    ensures
        progress::nearest(n, d) % 2 == 0,
        progress::nearest(n, d) == n / d || progress::nearest(n, d) == n / d + 1,
{
}

/// Details that are not there are told by a dash.
pub proof fn law_missing_details_are_dashes(v: JsonView, none: Seq<(Seq<char>, JsonView)>)
    requires
        none.len() == 0,
        json::member(v, "details"@) == Some(JsonView::Object(none)),
        json::member(v, "model_info"@) is None,
    ensures
        table::details_part(v) == "  family:           "@ + "-"@ + "\n"@ + (
        "  format:           "@ + "-"@ + "\n"@) + ("  parameter_size:   "@ + "-"@ + "\n"@) + (
        "  quantization:     "@ + "-"@ + "\n"@),
        table::info_part(v) == Seq::<char>::empty(),
{
}

} // verus!
