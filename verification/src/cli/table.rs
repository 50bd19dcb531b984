//! Tables and reports that the command line prints.
use crate::api::json;
use crate::api::json::{Json, JsonView};
use crate::cli::style;
use crate::number;
use crate::text;
use vstd::prelude::*;
use vstd::string::StringExecFns;

verus! {

broadcast use {vstd::string::group_string_axioms, crate::api::json::lemma_json_view};

// --------------------------------------------------------------------- reading

/// The text of a member, or another one where it is not there.
pub open spec fn text_in(v: JsonView, key: Seq<char>, otherwise: Seq<char>) -> Seq<char> {
    match json::string_in(json::member(v, key)) {
        Some(s) => s,
        None => otherwise,
    }
}

/// The number of a member, or zero where it is not there.
pub open spec fn number_in(v: JsonView, key: Seq<char>) -> nat {
    match json::unsigned_in(json::member(v, key)) {
        Some(n) => n as nat,
        None => 0,
    }
}

/// The text of a member, or another one where it is not there.
pub fn text_or<'a>(v: &'a Json, key: &str, otherwise: &'a str) -> (r: &'a str)
    ensures
        r@ == text_in(v@, key@, otherwise@),
{
    match v.get_str(key) {
        Some(s) => s.as_str(),
        None => otherwise,
    }
}

/// The number of a member as text, zero where it is not there.
pub fn number_or_zero(v: &Json, key: &str) -> (r: String)
    ensures
        r@ == number::decimal(number_in(v@, key@)),
{
    match v.get_u64(key) {
        Some(n) => number::to_decimal(n),
        None => number::to_decimal(0),
    }
}

// --------------------------------------------------------------------- columns

/// A cell of at least `width` columns.
pub open spec fn cell(s: Seq<char>, width: nat) -> Seq<char> {
    s + style::spaces(style::padding(s.len(), width))
}

/// Fills a cell up to `width` columns.
pub fn pad_right(s: &str, width: usize) -> (r: String)
    ensures
        r@ == cell(s@, width as nat),
{
    let chars = text::chars_of(s);
    style::pad_colored(s, chars.len(), width)
}

/// A row of the model list.
pub open spec fn model_columns(
    alias: Seq<char>,
    repo_id: Seq<char>,
    params: Seq<char>,
    quant: Seq<char>,
    format: Seq<char>,
    status: Seq<char>,
) -> Seq<char> {
    cell(alias, 25) + " "@ + cell(repo_id, 40) + " "@ + cell(params, 8) + " "@ + cell(quant, 10)
        + " "@ + cell(format, 14) + " "@ + status
}

fn append_cell(out: &mut String, s: &str, width: usize)
    ensures
        final(out)@ == old(out)@ + cell(s@, width as nat) + " "@,
{
    let padded = pad_right(s, width);
    out.append(padded.as_str());
    out.append(" ");
}

fn model_line(
    alias: &str,
    repo_id: &str,
    params: &str,
    quant: &str,
    format: &str,
    status: &str,
) -> (r: String)
    ensures
        r@ == model_columns(alias@, repo_id@, params@, quant@, format@, status@),
{
    let mut out = String::new();
    append_cell(&mut out, alias, 25);
    append_cell(&mut out, repo_id, 40);
    append_cell(&mut out, params, 8);
    append_cell(&mut out, quant, 10);
    append_cell(&mut out, format, 14);
    out.append(status);
    assert(out@ =~= model_columns(alias@, repo_id@, params@, quant@, format@, status@));
    out
}

/// The head of the model list.
pub fn list_header() -> (r: String)
    ensures
        r@ == style::styled(
            style::DIM@,
            model_columns(
                "ALIAS"@,
                "REPO_ID"@,
                "PARAMS"@,
                "QUANT"@,
                "FORMAT"@,
                cell("STATUS"@, 8),
            ),
        ),
{
    let status = pad_right("STATUS", 8);
    let line = model_line("ALIAS", "REPO_ID", "PARAMS", "QUANT", "FORMAT", status.as_str());
    style::dim(line.as_str())
}

/// A status in its color: loaded green, ready cyan, anything else dim.
pub open spec fn colored_status(status: Seq<char>) -> Seq<char> {
    if status == "loaded"@ {
        style::styled(style::GREEN@, status)
    } else if status == "ready"@ {
        style::styled(style::CYAN@, status)
    } else {
        style::styled(style::DIM@, status)
    }
}

fn color_status(status: &str) -> (r: String)
    ensures
        r@ == colored_status(status@),
{
    if text::same_text(status, "loaded") {
        style::ok(status)
    } else if text::same_text(status, "ready") {
        style::cyan(status)
    } else {
        style::dim(status)
    }
}

/// The row of a model in the list. `params` is its parameter count as text.
pub fn list_row(m: &Json, params: &str) -> (r: String)
    ensures
        r@ == model_columns(
            text_in(m@, "alias"@, "-"@),
            text_in(m@, "repo_id"@, "-"@),
            params@,
            text_in(m@, "quantization"@, "none"@),
            text_in(m@, "weight_format"@, "-"@),
            colored_status(text_in(m@, "status"@, "-"@)),
        ),
{
    let status = color_status(text_or(m, "status", "-"));
    model_line(
        text_or(m, "alias", "-"),
        text_or(m, "repo_id", "-"),
        params,
        text_or(m, "quantization", "none"),
        text_or(m, "weight_format", "-"),
        status.as_str(),
    )
}

/// A row of the process list.
pub open spec fn process_columns(
    alias: Seq<char>,
    backend: Seq<char>,
    port: Seq<char>,
    started: Seq<char>,
    used: Seq<char>,
) -> Seq<char> {
    cell(alias, 25) + " "@ + backend + " "@ + cell(port, 6) + " "@ + cell(started, 35) + " "@
        + cell(used, 35)
}

fn process_line(
    alias: &str,
    backend: &str,
    port: &str,
    started: &str,
    used: &str,
) -> (r: String)
    ensures
        r@ == process_columns(alias@, backend@, port@, started@, used@),
{
    let mut out = String::new();
    append_cell(&mut out, alias, 25);
    out.append(backend);
    out.append(" ");
    append_cell(&mut out, port, 6);
    append_cell(&mut out, started, 35);
    let last = pad_right(used, 35);
    out.append(last.as_str());
    assert(out@ =~= process_columns(alias@, backend@, port@, started@, used@));
    out
}

/// The head of the process list.
pub fn ps_header() -> (r: String)
    ensures
        r@ == style::styled(
            style::DIM@,
            process_columns(
                "ALIAS"@,
                cell("BACKEND"@, 10),
                "PORT"@,
                "STARTED"@,
                "LAST_USED"@,
            ),
        ),
{
    let backend = pad_right("BACKEND", 10);
    let line = process_line("ALIAS", backend.as_str(), "PORT", "STARTED", "LAST_USED");
    style::dim(line.as_str())
}

/// A backend in its color: sglang cyan, llama.cpp green, anything else plain.
pub open spec fn colored_backend(backend: Seq<char>) -> Seq<char> {
    if backend == "sglang"@ {
        style::styled(style::CYAN@, backend)
    } else if backend == "llamacpp"@ {
        style::styled(style::GREEN@, backend)
    } else {
        backend
    }
}

/// A backend in its color, in a cell of ten columns whatever the color.
pub open spec fn backend_cell(backend: Seq<char>) -> Seq<char> {
    colored_backend(backend) + style::spaces(style::padding(backend.len(), 10))
}

fn color_backend(backend: &str) -> (r: String)
    ensures
        r@ == backend_cell(backend@),
{
    let colored: String = if text::same_text(backend, "sglang") {
        style::cyan(backend)
    } else if text::same_text(backend, "llamacpp") {
        style::ok(backend)
    } else {
        String::from_str(backend)
    };
    let chars = text::chars_of(backend);
    style::pad_colored(colored.as_str(), chars.len(), 10)
}

/// The row of a process in the list.
pub fn ps_row(e: &Json) -> (r: String)
    ensures
        r@ == process_columns(
            text_in(e@, "alias"@, "-"@),
            backend_cell(text_in(e@, "backend"@, "-"@)),
            number::decimal(number_in(e@, "port"@)),
            text_in(e@, "started_at"@, "-"@),
            text_in(e@, "last_used"@, "-"@),
        ),
{
    let backend = color_backend(text_or(e, "backend", "-"));
    let port = number_or_zero(e, "port");
    process_line(
        text_or(e, "alias", "-"),
        backend.as_str(),
        port.as_str(),
        text_or(e, "started_at", "-"),
        text_or(e, "last_used", "-"),
    )
}

// --------------------------------------------------------------------- reports

/// A line of a report.
pub open spec fn report_line(label: Seq<char>, value: Seq<char>) -> Seq<char> {
    label + value + "\n"@
}

pub(crate) fn append_line(out: &mut String, label: &str, value: &str)
    ensures
        final(out)@ == old(out)@ + report_line(label@, value@),
{
    out.append(label);
    out.append(value);
    out.append("\n");
}

/// A part of a report with a title, left out where it is empty.
pub open spec fn titled(title: Seq<char>, body: Seq<char>) -> Seq<char> {
    if body.len() == 0 {
        Seq::empty()
    } else {
        "\n"@ + title + ":\n"@ + body + "\n"@
    }
}

fn append_titled(out: &mut String, title: &str, body: &str)
    ensures
        final(out)@ == old(out)@ + titled(title@, body@),
{
    if !body.is_empty() {
        out.append("\n");
        out.append(title);
        out.append(":\n");
        out.append(body);
        out.append("\n");
    }
}

/// What the description of a model says of its details.
pub open spec fn details_part(v: JsonView) -> Seq<char> {
    match json::member(v, "details"@) {
        Some(d) => report_line("  family:           "@, text_in(d, "family"@, "-"@)) + report_line(
            "  format:           "@,
            text_in(d, "format"@, "-"@),
        ) + report_line("  parameter_size:   "@, text_in(d, "parameter_size"@, "-"@))
            + report_line("  quantization:     "@, text_in(d, "quantization_level"@, "-"@)),
        None => Seq::empty(),
    }
}

/// What the description of a model says besides.
pub open spec fn info_part(v: JsonView) -> Seq<char> {
    match json::member(v, "model_info"@) {
        Some(mi) => "\nModel info:\n"@ + report_line(
            "  context_length: "@,
            number::decimal(number_in(mi, "context_length"@)),
        ) + report_line("  files:          "@, number::decimal(number_in(mi, "files"@)))
            + report_line("  revision:       "@, text_in(mi, "revision"@, "-"@)),
        None => Seq::empty(),
    }
}

/// The description of a model as it is printed.
pub open spec fn description_text(model: Seq<char>, v: JsonView) -> Seq<char> {
    report_line("Model: "@, model) + "\nDetails:\n"@ + details_part(v) + info_part(v) + titled(
        "Template"@,
        text_in(v, "template"@, Seq::empty()),
    ) + titled("Parameters"@, text_in(v, "parameters"@, Seq::empty())) + titled(
        "Modelfile"@,
        text_in(v, "modelfile"@, Seq::empty()),
    )
}

fn append_details(out: &mut String, info: &Json)
    ensures
        final(out)@ == old(out)@ + details_part(info@),
{
    let ghost before = out@;
    if let Some(d) = info.get("details") {
        append_line(out, "  family:           ", text_or(d, "family", "-"));
        append_line(out, "  format:           ", text_or(d, "format", "-"));
        append_line(out, "  parameter_size:   ", text_or(d, "parameter_size", "-"));
        append_line(out, "  quantization:     ", text_or(d, "quantization_level", "-"));
    }
    assert(out@ =~= before + details_part(info@));
}

fn append_info(out: &mut String, info: &Json)
    ensures
        final(out)@ == old(out)@ + info_part(info@),
{
    let ghost before = out@;
    if let Some(mi) = info.get("model_info") {
        let context = number_or_zero(mi, "context_length");
        let files = number_or_zero(mi, "files");
        out.append("\nModel info:\n");
        append_line(out, "  context_length: ", context.as_str());
        append_line(out, "  files:          ", files.as_str());
        append_line(out, "  revision:       ", text_or(mi, "revision", "-"));
    }
    assert(out@ =~= before + info_part(info@));
}

/// Writes the description of a model.
pub fn show_report(model: &str, info: &Json) -> (r: String)
    ensures
        r@ == description_text(model@, info@),
{
    proof {
        reveal_strlit("");
        assert(""@ =~= Seq::<char>::empty());
    }
    let mut out = String::new();
    append_line(&mut out, "Model: ", model);
    out.append("\nDetails:\n");
    append_details(&mut out, info);
    append_info(&mut out, info);
    append_titled(&mut out, "Template", text_or(info, "template", ""));
    append_titled(&mut out, "Parameters", text_or(info, "parameters", ""));
    append_titled(&mut out, "Modelfile", text_or(info, "modelfile", ""));
    assert(out@ =~= description_text(model@, info@));
    out
}

/// A line of a report, left out where its member is not a text.
pub open spec fn optional_line(label: Seq<char>, v: JsonView, key: Seq<char>) -> Seq<char> {
    match json::string_in(json::member(v, key)) {
        Some(s) => report_line(label, s),
        None => Seq::empty(),
    }
}

pub(crate) fn append_optional(out: &mut String, label: &str, v: &Json, key: &str)
    ensures
        final(out)@ == old(out)@ + optional_line(label@, v@, key@),
{
    let ghost before = out@;
    if let Some(s) = v.get_str(key) {
        append_line(out, label, s.as_str());
    }
    assert(out@ =~= before + optional_line(label@, v@, key@));
}

/// Writes what came of quantizing a model.
pub fn quantize_report(m: &Json) -> (r: String)
    ensures
        r@ == "Quantization complete:\n"@ + report_line(
            "  alias:        "@,
            text_in(m@, "alias"@, "-"@),
        ) + optional_line("  quantization: "@, m@, "quantization"@) + optional_line(
            "  gguf_path:    "@,
            m@,
            "gguf_path"@,
        ),
{
    let mut out = String::from_str("Quantization complete:\n");
    append_line(&mut out, "  alias:        ", text_or(m, "alias", "-"));
    append_optional(&mut out, "  quantization: ", m, "quantization");
    append_optional(&mut out, "  gguf_path:    ", m, "gguf_path");
    out
}

/// The texts of a list, each on its line; other values are passed over.
pub open spec fn text_lines(a: Seq<JsonView>) -> Seq<char>
    decreases a.len(),
{
    if a.len() == 0 {
        Seq::empty()
    } else {
        let before = text_lines(a.drop_last());
        match a.last() {
            JsonView::Str(s) => before + s + "\n"@,
            _ => before,
        }
    }
}

/// The lines of a log as they are printed.
pub open spec fn log_text(v: JsonView) -> Seq<char> {
    match json::array_in(json::member(v, "lines"@)) {
        Some(a) => text_lines(a),
        None => Seq::empty(),
    }
}

/// Writes the lines of a log.
pub fn log_lines(body: &Json) -> (r: String)
    ensures
        r@ == log_text(body@),
{
    let mut out = String::new();
    if let Some(v) = body.get("lines") {
        if let Some(a) = v.as_array() {
            let ghost all = json::element_views(a@);
            assert(all.take(0) =~= Seq::<JsonView>::empty());
            let mut i: usize = 0;
            while i < a.len()
                invariant
                    i <= a@.len(),
                    all == json::element_views(a@),
                    out@ == text_lines(all.take(i as int)),
                decreases a@.len() - i,
            {
                assert(all.take(i + 1).drop_last() =~= all.take(i as int));
                assert(all[i as int] == a@[i as int]@);
                if let Some(s) = a[i].as_str() {
                    out.append(s.as_str());
                    out.append("\n");
                }
                i = i + 1;
            }
            assert(all.take(i as int) =~= all);
        }
    }
    out
}

/// Writes the log of a model's process.
pub fn logs_report(model: &str, body: &Json) -> (r: String)
    ensures
        r@ == "# "@ + model@ + " (backend: "@ + text_in(body@, "backend"@, "?"@) + ")\n"@
            + log_text(body@),
{
    let mut out = String::from_str("# ").concat(model);
    out.append(" (backend: ");
    out.append(text_or(body, "backend", "?"));
    out.append(")\n");
    let lines = log_lines(body);
    out.append(lines.as_str());
    out
}

/// The line that leads the log of a process when all are shown; none where the
/// process has no alias.
pub fn tail_heading(p: &Json) -> (r: Option<String>)
    ensures
        match json::string_in(json::member(p@, "alias"@)) {
            Some(a) => r matches Some(h) && h@ == "\n=== "@ + a + " ("@ + text_in(
                p@,
                "backend"@,
                "?"@,
            ) + ") ===\n"@,
            None => r is None,
        },
{
    match p.get_str("alias") {
        Some(a) => {
            let mut out = String::from_str("\n=== ").concat(a.as_str());
            out.append(" (");
            out.append(text_or(p, "backend", "?"));
            out.append(") ===\n");
            Some(out)
        },
        None => None,
    }
}

// ------------------------------------------------------------------------ laws

/// Columns line up: a cell whose content fits takes exactly its width, and a
/// backend's cell takes as many visible columns colored as plain.
pub proof fn law_cells_line_up(s: Seq<char>, width: nat)
    requires
        s.len() <= width,
    ensures
        cell(s, width).len() == width,
        s.len() <= 10 ==> backend_cell(s).len() - colored_backend(s).len() + s.len() == 10,
{
}

} // verus!
