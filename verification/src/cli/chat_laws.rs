//! Laws of chats on the command line, of what a command decides before it runs, and of
//! the diagnosis.
use crate::api::json;
use crate::api::json::JsonView;
use crate::api::types::MessageView;
use crate::cli::chat;
use crate::cli::chat::Intent;
use crate::cli::commands;
use crate::cli::doctor;
use crate::cli::doctor::DaemonAnswer;
use crate::cli::screen_laws::ends_with;
use crate::cli::style;
use crate::number;
use crate::text;
use crate::text_laws;
use vstd::prelude::*;

verus! {

// --------------------------------------------------------------------------- lines

/// What is typed is asked of the model, unless it is one of the commands; each command
/// asks for its own thing.
pub proof fn law_only_commands_are_kept_from_the_model(line: Seq<char>)
    ensures
        chat::intent_of(line) == Intent::Nothing <==> line.len() == 0,
        chat::intent_of(line) == Intent::Exit <==> (line == "/exit"@ || line == "/quit"@ || line
            == "/q"@),
        chat::intent_of(line) == Intent::Clear <==> (line == "/clear"@ || line == "/reset"@),
        chat::intent_of(line) == Intent::Help <==> line == "/help"@,
        line.len() > 0 && line[0] != '/' ==> chat::intent_of(line) == Intent::Ask,
{
    reveal_strlit("/exit");
    reveal_strlit("/quit");
    reveal_strlit("/q");
    reveal_strlit("/clear");
    reveal_strlit("/reset");
    reveal_strlit("/help");
    assert("/help"@[1] == 'h' && "/exit"@[1] == 'e' && "/quit"@[1] == 'q');
    assert("/clear"@.len() == 6 && "/reset"@.len() == 6);
}

/// A question joins the conversation as the user's last message, with nothing of what
/// came before it lost, and with the space around it left off.
pub proof fn law_question_joins_the_conversation(
    history: Seq<MessageView>,
    before: Seq<char>,
    question: Seq<char>,
    after: Seq<char>,
)
    requires
        text_laws::all_space(before),
        text_laws::all_space(after),
        question.len() > 0,
        text_laws::is_tight(question),
        question[0] != '/',
    ensures
        ({
            let h = chat::after_line(history, before + question + after);
            &&& h.len() == history.len() + 1
            &&& h.take(history.len() as int) == history
            &&& h.last().role == "user"@
            &&& h.last().content == question
        }),
{
    text_laws::law_trimming_gives_the_core(before, question, after);
    law_only_commands_are_kept_from_the_model(question);
    let h = chat::after_line(history, before + question + after);
    assert(h.take(history.len() as int) =~= history);
}

/// A command leaves the conversation as it is, but for the two that begin it anew.
pub proof fn law_commands_ask_nothing(history: Seq<MessageView>, line: Seq<char>)
    requires
        history.len() > 0,
        text_laws::is_tight(line),
        line.len() > 0,
    ensures
        line == "/help"@ || line == "/exit"@ || line == "/quit"@ || line == "/q"@
            ==> chat::after_line(history, line) == history,
        line == "/clear"@ || line == "/reset"@ ==> chat::after_line(history, line) == seq![
            history[0],
        ],
{
    text_laws::lemma_tight_is_trimmed(line);
    law_only_commands_are_kept_from_the_model(line);
    assert(history.take(1) =~= seq![history[0]]);
}

/// An empty line changes nothing.
pub proof fn law_blank_line_changes_nothing(history: Seq<MessageView>, raw: Seq<char>)
    requires
        text_laws::all_space(raw),
    ensures
        chat::after_line(history, raw) == history,
{
    text_laws::law_blank_text_is_trimmed_away(raw);
}

// -------------------------------------------------------------------------- answer

/// A line of an answer's stream carries what stands behind `data: `, however the line
/// ends; the end mark and any other line carry nothing.
pub proof fn law_line_carries_its_data(line: Seq<u8>, payload: Seq<char>)
    requires
        vstd::utf8::valid_utf8(line),
        vstd::utf8::decode_utf8(line) == "data: "@ + payload,
        line.len() > 0,
        line.last() != 10 && line.last() != 13,
    ensures
        payload != "[DONE]"@ ==> {
            &&& chat::carried(line) == Some(payload)
            &&& chat::carried(line.push(10)) == Some(payload)
            &&& chat::carried(line.push(13).push(10)) == Some(payload)
        },
        payload == "[DONE]"@ ==> {
            &&& chat::carried(line) is None
            &&& chat::carried(line.push(10)) is None
            &&& chat::carried(line.push(13).push(10)) is None
        },
{
    reveal_strlit("data: ");
    reveal_strlit("[DONE]");
    reveal_strlit("data: [DONE]");
    let lead = "data: "@;
    let t = lead + payload;
    assert(line.push(10).drop_last() =~= line);
    assert(line.push(13).drop_last() =~= line);
    assert(line.push(13).push(10).drop_last() =~= line.push(13));
    reveal_with_fuel(chat::without_line_end, 3);
    assert(t.skip(6) =~= payload);
    assert(t.take(6) =~= lead);
    assert(lead.is_prefix_of(t));
    assert("data: [DONE]"@ =~= lead + "[DONE]"@);
    if t == "data: [DONE]"@ {
        assert("data: [DONE]"@.skip(6) =~= "[DONE]"@);
    }
}

/// A line with anything else at its front carries nothing.
pub proof fn law_other_lines_carry_nothing(line: Seq<u8>)
    requires
        vstd::utf8::valid_utf8(line),
        line.len() > 0,
        line.last() != 10 && line.last() != 13,
        !"data: "@.is_prefix_of(vstd::utf8::decode_utf8(line)),
    ensures
        chat::carried(line) is None,
        chat::carried(line.push(10)) is None,
{
    assert(line.push(10).drop_last() =~= line);
    reveal_with_fuel(chat::without_line_end, 2);
}

// --------------------------------------------------------------------------- words

/// The words that open a chat name the model.
pub proof fn law_banner_names_the_model(model: Seq<char>)
    ensures
        text::is_part("  model: \x1b[32m"@ + model + "\x1b[0m"@, chat::banner_text(model)),
{
    let bar = style::CYAN@ + style::BOLD@;
    let a = bar + "╭──────────────────────────────────────────────╮"@ + style::RESET@ + "\n"@ + bar
        + "│  localllm chat"@ + style::RESET@ + "\n"@ + bar + "│"@ + style::RESET@;
    let b = "\n"@ + bar + "│"@ + style::RESET@ + "  "@ + style::DIM@
        + "/exit quit · /clear reset history · Ctrl+C to quit"@ + style::RESET@ + "\n"@ + bar
        + "╰──────────────────────────────────────────────╯"@ + style::RESET@ + "\n"@;
    reveal_strlit("  model: ");
    reveal_strlit("\x1b[32m");
    reveal_strlit("  model: \x1b[32m");
    let t = "  model: \x1b[32m"@ + model + "\x1b[0m"@;
    assert("  model: "@ + style::GREEN@ =~= "  model: \x1b[32m"@);
    let s = chat::banner_text(model);
    assert(s =~= a + t + b);
    assert(s.subrange(a.len() as int, a.len() as int + t.len()) =~= t);
    text::lemma_subrange_is_part(s, a.len() as int, a.len() as int + t.len());
}

/// A command is answered, a question and an empty line are not.
pub proof fn law_commands_are_answered(intent: Intent)
    ensures
        chat::reply_to(intent) is Some <==> intent == Intent::Exit || intent == Intent::Clear
            || intent == Intent::Help,
        chat::reply_to(Intent::Exit) == Some("\x1b[2m"@ + "Goodbye."@ + "\x1b[0m"@),
        chat::reply_to(Intent::Clear) == Some("\x1b[33m"@ + "(history cleared)"@ + "\x1b[0m"@),
        chat::reply_to(Intent::Help) == Some(
            "\x1b[2m"@ + "commands: /exit  /clear  /help"@ + "\x1b[0m"@,
        ),
{
}

// ---------------------------------------------------------------------- before a run

/// A model of a list has an alias.
pub open spec fn is_called(m: JsonView, alias: Seq<char>) -> bool {
    json::member(m, "alias"@) == Some(JsonView::Str(alias))
}

/// A model of a list is found by its alias, the first one that has it; none is found
/// only where none has it.
pub proof fn law_listed_model_is_found_by_its_alias(
    models: Seq<JsonView>,
    alias: Seq<char>,
    from: int,
)
    requires
        0 <= from <= models.len(),
    ensures
        match commands::listed_from(models, alias, from) {
            Some(m) => is_called(m, alias) && exists|i: int|
                from <= i < models.len() && #[trigger] models[i] == m && forall|j: int|
                    from <= j < i ==> !is_called(#[trigger] models[j], alias),
            None => forall|i: int|
                from <= i < models.len() ==> !is_called(#[trigger] models[i], alias),
        },
    decreases models.len() - from,
{
    if from < models.len() {
        if is_called(models[from], alias) {
            assert(models[from] == models[from]);
        } else {
            law_listed_model_is_found_by_its_alias(models, alias, from + 1);
            match commands::listed_from(models, alias, from + 1) {
                Some(m) => {
                    let i = choose|i: int|
                        from + 1 <= i < models.len() && #[trigger] models[i] == m && forall|j: int|
                            from + 1 <= j < i ==> !is_called(#[trigger] models[j], alias);
                    assert(models[i] == m);
                    assert forall|j: int| from <= j < i implies !is_called(
                        #[trigger] models[j],
                        alias,
                    ) by {
                        if j == from {
                        }
                    }
                },
                None => {},
            }
        }
    }
}

/// A model whose GGUF file is told, or whose weights are of that format, needs no
/// download; any other does.
pub proof fn law_gguf_is_told_by_path_or_format(m: JsonView, path: Seq<char>)
    ensures
        json::member(m, "gguf_path"@) == Some(JsonView::Str(path)) ==> commands::has_gguf(m),
        json::member(m, "weight_format"@) == Some(JsonView::Str("GGUF"@)) ==> commands::has_gguf(m),
        json::member(m, "gguf_path"@) is None && json::member(m, "weight_format"@) != Some(
            JsonView::Str("GGUF"@),
        ) ==> !commands::has_gguf(m),
        json::member(m, "gguf_path"@) == Some(JsonView::Null) && json::member(m, "weight_format"@)
            != Some(JsonView::Str("GGUF"@)) ==> !commands::has_gguf(m),
{
}

/// A chat with a repository is about the model that the repository gives; a chat with
/// anything else is about the model of that name.
pub proof fn law_chat_is_about_its_target(publisher: Seq<char>, name: Seq<char>, derived: Seq<char>)
    ensures
        commands::chat_alias(publisher + seq!['/'] + name, derived) == derived,
        !name.contains('/') ==> commands::chat_alias(name, derived) == name,
{
    let s = publisher + seq!['/'] + name;
    assert(s[publisher.len() as int] == '/');
}

/// A level that is asked for is the level that is fetched; where none is, the usual one
/// is fetched on a machine with no GPU, and none on one with it.
pub proof fn law_level_asked_for_is_fetched(level: Seq<char>, has_gpu: bool)
    ensures
        commands::chat_level(Some(level), has_gpu) == Some(level),
        commands::chat_level(None, false) == Some("Q4_K_M"@),
        commands::chat_level(None, true) is None,
{
}

// --------------------------------------------------------------------------- install

/// The program is installed below the home directory, or on Windows below the user's
/// program data.
pub proof fn law_program_is_installed_below_the_user(home: Seq<char>, data: Seq<char>)
    requires
        home.len() > 0,
        home.last() != '/',
        data.len() > 2,
        data.last() != '/' && data.last() != '\\',
    ensures
        commands::install_path(false, Some(data), Some(home)) == home + "/.local/bin"@,
        commands::install_path(false, None, Some(home)) == home + "/.local/bin"@,
        commands::install_path(true, Some(data), Some(home)) == data + "\\localllm\\bin"@,
        commands::install_path(true, None, Some(data)) == data + "\\localllm\\bin"@,
{
    reveal_strlit(".local");
    reveal_strlit("bin");
    reveal_strlit("localllm");
    reveal_strlit("/.local/bin");
    reveal_strlit("\\localllm\\bin");
    assert(".local"@[0] == '.' && "bin"@[0] == 'b' && "localllm"@[0] == 'l');
    assert("bin"@[1] == 'i' && "localllm"@[1] == 'o');
    let a = home.push('/') + ".local"@;
    assert(a.last() == 'l');
    assert(a.push('/') + "bin"@ =~= home + "/.local/bin"@);
    let b = data.push('\\') + "localllm"@;
    assert(b.last() == 'm');
    assert(b.push('\\') + "bin"@ =~= data + "\\localllm\\bin"@);
}

/// Where the directory is not on the path, what is printed names it.
pub proof fn law_path_hint_names_the_directory(windows: bool, dir: Seq<char>)
    ensures
        text::is_part(dir, commands::path_hint_text(windows, dir, false)),
        commands::path_hint_text(windows, dir, true)
            == "You can now run `localllm` from anywhere."@,
{
    let s = commands::path_hint_text(windows, dir, false);
    let n = if windows {
        "\nAdd it to PATH (PowerShell, one time):\n  setx PATH \"$env:PATH;"@.len() as int
    } else {
        "\nAdd it to PATH (one time):\n  echo 'export PATH=\"$PATH:"@.len() as int
    };
    assert(s.subrange(n, n + dir.len()) =~= dir);
    text::lemma_subrange_is_part(s, n, n + dir.len());
}

/// What is printed of a file that is there tells where it is.
pub proof fn law_cached_file_is_told(path: String)
    ensures
        commands::plan_text(commands::RunPlan::Cached(Some(path))) == Some(
            "Using cached GGUF: "@ + path@,
        ),
        commands::plan_text(commands::RunPlan::Unknown) is None,
        commands::plan_text(commands::RunPlan::Download) is Some,
{
}

// ------------------------------------------------------------------------- diagnosis

/// A daemon that answers well is fine; one that does not is told with its status or with
/// the reason.
pub proof fn law_daemon_is_told_with_its_answer(url: Seq<char>, s: String)
    ensures
        text::is_part(url, doctor::daemon_finding(url, DaemonAnswer::Success)),
        ends_with(
            doctor::daemon_finding(url, DaemonAnswer::Success),
            "\x1b[32m"@ + "OK"@ + "\x1b[0m"@,
        ),
        ends_with(
            doctor::daemon_finding(url, DaemonAnswer::Status(s)),
            "\x1b[33m"@ + "WARN"@ + "\x1b[0m"@ + " ("@ + ("HTTP "@ + s@) + ")"@,
        ),
        ends_with(
            doctor::daemon_finding(url, DaemonAnswer::Unreachable(s)),
            "\x1b[31m"@ + "MISSING"@ + "\x1b[0m"@ + " ("@ + s@ + ")"@,
        ),
{
    let l = doctor::lead("[1/7]"@, "Daemon at "@ + url + " "@);
    let ok = "\x1b[32m"@ + "OK"@ + "\x1b[0m"@;
    let f = doctor::daemon_finding(url, DaemonAnswer::Success);
    assert(f == l + ok);
    let a = "  "@ + style::styled(style::DIM@, "[1/7]"@) + " "@ + "Daemon at "@;
    let n = a.len() as int;
    assert(f =~= a + url + (" "@ + "... "@ + ok));
    assert(f.subrange(n, n + url.len()) =~= url);
    text::lemma_subrange_is_part(f, n, n + url.len());
    assert(doctor::daemon_finding(url, DaemonAnswer::Status(s)) == l + ("\x1b[33m"@ + "WARN"@
        + "\x1b[0m"@ + " ("@ + ("HTTP "@ + s@) + ")"@));
    assert(doctor::daemon_finding(url, DaemonAnswer::Unreachable(s)) == l + ("\x1b[31m"@
        + "MISSING"@ + "\x1b[0m"@ + " ("@ + s@ + ")"@));
}

/// What is there is told in green with its version or its memory.
pub proof fn law_what_is_there_is_told(
    command: Seq<char>,
    before: Seq<char>,
    version: Seq<char>,
    after: Seq<char>,
    free: u64,
)
    requires
        text_laws::all_space(before),
        text_laws::all_space(after),
        version.len() > 0,
        text_laws::is_tight(version),
    ensures
        ends_with(
            doctor::python_finding(command, Some(before + version + after)),
            "\x1b[32m"@ + "OK"@ + "\x1b[0m"@ + " ("@ + version + ")"@,
        ),
        ends_with(
            doctor::sglang_finding(true, Some(before + version + after)),
            "\x1b[32m"@ + "OK"@ + "\x1b[0m"@ + " ("@ + version + ")"@,
        ),
        text::is_part(
            "\x1b[32m"@ + "OK"@ + "\x1b[0m"@ + " ("@ + number::decimal(free as nat),
            doctor::gpu_finding(true, Some(free)),
        ),
{
    text_laws::law_trimming_gives_the_core(before, version, after);
    let v = before + version + after;
    let told = "\x1b[32m"@ + "OK"@ + "\x1b[0m"@ + " ("@ + version + ")"@;
    let p = doctor::lead(
        "[3/7]"@,
        "python ("@ + crate::cli::table::cell(command, 7) + ")"@,
    );
    assert(doctor::python_finding(command, Some(v)) == p + told);
    assert(doctor::sglang_finding(true, Some(v)) == doctor::lead("[4/7]"@, "sglang          "@)
        + told);
    let g = doctor::lead("[2/7]"@, "NVIDIA GPU      "@);
    let d = number::decimal(free as nat);
    let t = "\x1b[32m"@ + "OK"@ + "\x1b[0m"@ + " ("@ + d;
    let f = doctor::gpu_finding(true, Some(free));
    let n = g.len() as int;
    assert(f.subrange(n, n + t.len()) =~= t);
    text::lemma_subrange_is_part(f, n, n + t.len());
}

/// What is missing is told as missing, and nothing as fine.
pub proof fn law_what_is_missing_is_told(command: Seq<char>, dir: Seq<char>)
    ensures
        ends_with(
            doctor::python_finding(command, None),
            "\x1b[31m"@ + "MISSING"@ + "\x1b[0m"@ + " — required for sglang backend"@,
        ),
        ends_with(
            doctor::sglang_finding(true, None),
            "\x1b[2m"@ + "missing"@ + "\x1b[0m"@ + " — install with: pip install sglang"@,
        ),
        ends_with(
            doctor::engine_finding(Some(dir), false),
            "\x1b[33m"@ + "WARN"@ + "\x1b[0m"@ + " build/bin/ missing at "@ + text::path_debug_of(
                dir,
            ),
        ),
        ends_with(
            doctor::engine_finding(Some(dir), true),
            "\x1b[32m"@ + "OK"@ + "\x1b[0m"@ + " ("@ + text::path_debug_of(dir) + ")"@,
        ),
        ends_with(
            doctor::models_finding(dir, true),
            "\x1b[32m"@ + "OK"@ + "\x1b[0m"@ + " ("@ + text::path_debug_of(dir) + ")"@,
        ),
        ends_with(
            doctor::models_finding(dir, false),
            "\x1b[31m"@ + "WARN"@ + "\x1b[0m"@ + " — can't create "@ + text::path_debug_of(dir),
        ),
        ends_with(
            doctor::token_finding(true),
            "\x1b[32m"@ + "set"@ + "\x1b[0m"@ + " ("@ + "private models accessible"@ + ")"@,
        ),
        ends_with(
            doctor::token_finding(false),
            "\x1b[2m"@ + "not set (public models only)"@ + "\x1b[0m"@,
        ),
{
    let fine = "\x1b[32m"@ + "OK"@ + "\x1b[0m"@ + " ("@ + text::path_debug_of(dir) + ")"@;
    let p = doctor::lead("[3/7]"@, "python ("@ + crate::cli::table::cell(command, 7) + ")"@);
    assert(doctor::python_finding(command, None) == p + ("\x1b[31m"@ + "MISSING"@ + "\x1b[0m"@
        + " — required for sglang backend"@));
    assert(doctor::sglang_finding(true, None) == doctor::lead("[4/7]"@, "sglang          "@) + (
    "\x1b[2m"@ + "missing"@ + "\x1b[0m"@ + " — install with: pip install sglang"@));
    let e = doctor::lead("[5/7]"@, "llama.cpp       "@);
    assert(doctor::engine_finding(Some(dir), false) == e + ("\x1b[33m"@ + "WARN"@ + "\x1b[0m"@
        + " build/bin/ missing at "@ + text::path_debug_of(dir)));
    assert(doctor::engine_finding(Some(dir), true) == e + fine);
    let m = doctor::lead("[7/7]"@, "Models dir      "@);
    assert(doctor::models_finding(dir, true) == m + fine);
    assert(doctor::models_finding(dir, false) == m + ("\x1b[31m"@ + "WARN"@ + "\x1b[0m"@
        + " — can't create "@ + text::path_debug_of(dir)));
    let t = doctor::lead("[6/7]"@, "HF_TOKEN        "@);
    assert(doctor::token_finding(true) == t + ("\x1b[32m"@ + "set"@ + "\x1b[0m"@ + " ("@
        + "private models accessible"@ + ")"@));
    assert(doctor::token_finding(false) == t + ("\x1b[2m"@ + "not set (public models only)"@
        + "\x1b[0m"@));
}

/// The summary tells both counts, and says that everything is good only where there is
/// no warning.
pub proof fn law_summary_tells_both_counts(ok: u32, warn: u32)
    ensures
        text::is_part(
            number::decimal(ok as nat) + " OK, "@ + number::decimal(warn as nat) + " warning(s)"@,
            doctor::summary_text(ok, warn),
        ),
        warn == 0 ==> ends_with(
            doctor::summary_text(ok, warn),
            "\x1b[32m"@ + "Everything looks good."@ + "\x1b[0m"@,
        ),
        warn > 0 ==> ends_with(
            doctor::summary_text(ok, warn),
            "\x1b[2m"@ + "Review warnings above. Fix each line marked WARN/MISSING."@ + "\x1b[0m"@,
        ),
{
    let t = number::decimal(ok as nat) + " OK, "@ + number::decimal(warn as nat) + " warning(s)"@;
    let s = doctor::summary_text(ok, warn);
    let color = if warn == 0 {
        style::GREEN@
    } else {
        style::YELLOW@
    };
    let n = (color + "\nSummary: "@).len() as int;
    assert(s.subrange(n, n + t.len()) =~= t);
    text::lemma_subrange_is_part(s, n, n + t.len());
    let front = color + ("\nSummary: "@ + t) + style::RESET@ + "\n"@;
    if warn == 0 {
        assert(s =~= front + ("\x1b[32m"@ + "Everything looks good."@ + "\x1b[0m"@));
    } else {
        assert(s =~= front + ("\x1b[2m"@
            + "Review warnings above. Fix each line marked WARN/MISSING."@ + "\x1b[0m"@));
    }
}

/// A finding begins with its number out of seven and with what it is about.
pub proof fn law_findings_are_numbered(
    url: Seq<char>,
    answer: DaemonAnswer,
    command: Seq<char>,
    dir: Seq<char>,
    present: bool,
    built: bool,
)
    ensures
        ("  "@ + ("\x1b[2m"@ + "[1/7]"@ + "\x1b[0m"@) + " "@ + ("Daemon at "@ + url + " "@)
            + "... "@).is_prefix_of(doctor::daemon_finding(url, answer)),
        ("  "@ + ("\x1b[2m"@ + "[2/7]"@ + "\x1b[0m"@) + " "@ + "NVIDIA GPU      "@
            + "... "@).is_prefix_of(doctor::gpu_finding(present, None)),
        ("  "@ + ("\x1b[2m"@ + "[3/7]"@ + "\x1b[0m"@) + " "@ + "python ("@ + command).is_prefix_of(
            doctor::python_finding(command, None),
        ),
        ("  "@ + ("\x1b[2m"@ + "[4/7]"@ + "\x1b[0m"@) + " "@ + "sglang          "@
            + "... "@).is_prefix_of(doctor::sglang_finding(present, None)),
        ("  "@ + ("\x1b[2m"@ + "[5/7]"@ + "\x1b[0m"@) + " "@ + "llama.cpp       "@
            + "... "@).is_prefix_of(doctor::engine_finding(Some(dir), built)),
        ("  "@ + ("\x1b[2m"@ + "[6/7]"@ + "\x1b[0m"@) + " "@ + "HF_TOKEN        "@
            + "... "@).is_prefix_of(doctor::token_finding(present)),
        ("  "@ + ("\x1b[2m"@ + "[7/7]"@ + "\x1b[0m"@) + " "@ + "Models dir      "@
            + "... "@).is_prefix_of(doctor::models_finding(dir, built)),
{
    lemma_lead_is_prefix("[1/7]"@, "Daemon at "@ + url + " "@, doctor::daemon_finding(url, answer));
    let p = "  "@ + ("\x1b[2m"@ + "[3/7]"@ + "\x1b[0m"@) + " "@ + "python ("@ + command;
    let f = doctor::python_finding(command, None);
    assert(f.take(p.len() as int) =~= p);
}

proof fn lemma_lead_is_prefix(n: Seq<char>, about: Seq<char>, finding: Seq<char>)
    requires
        finding.len() >= doctor::lead(n, about).len(),
        finding.take(doctor::lead(n, about).len() as int) == doctor::lead(n, about),
    ensures
        doctor::lead(n, about).is_prefix_of(finding),
{
}

/// What a machine does without is told as no fault.
pub proof fn law_what_can_be_done_without(version: Option<Seq<char>>)
    ensures
        ends_with(
            doctor::gpu_finding(false, None),
            "\x1b[2m"@ + "absent (will run on CPU via llama.cpp)"@ + "\x1b[0m"@,
        ),
        ends_with(
            doctor::gpu_finding(true, None),
            "\x1b[32m"@ + "OK"@ + "\x1b[0m"@ + " ("@ + "GPU offload enabled"@ + ")"@,
        ),
        ends_with(
            doctor::sglang_finding(false, version),
            "\x1b[2m"@ + "skipped (no Python)"@ + "\x1b[0m"@,
        ),
        ends_with(
            doctor::engine_finding(None, false),
            "\x1b[33m"@ + "absent"@ + "\x1b[0m"@
                + " — runs automatically on first use, or run: localllm setup"@,
        ),
{
    let g = doctor::lead("[2/7]"@, "NVIDIA GPU      "@);
    assert(doctor::gpu_finding(false, None) == g + ("\x1b[2m"@
        + "absent (will run on CPU via llama.cpp)"@ + "\x1b[0m"@));
    assert(doctor::gpu_finding(true, None) == g + ("\x1b[32m"@ + "OK"@ + "\x1b[0m"@ + " ("@
        + "GPU offload enabled"@ + ")"@));
    assert(doctor::sglang_finding(false, version) == doctor::lead("[4/7]"@, "sglang          "@) + (
    "\x1b[2m"@ + "skipped (no Python)"@ + "\x1b[0m"@));
    assert(doctor::engine_finding(None, false) == doctor::lead("[5/7]"@, "llama.cpp       "@) + (
    "\x1b[33m"@ + "absent"@ + "\x1b[0m"@
        + " — runs automatically on first use, or run: localllm setup"@));
}

/// Every conversation begins with the system's word to the model.
pub proof fn law_conversation_begins_with_the_system(history: Seq<MessageView>)
    requires
        chat::begins_well(history),
    ensures
        history.len() > 0,
        history[0].role == "system"@,
        history[0].content == chat::SYSTEM_PROMPT@,
{
}

} // verus!
