//! What the commands decide: what has to be downloaded before a chat, what a
//! deletion needs, where the program is installed, and what is printed.
use crate::api::json;
use crate::api::json::{Json, JsonView};
use crate::paths;
use crate::platform;
use crate::registry::manifest;
use crate::registry::manifest::alias_from_repo_id;
use crate::registry::modelfile;
use crate::text;
use vstd::prelude::*;
use vstd::string::StringExecFns;

verus! {

broadcast use {vstd::string::group_string_axioms, crate::api::json::lemma_json_view};

// -------------------------------------------------------------------- messages

/// The message for a command that the daemon refused. `status` is the status as
/// text, such as `404 Not Found`.
pub fn refused_message(what: &str, status: &str, body: &str) -> (r: String)
    ensures
        r@ == what@ + " failed ("@ + status@ + "): "@ + body@,
{
    let mut r = String::from_str(what).concat(" failed (");
    r.append(status);
    r.append("): ");
    r.append(body);
    r
}

/// Whether a deletion was confirmed, given the answer in lower case with no space
/// around it.
pub fn is_yes(lower: &str) -> (r: bool)
    ensures
        r == (lower@ == "y"@),
{
    text::same_text(lower, "y")
}

/// Whether an answer confirms a deletion: a `y`, in either case.
pub fn confirms(answer: &str) -> (r: bool)
    ensures
        r == (text::lowercase_of(text::trimmed(answer@)) == "y"@),
{
    let chars = text::chars_of(answer);
    let trimmed = text::string_of(text::trim(chars.as_slice()));
    let lower = trimmed.to_lowercase();
    is_yes(lower.as_str())
}

// ------------------------------------------------------------------ before a run

/// The first model of a list with an alias, from position `i` on.
pub open spec fn listed_from(models: Seq<JsonView>, alias: Seq<char>, i: int) -> Option<JsonView>
    decreases models.len() - i,
{
    if i < 0 || i >= models.len() {
        None
    } else if json::string_in(json::member(models[i], "alias"@)) == Some(alias) {
        Some(models[i])
    } else {
        listed_from(models, alias, i + 1)
    }
}

/// Finds a model of a list by its alias.
pub fn find_listed<'a>(models: &'a [Json], alias: &str) -> (r: Option<&'a Json>)
    ensures
        json::view_option(r) == listed_from(json::element_views(models@), alias@, 0),
{
    let ghost all = json::element_views(models@);
    let mut i: usize = 0;
    while i < models.len()
        invariant
            i <= models@.len(),
            all == json::element_views(models@),
            listed_from(all, alias@, i as int) == listed_from(all, alias@, 0),
        decreases models@.len() - i,
    {
        assert(all[i as int] == models@[i as int]@);
        if let Some(a) = models[i].get_str("alias") {
            if text::same_text(a.as_str(), alias) {
                return Some(&models[i]);
            }
        }
        i = i + 1;
    }
    None
}

/// What has to happen before a model runs on a machine with no GPU.
#[derive(Debug)]
pub enum RunPlan {
    /// Its GGUF file is there, at this path where that is known.
    Cached(Option<String>),
    /// A GGUF file has to be downloaded.
    Download,
    /// Nothing: the model is not known here.
    Unknown,
}

/// A model has a GGUF file: its path is told, or its format is that.
pub open spec fn has_gguf(m: JsonView) -> bool {
    json::string_in(json::member(m, "gguf_path"@)) is Some || json::string_in(
        json::member(m, "weight_format"@),
    ) == Some("GGUF"@)
}

/// Decides what has to happen before a model runs on a machine with no GPU, given
/// the models that the daemon lists.
pub fn plan_run(models: &[Json], model: &str) -> (r: RunPlan)
    ensures
        match listed_from(json::element_views(models@), model@, 0) {
            Some(m) => if has_gguf(m) {
                r matches RunPlan::Cached(p) && modelfile::text_option(p) == json::string_in(
                    json::member(m, "gguf_path"@),
                )
            } else {
                r is Download
            },
            None => r is Unknown,
        },
{
    match find_listed(models, model) {
        Some(m) => match m.get_str("gguf_path") {
            Some(p) => RunPlan::Cached(Some(p.clone())),
            None => match m.get_str("weight_format") {
                Some(f) => {
                    if text::same_text(f.as_str(), "GGUF") {
                        RunPlan::Cached(None)
                    } else {
                        RunPlan::Download
                    }
                },
                None => RunPlan::Download,
            },
        },
        None => RunPlan::Unknown,
    }
}

/// What is printed of a plan.
pub open spec fn plan_text(plan: RunPlan) -> Option<Seq<char>> {
    match plan {
        RunPlan::Cached(Some(p)) => Some("Using cached GGUF: "@ + p@),
        RunPlan::Cached(None) => Some("Using cached GGUF model."@),
        RunPlan::Download => Some(
            "No GPU detected and model has no GGUF — pulling Q4_K_M quantized file..."@,
        ),
        RunPlan::Unknown => None,
    }
}

impl RunPlan {
    /// What is printed of the plan.
    pub fn message(&self) -> (r: Option<String>)
        ensures
            modelfile::text_option(r) == plan_text(*self),
    {
        match self {
            RunPlan::Cached(p) => match p {
                Some(p) => Some(String::from_str("Using cached GGUF: ").concat(p.as_str())),
                None => Some(String::from_str("Using cached GGUF model.")),
            },
            RunPlan::Download => Some(
                String::from_str(
                    "No GPU detected and model has no GGUF — pulling Q4_K_M quantized file...",
                ),
            ),
            RunPlan::Unknown => None,
        }
    }
}

// ----------------------------------------------------------------- before a chat

/// A target is a repository: it has an organisation.
pub open spec fn is_repo(target: Seq<char>) -> bool {
    target.contains('/')
}

/// The alias that a chat is about, given the alias that a repository's model gets.
pub open spec fn chat_alias(target: Seq<char>, derived: Seq<char>) -> Seq<char> {
    if is_repo(target) {
        derived
    } else {
        target
    }
}

/// What has to happen before a chat.
#[derive(Debug)]
pub struct ChatPlan {
    /// The model to chat with.
    pub alias: String,
    /// The download that it needs, if any, with the level to fetch, if any.
    pub download: Option<Option<String>>,
}

/// The level that a chat's download fetches: the one asked for, else the usual one
/// where there is no GPU.
pub open spec fn chat_level(requested: Option<Seq<char>>, has_gpu: bool) -> Option<Seq<char>> {
    match requested {
        Some(q) => Some(q),
        None => if has_gpu {
            None
        } else {
            Some("Q4_K_M"@)
        },
    }
}

/// The alias of a chat's target.
pub fn alias_for_chat(target: &str) -> (r: String)
    ensures
        r@ == chat_alias(
            target@,
            manifest::dashed(text::lowercase_of(manifest::last_component(target@))),
        ),
{
    let chars = text::chars_of(target);
    if text::contains_char(chars.as_slice(), '/') {
        alias_from_repo_id(target)
    } else {
        String::from_str(target)
    }
}

/// Decides what has to happen before a chat, given the alias that it is about, the
/// models that the daemon lists, and whether there is a GPU. A repository that is
/// not there is downloaded; a name that is neither there nor a repository is
/// refused.
pub fn plan_chat(
    target: &str,
    alias: &str,
    models: &[Json],
    requested: Option<&str>,
    has_gpu: bool,
) -> (r: Result<ChatPlan, String>)
    ensures
        ({
            let there = listed_from(json::element_views(models@), alias@, 0) is Some;
            match r {
                Ok(p) => (there || is_repo(target@)) && p.alias@ == alias@ && if there {
                    p.download is None
                } else {
                    p.download matches Some(q) && modelfile::text_option(q) == chat_level(
                        text::text_of(requested),
                        has_gpu,
                    )
                },
                Err(e) => !there && !is_repo(target@) && e@ == "'"@ + target@
                    + "' is not a HuggingFace repo path and isn't pulled locally. Try `localllm chat org/ModelName` instead."@,
            }
        }),
{
    let there: bool = find_listed(models, alias).is_some();
    if there {
        return Ok(ChatPlan { alias: String::from_str(alias), download: None });
    }
    let chars = text::chars_of(target);
    if text::contains_char(chars.as_slice(), '/') {
        let level: Option<String> = match requested {
            Some(q) => Some(String::from_str(q)),
            None => {
                if has_gpu {
                    None
                } else {
                    Some(String::from_str("Q4_K_M"))
                }
            },
        };
        Ok(ChatPlan { alias: String::from_str(alias), download: Some(level) })
    } else {
        let mut message = String::from_str("'").concat(target);
        message.append(
            "' is not a HuggingFace repo path and isn't pulled locally. Try `localllm chat org/ModelName` instead.",
        );
        Err(message)
    }
}

/// What is printed of the level that a chat's download fetches.
pub fn quantize_notice(level: &str) -> (r: String)
    ensures
        r@ == "(no GPU detected — will quantize to "@ + level@ + ")"@,
{
    let mut r = String::from_str("(no GPU detected — will quantize to ").concat(level);
    r.append(")");
    r
}

// --------------------------------------------------------------------- install

/// The directory that the program is installed to.
pub open spec fn install_path(
    windows: bool,
    app_data: Option<Seq<char>>,
    home: Option<Seq<char>>,
) -> Seq<char> {
    let h = match home {
        Some(p) => p,
        None => Seq::empty(),
    };
    if windows {
        let base = match app_data {
            Some(p) => p,
            None => h,
        };
        paths::joined(paths::joined(base, "localllm"@, windows), "bin"@, windows)
    } else {
        paths::joined(paths::joined(h, ".local"@, windows), "bin"@, windows)
    }
}

/// The directory that the program is installed to: below the user's program data on
/// Windows, else below the home directory.
pub fn install_dir(windows: bool, app_data: Option<&str>, home: Option<&str>) -> (r: String)
    ensures
        r@ == install_path(windows, text::text_of(app_data), text::text_of(home)),
{
    proof {
        reveal_strlit("");
        assert(""@ =~= Seq::<char>::empty());
    }
    let h: &str = match home {
        Some(p) => p,
        None => "",
    };
    if windows {
        let base: &str = match app_data {
            Some(p) => p,
            None => h,
        };
        let own = paths::join(base, "localllm", windows);
        paths::join(own.as_str(), "bin", windows)
    } else {
        let local = paths::join(h, ".local", windows);
        paths::join(local.as_str(), "bin", windows)
    }
}

/// The path of the installed program.
pub fn install_dest(dir: &str, windows: bool) -> (r: String)
    ensures
        r@ == paths::joined(dir@, platform::exe_name_on("localllm"@, windows), windows),
{
    let name = platform::exe_name_for("localllm", windows);
    paths::join(dir, name.as_str(), windows)
}

/// What is printed after the installation: how to get the directory onto the path
/// where it is not on it.
pub open spec fn path_hint_text(windows: bool, dir: Seq<char>, on_path: bool) -> Seq<char> {
    if on_path {
        "You can now run `localllm` from anywhere."@
    } else if windows {
        "\nAdd it to PATH (PowerShell, one time):\n  setx PATH \"$env:PATH;"@ + dir + "\""@
    } else {
        "\nAdd it to PATH (one time):\n  echo 'export PATH=\"$PATH:"@ + dir
            + "\"' >> ~/.bashrc && source ~/.bashrc"@
    }
}

/// What is printed after the installation.
pub fn path_hint(windows: bool, dir: &str, on_path: bool) -> (r: String)
    ensures
        r@ == path_hint_text(windows, dir@, on_path),
{
    if on_path {
        String::from_str("You can now run `localllm` from anywhere.")
    } else if windows {
        let mut r = String::from_str(
            "\nAdd it to PATH (PowerShell, one time):\n  setx PATH \"$env:PATH;",
        ).concat(dir);
        r.append("\"");
        r
    } else {
        let mut r = String::from_str(
            "\nAdd it to PATH (one time):\n  echo 'export PATH=\"$PATH:",
        ).concat(dir);
        r.append("\"' >> ~/.bashrc && source ~/.bashrc");
        r
    }
}

// ------------------------------------------------------------------------ laws

/// What a chat downloads on a machine with no GPU is a file that runs on it; with one
/// it is what was asked for, or the full weights.
pub proof fn law_chat_level(requested: Option<Seq<char>>)
    ensures
        chat_level(requested, false) is Some,
        requested is Some ==> chat_level(requested, true) == requested,
        requested is None ==> chat_level(requested, true) is None,
{
}

} // verus!
