//! The decisions that depend on the operating system: executable names, where a
//! built engine's binaries are, which Python to run.
use crate::paths;
use crate::text;
use vstd::prelude::*;
use vstd::string::StringExecFns;

verus! {

/// `std::path::is_separator` of the backslash, which separates path components
/// on Windows only. Nothing is claimed of the result: it depends on the system.
#[verifier::external_body]
pub(crate) fn backslash_separates() -> (r: bool) {
    std::path::is_separator('\\')
}

/// The name of an executable on Windows or elsewhere.
pub open spec fn exe_name_on(stem: Seq<char>, windows: bool) -> Seq<char> {
    if windows {
        stem + ".exe"@
    } else {
        stem
    }
}

/// The name of an executable on Windows or elsewhere.
pub fn exe_name_for(stem: &str, windows: bool) -> (r: String)
    ensures
        r@ == exe_name_on(stem@, windows),
{
    let mut out = String::from_str(stem);
    if windows {
        out.append(".exe");
    }
    out
}

/// Appends the suffix that this system's executables have, if any.
pub fn exe_name(stem: &str) -> (r: String)
    ensures
        exists|windows: bool| r@ == #[trigger] exe_name_on(stem@, windows),
{
    let windows: bool = backslash_separates();
    exe_name_for(stem, windows)
}

/// Where a binary of a built engine may be: in `build/bin`, under its name with
/// the system's suffix, then under its bare name.
pub open spec fn binary_paths(
    llama_cpp_dir: Seq<char>,
    stem: Seq<char>,
    windows: bool,
) -> Seq<Seq<char>> {
    let bin = paths::joined(paths::joined(llama_cpp_dir, "build"@, windows), "bin"@, windows);
    seq![paths::joined(bin, exe_name_on(stem, windows), windows), paths::joined(bin, stem, windows)]
}

/// Where a binary of a built engine may be, in the order of preference.
pub fn binary_candidates(llama_cpp_dir: &str, stem: &str, windows: bool) -> (r: Vec<String>)
    ensures
        text::string_texts(r@) == binary_paths(llama_cpp_dir@, stem@, windows),
{
    let build = paths::join(llama_cpp_dir, "build", windows);
    let bin = paths::join(build.as_str(), "bin", windows);
    let named = exe_name_for(stem, windows);
    let mut out: Vec<String> = Vec::new();
    out.push(paths::join(bin.as_str(), named.as_str(), windows));
    out.push(paths::join(bin.as_str(), stem, windows));
    assert(text::string_texts(out@) =~= binary_paths(llama_cpp_dir@, stem@, windows));
    out
}

/// The first of some choices that is among those available.
pub open spec fn first_available(
    choices: Seq<Seq<char>>,
    available: Seq<Seq<char>>,
) -> Option<Seq<char>>
    decreases choices.len(),
{
    if choices.len() == 0 {
        None
    } else if available.contains(choices[0]) {
        Some(choices[0])
    } else {
        first_available(choices.skip(1), available)
    }
}

fn holds_text(available: &[String], t: &str) -> (r: bool)
    ensures
        r == text::string_texts(available@).contains(t@),
{
    let ghost all = text::string_texts(available@);
    let mut i: usize = 0;
    while i < available.len()
        invariant
            i <= available@.len(),
            all == text::string_texts(available@),
            forall|j: int| 0 <= j < i ==> #[trigger] all[j] != t@,
        decreases available@.len() - i,
    {
        if text::same_text(available[i].as_str(), t) {
            assert(all[i as int] == t@);
            return true;
        }
        i = i + 1;
    }
    false
}

/// Picks the first choice that is available.
pub fn pick_available(choices: &[String], available: &[String]) -> (r: Option<String>)
    ensures
        match r {
            Some(s) => first_available(
                text::string_texts(choices@),
                text::string_texts(available@),
            ) == Some(s@),
            None => first_available(
                text::string_texts(choices@),
                text::string_texts(available@),
            ) is None,
        },
{
    let ghost all = text::string_texts(choices@);
    let ghost there = text::string_texts(available@);
    let mut i: usize = 0;
    assert(all.skip(0) == all);
    while i < choices.len()
        invariant
            i <= choices@.len(),
            all == text::string_texts(choices@),
            there == text::string_texts(available@),
            first_available(all, there) == first_available(all.skip(i as int), there),
        decreases choices@.len() - i,
    {
        assert(all.skip(i as int).skip(1) == all.skip(i + 1));
        assert(all.skip(i as int)[0] == choices@[i as int]@);
        if holds_text(available, choices[i].as_str()) {
            return Some(choices[i].clone());
        }
        i = i + 1;
    }
    None
}

/// Resolves a binary of a built engine, given which of its candidate paths
/// exist: the first that does.
pub fn resolve_llama_binary(
    llama_cpp_dir: &str,
    stem: &str,
    windows: bool,
    existing: &[String],
) -> (r: Option<String>)
    ensures
        match r {
            Some(p) => first_available(
                binary_paths(llama_cpp_dir@, stem@, windows),
                text::string_texts(existing@),
            ) == Some(p@),
            None => first_available(
                binary_paths(llama_cpp_dir@, stem@, windows),
                text::string_texts(existing@),
            ) is None,
        },
{
    let candidates = binary_candidates(llama_cpp_dir, stem, windows);
    pick_available(candidates.as_slice(), existing)
}

/// The Python commands to try, best first.
pub open spec fn python_names(windows: bool) -> Seq<Seq<char>> {
    if windows {
        seq!["python"@, "py"@, "python3"@]
    } else {
        seq!["python3"@, "python"@]
    }
}

/// The Python commands to try, best first.
pub fn python_candidates(windows: bool) -> (r: Vec<String>)
    ensures
        text::string_texts(r@) == python_names(windows),
{
    let mut out: Vec<String> = Vec::new();
    if windows {
        out.push(String::from_str("python"));
        out.push(String::from_str("py"));
        out.push(String::from_str("python3"));
    } else {
        out.push(String::from_str("python3"));
        out.push(String::from_str("python"));
    }
    assert(text::string_texts(out@) =~= python_names(windows));
    out
}

/// The Python command to run, given which commands answered: the first that did,
/// or else the system's usual one.
pub open spec fn chosen_python(windows: bool, answering: Seq<Seq<char>>) -> Seq<char> {
    match first_available(python_names(windows), answering) {
        Some(c) => c,
        None => python_names(windows)[0],
    }
}

/// Picks the Python command to run, given which commands answered.
pub fn python_command(windows: bool, answering: &[String]) -> (r: String)
    ensures
        r@ == chosen_python(windows, text::string_texts(answering@)),
{
    let candidates = python_candidates(windows);
    assert(candidates@.len() == text::string_texts(candidates@).len());
    assert(text::string_texts(candidates@)[0] == candidates@[0]@);
    match pick_available(candidates.as_slice(), answering) {
        Some(c) => c,
        None => candidates[0].clone(),
    }
}

/// A choice that is picked is one of the choices, and available.
pub proof fn law_pick_is_available(choices: Seq<Seq<char>>, available: Seq<Seq<char>>)
    ensures
        match first_available(choices, available) {
            Some(c) => choices.contains(c) && available.contains(c),
            None => forall|i: int|
                0 <= i < choices.len() ==> !available.contains(#[trigger] choices[i]),
        },
    decreases choices.len(),
{
    if choices.len() > 0 && !available.contains(choices[0]) {
        let rest = choices.skip(1);
        law_pick_is_available(rest, available);
        if let Some(c) = first_available(rest, available) {
            let i = choose|i: int| 0 <= i < rest.len() && rest[i] == c;
            assert(choices[i + 1] == c);
        } else {
            assert forall|i: int| 0 <= i < choices.len() implies !available.contains(
                #[trigger] choices[i],
            ) by {
                if i > 0 {
                    assert(choices[i] == rest[i - 1]);
                }
            }
        }
    }
}

/// There is always a Python command to run.
pub proof fn law_python_command_is_not_empty(windows: bool, answering: Seq<Seq<char>>)
    ensures
        chosen_python(windows, answering).len() > 0,
{
    reveal_strlit("python");
    reveal_strlit("py");
    reveal_strlit("python3");
    law_pick_is_available(python_names(windows), answering);
    if let Some(c) = first_available(python_names(windows), answering) {
        let i = choose|i: int| 0 <= i < python_names(windows).len() && python_names(windows)[i] == c;
        assert(python_names(windows)[i].len() > 0);
    }
}

} // verus!
