//! The two stages of a conversion: the engine's script turns weights into a GGUF
//! file of half precision, and its quantizer turns that into the wanted level.
use crate::number;
use crate::paths;
use crate::registry::manifest;
use crate::registry::manifest::{ModelManifest, QuantizationLevel};
use crate::text;
use vstd::prelude::*;
use vstd::string::StringExecFns;

verus! {

broadcast use vstd::string::group_string_axioms;

/// The engine that converts, the directory that its output goes to, and whether paths
/// are those of Windows.
#[derive(Debug)]
pub struct CompressionEngine {
    pub llama_cpp_dir: String,
    pub gguf_dir: String,
    pub windows: bool,
}

/// What a conversion runs, and what it leaves.
#[derive(Debug)]
pub struct ConversionPlan {
    /// The arguments of the interpreter that runs the script.
    pub convert_args: Vec<String>,
    /// The arguments of the quantizer.
    pub quantize_args: Vec<String>,
    /// The file between the two stages, removed at the end.
    pub intermediate: String,
    /// The converted file.
    pub output: String,
}

/// The path of the script that converts weights.
pub open spec fn script_path(dir: Seq<char>, windows: bool) -> Seq<char> {
    paths::joined(dir, "convert_hf_to_gguf.py"@, windows)
}

/// The path of the half precision file of a model.
pub open spec fn half_path(gguf_dir: Seq<char>, alias: Seq<char>, windows: bool) -> Seq<char> {
    paths::joined(gguf_dir, alias + "-F16.gguf"@, windows)
}

/// The path of a model's file of a level.
pub open spec fn level_path(
    gguf_dir: Seq<char>,
    alias: Seq<char>,
    level: QuantizationLevel,
    windows: bool,
) -> Seq<char> {
    paths::joined(gguf_dir, alias + "-"@ + manifest::llama_name(level) + ".gguf"@, windows)
}

/// Why a conversion does not come about.
#[derive(Debug)]
pub enum ConversionError {
    /// The script is not at this path.
    NoScript(String),
    /// There is no quantizer under this directory.
    NoQuantizer(String),
    /// The script failed on this model, for this reason.
    Convert(String, String),
    /// The quantizer failed on this model, for this reason.
    Quantize(String, String),
    /// The file between the stages, at this path, could not be removed, for this
    /// reason.
    CleanUp(String, String),
}

/// Why a conversion does not come about, as a sentence.
pub open spec fn conversion_error_text(e: ConversionError) -> Seq<char> {
    match e {
        ConversionError::NoScript(p) => "convert_hf_to_gguf.py not found at "@ + text::path_debug_of(p@),
        ConversionError::NoQuantizer(d) => "llama-quantize not found under "@ + text::path_debug_of(d@)
            + "/build/bin/"@,
        ConversionError::Convert(a, r) => "convert_hf_to_gguf.py failed for "@ + a@ + ": "@ + r@,
        ConversionError::Quantize(a, r) => "llama-quantize failed for "@ + a@ + ": "@ + r@,
        ConversionError::CleanUp(p, r) => "Failed to remove intermediate F16 "@ + text::path_debug_of(
            p@,
        ) + ": "@ + r@,
    }
}

fn about(what: &str, subject: &str, reason: &str) -> (r: String)
    ensures
        r@ == what@ + subject@ + ": "@ + reason@,
{
    let mut r = String::from_str(what).concat(subject);
    r.append(": ");
    r.append(reason);
    r
}

impl ConversionError {
    /// The error as a sentence.
    pub fn message(&self) -> (r: String)
        ensures
            r@ == conversion_error_text(*self),
    {
        match self {
            ConversionError::NoScript(p) => {
                let shown = text::path_debug(p.as_str());
                String::from_str("convert_hf_to_gguf.py not found at ").concat(shown.as_str())
            },
            ConversionError::NoQuantizer(d) => {
                let shown = text::path_debug(d.as_str());
                let mut r = String::from_str("llama-quantize not found under ").concat(
                    shown.as_str(),
                );
                r.append("/build/bin/");
                r
            },
            ConversionError::Convert(a, why) => about(
                "convert_hf_to_gguf.py failed for ",
                a.as_str(),
                why.as_str(),
            ),
            ConversionError::Quantize(a, why) => about(
                "llama-quantize failed for ",
                a.as_str(),
                why.as_str(),
            ),
            ConversionError::CleanUp(p, why) => {
                let shown = text::path_debug(p.as_str());
                about("Failed to remove intermediate F16 ", shown.as_str(), why.as_str())
            },
        }
    }
}

impl CompressionEngine {
    /// An engine in a directory, with its output in another.
    pub fn new(llama_cpp_dir: String, gguf_dir: String, windows: bool) -> (r: Self)
        ensures
            r.llama_cpp_dir == llama_cpp_dir,
            r.gguf_dir == gguf_dir,
            r.windows == windows,
    {
        CompressionEngine { llama_cpp_dir, gguf_dir, windows }
    }

    /// The path of the script that converts weights.
    pub fn convert_script(&self) -> (r: String)
        ensures
            r@ == script_path(self.llama_cpp_dir@, self.windows),
    {
        paths::join(self.llama_cpp_dir.as_str(), "convert_hf_to_gguf.py", self.windows)
    }

    /// What converting a model to a level runs: the script from the weights to a
    /// half precision file, then the quantizer from that file to the level's.
    pub fn plan(&self, m: &ModelManifest, level: QuantizationLevel) -> (r: ConversionPlan)
        ensures
            r.intermediate@ == half_path(self.gguf_dir@, m@.alias, self.windows),
            r.output@ == level_path(self.gguf_dir@, m@.alias, level, self.windows),
            text::string_texts(r.convert_args@) == seq![
                script_path(self.llama_cpp_dir@, self.windows),
                m@.local_path,
                "--outtype"@,
                "f16"@,
                "--outfile"@,
                half_path(self.gguf_dir@, m@.alias, self.windows),
            ],
            text::string_texts(r.quantize_args@) == seq![
                half_path(self.gguf_dir@, m@.alias, self.windows),
                level_path(self.gguf_dir@, m@.alias, level, self.windows),
                manifest::llama_name(level),
            ],
    {
        let mut half_name = m.alias.clone();
        half_name.append("-F16.gguf");
        let intermediate = paths::join(self.gguf_dir.as_str(), half_name.as_str(), self.windows);
        let mut level_name = m.alias.clone();
        level_name.append("-");
        level_name.append(level.to_llama_str());
        level_name.append(".gguf");
        let output = paths::join(self.gguf_dir.as_str(), level_name.as_str(), self.windows);
        let mut convert_args: Vec<String> = Vec::new();
        convert_args.push(self.convert_script());
        convert_args.push(m.local_path.clone());
        convert_args.push(String::from_str("--outtype"));
        convert_args.push(String::from_str("f16"));
        convert_args.push(String::from_str("--outfile"));
        convert_args.push(intermediate.clone());
        let mut quantize_args: Vec<String> = Vec::new();
        quantize_args.push(intermediate.clone());
        quantize_args.push(output.clone());
        quantize_args.push(String::from_str(level.to_llama_str()));
        assert(text::string_texts(convert_args@) =~= seq![
            script_path(self.llama_cpp_dir@, self.windows),
            m@.local_path,
            "--outtype"@,
            "f16"@,
            "--outfile"@,
            half_path(self.gguf_dir@, m@.alias, self.windows),
        ]);
        assert(text::string_texts(quantize_args@) =~= seq![
            half_path(self.gguf_dir@, m@.alias, self.windows),
            level_path(self.gguf_dir@, m@.alias, level, self.windows),
            manifest::llama_name(level),
        ]);
        ConversionPlan { convert_args, quantize_args, intermediate, output }
    }
}

/// Lines with a line end between them.
pub open spec fn joined_lines(lines: Seq<Seq<char>>) -> Seq<char>
    decreases lines.len(),
{
    if lines.len() == 0 {
        Seq::empty()
    } else if lines.len() == 1 {
        lines[0]
    } else {
        joined_lines(lines.drop_last()) + "\n"@ + lines.last()
    }
}

/// Puts lines together with a line end between them.
pub fn join_lines(lines: &[String]) -> (r: String)
    ensures
        r@ == joined_lines(text::string_texts(lines@)),
{
    let ghost all = text::string_texts(lines@);
    let mut out = String::new();
    let mut i: usize = 0;
    assert(all.take(0) =~= Seq::<Seq<char>>::empty());
    while i < lines.len()
        invariant
            i <= lines@.len(),
            all == text::string_texts(lines@),
            out@ == joined_lines(all.take(i as int)),
        decreases lines@.len() - i,
    {
        let ghost before = out@;
        assert(all.take(i + 1).drop_last() =~= all.take(i as int));
        assert(all[i as int] == lines@[i as int]@);
        if i > 0 {
            out.append("\n");
        }
        out.append(lines[i].as_str());
        assert(out@ =~= joined_lines(all.take(i + 1))) by {
            if i == 0 {
                assert(before =~= Seq::<char>::empty());
                assert(out@ =~= all[0]);
                assert(all.take(1)[0] == all[0]);
            } else {
                assert(out@ =~= before + "\n"@ + all[i as int]);
            }
        }
        i = i + 1;
    }
    assert(all.take(i as int) =~= all);
    out
}

/// The message for a stage that ended badly: its exit code and what it wrote to its
/// error output.
pub fn stage_failed_message(code: Option<i32>, stderr: &[String]) -> (r: String)
    ensures
        r@ == "Process exited with code "@ + number::exit_code_text(code) + "\nStderr:\n"@
            + joined_lines(text::string_texts(stderr@)),
{
    let shown = number::show_exit_code(code);
    let mut r = String::from_str("Process exited with code ").concat(shown.as_str());
    r.append("\nStderr:\n");
    let lines = join_lines(stderr);
    r.append(lines.as_str());
    r
}

// ------------------------------------------------------------------------ laws

/// Cleaning up after a conversion leaves the converted file, unless it is the half
/// precision one.
pub proof fn law_clean_up_leaves_the_output(
    gguf_dir: Seq<char>,
    alias: Seq<char>,
    level: QuantizationLevel,
    windows: bool,
)
    requires
        level != QuantizationLevel::F16,
    ensures
        half_path(gguf_dir, alias, windows) != level_path(gguf_dir, alias, level, windows),
{
    reveal_strlit("-F16.gguf");
    reveal_strlit("-");
    reveal_strlit(".gguf");
    reveal_strlit("Q4_0");
    reveal_strlit("Q4_K_M");
    reveal_strlit("Q5_K_M");
    reveal_strlit("Q6_K");
    reveal_strlit("Q8_0");
    reveal_strlit("F32");
    let half = alias + "-F16.gguf"@;
    let other = alias + "-"@ + manifest::llama_name(level) + ".gguf"@;
    let name = manifest::llama_name(level);
    let n = alias.len() as int;
    assert(half[n] == '-');
    assert(half[n + 1] == 'F');
    assert(half[n + 2] == '1');
    assert(other[n] == '-');
    assert(other[n + 1] == name[0]);
    assert(other[n + 2] == name[1]);
    assert(name[0] != 'F' || name[1] != '1');
    assert(half != other);
    let x = "-F16.gguf"@;
    let y = "-"@ + name + ".gguf"@;
    assert(half =~= alias + x);
    assert(other =~= alias + y);
    assert forall|i: int| 0 <= i < x.len() implies !paths::is_separator(
        #[trigger] x[i],
        true,
    ) by {}
    assert forall|i: int| 0 <= i < y.len() implies !paths::is_separator(
        #[trigger] y[i],
        true,
    ) by {}
    paths::lemma_join_tells_names_apart(gguf_dir, alias, x, y, windows);
}

} // verus!
