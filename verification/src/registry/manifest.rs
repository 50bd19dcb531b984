//! Model manifests: weight formats, quantization levels, naming rules, and the
//! registry of all models.
use crate::registry::alias_map::AliasMap;
use crate::registry::modelfile::{Modelfile, ModelfileView};
use crate::text;
use crate::time::{from_unix, Timestamp, MAX_SECS, MIN_SECS};
use vstd::prelude::*;
use vstd::slice::slice_subrange;
use vstd::string::StringExecFns;

verus! {

broadcast use vstd::string::group_string_axioms;

// --------------------------------------------------------------- quantization

/// The storage format of model weights.
#[derive(Debug, Clone, Copy, PartialEq, Eq, Structural)]
pub enum WeightFormat {
    Safetensors,
    GGUF,
    PyTorch,
}

/// The name of a weight format.
pub open spec fn format_name(f: WeightFormat) -> Seq<char> {
    match f {
        WeightFormat::Safetensors => "Safetensors"@,
        WeightFormat::GGUF => "GGUF"@,
        WeightFormat::PyTorch => "PyTorch"@,
    }
}

/// The name of a weight format in lower case.
pub open spec fn format_lower_name(f: WeightFormat) -> Seq<char> {
    match f {
        WeightFormat::Safetensors => "safetensors"@,
        WeightFormat::GGUF => "gguf"@,
        WeightFormat::PyTorch => "pytorch"@,
    }
}

impl WeightFormat {
    /// The name of the format.
    pub fn name(&self) -> (r: &'static str)
        ensures
            r@ == format_name(*self),
    {
        match self {
            WeightFormat::Safetensors => "Safetensors",
            WeightFormat::GGUF => "GGUF",
            WeightFormat::PyTorch => "PyTorch",
        }
    }

    /// The name of the format in lower case.
    pub fn lower_name(&self) -> (r: &'static str)
        ensures
            r@ == format_lower_name(*self),
    {
        match self {
            WeightFormat::Safetensors => "safetensors",
            WeightFormat::GGUF => "gguf",
            WeightFormat::PyTorch => "pytorch",
        }
    }
}

/// The quantization levels, smallest to largest.
#[derive(Debug, Clone, Copy, PartialEq, Eq, Structural)]
pub enum QuantizationLevel {
    Q4_0,
    Q4KM,
    Q5KM,
    Q6K,
    Q8_0,
    F16,
    F32,
}

/// The canonical name of a level.
pub open spec fn llama_name(level: QuantizationLevel) -> Seq<char> {
    match level {
        QuantizationLevel::Q4_0 => "Q4_0"@,
        QuantizationLevel::Q4KM => "Q4_K_M"@,
        QuantizationLevel::Q5KM => "Q5_K_M"@,
        QuantizationLevel::Q6K => "Q6_K"@,
        QuantizationLevel::Q8_0 => "Q8_0"@,
        QuantizationLevel::F16 => "F16"@,
        QuantizationLevel::F32 => "F32"@,
    }
}

/// The level with the given upper case name, canonical or without underscores.
pub open spec fn level_named(s: Seq<char>) -> Option<QuantizationLevel> {
    if s == "Q4_0"@ {
        Some(QuantizationLevel::Q4_0)
    } else if s == "Q4_K_M"@ || s == "Q4KM"@ {
        Some(QuantizationLevel::Q4KM)
    } else if s == "Q5_K_M"@ || s == "Q5KM"@ {
        Some(QuantizationLevel::Q5KM)
    } else if s == "Q6_K"@ || s == "Q6K"@ {
        Some(QuantizationLevel::Q6K)
    } else if s == "Q8_0"@ {
        Some(QuantizationLevel::Q8_0)
    } else if s == "F16"@ {
        Some(QuantizationLevel::F16)
    } else if s == "F32"@ {
        Some(QuantizationLevel::F32)
    } else {
        None
    }
}

/// The level whose canonical name stands in an upper case file name; where
/// several do, the first of `Q4_K_M`, `Q5_K_M`, `Q6_K`, `Q8_0`, `Q4_0`, `F16`,
/// `F32`.
pub open spec fn level_in(name: Seq<char>) -> Option<QuantizationLevel> {
    if text::contains_text(name, "Q4_K_M"@) {
        Some(QuantizationLevel::Q4KM)
    } else if text::contains_text(name, "Q5_K_M"@) {
        Some(QuantizationLevel::Q5KM)
    } else if text::contains_text(name, "Q6_K"@) {
        Some(QuantizationLevel::Q6K)
    } else if text::contains_text(name, "Q8_0"@) {
        Some(QuantizationLevel::Q8_0)
    } else if text::contains_text(name, "Q4_0"@) {
        Some(QuantizationLevel::Q4_0)
    } else if text::contains_text(name, "F16"@) {
        Some(QuantizationLevel::F16)
    } else if text::contains_text(name, "F32"@) {
        Some(QuantizationLevel::F32)
    } else {
        None
    }
}

/// The bits that a weight takes at a level.
pub open spec fn level_bits(level: QuantizationLevel) -> u32 {
    match level {
        QuantizationLevel::Q4_0 => 4,
        QuantizationLevel::Q4KM => 4,
        QuantizationLevel::Q5KM => 5,
        QuantizationLevel::Q6K => 6,
        QuantizationLevel::Q8_0 => 8,
        QuantizationLevel::F16 => 16,
        QuantizationLevel::F32 => 32,
    }
}

impl QuantizationLevel {
    /// The canonical name.
    pub fn to_llama_str(&self) -> (r: &'static str)
        ensures
            r@ == llama_name(*self),
    {
        match self {
            QuantizationLevel::Q4_0 => "Q4_0",
            QuantizationLevel::Q4KM => "Q4_K_M",
            QuantizationLevel::Q5KM => "Q5_K_M",
            QuantizationLevel::Q6K => "Q6_K",
            QuantizationLevel::Q8_0 => "Q8_0",
            QuantizationLevel::F16 => "F16",
            QuantizationLevel::F32 => "F32",
        }
    }

    /// The bits per weight: eight times the bytes per parameter.
    pub fn bits_per_param(&self) -> (r: u32)
        ensures
            r == level_bits(*self),
    {
        match self {
            QuantizationLevel::Q4_0 => 4,
            QuantizationLevel::Q4KM => 4,
            QuantizationLevel::Q5KM => 5,
            QuantizationLevel::Q6K => 6,
            QuantizationLevel::Q8_0 => 8,
            QuantizationLevel::F16 => 16,
            QuantizationLevel::F32 => 32,
        }
    }

    /// Parses a quantization name, in either style and any case.
    pub fn from_str(s: &str) -> (r: Option<Self>)
        ensures
            r == level_named(text::uppercase_of(s@)),
    {
        let upper = s.to_uppercase();
        QuantizationLevel::from_upper(upper.as_str())
    }

    /// The level with the given upper case name, in either style.
    pub fn from_upper(s: &str) -> (r: Option<Self>)
        ensures
            r == level_named(s@),
    {
        if text::same_text(s, "Q4_0") {
            Some(QuantizationLevel::Q4_0)
        } else if text::same_text(s, "Q4_K_M") || text::same_text(s, "Q4KM") {
            Some(QuantizationLevel::Q4KM)
        } else if text::same_text(s, "Q5_K_M") || text::same_text(s, "Q5KM") {
            Some(QuantizationLevel::Q5KM)
        } else if text::same_text(s, "Q6_K") || text::same_text(s, "Q6K") {
            Some(QuantizationLevel::Q6K)
        } else if text::same_text(s, "Q8_0") {
            Some(QuantizationLevel::Q8_0)
        } else if text::same_text(s, "F16") {
            Some(QuantizationLevel::F16)
        } else if text::same_text(s, "F32") {
            Some(QuantizationLevel::F32)
        } else {
            None
        }
    }

    /// Infers the level from a file name, in any case.
    pub fn from_filename(name: &str) -> (r: Option<Self>)
        ensures
            r == level_in(text::uppercase_of(name@)),
    {
        let upper = name.to_uppercase();
        QuantizationLevel::in_upper(upper.as_str())
    }

    /// The level whose canonical name stands in an upper case file name.
    pub fn in_upper(name: &str) -> (r: Option<Self>)
        ensures
            r == level_in(name@),
    {
        let chars = text::chars_of(name);
        let n: &[char] = chars.as_slice();
        if text::contains(n, "Q4_K_M") {
            Some(QuantizationLevel::Q4KM)
        } else if text::contains(n, "Q5_K_M") {
            Some(QuantizationLevel::Q5KM)
        } else if text::contains(n, "Q6_K") {
            Some(QuantizationLevel::Q6K)
        } else if text::contains(n, "Q8_0") {
            Some(QuantizationLevel::Q8_0)
        } else if text::contains(n, "Q4_0") {
            Some(QuantizationLevel::Q4_0)
        } else if text::contains(n, "F16") {
            Some(QuantizationLevel::F16)
        } else if text::contains(n, "F32") {
            Some(QuantizationLevel::F32)
        } else {
            None
        }
    }
}

/// Every level is read back from its canonical name.
pub proof fn law_level_names_round_trip(level: QuantizationLevel)
    ensures
        level_named(text::uppercase_of(llama_name(level))) == Some(level),
{
    lemma_names_are_upper(level);
    reveal_strlit("Q4_0");
    reveal_strlit("Q4_K_M");
    reveal_strlit("Q5_K_M");
    reveal_strlit("Q6_K");
    reveal_strlit("Q8_0");
    reveal_strlit("F16");
    reveal_strlit("F32");
    reveal_strlit("Q4KM");
    reveal_strlit("Q5KM");
    reveal_strlit("Q6K");
    assert("Q4_0"@.len() == 4);
    assert("Q4_K_M"@.len() == 6);
    assert("Q5_K_M"@.len() == 6);
    assert("Q6_K"@.len() == 4);
    assert("Q8_0"@.len() == 4);
    assert("F16"@.len() == 3);
    assert("F32"@.len() == 3);
    assert("Q4KM"@.len() == 4);
    assert("Q5KM"@.len() == 4);
    assert("Q6K"@.len() == 3);
    assert("Q4_0"@[2] != "Q4KM"@[2]);
    assert("Q4_0"@[1] != "Q5KM"@[1]);
    assert("Q4_0"@[1] != "Q6_K"@[1]);
    assert("Q4_0"@[1] != "Q8_0"@[1]);
    assert("Q4KM"@[1] != "Q5KM"@[1]);
    assert("Q4KM"@[1] != "Q6_K"@[1]);
    assert("Q4KM"@[1] != "Q8_0"@[1]);
    assert("Q5KM"@[1] != "Q6_K"@[1]);
    assert("Q5KM"@[1] != "Q8_0"@[1]);
    assert("Q6_K"@[1] != "Q8_0"@[1]);
    assert("Q4_K_M"@[1] != "Q5_K_M"@[1]);
    assert("Q6K"@[0] != "F16"@[0]);
    assert("Q6K"@[0] != "F32"@[0]);
    assert("F16"@[1] != "F32"@[1]);
}

proof fn lemma_names_are_upper(level: QuantizationLevel)
    ensures
        text::uppercase_of(llama_name(level)) == llama_name(level),
{
    reveal_strlit("Q4_0");
    reveal_strlit("Q4_K_M");
    reveal_strlit("Q5_K_M");
    reveal_strlit("Q6_K");
    reveal_strlit("Q8_0");
    reveal_strlit("F16");
    reveal_strlit("F32");
    let name = llama_name(level);
    assert(forall|i: int| 0 <= i < name.len() ==> #[trigger] name[i] < 'a');
    assert(text::ascii_upper(name) =~= name);
}

/// The case of a level's name does not matter.
pub proof fn law_level_names_ignore_case(a: Seq<char>, b: Seq<char>)
    requires
        text::is_ascii_text(a),
        text::is_ascii_text(b),
        text::ascii_upper(a) == text::ascii_upper(b),
    ensures
        level_named(text::uppercase_of(a)) == level_named(text::uppercase_of(b)),
        level_in(text::uppercase_of(a)) == level_in(text::uppercase_of(b)),
{
}

/// A file name with the canonical name of `Q4_K_M` in it is never taken for
/// another level.
pub proof fn law_most_specific_level_wins(name: Seq<char>)
    requires
        text::contains_text(name, llama_name(QuantizationLevel::Q4KM)),
    ensures
        level_in(name) == Some(QuantizationLevel::Q4KM),
{
}

/// The order of the levels, smallest to largest.
pub open spec fn level_rank(level: QuantizationLevel) -> int {
    match level {
        QuantizationLevel::Q4_0 => 0,
        QuantizationLevel::Q4KM => 1,
        QuantizationLevel::Q5KM => 2,
        QuantizationLevel::Q6K => 3,
        QuantizationLevel::Q8_0 => 4,
        QuantizationLevel::F16 => 5,
        QuantizationLevel::F32 => 6,
    }
}

/// A larger level never takes fewer bits per weight, and from `Q4_K_M` on it
/// takes more.
pub proof fn law_levels_grow(a: QuantizationLevel, b: QuantizationLevel)
    requires
        level_rank(a) < level_rank(b),
    ensures
        level_bits(a) <= level_bits(b),
        a != QuantizationLevel::Q4_0 ==> level_bits(a) < level_bits(b),
{
}

// --------------------------------------------------------------------- naming

/// What follows the last slash.
pub open spec fn last_component(s: Seq<char>) -> Seq<char>
    decreases s.len(),
{
    match text::char_from(s, '/', 0) {
        Some(i) => if 0 <= i < s.len() {
            last_component(s.skip(i + 1))
        } else {
            s
        },
        None => s,
    }
}

/// What follows the last slash.
pub fn after_last_slash(s: &[char]) -> (r: &[char])
    ensures
        r@ == last_component(s@),
{
    let mut rest: &[char] = s;
    loop
        invariant
            last_component(rest@) == last_component(s@),
        decreases rest@.len(),
    {
        let n: usize = rest.len();
        match text::find_char_from(rest, '/', 0) {
            Some(i) => {
                rest = slice_subrange(rest, i + 1, n);
            },
            None => {
                return rest;
            },
        }
    }
}

/// A lower case name as an alias: dots and spaces become hyphens.
pub open spec fn dashed(s: Seq<char>) -> Seq<char> {
    text::replaced_chars(s, seq!['.', ' '], "-"@)
}

/// Turns a lower case name into an alias.
pub fn dash_name(lower: &str) -> (r: String)
    ensures
        r@ == dashed(lower@),
{
    let chars = text::chars_of(lower);
    let set: [char; 2] = ['.', ' '];
    assert(set@ == seq!['.', ' ']);
    let out = text::replace_chars(chars.as_slice(), &set, "-");
    text::string_of(out.as_slice())
}

/// Derives an alias from a repository id: the part after the organisation, in
/// lower case, with hyphens for dots and spaces.
pub fn alias_from_repo_id(repo_id: &str) -> (r: String)
    ensures
        r@ == dashed(text::lowercase_of(last_component(repo_id@))),
{
    let chars = text::chars_of(repo_id);
    let name: &[char] = after_last_slash(chars.as_slice());
    let lower = text::string_of(name).to_lowercase();
    dash_name(lower.as_str())
}

/// What follows the last slash holds no slash, and is ASCII where the whole is.
pub proof fn lemma_last_component(s: Seq<char>)
    ensures
        !last_component(s).contains('/'),
        text::is_ascii_text(s) ==> text::is_ascii_text(last_component(s)),
    decreases s.len(),
{
    text::lemma_char_from(s, '/', 0);
    if let Some(i) = text::char_from(s, '/', 0) {
        let t = s.skip(i + 1);
        if text::is_ascii_text(s) {
            assert forall|j: int| 0 <= j < t.len() implies #[trigger] t[j] <= '\x7f' by {
                assert(t[j] == s[i + 1 + j]);
            }
        }
        lemma_last_component(t);
    }
}

/// An alias derived from a repository id holds no dot and no space.
pub proof fn law_alias_has_no_dots_or_spaces(lower: Seq<char>)
    ensures
        !dashed(lower).contains('.'),
        !dashed(lower).contains(' '),
{
    reveal_strlit("-");
    let set = seq!['.', ' '];
    assert(set[0] == '.' && set[1] == ' ');
    text::lemma_replaced_chars_free(lower, set, "-"@, '.');
    text::lemma_replaced_chars_free(lower, set, "-"@, ' ');
}

/// An alias derived from an ASCII repository id holds no slash.
pub proof fn law_alias_has_no_slash(repo_id: Seq<char>)
    requires
        text::is_ascii_text(repo_id),
    ensures
        !dashed(text::lowercase_of(last_component(repo_id))).contains('/'),
{
    reveal_strlit("-");
    lemma_last_component(repo_id);
    let name = last_component(repo_id);
    let lower = text::ascii_lower(name);
    assert forall|i: int| 0 <= i < lower.len() implies lower[i] != '/' by {
        assert(name.contains(name[i]));
        assert(lower[i] == text::ascii_lower_char(name[i]));
    }
    text::lemma_replaced_chars_keeps_out(lower, seq!['.', ' '], "-"@, '/');
}

/// A repository id as a directory name: two hyphens for each slash.
pub open spec fn sanitized(repo_id: Seq<char>) -> Seq<char> {
    text::replaced_chars(repo_id, seq!['/'], "--"@)
}

/// Turns a repository id into a directory name.
pub fn sanitize_path(repo_id: &str) -> (r: String)
    ensures
        r@ == sanitized(repo_id@),
{
    let chars = text::chars_of(repo_id);
    let set: [char; 1] = ['/'];
    assert(set@ == seq!['/']);
    let out = text::replace_chars(chars.as_slice(), &set, "--");
    text::string_of(out.as_slice())
}

/// The directory name of a repository holds no slash.
pub proof fn law_sanitized_path_has_no_slash(repo_id: Seq<char>)
    ensures
        !sanitized(repo_id).contains('/'),
{
    reveal_strlit("--");
    let set = seq!['/'];
    assert(set[0] == '/');
    text::lemma_replaced_chars_free(repo_id, set, "--"@, '/');
}

/// A file name that cannot leave the directory it is joined to: not empty, no
/// control characters, no `..`, no leading separator, no drive prefix.
pub open spec fn safe_filename(name: Seq<char>) -> bool {
    &&& name.len() > 0
    &&& forall|i: int| 0 <= i < name.len() ==> #[trigger] name[i] >= ' ' && name[i] != '\x7f'
    &&& !text::contains_text(name, ".."@)
    &&& name[0] != '/' && name[0] != '\\'
    &&& !(name.len() >= 2 && name[0] <= '\x7f' && name[1] == ':')
}

/// Whether a file name is safe to join to a model's directory.
pub fn is_safe_filename(name: &str) -> (r: bool)
    ensures
        r == safe_filename(name@),
{
    let chars = text::chars_of(name);
    let n: usize = chars.len();
    if n == 0 {
        return false;
    }
    let mut i: usize = 0;
    while i < n
        invariant
            n == chars@.len(),
            i <= n,
            chars@ == name@,
            forall|j: int| 0 <= j < i ==> #[trigger] name@[j] >= ' ' && name@[j] != '\x7f',
        decreases n - i,
    {
        if chars[i] < ' ' || chars[i] == '\x7f' {
            assert(!safe_filename(name@)) by {
                assert(!(name@[i as int] >= ' ' && name@[i as int] != '\x7f'));
            }
            return false;
        }
        i = i + 1;
    }
    if text::contains(chars.as_slice(), "..") || chars[0] == '/' || chars[0] == '\\' {
        return false;
    }
    if n >= 2 && chars[0] <= '\x7f' && chars[1] == ':' {
        return false;
    }
    true
}

/// No stretch of a safe file name between two positions is `..`, so none of its
/// path components climbs, and it does not start at a root.
pub proof fn law_safe_filename_stays_inside(name: Seq<char>, a: int, b: int)
    requires
        safe_filename(name),
        0 <= a <= b <= name.len(),
    ensures
        name.subrange(a, b) != ".."@,
        name[0] != '/' && name[0] != '\\',
{
    reveal_strlit("..");
    if name.subrange(a, b) == ".."@ {
        assert(name.subrange(a, b).len() == ".."@.len());
        assert(text::occurs_at(name, ".."@, a));
    }
}

// ------------------------------------------------------------------ manifests

/// One file of a model's directory. `sha256` may be empty.
#[derive(Debug)]
pub struct FileEntry {
    pub name: String,
    pub sha256: String,
    pub size_bytes: u64,
}

impl Clone for FileEntry {
    fn clone(&self) -> (r: Self)
        ensures
            r == *self,
    {
        FileEntry {
            name: self.name.clone(),
            sha256: self.sha256.clone(),
            size_bytes: self.size_bytes,
        }
    }
}

/// The size of all files.
pub open spec fn files_size(files: Seq<FileEntry>) -> nat
    decreases files.len(),
{
    if files.len() == 0 {
        0
    } else {
        files_size(files.drop_last()) + files.last().size_bytes as nat
    }
}

proof fn lemma_files_size_grows(files: Seq<FileEntry>, i: int)
    requires
        0 <= i <= files.len(),
    ensures
        files_size(files.take(i)) <= files_size(files),
    decreases files.len() - i,
{
    if i < files.len() {
        assert(files.take(i + 1).drop_last() =~= files.take(i));
        lemma_files_size_grows(files, i + 1);
    } else {
        assert(files.take(i) =~= files);
    }
}

/// The size of all files; none where it is beyond 64 bits.
pub fn total_size(files: &[FileEntry]) -> (r: Option<u64>)
    ensures
        match r {
            Some(n) => n == files_size(files@),
            None => files_size(files@) > u64::MAX,
        },
{
    let mut total: u64 = 0;
    let mut i: usize = 0;
    assert(files@.take(0) =~= Seq::<FileEntry>::empty());
    while i < files.len()
        invariant
            i <= files@.len(),
            total == files_size(files@.take(i as int)),
        decreases files@.len() - i,
    {
        assert(files@.take(i + 1).drop_last() =~= files@.take(i as int));
        match total.checked_add(files[i].size_bytes) {
            Some(t) => {
                total = t;
            },
            None => {
                proof {
                    lemma_files_size_grows(files@, i + 1);
                }
                return None;
            },
        }
        i = i + 1;
    }
    assert(files@.take(i as int) =~= files@);
    Some(total)
}

/// Everything known of a registered model. The parameter count, in billions, is
/// held as the bit pattern of a 32-bit float.
#[derive(Debug)]
pub struct ModelManifest {
    pub repo_id: String,
    pub alias: String,
    pub revision: String,
    pub local_path: String,
    pub architecture: String,
    pub weight_format: WeightFormat,
    pub parameters_billion_bits: u32,
    pub context_length: u32,
    pub quantization: Option<QuantizationLevel>,
    pub gguf_path: Option<String>,
    pub files: Vec<FileEntry>,
    pub downloaded_at: Timestamp,
    pub last_used: Timestamp,
    pub embeddings: bool,
    pub modelfile: Option<Modelfile>,
}

/// A manifest as text and numbers.
#[verifier::ext_equal]
pub struct ManifestView {
    pub repo_id: Seq<char>,
    pub alias: Seq<char>,
    pub revision: Seq<char>,
    pub local_path: Seq<char>,
    pub architecture: Seq<char>,
    pub weight_format: WeightFormat,
    pub parameters_billion_bits: u32,
    pub context_length: u32,
    pub quantization: Option<QuantizationLevel>,
    pub gguf_path: Option<Seq<char>>,
    pub files: Seq<FileEntry>,
    pub downloaded_at: Timestamp,
    pub last_used: Timestamp,
    pub embeddings: bool,
    pub modelfile: Option<ModelfileView>,
}

impl View for ModelManifest {
    type V = ManifestView;

    open spec fn view(&self) -> ManifestView {
        ManifestView {
            repo_id: self.repo_id@,
            alias: self.alias@,
            revision: self.revision@,
            local_path: self.local_path@,
            architecture: self.architecture@,
            weight_format: self.weight_format,
            parameters_billion_bits: self.parameters_billion_bits,
            context_length: self.context_length,
            quantization: self.quantization,
            gguf_path: crate::registry::modelfile::text_option(self.gguf_path),
            files: self.files@,
            downloaded_at: self.downloaded_at,
            last_used: self.last_used,
            embeddings: self.embeddings,
            modelfile: match self.modelfile {
                Some(mf) => Some(mf@),
                None => None,
            },
        }
    }
}

impl Clone for ModelManifest {
    fn clone(&self) -> (r: Self)
        ensures
            r@ == self@,
    {
        let gguf_path: Option<String> = match &self.gguf_path {
            Some(p) => Some(p.clone()),
            None => None,
        };
        let modelfile: Option<Modelfile> = match &self.modelfile {
            Some(mf) => Some(mf.clone()),
            None => None,
        };
        let r = ModelManifest {
            repo_id: self.repo_id.clone(),
            alias: self.alias.clone(),
            revision: self.revision.clone(),
            local_path: self.local_path.clone(),
            architecture: self.architecture.clone(),
            weight_format: self.weight_format,
            parameters_billion_bits: self.parameters_billion_bits,
            context_length: self.context_length,
            quantization: self.quantization,
            gguf_path,
            files: self.files.clone(),
            downloaded_at: self.downloaded_at,
            last_used: self.last_used,
            embeddings: self.embeddings,
            modelfile,
        };
        assert(r.files@ =~= self.files@);
        r
    }
}

// ------------------------------------------------------------------- registry

/// An alias as a file name stem: an underscore for each separator and colon.
pub open spec fn safe_stem(alias: Seq<char>) -> Seq<char> {
    text::replaced_chars(alias, seq!['/', '\\', ':'], "_"@)
}

/// The name of the file that a manifest is kept in.
pub open spec fn manifest_file_name(alias: Seq<char>) -> Seq<char> {
    safe_stem(alias) + ".json"@
}

fn to_safe_stem(alias: &str) -> (r: String)
    ensures
        r@ == safe_stem(alias@),
{
    let chars = text::chars_of(alias);
    let set: [char; 3] = ['/', '\\', ':'];
    assert(set@ == seq!['/', '\\', ':']);
    let out = text::replace_chars(chars.as_slice(), &set, "_");
    text::string_of(out.as_slice())
}

/// The name of the file that a manifest is kept in. Separators and colons of the
/// alias become underscores, so the file stays in the registry's directory.
pub fn manifest_file(alias: &str) -> (r: String)
    ensures
        r@ == manifest_file_name(alias@),
{
    let mut out = to_safe_stem(alias);
    out.append(".json");
    out
}

/// The stem of the manifest file of an alias: its name without `.json`, unless
/// that is all of it.
pub open spec fn manifest_stem(alias: Seq<char>) -> Seq<char> {
    if safe_stem(alias).len() == 0 {
        ".json"@
    } else {
        safe_stem(alias)
    }
}

/// The name of the file that a manifest is written to before it takes its place,
/// told apart from others by `unique`.
pub fn temp_file(alias: &str, unique: &str) -> (r: String)
    ensures
        r@ == manifest_stem(alias@) + "."@ + unique@ + ".tmp"@,
{
    let stem = to_safe_stem(alias);
    let mut out = String::new();
    if stem.as_str().is_empty() {
        out.append(".json");
    } else {
        out.append(stem.as_str());
    }
    out.append(".");
    out.append(unique);
    out.append(".tmp");
    assert(out@ == manifest_stem(alias@) + "."@ + unique@ + ".tmp"@);
    out
}

/// Whether a file of the registry's directory holds a manifest: it has the
/// extension `json`.
pub fn is_manifest_file(name: &str) -> (r: bool)
    ensures
        r == (".json"@.is_suffix_of(name@) && name@ != ".json"@),
{
    let chars = text::chars_of(name);
    text::ends_with(chars.as_slice(), ".json") && !text::is_text(chars.as_slice(), ".json")
}

/// The file of a manifest lies in the registry's directory whatever the alias:
/// its name holds no separator.
pub proof fn law_manifest_file_has_no_separator(alias: Seq<char>)
    ensures
        !manifest_file_name(alias).contains('/'),
        !manifest_file_name(alias).contains('\\'),
        !manifest_file_name(alias).contains(':'),
{
    reveal_strlit("_");
    reveal_strlit(".json");
    let set = seq!['/', '\\', ':'];
    assert(set[0] == '/' && set[1] == '\\' && set[2] == ':');
    text::lemma_replaced_chars_free(alias, set, "_"@, '/');
    text::lemma_replaced_chars_free(alias, set, "_"@, '\\');
    text::lemma_replaced_chars_free(alias, set, "_"@, ':');
    let stem = safe_stem(alias);
    let name = manifest_file_name(alias);
    assert forall|i: int| 0 <= i < name.len() implies name[i] != '/' && name[i] != '\\' && name[i]
        != ':' by {
        if i < stem.len() {
            assert(stem.contains(stem[i]));
        } else {
            assert(name[i] == ".json"@[i - stem.len()]);
        }
    }
}

/// Why the registry refuses.
#[derive(Debug)]
pub enum StoreError {
    /// No model has this alias.
    NotFound(String),
    /// No model has the alias to copy from.
    SourceNotFound(String),
    /// A model has the alias to copy to.
    DestinationExists(String),
}

impl StoreError {
    /// The error as a sentence.
    pub fn message(&self) -> (r: String)
        ensures
            r@ == match self {
                StoreError::NotFound(a) => "Manifest not found: "@ + a@,
                StoreError::SourceNotFound(a) => "Source model not found: "@ + a@,
                StoreError::DestinationExists(a) => "Destination alias already exists: "@ + a@,
            },
    {
        match self {
            StoreError::NotFound(a) => String::from_str("Manifest not found: ").concat(a.as_str()),
            StoreError::SourceNotFound(a) => String::from_str("Source model not found: ").concat(
                a.as_str(),
            ),
            StoreError::DestinationExists(a) => String::from_str(
                "Destination alias already exists: ",
            ).concat(a.as_str()),
        }
    }
}

/// The registry: the models by alias, the aliases whose last use is not written
/// yet, and the times of those uses in Unix seconds.
#[verifier::ext_equal]
pub struct StoreView {
    pub models: Map<Seq<char>, ManifestView>,
    pub dirty: Set<Seq<char>>,
    pub last_used_live: Map<Seq<char>, i64>,
}

/// The models of the registry, each under its own alias.
pub open spec fn well_keyed(models: Map<Seq<char>, ManifestView>) -> bool {
    forall|k: Seq<char>| #[trigger] models.dom().contains(k) ==> models[k].alias == k
}

/// A manifest with its last use set to a live time, where the calendar reaches
/// that far.
pub open spec fn with_live_use(m: ManifestView, live: Map<Seq<char>, i64>) -> ManifestView {
    if live.dom().contains(m.alias) && MIN_SECS <= live[m.alias] <= MAX_SECS {
        ManifestView { last_used: (Timestamp { secs: live[m.alias], nanos: 0 }), ..m }
    } else {
        m
    }
}

/// The registry with a manifest registered under its alias.
pub open spec fn saved(st: StoreView, m: ManifestView) -> StoreView {
    StoreView { models: st.models.insert(m.alias, m), ..st }
}

/// The registry without a model, and without what was pending for it.
pub open spec fn deleted(st: StoreView, alias: Seq<char>) -> StoreView {
    StoreView {
        models: st.models.remove(alias),
        dirty: st.dirty.remove(alias),
        last_used_live: st.last_used_live.remove(alias),
    }
}

/// The registry with a use of a model noted.
pub open spec fn used(st: StoreView, alias: Seq<char>, now: i64) -> StoreView {
    StoreView {
        models: st.models,
        dirty: st.dirty.insert(alias),
        last_used_live: st.last_used_live.insert(alias, now),
    }
}

/// The manifest to write for a marked model when the registry is flushed.
pub open spec fn to_flush(st: StoreView, alias: Seq<char>) -> Option<ManifestView> {
    if st.dirty.contains(alias) && st.models.dom().contains(alias) {
        Some(with_live_use(st.models[alias], st.last_used_live))
    } else {
        None
    }
}

/// The manifest that copies the model `src` under `dst`.
pub open spec fn copied(
    st: StoreView,
    src: Seq<char>,
    dst: Seq<char>,
    downloaded_at: Timestamp,
    last_used: Timestamp,
) -> ManifestView {
    ManifestView { alias: dst, downloaded_at, last_used, ..st.models[src] }
}

/// Registered models by alias. Saving and deleting the files is the caller's
/// part; this is what the registry holds in memory.
#[derive(Debug)]
pub struct ManifestStore {
    cache: AliasMap<ModelManifest>,
    dirty: AliasMap<()>,
    last_used_live: AliasMap<i64>,
}

impl View for ManifestStore {
    type V = StoreView;

    closed spec fn view(&self) -> StoreView {
        StoreView {
            models: self.cache@.map_values(|m: ModelManifest| m@),
            dirty: self.dirty@.dom(),
            last_used_live: self.last_used_live@,
        }
    }
}

impl ManifestStore {
    #[verifier::type_invariant]
    spec fn is_well_keyed(self) -> bool {
        well_keyed(self@.models)
    }

    /// A registry with no models.
    pub fn new() -> (r: Self)
        ensures
            r@.models == Map::<Seq<char>, ManifestView>::empty(),
            r@.dirty == Set::<Seq<char>>::empty(),
            r@.last_used_live == Map::<Seq<char>, i64>::empty(),
    {
        let r = ManifestStore {
            cache: AliasMap::new(),
            dirty: AliasMap::new(),
            last_used_live: AliasMap::new(),
        };
        assert(r@.models =~= Map::<Seq<char>, ManifestView>::empty());
        assert(r@.dirty =~= Set::<Seq<char>>::empty());
        r
    }

    /// Registers a manifest under its alias, in place of one that is there.
    pub fn save(&mut self, manifest: ModelManifest)
        ensures
            final(self)@ == saved(old(self)@, manifest@),
    {
        proof {
            use_type_invariant(&*self);
        }
        let ghost before = self@;
        let ghost m = manifest@;
        let alias = manifest.alias.clone();
        let mut cache = AliasMap::new();
        std::mem::swap(&mut cache, &mut self.cache);
        cache.insert(alias, manifest);
        assert(cache@.map_values(|m: ModelManifest| m@) =~= before.models.insert(m.alias, m));
        self.cache = cache;
    }

    /// Forgets a model, with what was pending for it.
    pub fn delete(&mut self, alias: &str)
        ensures
            final(self)@ == deleted(old(self)@, alias@),
    {
        proof {
            use_type_invariant(&*self);
        }
        let ghost before = self@;
        let mut cache = AliasMap::new();
        let mut dirty = AliasMap::new();
        let mut live = AliasMap::new();
        std::mem::swap(&mut cache, &mut self.cache);
        std::mem::swap(&mut dirty, &mut self.dirty);
        std::mem::swap(&mut live, &mut self.last_used_live);
        let _ = cache.remove(alias);
        let _ = dirty.remove(alias);
        let _ = live.remove(alias);
        assert(cache@.map_values(|m: ModelManifest| m@) =~= before.models.remove(alias@));
        assert(dirty@.dom() =~= before.dirty.remove(alias@));
        self.cache = cache;
        self.dirty = dirty;
        self.last_used_live = live;
    }

    /// The model with an alias.
    pub fn get(&self, alias: &str) -> (r: Option<&ModelManifest>)
        ensures
            match r {
                Some(m) => self@.models.dom().contains(alias@) && m@ == self@.models[alias@]
                    && m@.alias == alias@,
                None => !self@.models.dom().contains(alias@),
            },
    {
        proof {
            use_type_invariant(self);
        }
        self.cache.get(alias)
    }

    /// All models, each once.
    pub fn list(&self) -> (r: Vec<&ModelManifest>)
        ensures
            forall|i: int|
                0 <= i < r@.len() ==> self@.models.dom().contains((#[trigger] r@[i])@.alias)
                    && self@.models[r@[i]@.alias] == r@[i]@,
            forall|k: Seq<char>| #[trigger]
                self@.models.dom().contains(k) ==> exists|i: int|
                    0 <= i < r@.len() && (#[trigger] r@[i])@.alias == k,
            forall|i: int, j: int|
                0 <= i < j < r@.len() ==> (#[trigger] r@[i])@.alias != (#[trigger] r@[j])@.alias,
    {
        let mut out: Vec<&ModelManifest> = Vec::new();
        let n: usize = self.cache.len();
        let ghost entries = self.cache.spec_entries();
        proof {
            use_type_invariant(self);
            self.cache.lemma_entries();
        }
        let mut i: usize = 0;
        while i < n
            invariant
                well_keyed(self@.models),
                n == entries.len(),
                entries == self.cache.spec_entries(),
                i <= n,
                out@.len() == i,
                forall|j: int|
                    0 <= j < i ==> (#[trigger] out@[j])@ == entries[j].1@ && entries[j].1@.alias
                        == entries[j].0@ && self@.models.dom().contains(entries[j].0@)
                        && self@.models[entries[j].0@] == entries[j].1@,
            decreases n - i,
        {
            let (alias, manifest) = self.cache.entry(i);
            assert(self@.models.dom().contains(alias@));
            assert(self@.models[alias@] == manifest@);
            assert(entries[i as int].0@ == alias@ && entries[i as int].1 == *manifest);
            out.push(manifest);
            assert(out@[i as int]@ == entries[i as int].1@);
            i = i + 1;
        }
        assert forall|k: Seq<char>| #[trigger] self@.models.dom().contains(k) implies exists|i: int|
            0 <= i < out@.len() && (#[trigger] out@[i])@.alias == k by {
            assert(self.cache@.dom().contains(k));
            let i = choose|i: int| 0 <= i < entries.len() && (#[trigger] entries[i]).0@ == k;
            assert(out@[i]@.alias == k);
        }
        assert forall|i: int, j: int| 0 <= i < j < out@.len() implies (#[trigger] out@[i])@.alias
            != (#[trigger] out@[j])@.alias by {
            assert(entries[i].0@ != entries[j].0@);
        }
        out
    }

    /// Notes that a model was used at `now`, in Unix seconds. Nothing is written:
    /// the note waits for the next flush. An unknown alias is refused.
    pub fn update_last_used(&mut self, alias: &str, now: i64) -> (r: Result<(), StoreError>)
        ensures
            match r {
                Ok(_) => old(self)@.models.dom().contains(alias@) && final(self)@ == used(
                    old(self)@,
                    alias@,
                    now,
                ),
                Err(e) => !old(self)@.models.dom().contains(alias@) && final(self)@ == old(self)@
                    && (e matches StoreError::NotFound(a) && a@ == alias@),
            },
    {
        let ghost before = self@;
        if !self.cache.contains_key(alias) {
            return Err(StoreError::NotFound(String::from_str(alias)));
        }
        proof {
            use_type_invariant(&*self);
        }
        let mut dirty = AliasMap::new();
        let mut live = AliasMap::new();
        std::mem::swap(&mut dirty, &mut self.dirty);
        std::mem::swap(&mut live, &mut self.last_used_live);
        live.insert(String::from_str(alias), now);
        dirty.insert(String::from_str(alias), ());
        assert(dirty@.dom() =~= before.dirty.insert(alias@));
        self.dirty = dirty;
        self.last_used_live = live;
        Ok(())
    }

    /// Marks a model as not written, after a write that failed.
    pub fn mark_dirty(&mut self, alias: &str)
        ensures
            final(self)@ == (StoreView { dirty: old(self)@.dirty.insert(alias@), ..old(self)@ }),
    {
        proof {
            use_type_invariant(&*self);
        }
        let ghost before = self@;
        let mut dirty = AliasMap::new();
        std::mem::swap(&mut dirty, &mut self.dirty);
        dirty.insert(String::from_str(alias), ());
        assert(dirty@.dom() =~= before.dirty.insert(alias@));
        self.dirty = dirty;
    }

    /// Begins a flush: no model is marked any more, and what is returned is to be
    /// written and saved: each marked model, with its last use brought up to
    /// date.
    pub fn flush_dirty(&mut self) -> (r: Vec<ModelManifest>)
        ensures
            final(self)@ == (StoreView { dirty: Set::empty(), ..old(self)@ }),
            forall|i: int|
                0 <= i < r@.len() ==> to_flush(old(self)@, (#[trigger] r@[i])@.alias) == Some(
                    r@[i]@,
                ),
            forall|k: Seq<char>| #[trigger]
                to_flush(old(self)@, k) is Some ==> exists|i: int|
                    0 <= i < r@.len() && (#[trigger] r@[i])@.alias == k,
            forall|i: int, j: int|
                0 <= i < j < r@.len() ==> (#[trigger] r@[i])@.alias != (#[trigger] r@[j])@.alias,
    {
        let ghost before = self@;
        let mut out: Vec<ModelManifest> = Vec::new();
        let n: usize = self.dirty.len();
        let ghost entries = self.dirty.spec_entries();
        proof {
            use_type_invariant(&*self);
            self.dirty.lemma_entries();
        }
        let mut i: usize = 0;
        while i < n
            invariant
                well_keyed(self@.models),
                self@ == before,
                n == entries.len(),
                entries == self.dirty.spec_entries(),
                crate::registry::alias_map::distinct_keys(entries),
                i <= n,
                forall|j: int|
                    0 <= j < out@.len() ==> {
                        let m = (#[trigger] out@[j])@;
                        &&& before.dirty.contains(m.alias)
                        &&& before.models.dom().contains(m.alias)
                        &&& m == with_live_use(before.models[m.alias], before.last_used_live)
                        &&& exists|a: int| 0 <= a < i && (#[trigger] entries[a]).0@ == m.alias
                    },
                forall|a: int|
                    0 <= a < i && before.models.dom().contains((#[trigger] entries[a]).0@)
                        ==> exists|j: int|
                        0 <= j < out@.len() && (#[trigger] out@[j])@.alias == entries[a].0@,
                forall|j: int, k: int|
                    0 <= j < k < out@.len() ==> (#[trigger] out@[j])@.alias != (
                    #[trigger] out@[k])@.alias,
            decreases n - i,
        {
            let ghost so_far = out@;
            let (alias, _) = self.dirty.entry(i);
            assert(before.dirty.contains(alias@));
            if let Some(manifest) = self.cache.get(alias.as_str()) {
                assert(before.models.dom().contains(alias@));
                let mut to_save = manifest.clone();
                if let Some(secs) = self.last_used_live.get(alias.as_str()) {
                    if let Some(at) = from_unix(*secs) {
                        to_save.last_used = at;
                    }
                }
                assert(to_save@ =~= with_live_use(before.models[alias@], before.last_used_live));
                let ghost saved = to_save@;
                out.push(to_save);
                assert(out@[out@.len() - 1]@.alias == alias@);
                assert forall|j: int, k: int| 0 <= j < k < out@.len() implies (
                #[trigger] out@[j])@.alias != (#[trigger] out@[k])@.alias by {
                    if k == out@.len() - 1 {
                        let a = choose|a: int|
                            0 <= a < i && (#[trigger] entries[a]).0@ == so_far[j]@.alias;
                        assert(entries[a].0@ != entries[i as int].0@);
                    }
                }
                assert forall|a: int|
                    0 <= a < i + 1 && before.models.dom().contains(
                        (#[trigger] entries[a]).0@,
                    ) implies exists|j: int|
                    0 <= j < out@.len() && (#[trigger] out@[j])@.alias == entries[a].0@ by {
                    if a < i {
                        let j = choose|j: int|
                            0 <= j < so_far.len() && (#[trigger] so_far[j])@.alias
                                == entries[a].0@;
                        assert(out@[j]@.alias == entries[a].0@);
                    }
                }
            }
            i = i + 1;
        }
        assert forall|k: Seq<char>|
            before.dirty.contains(k) && #[trigger] before.models.dom().contains(
                k,
            ) implies exists|i: int| 0 <= i < out@.len() && (#[trigger] out@[i])@.alias == k by {
            assert(self.dirty@.dom().contains(k));
            let a = choose|a: int| 0 <= a < entries.len() && (#[trigger] entries[a]).0@ == k;
            assert(before.models.dom().contains(entries[a].0@));
        }
        self.dirty = AliasMap::new();
        assert(self@.dirty =~= Set::<Seq<char>>::empty());
        out
    }

    /// A model whose repository id is, or holds, the given text.
    pub fn find_by_repo_id(&self, repo_id: &str) -> (r: Option<&ModelManifest>)
        ensures
            match r {
                Some(m) => self@.models.dom().contains(m@.alias) && self@.models[m@.alias] == m@
                    && text::contains_text(m@.repo_id, repo_id@),
                None => forall|k: Seq<char>| #[trigger]
                    self@.models.dom().contains(k) ==> !text::contains_text(
                        self@.models[k].repo_id,
                        repo_id@,
                    ),
            },
    {
        let n: usize = self.cache.len();
        let ghost entries = self.cache.spec_entries();
        proof {
            use_type_invariant(self);
            self.cache.lemma_entries();
        }
        let mut i: usize = 0;
        while i < n
            invariant
                well_keyed(self@.models),
                n == entries.len(),
                entries == self.cache.spec_entries(),
                i <= n,
                forall|j: int|
                    0 <= j < i ==> !text::contains_text(
                        (#[trigger] entries[j]).1@.repo_id,
                        repo_id@,
                    ),
            decreases n - i,
        {
            let (alias, manifest) = self.cache.entry(i);
            assert(self@.models.dom().contains(alias@));
            let chars = text::chars_of(manifest.repo_id.as_str());
            if text::contains(chars.as_slice(), repo_id) {
                return Some(manifest);
            }
            i = i + 1;
        }
        assert forall|k: Seq<char>| #[trigger]
            self@.models.dom().contains(k) implies !text::contains_text(
            self@.models[k].repo_id,
            repo_id@,
        ) by {
            assert(self.cache@.dom().contains(k));
            let i = choose|i: int| 0 <= i < entries.len() && (#[trigger] entries[i]).0@ == k;
            assert(self.cache@[k] == entries[i].1);
        }
        None
    }

    /// The manifest that copies the model `src_alias` under `dst_alias`, on the
    /// same weights. It is to be written and saved. It fails where there is
    /// nothing to copy, or the other alias is taken.
    pub fn clone_as(
        &self,
        src_alias: &str,
        dst_alias: &str,
        downloaded_at: Timestamp,
        last_used: Timestamp,
    ) -> (r: Result<ModelManifest, StoreError>)
        ensures
            match r {
                Ok(m) => self@.models.dom().contains(src_alias@) && !self@.models.dom().contains(
                    dst_alias@,
                ) && m@ == copied(self@, src_alias@, dst_alias@, downloaded_at, last_used),
                Err(StoreError::SourceNotFound(a)) => !self@.models.dom().contains(src_alias@)
                    && a@ == src_alias@,
                Err(StoreError::DestinationExists(a)) => self@.models.dom().contains(src_alias@)
                    && self@.models.dom().contains(dst_alias@) && a@ == dst_alias@,
                Err(StoreError::NotFound(_)) => false,
            },
    {
        match self.get(src_alias) {
            Some(src) => {
                if self.cache.contains_key(dst_alias) {
                    return Err(StoreError::DestinationExists(String::from_str(dst_alias)));
                }
                let mut cloned = src.clone();
                cloned.alias = String::from_str(dst_alias);
                cloned.downloaded_at = downloaded_at;
                cloned.last_used = last_used;
                assert(cloned@ =~= copied(
                    self@,
                    src_alias@,
                    dst_alias@,
                    downloaded_at,
                    last_used,
                ));
                Ok(cloned)
            },
            None => Err(StoreError::SourceNotFound(String::from_str(src_alias))),
        }
    }
}

/// A model that was saved is read back, and other models are as they were.
pub proof fn law_saved_model_is_read_back(st: StoreView, m: ManifestView, other: Seq<char>)
    requires
        other != m.alias,
    ensures
        saved(st, m).models.dom().contains(m.alias),
        saved(st, m).models[m.alias] == m,
        saved(st, m).models.dom().contains(other) == st.models.dom().contains(other),
        st.models.dom().contains(other) ==> saved(st, m).models[other] == st.models[other],
{
}

/// A deleted model is gone, comes back with no flush, and takes no other with it.
pub proof fn law_deleted_model_stays_gone(st: StoreView, alias: Seq<char>, other: Seq<char>)
    requires
        well_keyed(st.models),
        other != alias,
    ensures
        !deleted(st, alias).models.dom().contains(alias),
        to_flush(deleted(st, alias), alias) is None,
        to_flush(deleted(st, alias), other) == to_flush(st, other),
        deleted(st, alias).models.dom().contains(other) == st.models.dom().contains(other),
{
}

/// A use that was noted is written at the next flush, where the calendar reaches
/// that time.
pub proof fn law_noted_use_is_flushed(st: StoreView, alias: Seq<char>, now: i64)
    requires
        well_keyed(st.models),
        st.models.dom().contains(alias),
        MIN_SECS <= now <= MAX_SECS,
    ensures
        to_flush(used(st, alias, now), alias) == Some(
            (ManifestView {
                last_used: (Timestamp { secs: now, nanos: 0 }),
                ..st.models[alias]
            }),
        ),
{
}

/// Copying a model leaves its source as it is, and the copy is read back on the
/// same weights.
pub proof fn law_copy_shares_the_weights(
    st: StoreView,
    src: Seq<char>,
    dst: Seq<char>,
    downloaded_at: Timestamp,
    last_used: Timestamp,
)
    requires
        st.models.dom().contains(src),
        !st.models.dom().contains(dst),
    ensures
        ({
            let after = saved(st, copied(st, src, dst, downloaded_at, last_used));
            &&& after.models[src] == st.models[src]
            &&& after.models.dom().contains(dst)
            &&& after.models[dst].local_path == st.models[src].local_path
            &&& after.models[dst].gguf_path == st.models[src].gguf_path
            &&& after.models[dst].files == st.models[src].files
        }),
{
}

} // verus!
