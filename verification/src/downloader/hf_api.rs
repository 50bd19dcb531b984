//! Repositories of the hub and the transfer of their files.
use crate::api::json;
use crate::api::json::{Json, JsonView};
use crate::number;
use crate::registry::manifest;
use crate::registry::manifest::is_safe_filename;
use crate::text;
use vstd::prelude::*;
use vstd::string::StringExecFns;

verus! {

broadcast use {vstd::string::group_string_axioms, crate::api::json::lemma_json_view};

// -------------------------------------------------------------------- listings

/// A file of a repository, with its size where the hub tells it.
#[derive(Debug)]
pub struct RepoFile {
    pub rfilename: String,
    pub size: Option<u64>,
}

/// A file of a repository, as text and numbers.
pub struct FileView {
    pub name: Seq<char>,
    pub size: Option<u64>,
}

impl View for RepoFile {
    type V = FileView;

    open spec fn view(&self) -> FileView {
        FileView { name: self.rfilename@, size: self.size }
    }
}

impl Clone for RepoFile {
    fn clone(&self) -> (r: Self)
        ensures
            r@ == self@,
    {
        RepoFile { rfilename: self.rfilename.clone(), size: self.size }
    }
}

/// Files as text and numbers.
pub open spec fn file_views(s: Seq<RepoFile>) -> Seq<FileView> {
    s.map_values(|f: RepoFile| f@)
}

/// A repository: its commit and its files.
#[derive(Debug)]
pub struct RepoInfo {
    pub id: String,
    pub revision: String,
    pub siblings: Vec<RepoFile>,
}

/// The file that an item of the hub's answer stands for. Large files tell their
/// size in another place. An item without a name stands for none.
pub open spec fn file_of(v: JsonView) -> Option<FileView> {
    match json::string_in(json::member(v, "rfilename"@)) {
        Some(n) => if n.len() == 0 {
            None
        } else {
            Some(
                FileView {
                    name: n,
                    size: match json::unsigned_in(json::member(v, "size"@)) {
                        Some(b) => Some(b),
                        None => match json::member(v, "lfs"@) {
                            Some(l) => json::unsigned_in(json::member(l, "size"@)),
                            None => None,
                        },
                    },
                },
            )
        },
        None => None,
    }
}

/// The files that items of the hub's answer stand for, in order.
pub open spec fn files_of(a: Seq<JsonView>) -> Seq<FileView>
    decreases a.len(),
{
    if a.len() == 0 {
        Seq::empty()
    } else {
        let before = files_of(a.drop_last());
        match file_of(a.last()) {
            Some(f) => before.push(f),
            None => before,
        }
    }
}

/// The files of the hub's answer.
pub open spec fn siblings_of(v: JsonView) -> Seq<FileView> {
    match json::array_in(json::member(v, "siblings"@)) {
        Some(a) => files_of(a),
        None => Seq::empty(),
    }
}

fn read_file(v: &Json) -> (r: Option<RepoFile>)
    ensures
        match r {
            Some(f) => file_of(v@) == Some(f@),
            None => file_of(v@) is None,
        },
{
    match v.get_str("rfilename") {
        Some(n) => {
            let chars = text::chars_of(n.as_str());
            if chars.len() == 0 {
                return None;
            }
            let size: Option<u64> = match v.get_u64("size") {
                Some(b) => Some(b),
                None => match v.get("lfs") {
                    Some(l) => l.get_u64("size"),
                    None => None,
                },
            };
            Some(RepoFile { rfilename: n.clone(), size })
        },
        None => None,
    }
}

/// Reads the files from the hub's answer about a repository.
pub fn read_siblings(body: &Json) -> (r: Vec<RepoFile>)
    ensures
        file_views(r@) == siblings_of(body@),
{
    let mut out: Vec<RepoFile> = Vec::new();
    assert(file_views(out@) =~= Seq::<FileView>::empty());
    if let Some(v) = body.get("siblings") {
        if let Some(a) = v.as_array() {
            let ghost all = json::element_views(a@);
            let mut i: usize = 0;
            assert(all.take(0) =~= Seq::<JsonView>::empty());
            while i < a.len()
                invariant
                    i <= a@.len(),
                    all == json::element_views(a@),
                    file_views(out@) == files_of(all.take(i as int)),
                decreases a@.len() - i,
            {
                assert(all.take(i + 1).drop_last() =~= all.take(i as int));
                assert(all[i as int] == a@[i as int]@);
                let ghost before = file_views(out@);
                if let Some(f) = read_file(&a[i]) {
                    let ghost fv = f@;
                    out.push(f);
                    assert(file_views(out@) =~= before.push(fv));
                }
                i = i + 1;
            }
            assert(all.take(i as int) =~= all);
        }
    }
    out
}

/// What is known of a repository, from the commit that the answer names, if it
/// names one, and its body.
pub fn repo_info(repo_id: &str, commit: Option<&str>, body: &Json) -> (r: RepoInfo)
    ensures
        r.id@ == repo_id@,
        r.revision@ == match commit {
            Some(c) => c@,
            None => "main"@,
        },
        file_views(r.siblings@) == siblings_of(body@),
{
    let revision: String = match commit {
        Some(c) => String::from_str(c),
        None => String::from_str("main"),
    };
    RepoInfo { id: String::from_str(repo_id), revision, siblings: read_siblings(body) }
}

// --------------------------------------------------------------------- filters

/// The files of a repository that are wanted under their whole name.
pub open spec fn wanted_name(n: Seq<char>) -> bool {
    ||| n == "config.json"@
    ||| n == "tokenizer.json"@
    ||| n == "tokenizer_config.json"@
    ||| n == "tokenizer.model"@
    ||| n == "special_tokens_map.json"@
    ||| n == "generation_config.json"@
    ||| n == "model.safetensors.index.json"@
}

/// Files that duplicate the weights in another format.
pub open spec fn denied_name(n: Seq<char>) -> bool {
    ||| ".msgpack"@.is_suffix_of(n)
    ||| ".h5"@.is_suffix_of(n)
    ||| ".ot"@.is_suffix_of(n)
    ||| ".npz"@.is_suffix_of(n)
    ||| ".pt"@.is_suffix_of(n)
}

/// A file is downloaded with a model: it is wanted, it is not a duplicate, and its
/// name is safe.
pub open spec fn is_model_file(n: Seq<char>) -> bool {
    &&& !denied_name(n)
    &&& manifest::safe_filename(n)
    &&& wanted_name(n) || ".safetensors"@.is_suffix_of(n)
}

/// The files that are downloaded with a model, in order.
pub open spec fn model_files(s: Seq<FileView>) -> Seq<FileView>
    decreases s.len(),
{
    if s.len() == 0 {
        Seq::empty()
    } else {
        let before = model_files(s.drop_last());
        if is_model_file(s.last().name) {
            before.push(s.last())
        } else {
            before
        }
    }
}

/// Whether a file is downloaded with a model.
pub fn wants_file(name: &str) -> (r: bool)
    ensures
        r == is_model_file(name@),
{
    let chars = text::chars_of(name);
    let n: &[char] = chars.as_slice();
    if text::ends_with(n, ".msgpack") || text::ends_with(n, ".h5") || text::ends_with(n, ".ot")
        || text::ends_with(n, ".npz") || text::ends_with(n, ".pt") {
        return false;
    }
    if !is_safe_filename(name) {
        return false;
    }
    text::is_text(n, "config.json") || text::is_text(n, "tokenizer.json") || text::is_text(
        n,
        "tokenizer_config.json",
    ) || text::is_text(n, "tokenizer.model") || text::is_text(n, "special_tokens_map.json")
        || text::is_text(n, "generation_config.json") || text::is_text(
        n,
        "model.safetensors.index.json",
    ) || text::ends_with(n, ".safetensors")
}

/// The files of a repository that are downloaded with a model.
pub fn list_files(siblings: &[RepoFile]) -> (r: Vec<RepoFile>)
    ensures
        file_views(r@) == model_files(file_views(siblings@)),
{
    let ghost all = file_views(siblings@);
    let mut out: Vec<RepoFile> = Vec::new();
    assert(file_views(out@) =~= Seq::<FileView>::empty());
    assert(all.take(0) =~= Seq::<FileView>::empty());
    let mut i: usize = 0;
    while i < siblings.len()
        invariant
            i <= siblings@.len(),
            all == file_views(siblings@),
            file_views(out@) == model_files(all.take(i as int)),
        decreases siblings@.len() - i,
    {
        assert(all.take(i + 1).drop_last() =~= all.take(i as int));
        let ghost before = file_views(out@);
        if wants_file(siblings[i].rfilename.as_str()) {
            let f = siblings[i].clone();
            let ghost fv = f@;
            out.push(f);
            assert(file_views(out@) =~= before.push(fv));
        }
        i = i + 1;
    }
    assert(all.take(i as int) =~= all);
    out
}

/// A file is a GGUF file of one piece: its name in lower case ends so, it is safe,
/// and it is no shard.
pub open spec fn is_single_gguf(name: Seq<char>, lower: Seq<char>) -> bool {
    &&& ".gguf"@.is_suffix_of(lower)
    &&& manifest::safe_filename(name)
    &&& !text::contains_text(lower, "-of-"@)
}

/// Whether a file is a GGUF file of one piece, by its name and its name in lower
/// case.
pub fn wants_gguf(name: &str, lower: &str) -> (r: bool)
    ensures
        r == is_single_gguf(name@, lower@),
{
    let chars = text::chars_of(lower);
    text::ends_with(chars.as_slice(), ".gguf") && is_safe_filename(name) && !text::contains(
        chars.as_slice(),
        "-of-",
    )
}

/// The size by which files are ordered: one that is not known comes last.
pub open spec fn size_key(f: FileView) -> u64 {
    match f.size {
        Some(n) => n,
        None => u64::MAX,
    }
}

/// How many files, from the front, are no larger than `key`.
pub open spec fn place_for(s: Seq<FileView>, key: u64) -> int
    decreases s.len(),
{
    if s.len() == 0 {
        0
    } else if size_key(s.last()) <= key {
        s.len() as int
    } else {
        place_for(s.drop_last(), key)
    }
}

/// The files with one more put in its place, behind those that are no larger.
pub open spec fn put_in_place(s: Seq<FileView>, f: FileView) -> Seq<FileView> {
    s.insert(place_for(s, size_key(f)), f)
}

/// The GGUF files of a repository, smallest first; of equal sizes the one listed
/// first comes first.
pub open spec fn gguf_files(s: Seq<FileView>) -> Seq<FileView>
    decreases s.len(),
{
    if s.len() == 0 {
        Seq::empty()
    } else {
        let before = gguf_files(s.drop_last());
        if is_single_gguf(s.last().name, text::lowercase_of(s.last().name)) {
            put_in_place(before, s.last())
        } else {
            before
        }
    }
}

fn key_of(f: &RepoFile) -> (r: u64)
    ensures
        r == size_key(f@),
{
    match f.size {
        Some(n) => n,
        None => u64::MAX,
    }
}

fn insert_by_size(files: &mut Vec<RepoFile>, f: RepoFile)
    ensures
        file_views(final(files)@) == put_in_place(file_views(old(files)@), f@),
{
    let ghost before = file_views(files@);
    let ghost fv = f@;
    let key: u64 = key_of(&f);
    let mut at: usize = files.len();
    assert(before.take(at as int) =~= before);
    while at > 0 && key_of(&files[at - 1]) > key
        invariant
            at <= files@.len(),
            before == file_views(files@),
            place_for(before.take(at as int), key) == place_for(before, key),
        decreases at,
    {
        assert(before.take(at as int).drop_last() =~= before.take(at - 1));
        at = at - 1;
    }
    files.insert(at, f);
    assert(file_views(files@) =~= before.insert(at as int, fv));
}

/// The GGUF files of a repository, smallest first.
pub fn list_gguf_files(siblings: &[RepoFile]) -> (r: Vec<RepoFile>)
    ensures
        file_views(r@) == gguf_files(file_views(siblings@)),
{
    let ghost all = file_views(siblings@);
    let mut out: Vec<RepoFile> = Vec::new();
    assert(file_views(out@) =~= Seq::<FileView>::empty());
    assert(all.take(0) =~= Seq::<FileView>::empty());
    let mut i: usize = 0;
    while i < siblings.len()
        invariant
            i <= siblings@.len(),
            all == file_views(siblings@),
            file_views(out@) == gguf_files(all.take(i as int)),
        decreases siblings@.len() - i,
    {
        assert(all.take(i + 1).drop_last() =~= all.take(i as int));
        let lower = siblings[i].rfilename.to_lowercase();
        if wants_gguf(siblings[i].rfilename.as_str(), lower.as_str()) {
            insert_by_size(&mut out, siblings[i].clone());
        }
        i = i + 1;
    }
    assert(all.take(i as int) =~= all);
    out
}

/// Files are ordered by size.
pub open spec fn in_size_order(s: Seq<FileView>) -> bool {
    forall|i: int, j: int|
        0 <= i <= j < s.len() ==> size_key(#[trigger] s[i]) <= size_key(#[trigger] s[j])
}

/// The GGUF files come smallest first.
pub proof fn law_gguf_files_are_in_size_order(s: Seq<FileView>)
    ensures
        in_size_order(gguf_files(s)),
    decreases s.len(),
{
    if s.len() > 0 {
        law_gguf_files_are_in_size_order(s.drop_last());
        let before = gguf_files(s.drop_last());
        lemma_put_in_order(before, s.last());
    }
}

proof fn lemma_place_splits(s: Seq<FileView>, key: u64)
    requires
        in_size_order(s),
    ensures
        0 <= place_for(s, key) <= s.len(),
        forall|i: int| 0 <= i < place_for(s, key) ==> size_key(#[trigger] s[i]) <= key,
        forall|i: int| place_for(s, key) <= i < s.len() ==> size_key(#[trigger] s[i]) > key,
    decreases s.len(),
{
    if s.len() > 0 {
        if size_key(s.last()) > key {
            let t = s.drop_last();
            assert(in_size_order(t));
            lemma_place_splits(t, key);
            assert forall|i: int| place_for(s, key) <= i < s.len() implies size_key(
                #[trigger] s[i],
            ) > key by {
                if i < t.len() {
                    assert(t[i] == s[i]);
                }
            }
            assert forall|i: int| 0 <= i < place_for(s, key) implies size_key(#[trigger] s[i])
                <= key by {
                assert(t[i] == s[i]);
            }
        }
    }
}

proof fn lemma_put_in_order(s: Seq<FileView>, f: FileView)
    requires
        in_size_order(s),
    ensures
        in_size_order(put_in_place(s, f)),
{
    let at = place_for(s, size_key(f));
    lemma_place_splits(s, size_key(f));
    let r = s.insert(at, f);
    assert forall|i: int, j: int| 0 <= i <= j < r.len() implies size_key(#[trigger] r[i])
        <= size_key(#[trigger] r[j]) by {
        let a = if i < at {
            i
        } else {
            i - 1
        };
        let b = if j < at {
            j
        } else {
            j - 1
        };
        if i != at {
            assert(r[i] == s[a]);
        }
        if j != at {
            assert(r[j] == s[b]);
        }
        if i != at && j != at {
            assert(size_key(s[a]) <= size_key(s[b]));
        }
    }
}

/// Nothing that is downloaded with a model has an unsafe name, and nothing comes
/// that the repository does not list.
pub proof fn law_downloads_are_safe_and_listed(s: Seq<FileView>, i: int)
    requires
        0 <= i < model_files(s).len(),
    ensures
        manifest::safe_filename(model_files(s)[i].name),
        s.contains(model_files(s)[i]),
    decreases s.len(),
{
    if s.len() > 0 {
        let before = model_files(s.drop_last());
        if i < before.len() {
            law_downloads_are_safe_and_listed(s.drop_last(), i);
            let j = s.drop_last().index_of(before[i]);
            assert(s[j] == before[i]);
        } else {
            assert(s[s.len() - 1] == s.last());
        }
    }
}

// ------------------------------------------------------------------------ URLs

/// Where the hub tells of a repository, with the sizes of its files.
pub fn repo_info_url(repo_id: &str) -> (r: String)
    ensures
        r@ == "https://huggingface.co/api/models/"@ + repo_id@ + "?blobs=true"@,
{
    let mut r = repo_url(repo_id);
    r.append("?blobs=true");
    r
}

/// Where the hub tells of a repository.
pub fn repo_url(repo_id: &str) -> (r: String)
    ensures
        r@ == "https://huggingface.co/api/models/"@ + repo_id@,
{
    String::from_str("https://huggingface.co/api/models/").concat(repo_id)
}

/// The place of a file on the hub.
pub open spec fn file_place(repo_id: Seq<char>, revision: Seq<char>, name: Seq<char>) -> Seq<char> {
    "https://huggingface.co/"@ + repo_id + "/resolve/"@ + revision + "/"@ + name
}

/// Where a file is downloaded from.
pub fn file_url(repo_id: &str, revision: &str, filename: &str) -> (r: String)
    ensures
        r@ == file_place(repo_id@, revision@, filename@),
{
    let mut r = String::from_str("https://huggingface.co/").concat(repo_id);
    r.append("/resolve/");
    r.append(revision);
    r.append("/");
    r.append(filename);
    r
}

// -------------------------------------------------------------------- transfer

/// A file need not be fetched: it is there at the size it should have.
pub fn is_cached(expected: Option<u64>, existing: Option<u64>) -> (r: bool)
    ensures
        r == (expected is Some && existing == expected),
{
    match (expected, existing) {
        (Some(e), Some(x)) => e == x,
        _ => false,
    }
}

/// A transfer goes on where the last one stopped: some of the file is there, and
/// not more of it than it should have.
pub fn resumes(existing: u64, expected: Option<u64>) -> (r: bool)
    ensures
        r == (existing > 0 && (expected matches Some(e) ==> existing < e)),
{
    existing > 0 && match expected {
        Some(e) => existing < e,
        None => true,
    }
}

/// The range to ask for when a transfer goes on.
pub fn range_header(existing: u64) -> (r: String)
    ensures
        r@ == "bytes="@ + number::decimal(existing as nat) + "-"@,
{
    let digits = number::to_decimal(existing);
    let mut r = String::from_str("bytes=").concat(digits.as_str());
    r.append("-");
    r
}

/// What an answer to a transfer request means.
#[derive(Debug, Clone, Copy, PartialEq, Eq, Structural)]
pub enum Reception {
    /// What is there is the whole file.
    Complete,
    /// The rest of the file follows; it is appended.
    Append,
    /// The whole file follows; it is written anew.
    Fresh,
    /// The request was refused.
    Refused,
}

/// What an answer with this status means, where the request asked for the rest of
/// the file or for all of it. A server that was asked for the rest and sends
/// everything does not get it appended.
pub open spec fn reception(status: u16, asked_rest: bool) -> Reception {
    if status == 416 {
        Reception::Complete
    } else if !(200 <= status < 300) {
        Reception::Refused
    } else if asked_rest && status == 206 {
        Reception::Append
    } else {
        Reception::Fresh
    }
}

/// What an answer with this status means.
pub fn receive(status: u16, asked_rest: bool) -> (r: Reception)
    ensures
        r == reception(status, asked_rest),
{
    if status == 416 {
        Reception::Complete
    } else if status < 200 || status >= 300 {
        Reception::Refused
    } else if asked_rest && status == 206 {
        Reception::Append
    } else {
        Reception::Fresh
    }
}

/// Whether a file is held against its checksum, where there is one: a file that was
/// sent from its first byte on, and one that was there already. Of a file whose rest
/// was appended, only the rest was seen.
pub fn takes_checksum(reception: Reception, has_expected: bool) -> (r: bool)
    ensures
        r == (has_expected && (reception == Reception::Fresh || reception == Reception::Complete)),
{
    match reception {
        Reception::Fresh | Reception::Complete => has_expected,
        _ => false,
    }
}

/// The message for a refused transfer. `status` is the status as text, such as
/// `404 Not Found`.
pub fn refused_message(status: &str, url: &str) -> (r: String)
    ensures
        r@ == "HTTP "@ + status@ + " for "@ + url@,
{
    let mut r = String::from_str("HTTP ").concat(status);
    r.append(" for ");
    r.append(url);
    r
}

/// The message for a repository that the hub does not tell of.
pub fn hub_error_message(status: &str, body: &str) -> (r: String)
    ensures
        r@ == "HuggingFace API error "@ + status@ + ": "@ + body@,
{
    let mut r = String::from_str("HuggingFace API error ").concat(status);
    r.append(": ");
    r.append(body);
    r
}

/// A transfer appends only what belongs behind what is there.
pub proof fn law_only_partial_content_is_appended(status: u16, asked_rest: bool)
    ensures
        reception(status, asked_rest) == Reception::Append ==> asked_rest && status == 206,
        status == 200 ==> reception(status, asked_rest) == Reception::Fresh,
{
}

// --------------------------------------------------------------------- reports

/// What is told of a transfer: how many bytes are there, and how many there will be;
/// zero where that is not known.
#[derive(Debug, Clone, Copy, PartialEq, Eq, Structural)]
pub struct Report {
    pub there: u64,
    pub total: u64,
}

/// What is told of a transfer, as numbers.
pub struct ReportView {
    pub there: nat,
    pub total: nat,
}

impl View for Report {
    type V = ReportView;

    open spec fn view(&self) -> ReportView {
        ReportView { there: self.there as nat, total: self.total as nat }
    }
}

/// What is told of a file that is there already: the size that it should have.
pub fn cached_report(size: u64) -> (r: Report)
    ensures
        r@ == (ReportView { there: size as nat, total: size as nat }),
{
    Report { there: size, total: size }
}

/// What is told when an answer has come: nothing of a refused transfer, the bytes
/// that are there where the rest follows, and none where the whole file does. A file
/// that is whole has at least the bytes that are there.
pub open spec fn first_report(
    reception: Reception,
    existing: u64,
    expected: Option<u64>,
) -> Option<ReportView> {
    let total: nat = match expected {
        Some(e) => e as nat,
        None => 0,
    };
    match reception {
        Reception::Refused => None,
        Reception::Append => Some(ReportView { there: existing as nat, total }),
        Reception::Fresh => Some(ReportView { there: 0, total }),
        Reception::Complete => Some(
            ReportView {
                there: existing as nat,
                total: if total < existing {
                    existing as nat
                } else {
                    total
                },
            },
        ),
    }
}

/// What is told when an answer has come.
pub fn begin_report(reception: Reception, existing: u64, expected: Option<u64>) -> (r: Option<
    Report,
>)
    ensures
        match r {
            Some(x) => first_report(reception, existing, expected) == Some(x@),
            None => first_report(reception, existing, expected) is None,
        },
{
    let total: u64 = match expected {
        Some(e) => e,
        None => 0,
    };
    match reception {
        Reception::Refused => None,
        Reception::Append => Some(Report { there: existing, total }),
        Reception::Fresh => Some(Report { there: 0, total }),
        Reception::Complete => Some(
            Report {
                there: existing,
                total: if total < existing {
                    existing
                } else {
                    total
                },
            },
        ),
    }
}

/// What is told after a chunk of so many bytes was written.
pub open spec fn report_after(before: ReportView, chunk: nat) -> ReportView {
    ReportView { there: before.there + chunk, ..before }
}

/// What is told after a chunk was written.
pub fn next_report(before: Report, chunk: u64) -> (r: Report)
    requires
        before.there + chunk <= u64::MAX,
    ensures
        r@ == report_after(before@, chunk as nat),
{
    Report { there: before.there + chunk, total: before.total }
}

/// Everything that is told of a transfer whose chunks have these sizes.
pub open spec fn reports_of(first: ReportView, chunks: Seq<nat>) -> Seq<ReportView>
    decreases chunks.len(),
{
    if chunks.len() == 0 {
        seq![first]
    } else {
        let before = reports_of(first, chunks.drop_last());
        before.push(report_after(before.last(), chunks.last()))
    }
}

/// The bytes of all chunks.
pub open spec fn size_of_all(chunks: Seq<nat>) -> nat
    decreases chunks.len(),
{
    if chunks.len() == 0 {
        0
    } else {
        size_of_all(chunks.drop_last()) + chunks.last()
    }
}

/// What is told of a transfer begins with what was told first and never falls, its
/// total stays the same, and at the end it is what came on top of the first count.
pub proof fn law_reports_grow_to_the_whole(first: ReportView, chunks: Seq<nat>)
    ensures
        ({
            let told = reports_of(first, chunks);
            &&& told.len() == chunks.len() + 1
            &&& told[0] == first
            &&& forall|i: int, j: int|
                0 <= i <= j < told.len() ==> (#[trigger] told[i]).there <= (#[trigger] told[j]).there
            &&& forall|i: int| 0 <= i < told.len() ==> (#[trigger] told[i]).total == first.total
            &&& told.last().there == first.there + size_of_all(chunks)
        }),
    decreases chunks.len(),
{
    if chunks.len() > 0 {
        law_reports_grow_to_the_whole(first, chunks.drop_last());
        let before = reports_of(first, chunks.drop_last());
        let told = reports_of(first, chunks);
        assert forall|i: int, j: int| 0 <= i <= j < told.len() implies (#[trigger] told[i]).there
            <= (#[trigger] told[j]).there by {
            if j == before.len() && i < j {
                assert(before[i].there <= before[before.len() - 1].there);
            }
        }
    }
}

/// A server that was asked for the rest of a file and sends all of it: the counts
/// begin at zero, never fall, keep the size that the file should have as their total,
/// and end at the size of what came.
pub proof fn law_ignored_range_is_told_from_zero(existing: u64, expected: u64, chunks: Seq<nat>)
    requires
        0 < existing < expected,
    ensures
        first_report(reception(200, true), existing, Some(expected)) == Some(
            (ReportView { there: 0, total: expected as nat }),
        ),
        ({
            let told = reports_of(ReportView { there: 0, total: expected as nat }, chunks);
            &&& told[0].there == 0
            &&& forall|i: int, j: int|
                0 <= i <= j < told.len() ==> (#[trigger] told[i]).there <= (#[trigger] told[j]).there
            &&& forall|i: int| 0 <= i < told.len() ==> (#[trigger] told[i]).total == expected
            &&& told.last().there == size_of_all(chunks)
        }),
{
    law_reports_grow_to_the_whole(ReportView { there: 0, total: expected as nat }, chunks);
}

/// A transfer that goes on and gets the rest of the file ends at the size that the
/// file should have.
pub proof fn law_resumed_transfer_ends_whole(existing: u64, expected: u64, chunks: Seq<nat>)
    requires
        0 < existing < expected,
        size_of_all(chunks) == expected - existing,
    ensures
        ({
            let first = first_report(reception(206, true), existing, Some(expected))->0;
            let told = reports_of(first, chunks);
            &&& first_report(reception(206, true), existing, Some(expected)) is Some
            &&& told[0].there == existing
            &&& told.last() == (ReportView { there: expected as nat, total: expected as nat })
        }),
{
    let first = first_report(reception(206, true), existing, Some(expected))->0;
    law_reports_grow_to_the_whole(first, chunks);
    let told = reports_of(first, chunks);
    assert(told[told.len() - 1].total == first.total);
}

// --------------------------------------------------------------------- retries

/// How often a file is tried.
pub const MAX_ATTEMPTS: u32 = 3;

/// A download that is tried again when it fails.
#[derive(Debug, Clone, Copy, PartialEq, Eq, Structural)]
pub struct Retry {
    failures: u32,
}

/// Two to the power of `n`.
pub open spec fn power_of_two(n: nat) -> nat
    decreases n,
{
    if n == 0 {
        1
    } else {
        2 * power_of_two((n - 1) as nat)
    }
}

impl Retry {
    /// How many attempts have failed.
    pub closed spec fn failed(&self) -> u32 {
        self.failures
    }

    /// A download that has not been tried.
    pub fn new() -> (r: Self)
        ensures
            r.failed() == 0,
    {
        Retry { failures: 0 }
    }

    /// Takes note of a failed attempt. Tells how many seconds to wait before the
    /// next one, each time twice as long; none where that was the last.
    pub fn fail(&mut self) -> (r: Option<u64>)
        requires
            old(self).failed() < MAX_ATTEMPTS,
        ensures
            final(self).failed() == old(self).failed() + 1,
            r == if final(self).failed() < MAX_ATTEMPTS {
                Some(power_of_two(final(self).failed() as nat) as u64)
            } else {
                None
            },
    {
        self.failures = self.failures + 1;
        proof {
            reveal_with_fuel(power_of_two, 4);
        }
        if self.failures == 1 {
            Some(2)
        } else if self.failures == 2 {
            Some(4)
        } else {
            None
        }
    }
}

} // verus!
