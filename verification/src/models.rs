//! The Parakeet model files: where they live, which must be present, what
//! to download, and the download status shown in the settings window.
//!
//! Creating directories, querying the model repository and running the
//! downloads are the caller's work; the library plans them and words
//! their progress and errors.

use vstd::prelude::*;

use crate::config::ParakeetModel;
use crate::text::{push_str, str_eq};

verus! {

broadcast use vstd::string::group_string_axioms;

/// The files a model download consists of, in download order.
pub open spec fn expected_files_spec() -> Seq<Seq<char>> {
    seq![
        "encoder-model.onnx"@,
        "encoder-model.onnx.data"@,
        "decoder_joint-model.onnx"@,
        "decoder_joint-model.onnx.data"@,
        "vocab.txt"@,
    ]
}

/// The files a model download consists of, in download order.
pub fn expected_files() -> (r: Vec<&'static str>)
    ensures
        r@.map_values(|s: &'static str| s@) == expected_files_spec(),
{
    let v = vec![
        "encoder-model.onnx",
        "encoder-model.onnx.data",
        "decoder_joint-model.onnx",
        "decoder_joint-model.onnx.data",
        "vocab.txt",
    ];
    assert(v@.map_values(|s: &'static str| s@) =~= expected_files_spec());
    v
}

/// The model cache under the home directory.
pub fn cache_dir(home: &str) -> (r: String)
    ensures
        r@ == crate::paths::join_spec(home@, ".cache/hush/models"@),
{
    proof {
        reveal_strlit(".cache/hush/models");
    }
    crate::paths::join_path(home, ".cache/hush/models")
}

/// The directory of a model under the model cache.
pub fn model_dir(home: &str, model: ParakeetModel) -> (r: String)
    ensures
        r@ == crate::paths::join_spec(
            crate::paths::join_spec(home@, ".cache/hush/models"@),
            model.cache_dir_name_spec(),
        ),
{
    let c = cache_dir(home);
    let name = model.cache_dir_name();
    proof {
        reveal_strlit("parakeet-tdt-0.6b-v3");
        reveal_strlit("parakeet-tdt-1.1b");
    }
    crate::paths::join_path(c.as_str(), name)
}

/// The files that must be on disk for a model to count as cached.
pub open spec fn required_files_spec(model: ParakeetModel) -> Seq<Seq<char>> {
    match model {
        ParakeetModel::V06b => seq![
            "encoder-model.onnx"@,
            "encoder-model.onnx.data"@,
            "decoder_joint-model.onnx"@,
            "vocab.txt"@,
        ],
        ParakeetModel::V11b => seq![
            "encoder-model.onnx"@,
            "encoder-model.onnx.data"@,
            "decoder_joint-model.onnx"@,
            "decoder_joint-model.onnx.data"@,
            "vocab.txt"@,
        ],
    }
}

/// The files that must be on disk for a model to count as cached.
pub fn required_files(model: ParakeetModel) -> (r: Vec<&'static str>)
    ensures
        r@.map_values(|s: &'static str| s@) == required_files_spec(model),
{
    match model {
        ParakeetModel::V06b => {
            let v = vec![
                "encoder-model.onnx",
                "encoder-model.onnx.data",
                "decoder_joint-model.onnx",
                "vocab.txt",
            ];
            assert(v@.map_values(|s: &'static str| s@) =~= required_files_spec(model));
            v
        },
        ParakeetModel::V11b => {
            let v = vec![
                "encoder-model.onnx",
                "encoder-model.onnx.data",
                "decoder_joint-model.onnx",
                "decoder_joint-model.onnx.data",
                "vocab.txt",
            ];
            assert(v@.map_values(|s: &'static str| s@) =~= required_files_spec(model));
            v
        },
    }
}

impl ParakeetModel {
    /// The directory name of the model under the model cache.
    pub open spec fn cache_dir_name_spec(self) -> Seq<char> {
        match self {
            ParakeetModel::V06b => "parakeet-tdt-0.6b-v3"@,
            ParakeetModel::V11b => "parakeet-tdt-1.1b"@,
        }
    }

    /// The URL prefix of the model's files.
    pub open spec fn download_url_prefix_spec(self) -> Seq<char> {
        match self {
            ParakeetModel::V06b => "https://huggingface.co/istupakov/parakeet-tdt-0.6b-v3-onnx/resolve/main/"@,
            ParakeetModel::V11b => "https://huggingface.co/dtgagnon/parakeet-tdt-1.1b-onnx/resolve/main/"@,
        }
    }

    /// The model's repository id.
    pub open spec fn model_id_spec(self) -> Seq<char> {
        match self {
            ParakeetModel::V06b => "istupakov/parakeet-tdt-0.6b-v3-onnx"@,
            ParakeetModel::V11b => "dtgagnon/parakeet-tdt-1.1b-onnx"@,
        }
    }

    /// The directory name of the model under the model cache.
    pub fn cache_dir_name(self) -> (r: &'static str)
        ensures
            r@ == self.cache_dir_name_spec(),
    {
        match self {
            ParakeetModel::V06b => "parakeet-tdt-0.6b-v3",
            ParakeetModel::V11b => "parakeet-tdt-1.1b",
        }
    }

    /// The URL prefix of the model's files.
    pub fn download_url_prefix(self) -> (r: &'static str)
        ensures
            r@ == self.download_url_prefix_spec(),
    {
        match self {
            ParakeetModel::V06b => "https://huggingface.co/istupakov/parakeet-tdt-0.6b-v3-onnx/resolve/main/",
            ParakeetModel::V11b => "https://huggingface.co/dtgagnon/parakeet-tdt-1.1b-onnx/resolve/main/",
        }
    }

    /// The model's repository id.
    pub fn model_id(self) -> (r: &'static str)
        ensures
            r@ == self.model_id_spec(),
    {
        match self {
            ParakeetModel::V06b => "istupakov/parakeet-tdt-0.6b-v3-onnx",
            ParakeetModel::V11b => "dtgagnon/parakeet-tdt-1.1b-onnx",
        }
    }
}

/// The views of a list of strings.
pub open spec fn string_views(v: Seq<String>) -> Seq<Seq<char>> {
    v.map_values(|s: String| s@)
}

/// Whether `names` holds `name`.
fn names_contain(names: &Vec<String>, name: &str) -> (r: bool)
    ensures
        r == string_views(names@).contains(name@),
{
    let mut i: usize = 0;
    while i < names.len()
        invariant
            i <= names@.len(),
            forall|j: int| 0 <= j < i ==> names@[j]@ != name@,
        decreases names@.len() - i,
    {
        if str_eq(names[i].as_str(), name) {
            assert(string_views(names@)[i as int] == name@);
            return true;
        }
        i = i + 1;
    }
    assert forall|j: int| 0 <= j < string_views(names@).len() implies string_views(names@)[j]
        != name@ by {
        assert(string_views(names@)[j] == names@[j]@);
    }
    false
}

/// Whether a model is cached: its directory exists and every required
/// file is among the files found in it.
pub open spec fn cached_spec(model: ParakeetModel, dir_exists: bool, present: Seq<Seq<char>>) -> bool {
    dir_exists && forall|i: int|
        0 <= i < required_files_spec(model).len() ==> present.contains(
            #[trigger] required_files_spec(model)[i],
        )
}

/// Whether a model is cached, given whether its directory exists and the
/// names of the files in it.
pub fn is_model_cached(model: ParakeetModel, dir_exists: bool, present: &Vec<String>) -> (r: bool)
    ensures
        r == cached_spec(model, dir_exists, string_views(present@)),
{
    if !dir_exists {
        return false;
    }
    let files = required_files(model);
    let ghost req = required_files_spec(model);
    let mut i: usize = 0;
    while i < files.len()
        invariant
            i <= files@.len(),
            files@.map_values(|s: &'static str| s@) == req,
            req == required_files_spec(model),
            forall|j: int| 0 <= j < i ==> string_views(present@).contains(#[trigger] req[j]),
        decreases files@.len() - i,
    {
        assert(req[i as int] == files@[i as int]@);
        if !names_contain(present, files[i]) {
            return false;
        }
        i = i + 1;
    }
    true
}

/// One file of the model repository, as its listing reports it.
#[derive(Debug, Clone, PartialEq, Eq)]
pub struct RepoFile {
    pub rfilename: String,
    pub size: Option<u64>,
    /// The size of the large-file blob, when the file is stored as one.
    pub lfs_size: Option<u64>,
}

/// The size of a listed file: its blob size, else its size, else zero.
pub open spec fn repo_file_size(f: RepoFile) -> u64 {
    match f.lfs_size {
        Some(s) => s,
        None => match f.size {
            Some(s) => s,
            None => 0,
        },
    }
}

/// The index of the first listed file named `name`, if any.
pub open spec fn first_named(files: Seq<RepoFile>, name: Seq<char>) -> Option<int>
    decreases files.len(),
{
    if files.len() == 0 {
        None
    } else if files[0].rfilename@ == name {
        Some(0)
    } else {
        match first_named(files.drop_first(), name) {
            Some(i) => Some(i + 1),
            None => None,
        }
    }
}

/// The size of the first listed file named `name`, or zero.
pub open spec fn listed_size(files: Seq<RepoFile>, name: Seq<char>) -> u64 {
    match first_named(files, name) {
        Some(i) => repo_file_size(files[i]),
        None => 0,
    }
}

proof fn lemma_first_named(files: Seq<RepoFile>, name: Seq<char>)
    ensures
        first_named(files, name) matches Some(i) ==> 0 <= i < files.len() && files[i].rfilename@
            == name && forall|j: int| 0 <= j < i ==> files[j].rfilename@ != name,
        first_named(files, name) is None ==> forall|j: int|
            0 <= j < files.len() ==> files[j].rfilename@ != name,
    decreases files.len(),
{
    if files.len() > 0 {
        lemma_first_named(files.drop_first(), name);
        assert forall|j: int| 1 <= j < files.len() implies files[j] == files.drop_first()[j - 1] by {}
    }
}

/// The size of the first listed file named `name`, or zero.
fn find_size(files: &Vec<RepoFile>, name: &str) -> (r: u64)
    ensures
        r == listed_size(files@, name@),
{
    proof {
        lemma_first_named(files@, name@);
    }
    let mut i: usize = 0;
    while i < files.len()
        invariant
            i <= files@.len(),
            forall|j: int| 0 <= j < i ==> files@[j].rfilename@ != name@,
        decreases files@.len() - i,
    {
        if str_eq(files[i].rfilename.as_str(), name) {
            proof {
                lemma_first_named(files@, name@);
                let k = first_named(files@, name@)->0;
                assert(k == i);
            }
            return match files[i].lfs_size {
                Some(s) => s,
                None => match files[i].size {
                    Some(s) => s,
                    None => 0,
                },
            };
        }
        i = i + 1;
    }
    0
}

/// A file to download and its expected size.
#[derive(Debug, Clone, PartialEq, Eq)]
pub struct PlannedFile {
    pub name: String,
    pub size: u64,
}

/// The planned downloads: each expected file, in order, that the
/// repository lists and that is not yet on disk, with its listed size.
pub open spec fn plan_spec(files: Seq<RepoFile>, on_disk: Seq<Seq<char>>, k: int) -> Seq<(Seq<char>, u64)>
    decreases k,
{
    if k <= 0 {
        Seq::empty()
    } else {
        let prev = plan_spec(files, on_disk, k - 1);
        let name = expected_files_spec()[k - 1];
        if first_named(files, name) is Some && !on_disk.contains(name) {
            prev.push((name, listed_size(files, name)))
        } else {
            prev
        }
    }
}

/// The view of a plan.
pub open spec fn plan_view(p: Seq<PlannedFile>) -> Seq<(Seq<char>, u64)> {
    p.map_values(|f: PlannedFile| (f.name@, f.size))
}

/// Plans the downloads from the repository listing and the names of the
/// files already on disk (see `plan_spec`).
pub fn plan_downloads(files: &Vec<RepoFile>, on_disk: &Vec<String>) -> (r: Vec<PlannedFile>)
    ensures
        plan_view(r@) == plan_spec(files@, string_views(on_disk@), 5),
{
    let expected = expected_files();
    let mut out: Vec<PlannedFile> = Vec::new();
    let mut k: usize = 0;
    proof {
        lemma_first_named_all(files@);
    }
    while k < expected.len()
        invariant
            k <= expected@.len(),
            expected@.map_values(|s: &'static str| s@) == expected_files_spec(),
            plan_view(out@) == plan_spec(files@, string_views(on_disk@), k as int),
            forall|name: Seq<char>|
                #[trigger] first_named(files@, name) is Some <==> exists|j: int|
                    0 <= j < files@.len() && files@[j].rfilename@ == name,
        decreases expected@.len() - k,
    {
        let name = expected[k];
        assert(name@ == expected_files_spec()[k as int]);
        let listed = listed_in(files, name);
        if listed && !names_contain(on_disk, name) {
            let size = find_size(files, name);
            let mut n = String::new();
            push_str(&mut n, name);
            let ghost before = out@;
            out.push(PlannedFile { name: n, size });
            assert(plan_view(out@) =~= plan_view(before).push((name@, size)));
        }
        k = k + 1;
    }
    assert(expected@.map_values(|s: &'static str| s@).len() == 5);
    out
}

proof fn lemma_first_named_all(files: Seq<RepoFile>)
    ensures
        forall|name: Seq<char>|
            #[trigger] first_named(files, name) is Some <==> exists|j: int|
                0 <= j < files.len() && files[j].rfilename@ == name,
{
    assert forall|name: Seq<char>|
        #[trigger] first_named(files, name) is Some <==> exists|j: int|
            0 <= j < files.len() && files[j].rfilename@ == name by {
        lemma_first_named(files, name);
    }
}

/// Whether the listing holds a file named `name`.
fn listed_in(files: &Vec<RepoFile>, name: &str) -> (r: bool)
    ensures
        r == exists|j: int| 0 <= j < files@.len() && files@[j].rfilename@ == name@,
{
    let mut i: usize = 0;
    while i < files.len()
        invariant
            i <= files@.len(),
            forall|j: int| 0 <= j < i ==> files@[j].rfilename@ != name@,
        decreases files@.len() - i,
    {
        if str_eq(files[i].rfilename.as_str(), name) {
            return true;
        }
        i = i + 1;
    }
    false
}

/// The sum of the sizes of a plan.
pub open spec fn plan_total(p: Seq<(Seq<char>, u64)>) -> int
    decreases p.len(),
{
    if p.len() == 0 {
        0
    } else {
        plan_total(p.drop_last()) + p.last().1
    }
}

/// The total size of a plan, or `None` when it does not fit in 64 bits.
pub fn total_bytes(plan: &Vec<PlannedFile>) -> (r: Option<u64>)
    ensures
        match r {
            Some(t) => t == plan_total(plan_view(plan@)),
            None => plan_total(plan_view(plan@)) > u64::MAX,
        },
{
    let mut total: u64 = 0;
    let mut i: usize = 0;
    while i < plan.len()
        invariant
            i <= plan@.len(),
            total == plan_total(plan_view(plan@).take(i as int)),
        decreases plan@.len() - i,
    {
        assert(plan_view(plan@).take(i + 1).drop_last() =~= plan_view(plan@).take(i as int));
        let size = plan[i].size;
        match total.checked_add(size) {
            Some(t) => total = t,
            None => {
                proof {
                    lemma_plan_total_prefix(plan_view(plan@), i + 1);
                }
                return None;
            },
        }
        i = i + 1;
    }
    assert(plan_view(plan@).take(plan@.len() as int) =~= plan_view(plan@));
    Some(total)
}

proof fn lemma_plan_total_prefix(p: Seq<(Seq<char>, u64)>, k: int)
    requires
        0 <= k <= p.len(),
    ensures
        plan_total(p.take(k)) <= plan_total(p),
    decreases p.len() - k,
{
    if k < p.len() {
        lemma_plan_total_prefix(p, k + 1);
        assert(p.take(k + 1).drop_last() =~= p.take(k));
    } else {
        assert(p.take(k) =~= p);
    }
}

/// Where the model download stands, as the settings window shows it.
#[derive(Debug, PartialEq, Eq)]
pub enum DownloadStatus {
    Idle,
    QueryingModelInfo,
    LoadingModel,
    Downloading { file: String, downloaded_bytes: u64, total_bytes: u64 },
    Error(String),
}

/// The abstract content of a `DownloadStatus`.
pub enum StatusView {
    Idle,
    QueryingModelInfo,
    LoadingModel,
    Downloading { file: Seq<char>, downloaded_bytes: u64, total_bytes: u64 },
    Error(Seq<char>),
}

impl View for DownloadStatus {
    type V = StatusView;

    open spec fn view(&self) -> StatusView {
        match self {
            DownloadStatus::Idle => StatusView::Idle,
            DownloadStatus::QueryingModelInfo => StatusView::QueryingModelInfo,
            DownloadStatus::LoadingModel => StatusView::LoadingModel,
            DownloadStatus::Downloading { file, downloaded_bytes, total_bytes } => StatusView::Downloading {
                file: file@,
                downloaded_bytes: *downloaded_bytes,
                total_bytes: *total_bytes,
            },
            DownloadStatus::Error(e) => StatusView::Error(e@),
        }
    }
}

impl DownloadStatus {
    /// A copy of the status.
    pub fn duplicate(&self) -> (r: DownloadStatus)
        ensures
            r@ == self@,
    {
        match self {
            DownloadStatus::Idle => DownloadStatus::Idle,
            DownloadStatus::QueryingModelInfo => DownloadStatus::QueryingModelInfo,
            DownloadStatus::LoadingModel => DownloadStatus::LoadingModel,
            DownloadStatus::Downloading { file, downloaded_bytes, total_bytes } => DownloadStatus::Downloading {
                file: file.clone(),
                downloaded_bytes: *downloaded_bytes,
                total_bytes: *total_bytes,
            },
            DownloadStatus::Error(e) => DownloadStatus::Error(e.clone()),
        }
    }
}

/// The shared download status: the model worker sets it, the settings
/// window reads it.
#[derive(Debug)]
pub struct DownloadStatusSlot {
    status: DownloadStatus,
}

impl View for DownloadStatusSlot {
    type V = StatusView;

    closed spec fn view(&self) -> StatusView {
        self.status@
    }
}

impl DownloadStatusSlot {
    /// A slot holding `Idle`.
    pub fn new() -> (r: DownloadStatusSlot)
        ensures
            r@ == StatusView::Idle,
    {
        DownloadStatusSlot { status: DownloadStatus::Idle }
    }

    /// The current status.
    pub fn get_download_status(&self) -> (r: DownloadStatus)
        ensures
            r@ == self@,
    {
        self.status.duplicate()
    }

    /// Replaces the status.
    pub fn set_download_status(&mut self, status: DownloadStatus)
        ensures
            final(self)@ == status@,
    {
        self.status = status;
    }
}

/// The status while a file downloads: its name, the bytes of the plan
/// done so far (earlier files plus the part file), and the plan's total.
pub fn downloading_status(file: &str, completed: u64, part_bytes: u64, total: u64) -> (r: DownloadStatus)
    ensures
        r@ == (StatusView::Downloading {
            file: file@,
            downloaded_bytes: (if completed + part_bytes > u64::MAX {
                u64::MAX
            } else {
                (completed + part_bytes) as u64
            }),
            total_bytes: total,
        }),
{
    let mut f = String::new();
    push_str(&mut f, file);
    DownloadStatus::Downloading {
        file: f,
        downloaded_bytes: completed.saturating_add(part_bytes),
        total_bytes: total,
    }
}

/// `prefix` followed by `detail`.
fn prefixed(prefix: &str, detail: &str) -> (r: String)
    ensures
        r@ == prefix@ + detail@,
{
    let mut s = String::new();
    push_str(&mut s, prefix);
    push_str(&mut s, detail);
    s
}

/// The error when the model directory cannot be created.
pub fn dir_error(detail: &str) -> (r: String)
    ensures
        r@ == "create parakeet model dir: "@ + detail@,
{
    prefixed("create parakeet model dir: ", detail)
}

/// The error when the model listing cannot be fetched.
pub fn info_error(detail: &str) -> (r: String)
    ensures
        r@ == "fetch model info failed: "@ + detail@,
{
    prefixed("fetch model info failed: ", detail)
}

/// The error when a file download fails.
pub fn download_error(file: &str) -> (r: String)
    ensures
        r@ == "download failed: "@ + file@,
{
    prefixed("download failed: ", file)
}

/// The URL of a model file.
pub fn file_url(model: ParakeetModel, file: &str) -> (r: String)
    ensures
        r@ == model.download_url_prefix_spec() + file@,
{
    prefixed(model.download_url_prefix(), file)
}

/// The listing URL of a model.
pub fn model_info_url(model: ParakeetModel) -> (r: String)
    ensures
        r@ == "https://huggingface.co/api/models/"@ + model.model_id_spec() + "?blobs=true"@,
{
    let mut s = String::new();
    push_str(&mut s, "https://huggingface.co/api/models/");
    push_str(&mut s, model.model_id());
    push_str(&mut s, "?blobs=true");
    s
}

} // verus!
