//! The decisions of the download pipeline: which requests go to the
//! downloader, what each downloader record means, which follow-up requests a
//! finished download needs, and how outcomes are sorted into a report.
//!
//! The worker processes, the channel between the reader and the
//! post-processor, and the lock round the in-flight map belong to the caller.
use crate::annex::{texts, AddURLOutput, AnnexError};
use crate::filepath::FilePath;
use crate::requests::{field_texts, AddURLInput, MetadataInput, RegisterURLInput};
use crate::text::{decimal, decimal_text};
use vstd::multiset::Multiset;
use vstd::prelude::*;

verus! {

broadcast use vstd::seq_lib::group_to_multiset_ensures;

/// A request to download one URL to one path.
#[derive(Clone, Debug, Eq, PartialEq)]
pub struct Downloadable {
    pub path: FilePath,
    /// The absolute URL, in its serialized form.
    pub url: String,
    /// Metadata fields with their values, in order.  Read from a JSON
    /// object, each name comes once; a list built by hand may repeat a name,
    /// and then each entry is sent as written.
    pub metadata: Vec<(String, Vec<String>)>,
    /// More URLs of the same content, in order.
    pub extra_urls: Vec<String>,
}

/// What became of one request.
#[derive(Debug, Eq, PartialEq)]
pub struct DownloadResult {
    pub downloadable: Downloadable,
    pub download: Result<(), AnnexError>,
    /// The key of the downloaded content; absent when it was committed to
    /// git rather than annexed.
    pub key: Option<String>,
    pub metadata_added: Option<Result<(), AnnexError>>,
    /// Each extra URL with the outcome of registering it, in the order the
    /// URLs were registered.  A URL listed twice is registered twice and
    /// keeps both outcomes, so a failure of either makes the result fail.
    pub urls_added: Vec<(String, Result<(), AnnexError>)>,
}

impl DownloadResult {
    /// The download worked, and so did each follow-up request.
    pub open spec fn succeeded(&self) -> bool {
        &&& self.download is Ok
        &&& !(self.metadata_added matches Some(Err(_)))
        &&& forall|i: int| 0 <= i < self.urls_added@.len() ==> (#[trigger] self.urls_added@[i]).1 is Ok
    }

    /// A result just out of the downloader, with nothing added yet.
    pub open spec fn is_fresh(
        &self,
        d: Downloadable,
        download: Result<(), AnnexError>,
        key: Option<String>,
    ) -> bool {
        &&& self.downloadable == d
        &&& self.download == download
        &&& self.key == key
        &&& self.metadata_added is None
        &&& self.urls_added@.len() == 0
    }

    /// Whether the download and each follow-up request worked.
    pub fn success(&self) -> (r: bool)
        ensures
            r == self.succeeded(),
    {
        if self.download.is_err() {
            return false;
        }
        if let Some(Err(_)) = &self.metadata_added {
            return false;
        }
        let n = self.urls_added.len();
        let mut i: usize = 0;
        while i < n
            invariant
                n == self.urls_added@.len(),
                i <= n,
                forall|j: int| 0 <= j < i ==> (#[trigger] self.urls_added@[j]).1 is Ok,
            decreases n - i,
        {
            if self.urls_added[i].1.is_err() {
                return false;
            }
            i = i + 1;
        }
        true
    }

    /// The result of a download that worked.
    pub fn successful_download(downloadable: Downloadable, key: Option<String>) -> (r: DownloadResult)
        ensures
            r.is_fresh(downloadable, Ok(()), key),
    {
        DownloadResult {
            downloadable,
            download: Ok(()),
            key,
            metadata_added: None,
            urls_added: Vec::new(),
        }
    }

    /// The result of a download that failed.
    pub fn failed_download(downloadable: Downloadable, err: AnnexError) -> (r: DownloadResult)
        ensures
            r.is_fresh(downloadable, Err(err), None),
    {
        DownloadResult {
            downloadable,
            download: Err(err),
            key: None,
            metadata_added: None,
            urls_added: Vec::new(),
        }
    }

    /// Records the outcome of setting the metadata.
    pub fn record_metadata(&mut self, outcome: Result<(), AnnexError>)
        ensures
            final(self).metadata_added == Some(outcome),
            final(self).downloadable == old(self).downloadable,
            final(self).download == old(self).download,
            final(self).key == old(self).key,
            final(self).urls_added@ == old(self).urls_added@,
    {
        self.metadata_added = Some(outcome);
    }

    /// Records the outcome of registering `url`.
    pub fn record_url(&mut self, url: String, outcome: Result<(), AnnexError>)
        ensures
            final(self).urls_added@ == old(self).urls_added@.push((url, outcome)),
            final(self).downloadable == old(self).downloadable,
            final(self).download == old(self).download,
            final(self).key == old(self).key,
            final(self).metadata_added == old(self).metadata_added,
    {
        self.urls_added.push((url, outcome));
    }
}

// ---------------------------------------------------------------------------
// The in-flight map
// ---------------------------------------------------------------------------

/// Requests that went to the downloader and did not come back yet, by path.
///
/// The entries are kept in a list with each path once, and looking one up
/// walks the list: time linear in the number of downloads in flight.
pub struct InProgress {
    data: Vec<Downloadable>,
    model: Ghost<Map<Seq<char>, Downloadable>>,
}

impl View for InProgress {
    type V = Map<Seq<char>, Downloadable>;

    closed spec fn view(&self) -> Map<Seq<char>, Downloadable> {
        self.model@
    }
}

/// The map after an `add` of `d`, and what `add` returns.
pub open spec fn add_spec(m: Map<Seq<char>, Downloadable>, d: Downloadable) -> (
    bool,
    Map<Seq<char>, Downloadable>,
) {
    if m.contains_key(d.path@) {
        (false, m)
    } else {
        (true, m.insert(d.path@, d))
    }
}

/// The map after a `pop` of `path`, and what `pop` returns.
pub open spec fn pop_spec(m: Map<Seq<char>, Downloadable>, path: Seq<char>) -> (
    Option<Downloadable>,
    Map<Seq<char>, Downloadable>,
) {
    if m.contains_key(path) {
        (Some(m[path]), m.remove(path))
    } else {
        (None, m)
    }
}

impl InProgress {
    /// The entries are held once each, and the map says which.
    pub closed spec fn wf(&self) -> bool {
        &&& forall|i: int, j: int|
            0 <= i < j < self.data@.len() ==> (#[trigger] self.data@[i]).path@
                != (#[trigger] self.data@[j]).path@
        &&& forall|i: int|
            0 <= i < self.data@.len() ==> self.model@.contains_key(
                (#[trigger] self.data@[i]).path@,
            ) && self.model@[self.data@[i].path@] == self.data@[i]
        &&& forall|k: Seq<char>|
            #[trigger] self.model@.contains_key(k) ==> exists|i: int|
                0 <= i < self.data@.len() && (#[trigger] self.data@[i]).path@ == k
    }

    /// An empty map.
    pub fn new() -> (r: InProgress)
        ensures
            r.wf(),
            r@ == Map::<Seq<char>, Downloadable>::empty(),
    {
        InProgress { data: Vec::new(), model: Ghost(Map::empty()) }
    }

    /// Index of the entry for `path`, if any.
    fn find(&self, path: &FilePath) -> (r: Option<usize>)
        requires
            self.wf(),
        ensures
            match r {
                Some(i) => i < self.data@.len() && self.data@[i as int].path@ == path@,
                None => !self@.contains_key(path@),
            },
    {
        let n = self.data.len();
        let mut i: usize = 0;
        while i < n
            invariant
                n == self.data@.len(),
                i <= n,
                forall|j: int| 0 <= j < i ==> (#[trigger] self.data@[j]).path@ != path@,
            decreases n - i,
        {
            if self.data[i].path.same_as(path) {
                return Some(i);
            }
            i = i + 1;
        }
        None
    }

    /// Takes `dl` in unless its path is already in flight; says whether it
    /// did.
    pub fn add(&mut self, dl: Downloadable) -> (r: bool)
        requires
            old(self).wf(),
        ensures
            final(self).wf(),
            (r, final(self)@) == add_spec(old(self)@, dl),
    {
        match self.find(&dl.path) {
            Some(_) => false,
            None => {
                let ghost k = dl.path@;
                let ghost old_data = self.data@;
                self.model = Ghost(self.model@.insert(k, dl));
                self.data.push(dl);
                proof {
                    assert(self.data@ == old_data.push(dl));
                    assert forall|k2: Seq<char>| #[trigger]
                        self.model@.contains_key(k2) implies exists|i: int|
                        0 <= i < self.data@.len() && (#[trigger] self.data@[i]).path@ == k2 by {
                        if k2 == k {
                            assert(self.data@[old_data.len() as int].path@ == k2);
                        } else {
                            let i = choose|i: int|
                                0 <= i < old_data.len() && (#[trigger] old_data[i]).path@ == k2;
                            assert(self.data@[i].path@ == k2);
                        }
                    }
                }
                true
            },
        }
    }

    /// Takes out and returns the entry for `path`, if there is one.
    pub fn pop(&mut self, path: &FilePath) -> (r: Option<Downloadable>)
        requires
            old(self).wf(),
        ensures
            final(self).wf(),
            (r, final(self)@) == pop_spec(old(self)@, path@),
    {
        match self.find(path) {
            None => None,
            Some(i) => {
                let ghost k = path@;
                let ghost old_data = self.data@;
                proof {
                    old_data.remove_ensures(i as int);
                }
                let dl = self.data.remove(i);
                self.model = Ghost(self.model@.remove(k));
                proof {
                    assert forall|a: int, b: int|
                        0 <= a < b < self.data@.len() implies (#[trigger] self.data@[a]).path@
                        != (#[trigger] self.data@[b]).path@ by {
                        let a2 = if a < i { a } else { a + 1 };
                        let b2 = if b < i { b } else { b + 1 };
                        assert(old_data[a2] == self.data@[a]);
                        assert(old_data[b2] == self.data@[b]);
                    }
                    assert forall|j: int| 0 <= j < self.data@.len() implies self.model@.contains_key(
                        (#[trigger] self.data@[j]).path@,
                    ) && self.model@[self.data@[j].path@] == self.data@[j] by {
                        let j2 = if j < i { j } else { j + 1 };
                        assert(old_data[j2] == self.data@[j]);
                        assert(old_data[j2].path@ != old_data[i as int].path@);
                    }
                    assert forall|k2: Seq<char>| #[trigger]
                        self.model@.contains_key(k2) implies exists|j: int|
                        0 <= j < self.data@.len() && (#[trigger] self.data@[j]).path@ == k2 by {
                        let j2 = choose|j: int|
                            0 <= j < old_data.len() && (#[trigger] old_data[j]).path@ == k2;
                        assert(j2 != i);
                        let j = if j2 < i { j2 } else { j2 - 1 };
                        assert(self.data@[j] == old_data[j2]);
                    }
                }
                Some(dl)
            },
        }
    }
}

/// Adding a request takes it in once: a second request for the same path
/// is turned away and changes nothing, and once the first is popped the
/// path can be taken in again.
pub proof fn lemma_add_once(m: Map<Seq<char>, Downloadable>, d1: Downloadable, d2: Downloadable)
    requires
        !m.contains_key(d1.path@),
        d2.path@ == d1.path@,
    ensures
        add_spec(m, d1).0,
        !add_spec(add_spec(m, d1).1, d2).0,
        add_spec(add_spec(m, d1).1, d2).1 == add_spec(m, d1).1,
        pop_spec(add_spec(m, d1).1, d1.path@) == (Some(d1), m),
        add_spec(pop_spec(add_spec(m, d1).1, d1.path@).1, d2).0,
{
    assert(m.insert(d1.path@, d1).remove(d1.path@) =~= m);
}

/// One operation on the in-flight map.
pub enum InFlightOp {
    Add(Downloadable),
    Pop(Seq<char>),
}

/// The map after operations `ops` starting from `m`, with how many adds
/// were accepted and how many pops found an entry.
pub open spec fn replay(m: Map<Seq<char>, Downloadable>, ops: Seq<InFlightOp>) -> (
    Map<Seq<char>, Downloadable>,
    nat,
    nat,
)
    decreases ops.len(),
{
    if ops.len() == 0 {
        (m, 0, 0)
    } else {
        let (m1, adds, pops) = replay(m, ops.drop_last());
        match ops.last() {
            InFlightOp::Add(d) => {
                let (ok, m2) = add_spec(m1, d);
                (m2, if ok { adds + 1 } else { adds }, pops)
            },
            InFlightOp::Pop(k) => {
                let (r, m2) = pop_spec(m1, k);
                (m2, adds, if r is Some { pops + 1 } else { pops })
            },
        }
    }
}

/// Nothing leaves the map that was not taken in: from an empty map, the
/// pops that find an entry never outnumber the accepted adds, and the
/// difference is what is still in flight.
pub proof fn lemma_pops_match_adds(ops: Seq<InFlightOp>)
    ensures
        replay(Map::empty(), ops).0.dom().finite(),
        replay(Map::empty(), ops).2 + replay(Map::empty(), ops).0.dom().len() == replay(
            Map::empty(),
            ops,
        ).1,
    decreases ops.len(),
{
    if ops.len() > 0 {
        lemma_pops_match_adds(ops.drop_last());
        let (m1, adds, pops) = replay(Map::empty(), ops.drop_last());
        match ops.last() {
            InFlightOp::Add(d) => {
                if !m1.contains_key(d.path@) {
                    assert(m1.insert(d.path@, d).dom() =~= m1.dom().insert(d.path@));
                }
            },
            InFlightOp::Pop(k) => {
                if m1.contains_key(k) {
                    assert(m1.remove(k).dom() =~= m1.dom().remove(k));
                }
            },
        }
    } else {
        assert(Map::<Seq<char>, Downloadable>::empty().dom() =~= Set::<Seq<char>>::empty());
    }
}

// ---------------------------------------------------------------------------
// Feeding and reading the downloader
// ---------------------------------------------------------------------------

/// Registers `dl` as in flight and returns the request to send for it, or
/// `None` when its path is already in flight and the request is dropped.
pub fn feed_step(in_progress: &mut InProgress, dl: Downloadable) -> (r: Option<AddURLInput>)
    requires
        old(in_progress).wf(),
    ensures
        final(in_progress).wf(),
        (r is Some, final(in_progress)@) == add_spec(old(in_progress)@, dl),
        r matches Some(input) ==> input.url@ == dl.url@ && input.path@ == dl.path@,
{
    let input = AddURLInput { url: dl.url.clone(), path: dl.path.duplicate() };
    if in_progress.add(dl) {
        Some(input)
    } else {
        None
    }
}

/// Why the pipeline stops.
#[derive(Clone, Debug, Eq, PartialEq)]
pub enum PipelineError {
    /// The downloader wrote a record without a file.
    NoFile,
    /// The downloader wrote a record for a file that was not in flight.
    NoRecord(FilePath),
}

impl PipelineError {
    /// A description of the error.
    pub fn message(&self) -> (r: String)
        ensures
            self is NoFile ==> r@ == "`git-annex addurl` outputted a line without a file"@,
            self matches PipelineError::NoRecord(p) ==> r@ == "No record found for download of "@
                + p@,
    {
        match self {
            PipelineError::NoFile => String::from_str(
                "`git-annex addurl` outputted a line without a file",
            ),
            PipelineError::NoRecord(p) => {
                let mut s = String::from_str("No record found for download of ");
                s.append(p.as_str());
                s
            },
        }
    }
}

/// What a downloader record comes to.
#[derive(Debug, Eq, PartialEq)]
pub enum ReaderStep {
    /// A download is under way; the text describes how far it got.
    Progress(String),
    /// A download ended; the result goes on to post-processing.
    Finished(DownloadResult),
}

/// The description of download progress: bytes so far, the total size or
/// `???`, the percentage or `??.??%`.
pub open spec fn progress_text(
    file: Seq<char>,
    bytes: nat,
    total: Option<nat>,
    percent: Option<Seq<char>>,
) -> Seq<char> {
    file + ": Downloaded "@ + decimal(bytes) + " / "@ + match total {
        Some(t) => decimal(t),
        None => "???"@,
    } + " bytes ("@ + match percent {
        Some(p) => p,
        None => "??.??%"@,
    } + ")"@
}

/// What a progress description names: the file, or `<unknown>` for a
/// download without an explicit path.
pub open spec fn subject(file: Option<FilePath>) -> Seq<char> {
    match file {
        Some(f) => f@,
        None => "<unknown>"@,
    }
}

/// What reading record `out` does, from in-flight map `m0` to `m1`.
pub open spec fn reads(
    m0: Map<Seq<char>, Downloadable>,
    out: AddURLOutput,
    r: Result<ReaderStep, PipelineError>,
    m1: Map<Seq<char>, Downloadable>,
) -> bool {
    match out {
        AddURLOutput::Progress { byte_progress, total_size, percent_progress, action } => {
            &&& m1 == m0
            &&& r matches Ok(ReaderStep::Progress(t))
            &&& t@ == progress_text(
                subject(action.file),
                byte_progress as nat,
                match total_size {
                    Some(n) => Some(n as nat),
                    None => None,
                },
                match percent_progress {
                    Some(p) => Some(p@),
                    None => None,
                },
            )
        },
        AddURLOutput::Completion { key, action, result, .. } => match action.file {
            None => r == Err::<ReaderStep, PipelineError>(PipelineError::NoFile) && m1 == m0,
            Some(f) => {
                if m0.contains_key(f@) {
                    &&& m1 == m0.remove(f@)
                    &&& r matches Ok(ReaderStep::Finished(dr))
                    &&& dr.downloadable == m0[f@]
                    &&& dr.metadata_added is None
                    &&& dr.urls_added@.len() == 0
                    &&& if result.success {
                        dr.download is Ok && dr.key == key
                    } else {
                        &&& dr.download matches Err(e)
                        &&& e@ == result.error_messages@
                        &&& dr.key is None
                    }
                } else {
                    &&& m1 == m0
                    &&& r matches Err(PipelineError::NoRecord(p))
                    &&& p@ == f@
                }
            },
        },
    }
}

/// The description of download progress.
fn describe_progress(
    file: &Option<FilePath>,
    bytes: usize,
    total: Option<usize>,
    percent: Option<String>,
) -> (r: String)
    ensures
        r@ == progress_text(
            subject(*file),
            bytes as nat,
            match total {
                Some(t) => Some(t as nat),
                None => None,
            },
            match percent {
                Some(p) => Some(p@),
                None => None,
            },
        ),
{
    let mut s = match file {
        Some(f) => f.to_string(),
        None => String::from_str("<unknown>"),
    };
    s.append(": Downloaded ");
    s.append(decimal_text(bytes).as_str());
    s.append(" / ");
    match total {
        Some(t) => s.append(decimal_text(t).as_str()),
        None => s.append("???"),
    }
    s.append(" bytes (");
    match percent {
        Some(p) => s.append(p.as_str()),
        None => s.append("??.??%"),
    }
    s.append(")");
    s
}

/// Reads one record of the downloader: progress is described, and a
/// finished download leaves the in-flight map as a result.
pub fn read_record(in_progress: &mut InProgress, out: AddURLOutput) -> (r: Result<
    ReaderStep,
    PipelineError,
>)
    requires
        old(in_progress).wf(),
    ensures
        final(in_progress).wf(),
        reads(old(in_progress)@, out, r, final(in_progress)@),
{
    match out {
        AddURLOutput::Progress { byte_progress, total_size, percent_progress, action } => Ok(
            ReaderStep::Progress(
                describe_progress(&action.file, byte_progress, total_size, percent_progress),
            ),
        ),
        AddURLOutput::Completion { key, action, result, .. } => {
            let file = match action.file {
                Some(f) => f,
                None => return Err(PipelineError::NoFile),
            };
            match in_progress.pop(&file) {
                Some(dl) => {
                    if result.success {
                        Ok(ReaderStep::Finished(DownloadResult::successful_download(dl, key)))
                    } else {
                        let err = AnnexError::new(result.error_messages);
                        Ok(ReaderStep::Finished(DownloadResult::failed_download(dl, err)))
                    }
                },
                None => Err(PipelineError::NoRecord(file)),
            }
        },
    }
}

// ---------------------------------------------------------------------------
// Post-processing
// ---------------------------------------------------------------------------

/// The follow-up requests for one finished download.
#[derive(Clone, Debug, Eq, PartialEq)]
pub struct PostPlan {
    /// The metadata to set, if the download gave a key and metadata was asked for.
    pub metadata: Option<MetadataInput>,
    /// The URLs to register, in order, if the download gave a key.
    pub urls: Vec<RegisterURLInput>,
    /// The download worked without a key, though metadata or extra URLs
    /// were asked for: they cannot be attached.
    pub keyless_extras: bool,
}

/// A download that worked without giving a key counts as a success: no
/// follow-up request is made for it, and it goes to the successful list.
pub proof fn lemma_keyless_success(r: DownloadResult, d: Downloadable)
    requires
        r.is_fresh(d, Ok(()), None),
    ensures
        r.succeeded(),
{
}

/// A copy of metadata fields.
fn copy_fields(fs: &Vec<(String, Vec<String>)>) -> (r: Vec<(String, Vec<String>)>)
    ensures
        field_texts(r@) == field_texts(fs@),
{
    let mut r: Vec<(String, Vec<String>)> = Vec::new();
    let n = fs.len();
    let mut i: usize = 0;
    while i < n
        invariant
            n == fs@.len(),
            i <= n,
            r@.len() == i,
            forall|j: int| 0 <= j < i ==> (#[trigger] r@[j]).0@ == fs@[j].0@ && texts(r@[j].1@) == texts(fs@[j].1@),
        decreases n - i,
    {
        let name = fs[i].0.clone();
        let values = copy_texts(&fs[i].1);
        r.push((name, values));
        i = i + 1;
    }
    proof {
        assert(field_texts(r@) =~= field_texts(fs@));
    }
    r
}

/// A copy of a list of strings.
fn copy_texts(vs: &Vec<String>) -> (r: Vec<String>)
    ensures
        texts(r@) == texts(vs@),
{
    let mut r: Vec<String> = Vec::new();
    let n = vs.len();
    let mut i: usize = 0;
    while i < n
        invariant
            n == vs@.len(),
            i <= n,
            r@.len() == i,
            forall|j: int| 0 <= j < i ==> (#[trigger] r@[j])@ == vs@[j]@,
        decreases n - i,
    {
        r.push(vs[i].clone());
        i = i + 1;
    }
    proof {
        assert(texts(r@) =~= texts(vs@));
    }
    r
}

/// The follow-up requests for `r`: none for a failed download; with a key,
/// the metadata if any was asked for, then each extra URL in order; without
/// a key, none, and a note if some were asked for.
pub fn plan_post_processing(r: &DownloadResult) -> (p: PostPlan)
    ensures
        r.download is Err ==> p.metadata is None && p.urls@.len() == 0 && !p.keyless_extras,
        r.download is Ok && r.key is None ==> p.metadata is None && p.urls@.len() == 0
            && p.keyless_extras == (r.downloadable.metadata@.len() > 0
            || r.downloadable.extra_urls@.len() > 0),
        r.download is Ok && r.key is Some ==> {
            &&& !p.keyless_extras
            &&& (p.metadata is Some <==> r.downloadable.metadata@.len() > 0)
            &&& (p.metadata matches Some(m) ==> m.key@ == r.key->Some_0@ && field_texts(m.fields@)
                == field_texts(r.downloadable.metadata@))
            &&& p.urls@.len() == r.downloadable.extra_urls@.len()
            &&& forall|i: int|
                0 <= i < p.urls@.len() ==> (#[trigger] p.urls@[i]).key@ == r.key->Some_0@
                    && p.urls@[i].url@ == r.downloadable.extra_urls@[i]@
        },
{
    if r.download.is_err() {
        return PostPlan { metadata: None, urls: Vec::new(), keyless_extras: false };
    }
    match &r.key {
        None => {
            let extras = r.downloadable.metadata.len() > 0 || r.downloadable.extra_urls.len() > 0;
            PostPlan { metadata: None, urls: Vec::new(), keyless_extras: extras }
        },
        Some(key) => {
            let metadata = if r.downloadable.metadata.len() > 0 {
                Some(MetadataInput { key: key.clone(), fields: copy_fields(&r.downloadable.metadata) })
            } else {
                None
            };
            let mut urls: Vec<RegisterURLInput> = Vec::new();
            let n = r.downloadable.extra_urls.len();
            let mut i: usize = 0;
            while i < n
                invariant
                    n == r.downloadable.extra_urls@.len(),
                    i <= n,
                    urls@.len() == i,
                    forall|j: int|
                        0 <= j < i ==> (#[trigger] urls@[j]).key@ == key@ && urls@[j].url@
                            == r.downloadable.extra_urls@[j]@,
                decreases n - i,
            {
                urls.push(RegisterURLInput { key: key.clone(), url: r.downloadable.extra_urls[i].clone() });
                i = i + 1;
            }
            PostPlan { metadata, urls, keyless_extras: false }
        },
    }
}

// ---------------------------------------------------------------------------
// The report
// ---------------------------------------------------------------------------

/// The results that worked and those that did not, each in arrival order.
#[derive(Debug, Eq, PartialEq)]
pub struct Report {
    pub successful: Vec<DownloadResult>,
    pub failed: Vec<DownloadResult>,
}

/// The two lists after results `rs` were added one by one to an empty report.
pub open spec fn report_of(rs: Seq<DownloadResult>) -> (Seq<DownloadResult>, Seq<DownloadResult>)
    decreases rs.len(),
{
    if rs.len() == 0 {
        (Seq::empty(), Seq::empty())
    } else {
        let (s, f) = report_of(rs.drop_last());
        if rs.last().succeeded() {
            (s.push(rs.last()), f)
        } else {
            (s, f.push(rs.last()))
        }
    }
}

impl Report {
    /// An empty report.
    pub fn new() -> (r: Report)
        ensures
            r.successful@ == Seq::<DownloadResult>::empty(),
            r.failed@ == Seq::<DownloadResult>::empty(),
    {
        Report { successful: Vec::new(), failed: Vec::new() }
    }

    /// Adds `r` at the end of the list it belongs to.
    pub fn push(&mut self, r: DownloadResult)
        ensures
            r.succeeded() ==> final(self).successful@ == old(self).successful@.push(r)
                && final(self).failed@ == old(self).failed@,
            !r.succeeded() ==> final(self).failed@ == old(self).failed@.push(r)
                && final(self).successful@ == old(self).successful@,
    {
        if r.success() {
            self.successful.push(r);
        } else {
            self.failed.push(r);
        }
    }
}

/// The results that worked, in order.
pub open spec fn successes(rs: Seq<DownloadResult>) -> Seq<DownloadResult> {
    rs.filter(|r: DownloadResult| r.succeeded())
}

/// The results that did not work, in order.
pub open spec fn failures(rs: Seq<DownloadResult>) -> Seq<DownloadResult> {
    rs.filter(|r: DownloadResult| !r.succeeded())
}

/// Results added one by one to a report are split by success, each list
/// keeping the order of arrival, and each result lands in exactly one list.
pub proof fn lemma_report_partition(rs: Seq<DownloadResult>)
    ensures
        report_of(rs).0 == successes(rs),
        report_of(rs).1 == failures(rs),
        report_of(rs).0.len() + report_of(rs).1.len() == rs.len(),
        report_of(rs).0.to_multiset().add(report_of(rs).1.to_multiset()) == rs.to_multiset(),
    decreases rs.len(),
{
    if rs.len() == 0 {
        reveal(Seq::filter);
        assert(rs.to_multiset() =~= Multiset::<DownloadResult>::empty());
        assert(Seq::<DownloadResult>::empty().to_multiset() =~= Multiset::<DownloadResult>::empty());
        assert(Multiset::<DownloadResult>::empty().add(Multiset::<DownloadResult>::empty()) =~= Multiset::<DownloadResult>::empty());
    } else {
        let init = rs.drop_last();
        lemma_report_partition(init);
        assert(init.push(rs.last()) =~= rs);
        let (s, f) = report_of(init);
        reveal(Seq::filter);
        if rs.last().succeeded() {
            assert(s.push(rs.last()).to_multiset().add(f.to_multiset()) =~= init.to_multiset().insert(rs.last()));
        } else {
            assert(s.to_multiset().add(f.push(rs.last()).to_multiset()) =~= init.to_multiset().insert(rs.last()));
        }
    }
}

} // verus!
