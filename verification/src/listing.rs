//! Lists of the files in a directory, newest first.
use crate::clock::{
    epoch, law_time_is_counted_from_1970, millis_since_epoch, rfc3339_text, Timestamp,
    TimestampView,
};
use crate::config::{AppConfig, AppConfigView};
use crate::error::{internal, ApiError, ApiErrorView};
use crate::io::{
    describe_failure, failure_text, Action, ActionView, Event, EventView, FileMetadata,
    FileMetadataView, IoFailure, IoFailureView, report_unexpected, unexpected, Step,
};
use crate::path::{bytes_eq, extension, file_name, UnixPath};
use crate::text::{concat3, concat4};
use crate::utf8::{decode_strict, lossy_text};
use vstd::prelude::*;
use vstd::utf8::{decode_utf8, encode_utf8, valid_utf8};

verus! {

/// What is told of a file in a list.
#[derive(Debug)]
pub struct FileEntry {
    pub name: String,
    pub path: String,
    pub size_bytes: u64,
    pub modified_at: String,
}

/// What is told of a file in a list, as a value of the model.
pub struct FileEntryView {
    pub name: Seq<char>,
    pub path: Seq<char>,
    pub size_bytes: u64,
    pub modified_at: Seq<char>,
}

impl View for FileEntry {
    type V = FileEntryView;

    open spec fn view(&self) -> FileEntryView {
        FileEntryView {
            name: self.name@,
            path: self.path@,
            size_bytes: self.size_bytes,
            modified_at: self.modified_at@,
        }
    }
}

/// A file in a list, and the milliseconds by which it is placed.
#[derive(Debug)]
pub struct Candidate {
    pub entry: FileEntry,
    pub sort_key: u128,
}

/// A file in a list and its place, as a value of the model.
pub struct CandidateView {
    pub entry: FileEntryView,
    pub sort_key: u128,
}

impl View for Candidate {
    type V = CandidateView;

    open spec fn view(&self) -> CandidateView {
        CandidateView { entry: self.entry@, sort_key: self.sort_key }
    }
}

/// The values of the model that candidates stand for.
pub open spec fn candidate_views(candidates: Seq<Candidate>) -> Seq<CandidateView> {
    candidates.map_values(|c: Candidate| c@)
}

/// The values of the model that entries stand for.
pub open spec fn entry_views(entries: Seq<FileEntry>) -> Seq<FileEntryView> {
    entries.map_values(|e: FileEntry| e@)
}

/// The entries of candidates.
pub open spec fn entries_of(candidates: Seq<CandidateView>) -> Seq<FileEntryView> {
    candidates.map_values(|c: CandidateView| c.entry)
}

/// The files that are listed.
#[derive(Debug)]
pub enum ListKind {
    /// Every file in the directory of the backups.
    Backups,
    /// The `.srs` files in their directory.
    Srs,
}

/// How the directory is called in messages.
pub open spec fn dir_word(kind: ListKind) -> Seq<char> {
    match kind {
        ListKind::Backups => "backups"@,
        ListKind::Srs => "srs"@,
    }
}

/// How a file is called in messages.
pub open spec fn file_word(kind: ListKind) -> Seq<char> {
    match kind {
        ListKind::Backups => "backup"@,
        ListKind::Srs => "srs"@,
    }
}

/// The directory that is listed.
pub open spec fn list_dir(kind: ListKind, settings: AppConfigView) -> Seq<u8> {
    match kind {
        ListKind::Backups => settings.backups_dir,
        ListKind::Srs => settings.srs_dir,
    }
}

/// Whether a file is listed.
pub open spec fn is_listed(kind: ListKind, path: Seq<u8>) -> bool {
    match kind {
        ListKind::Backups => true,
        ListKind::Srs => extension(path) == Some(encode_utf8("srs"@)),
    }
}

/// The report that something could not be done with the directory.
pub open spec fn dir_failure(
    verb: Seq<char>,
    kind: ListKind,
    dir: Seq<u8>,
    failure: IoFailureView,
) -> ApiErrorView {
    internal(
        failure_text(verb + dir_word(kind) + " directory "@, lossy_text(dir), failure),
    )
}

/// The report that nothing is known of a file.
pub open spec fn metadata_failure(path: Seq<u8>, failure: IoFailureView) -> ApiErrorView {
    internal(failure_text("failed to read metadata for "@, lossy_text(path), failure))
}

/// When a file was last modified; the start of 1970 where that is not known.
pub open spec fn modified_or_epoch(metadata: FileMetadataView) -> TimestampView {
    match metadata.modified {
        Some(time) => time,
        None => epoch(),
    }
}

/// What is told of the file at `path`, or why nothing can be.
pub open spec fn candidate(
    kind: ListKind,
    path: Seq<u8>,
    metadata: FileMetadataView,
) -> Result<CandidateView, ApiErrorView> {
    let time = modified_or_epoch(metadata);
    match file_name(path) {
        Some(name) if valid_utf8(name) => Ok(
            CandidateView {
                entry: FileEntryView {
                    name: decode_utf8(name),
                    path: lossy_text(path),
                    size_bytes: metadata.len,
                    modified_at: rfc3339_text(time.secs, time.nanos),
                },
                sort_key: millis_since_epoch(time) as u128,
            },
        ),
        _ => Err(
            internal("invalid "@ + file_word(kind) + " filename: "@ + lossy_text(path)),
        ),
    }
}

/// The value of the model that a candidate stands for.
pub open spec fn candidate_result(r: Result<Candidate, ApiError>) -> Result<
    CandidateView,
    ApiErrorView,
> {
    match r {
        Ok(c) => Ok(c@),
        Err(error) => Err(error@),
    }
}

/// A list with one more candidate, which comes behind those that are not older.
pub open spec fn placed(list: Seq<CandidateView>, c: CandidateView) -> Seq<CandidateView>
    decreases list.len(),
{
    if list.len() == 0 || list.last().sort_key >= c.sort_key {
        list.push(c)
    } else {
        placed(list.drop_last(), c).push(list.last())
    }
}

/// Candidates, newest first; of those with the same key the one given first comes first.
pub open spec fn newest_first(given: Seq<CandidateView>) -> Seq<CandidateView>
    decreases given.len(),
{
    if given.len() == 0 {
        given
    } else {
        placed(newest_first(given.drop_last()), given.last())
    }
}

/// The candidates with a given key.
pub open spec fn with_key(list: Seq<CandidateView>, key: u128) -> Seq<CandidateView> {
    list.filter(|c: CandidateView| c.sort_key == key)
}

/// Whether no candidate is newer than one before it.
pub open spec fn is_newest_first(list: Seq<CandidateView>) -> bool {
    forall|i: int, j: int| 0 <= i < j < list.len() ==> list[i].sort_key >= list[j].sort_key
}

impl ListKind {
    /// How the directory is called in messages.
    fn dir_word(&self) -> (r: &'static str)
        ensures
            r@ == dir_word(*self),
    {
        match self {
            ListKind::Backups => "backups",
            ListKind::Srs => "srs",
        }
    }

    /// How a file is called in messages.
    fn file_word(&self) -> (r: &'static str)
        ensures
            r@ == file_word(*self),
    {
        match self {
            ListKind::Backups => "backup",
            ListKind::Srs => "srs",
        }
    }

    /// The directory that is listed.
    fn dir<'a>(&self, settings: &'a AppConfig) -> (r: &'a UnixPath)
        ensures
            r@ == list_dir(*self, settings@),
    {
        match self {
            ListKind::Backups => &settings.backups_dir,
            ListKind::Srs => &settings.srs_dir,
        }
    }

    /// Whether a file is listed.
    pub fn is_listed(&self, path: &UnixPath) -> (r: bool)
        ensures
            r == is_listed(*self, path@),
    {
        match self {
            ListKind::Backups => true,
            ListKind::Srs => match path.extension() {
                Some(ext) => bytes_eq(ext.as_slice(), "srs".as_bytes()),
                None => false,
            },
        }
    }

    /// Reports that something could not be done with the directory.
    fn dir_failure(&self, verb: &str, dir: &UnixPath, failure: &IoFailure) -> (r: ApiError)
        ensures
            r@ == dir_failure(verb@, *self, dir@, failure@),
    {
        let what = concat3(verb, self.dir_word(), " directory ");
        ApiError::internal(describe_failure(what.as_str(), dir.display().as_str(), failure))
    }
}

/// Reports that nothing is known of a file.
pub fn report_metadata_failure(path: &UnixPath, failure: &IoFailure) -> (r: ApiError)
    ensures
        r@ == metadata_failure(path@, failure@),
{
    ApiError::internal(
        describe_failure("failed to read metadata for ", path.display().as_str(), failure),
    )
}

/// Tells of the file at `path`.
pub fn candidate_from_path(kind: &ListKind, path: &UnixPath, metadata: &FileMetadata) -> (r: Result<
    Candidate,
    ApiError,
>)
    ensures
        candidate_result(r) == candidate(*kind, path@, metadata@),
        r is Ok <==> (file_name(path@) is Some && valid_utf8(file_name(path@)->0)),
        r matches Ok(c) ==> {
            &&& file_name(path@) == Some(encode_utf8(c.entry.name@))
            &&& c.entry.path@ == lossy_text(path@)
            &&& c.entry.size_bytes == metadata.len
            &&& metadata.modified matches Some(time) ==> c.entry.modified_at@ == rfc3339_text(
                time@.secs,
                time@.nanos,
            )
            &&& metadata.modified is None ==> c.entry.modified_at@ == rfc3339_text(0, 0)
            &&& c.sort_key == told_millis(metadata@)
        },
{
    let (modified_at, sort_key) = match &metadata.modified {
        Some(time) => (time.to_rfc3339(), time.millis_since_epoch()),
        None => (Timestamp::epoch().to_rfc3339(), Timestamp::epoch().millis_since_epoch()),
    };
    let name = match path.file_name() {
        Some(name) => decode_strict(name),
        None => None,
    };
    proof {
        law_files_are_told_as_they_are(*kind, path@, metadata@);
    }
    match name {
        Some(name) => Ok(
            Candidate {
                entry: FileEntry {
                    name,
                    path: path.display(),
                    size_bytes: metadata.len,
                    modified_at,
                },
                sort_key,
            },
        ),
        None => Err(
            ApiError::internal(
                concat4(
                    "invalid ",
                    kind.file_word(),
                    " filename: ",
                    path.display().as_str(),
                ),
            ),
        ),
    }
}

/// Where a candidate goes in a list.
proof fn lemma_placed_at(list: Seq<CandidateView>, c: CandidateView, at: int)
    requires
        0 <= at <= list.len(),
        at == 0 || list[at - 1].sort_key >= c.sort_key,
        forall|k: int| at <= k < list.len() ==> list[k].sort_key < c.sort_key,
    ensures
        placed(list, c) == list.insert(at, c),
    decreases list.len(),
{
    if at == list.len() {
        assert(list.insert(at, c) =~= list.push(c));
    } else {
        lemma_placed_at(list.drop_last(), c, at);
        assert(list.insert(at, c) =~= list.drop_last().insert(at, c).push(list.last()));
    }
}

/// One more candidate goes to some place in a list, behind one that is not older and before those
/// that are.
pub proof fn lemma_placed_somewhere(list: Seq<CandidateView>, c: CandidateView) -> (at: int)
    ensures
        0 <= at <= list.len(),
        placed(list, c) == list.insert(at, c),
        at > 0 ==> list[at - 1].sort_key >= c.sort_key,
        forall|k: int| at <= k < list.len() ==> (#[trigger] list[k]).sort_key < c.sort_key,
    decreases list.len(),
{
    if list.len() == 0 || list.last().sort_key >= c.sort_key {
        assert(list.insert(list.len() as int, c) =~= list.push(c));
        list.len() as int
    } else {
        let at = lemma_placed_somewhere(list.drop_last(), c);
        assert(list.insert(at, c) =~= list.drop_last().insert(at, c).push(list.last()));
        assert forall|k: int| at <= k < list.len() implies (#[trigger] list[k]).sort_key
            < c.sort_key by {
            if k < list.len() - 1 {
                assert(list.drop_last()[k] == list[k]);
            }
        }
        at
    }
}

/// Puts a candidate into a list, behind those that are not older.
pub fn place(list: &mut Vec<Candidate>, c: Candidate)
    ensures
        candidate_views(final(list)@) == placed(candidate_views(old(list)@), c@),
{
    let ghost given = candidate_views(list@);
    let mut at: usize = list.len();
    while at > 0 && list[at - 1].sort_key < c.sort_key
        invariant
            at <= list@.len(),
            given == candidate_views(list@),
            forall|k: int| at <= k < list@.len() ==> #[trigger] given[k].sort_key < c.sort_key,
        decreases at,
    {
        assert(given[at - 1] == list@[at - 1]@);
        at = at - 1;
    }
    proof {
        if at > 0 {
            assert(given[at - 1] == list@[at - 1]@);
        }
        lemma_placed_at(given, c@, at as int);
    }
    list.insert(at, c);
    assert(candidate_views(list@) =~= given.insert(at as int, c@));
}

/// The entries of candidates, in order.
pub fn into_entries(candidates: Vec<Candidate>) -> (r: Vec<FileEntry>)
    ensures
        entry_views(r@) == entries_of(candidate_views(candidates@)),
{
    let ghost all = entries_of(candidate_views(candidates@));
    let mut rest = candidates;
    let mut r: Vec<FileEntry> = Vec::new();
    assert(entry_views(r@) =~= all.skip(rest@.len() as int));
    while rest.len() > 0
        invariant
            rest@.len() <= all.len(),
            all.take(rest@.len() as int) == entries_of(candidate_views(rest@)),
            entry_views(r@) == all.skip(rest@.len() as int),
        decreases rest@.len(),
    {
        let ghost n = rest@.len() as int;
        let ghost before = rest@;
        let ghost tail = entry_views(r@);
        match rest.pop() {
            Some(last) => {
                proof {
                    let front = entries_of(candidate_views(before));
                    assert(front[n - 1] == last.entry@);
                    assert(all[n - 1] == all.take(n)[n - 1]);
                    assert(all.take(n - 1) =~= front.drop_last());
                    assert(entries_of(candidate_views(rest@)) =~= front.drop_last());
                }
                r.insert(0, last.entry);
                assert(entry_views(r@) =~= seq![last.entry@] + tail);
                assert(all.skip(n - 1) =~= seq![all[n - 1]] + all.skip(n));
            },
            None => {},
        }
    }
    assert(all.skip(0) =~= all);
    r
}

/// How far a list has got.
#[derive(Debug)]
pub enum ListStage<P> {
    /// Whether the directory exists is being checked.
    CheckingDir,
    /// The directory is being opened.
    OpeningDir,
    /// The next entry is being read.
    ReadingEntry,
    /// Whether an entry is a file is being checked.
    CheckingEntry { path: P },
    /// What is known of a file is being read.
    ReadingMetadata { path: P },
}

impl<P: View> View for ListStage<P> {
    type V = ListStage<P::V>;

    open spec fn view(&self) -> ListStage<P::V> {
        match *self {
            ListStage::CheckingDir => ListStage::CheckingDir,
            ListStage::OpeningDir => ListStage::OpeningDir,
            ListStage::ReadingEntry => ListStage::ReadingEntry,
            ListStage::CheckingEntry { path } => ListStage::CheckingEntry { path: path@ },
            ListStage::ReadingMetadata { path } => ListStage::ReadingMetadata { path: path@ },
        }
    }
}

/// A list that is being made.
#[derive(Debug)]
pub struct ListFiles {
    /// The files so far, newest first.
    pub found: Vec<Candidate>,
    pub stage: ListStage<UnixPath>,
}

/// A list that is being made, as a value of the model.
pub struct ListFilesView {
    pub found: Seq<CandidateView>,
    pub stage: ListStage<Seq<u8>>,
}

impl View for ListFiles {
    type V = ListFilesView;

    open spec fn view(&self) -> ListFilesView {
        ListFilesView { found: candidate_views(self.found@), stage: self.stage@ }
    }
}

/// A list that is made.
#[derive(Debug)]
pub struct FileList {
    pub entries: Vec<FileEntry>,
}

impl View for FileList {
    type V = Seq<FileEntryView>;

    open spec fn view(&self) -> Seq<FileEntryView> {
        entry_views(self.entries@)
    }
}

/// The next step of a list.
pub type ListStep = Step<Action, ListFiles, FileList, ApiError>;

/// The next step of a list, as a value of the model.
pub type ListStepView = Step<ActionView, ListFilesView, Seq<FileEntryView>, ApiErrorView>;

/// The first step of a list.
pub open spec fn list_start(dir: Seq<u8>) -> ListStepView {
    Step::Perform {
        action: ActionView::CheckExists { path: dir },
        state: ListFilesView { found: Seq::empty(), stage: ListStage::CheckingDir },
    }
}

/// The step that goes on with the next entry.
pub open spec fn read_next(found: Seq<CandidateView>) -> ListStepView {
    Step::Perform {
        action: ActionView::NextEntry,
        state: ListFilesView { found, stage: ListStage::ReadingEntry },
    }
}

/// What follows an answer while a list is being made. A directory that does not exist has an
/// empty list. Entries that are no files, or are not to be listed, are passed over.
pub open spec fn list_next(
    kind: ListKind,
    dir: Seq<u8>,
    state: ListFilesView,
    event: EventView,
) -> ListStepView {
    let found = state.found;
    match (state.stage, event) {
        (ListStage::CheckingDir, EventView::Found(Ok(true))) => Step::Perform {
            action: ActionView::OpenDir { path: dir },
            state: ListFilesView { found, stage: ListStage::OpeningDir },
        },
        (ListStage::CheckingDir, EventView::Found(Ok(false))) => Step::Finish {
            response: Seq::empty(),
        },
        (ListStage::CheckingDir, EventView::Found(Err(failure))) => Step::Fail {
            error: dir_failure("failed to check "@, kind, dir, failure),
        },
        (ListStage::OpeningDir, EventView::Done(Ok(_))) => read_next(found),
        (ListStage::OpeningDir, EventView::Done(Err(failure))) => Step::Fail {
            error: dir_failure("failed to read "@, kind, dir, failure),
        },
        (ListStage::ReadingEntry, EventView::Entry(Ok(Some(path)))) => Step::Perform {
            action: ActionView::CheckIsFile { path },
            state: ListFilesView { found, stage: ListStage::CheckingEntry { path } },
        },
        (ListStage::ReadingEntry, EventView::Entry(Ok(None))) => Step::Finish {
            response: entries_of(found),
        },
        (ListStage::ReadingEntry, EventView::Entry(Err(failure))) => Step::Fail {
            error: dir_failure("failed to iterate "@, kind, dir, failure),
        },
        (ListStage::CheckingEntry { path }, EventView::Found(Ok(is_file))) => if is_file
            && is_listed(kind, path) {
            Step::Perform {
                action: ActionView::ReadMetadata { path },
                state: ListFilesView { found, stage: ListStage::ReadingMetadata { path } },
            }
        } else {
            read_next(found)
        },
        (ListStage::CheckingEntry { path }, EventView::Found(Err(failure))) => Step::Fail {
            error: internal(
                failure_text(
                    "failed to inspect "@ + file_word(kind) + " entry "@,
                    lossy_text(path),
                    failure,
                ),
            ),
        },
        (ListStage::ReadingMetadata { path }, EventView::Metadata(Ok(metadata))) => match candidate(
            kind,
            path,
            metadata,
        ) {
            Ok(c) => read_next(placed(found, c)),
            Err(error) => Step::Fail { error },
        },
        (ListStage::ReadingMetadata { path }, EventView::Metadata(Err(failure))) => Step::Fail {
            error: metadata_failure(path, failure),
        },
        _ => Step::Fail { error: unexpected() },
    }
}

impl ListFiles {
    /// Starts to list files.
    pub fn start(kind: &ListKind, settings: &AppConfig) -> (r: ListStep)
        ensures
            r@ == list_start(list_dir(*kind, settings@)),
    {
        let found: Vec<Candidate> = Vec::new();
        assert(candidate_views(found@) =~= Seq::<CandidateView>::empty());
        Step::Perform {
            action: Action::CheckExists { path: kind.dir(settings).copy() },
            state: ListFiles { found, stage: ListStage::CheckingDir },
        }
    }

    /// Goes on with the next entry.
    fn read_next(found: Vec<Candidate>) -> (r: ListStep)
        ensures
            r@ == read_next(candidate_views(found@)),
    {
        Step::Perform {
            action: Action::NextEntry,
            state: ListFiles { found, stage: ListStage::ReadingEntry },
        }
    }

    /// Goes on with the answer to the operation that was asked for.
    pub fn next(self, kind: &ListKind, settings: &AppConfig, event: Event) -> (r: ListStep)
        ensures
            r@ == list_next(*kind, list_dir(*kind, settings@), self@, event@),
    {
        let dir = kind.dir(settings);
        let found = self.found;
        match (self.stage, event) {
            (ListStage::CheckingDir, Event::Found(Ok(exists))) => if exists {
                Step::Perform {
                    action: Action::OpenDir { path: dir.copy() },
                    state: ListFiles { found, stage: ListStage::OpeningDir },
                }
            } else {
                let entries: Vec<FileEntry> = Vec::new();
                assert(entry_views(entries@) =~= Seq::<FileEntryView>::empty());
                Step::Finish { response: FileList { entries } }
            },
            (ListStage::CheckingDir, Event::Found(Err(failure))) => Step::Fail {
                error: kind.dir_failure("failed to check ", dir, &failure),
            },
            (ListStage::OpeningDir, Event::Done(Ok(_))) => ListFiles::read_next(found),
            (ListStage::OpeningDir, Event::Done(Err(failure))) => Step::Fail {
                error: kind.dir_failure("failed to read ", dir, &failure),
            },
            (ListStage::ReadingEntry, Event::Entry(Ok(Some(path)))) => Step::Perform {
                action: Action::CheckIsFile { path: path.copy() },
                state: ListFiles { found, stage: ListStage::CheckingEntry { path } },
            },
            (ListStage::ReadingEntry, Event::Entry(Ok(None))) => Step::Finish {
                response: FileList { entries: into_entries(found) },
            },
            (ListStage::ReadingEntry, Event::Entry(Err(failure))) => Step::Fail {
                error: kind.dir_failure("failed to iterate ", dir, &failure),
            },
            (ListStage::CheckingEntry { path }, Event::Found(Ok(is_file))) => if is_file
                && kind.is_listed(&path) {
                Step::Perform {
                    action: Action::ReadMetadata { path: path.copy() },
                    state: ListFiles { found, stage: ListStage::ReadingMetadata { path } },
                }
            } else {
                ListFiles::read_next(found)
            },
            (ListStage::CheckingEntry { path }, Event::Found(Err(failure))) => {
                let what = concat3("failed to inspect ", kind.file_word(), " entry ");
                Step::Fail {
                    error: ApiError::internal(
                        describe_failure(what.as_str(), path.display().as_str(), &failure),
                    ),
                }
            },
            (ListStage::ReadingMetadata { path }, Event::Metadata(Ok(metadata))) => {
                match candidate_from_path(kind, &path, &metadata) {
                    Ok(c) => {
                        let mut found = found;
                        place(&mut found, c);
                        ListFiles::read_next(found)
                    },
                    Err(error) => Step::Fail { error },
                }
            },
            (ListStage::ReadingMetadata { path }, Event::Metadata(Err(failure))) => Step::Fail {
                error: report_metadata_failure(&path, &failure),
            },
            _ => Step::Fail { error: report_unexpected() },
        }
    }
}

/// One more candidate at the end of a list is the last one with its key.
proof fn lemma_with_key_push(list: Seq<CandidateView>, c: CandidateView, key: u128)
    ensures
        with_key(list.push(c), key) == (if c.sort_key == key {
            with_key(list, key).push(c)
        } else {
            with_key(list, key)
        }),
{
    reveal(Seq::filter);
    assert(list.push(c).drop_last() =~= list);
}

/// One more candidate keeps a list in order, and comes behind those with the same key.
proof fn lemma_placed(list: Seq<CandidateView>, c: CandidateView)
    requires
        is_newest_first(list),
    ensures
        is_newest_first(placed(list, c)),
        placed(list, c).to_multiset() == list.to_multiset().insert(c),
        forall|key: u128| #[trigger] with_key(placed(list, c), key) == with_key(list.push(c), key),
        forall|i: int|
            0 <= i < placed(list, c).len() ==> {
                ||| #[trigger] placed(list, c)[i] == c
                ||| list.contains(placed(list, c)[i])
            },
    decreases list.len(),
{
    broadcast use vstd::seq_lib::group_to_multiset_ensures;

    let r = placed(list, c);
    if list.len() == 0 || list.last().sort_key >= c.sort_key {
        assert forall|i: int| 0 <= i < r.len() implies {
            ||| #[trigger] r[i] == c
            ||| list.contains(r[i])
        } by {
            if i < list.len() {
                assert(r[i] == list[i]);
            }
        }
    } else {
        let front = list.drop_last();
        let last = list.last();
        lemma_placed(front, c);
        let inner = placed(front, c);
        assert(r == inner.push(last));
        assert(front.push(last) =~= list);
        assert forall|key: u128| #[trigger] with_key(r, key) == with_key(list.push(c), key) by {
            assert(with_key(inner, key) == with_key(front.push(c), key));
            lemma_with_key_push(inner, last, key);
            lemma_with_key_push(front, c, key);
            lemma_with_key_push(front, last, key);
            lemma_with_key_push(list, c, key);
        }
        assert forall|i: int| 0 <= i < r.len() implies {
            ||| #[trigger] r[i] == c
            ||| list.contains(r[i])
        } by {
            if i < inner.len() {
                assert(r[i] == inner[i]);
                if r[i] != c {
                    let j = choose|j: int| 0 <= j < front.len() && front[j] == r[i];
                    assert(list[j] == r[i]);
                }
            } else {
                assert(list[list.len() - 1] == r[i]);
            }
        }
        assert forall|i: int, j: int| 0 <= i < j < r.len() implies r[i].sort_key
            >= r[j].sort_key by {
            if j == inner.len() {
                assert(r[i] == inner[i]);
                if r[i] != c {
                    let k = choose|k: int| 0 <= k < front.len() && front[k] == r[i];
                    assert(list[k] == r[i]);
                }
            }
        }
        assert(r.to_multiset() =~= list.to_multiset().insert(c)) by {
            assert(list.to_multiset() == front.to_multiset().insert(last));
            assert(r.to_multiset() == inner.to_multiset().insert(last));
        }
    }
}

/// A list in order holds the same candidates as it was given, newest first, and those of the same
/// age in the order in which they were given.
pub proof fn law_newest_first(given: Seq<CandidateView>)
    ensures
        is_newest_first(newest_first(given)),
        newest_first(given).to_multiset() == given.to_multiset(),
        forall|key: u128| #[trigger]
            with_key(newest_first(given), key) == with_key(given, key),
    decreases given.len(),
{
    broadcast use vstd::seq_lib::group_to_multiset_ensures;

    if given.len() > 0 {
        let front = given.drop_last();
        let last = given.last();
        law_newest_first(front);
        let list = newest_first(front);
        lemma_placed(list, last);
        assert(front.push(last) =~= given);
        assert forall|key: u128| #[trigger]
            with_key(newest_first(given), key) == with_key(given, key) by {
            assert(with_key(list, key) == with_key(front, key));
            assert(with_key(placed(list, last), key) == with_key(list.push(last), key));
            lemma_with_key_push(list, last, key);
            lemma_with_key_push(front, last, key);
        }
    }
}

/// The milliseconds from the start of 1970 to the time at which a file was last modified; none for
/// an earlier or an unknown time.
pub open spec fn told_millis(metadata: FileMetadataView) -> int {
    match metadata.modified {
        Some(time) => if time.secs < 0 {
            0
        } else {
            time.secs * 1000 + time.nanos / 1_000_000
        },
        None => 0,
    }
}

/// Whether `entry` tells of the file at `path` what is known of it: its name, its path, its length,
/// and the time at which it was last modified, or the start of 1970 where that is not known.
pub open spec fn is_entry_of(
    entry: FileEntryView,
    path: Seq<u8>,
    metadata: FileMetadataView,
) -> bool {
    &&& file_name(path) is Some
    &&& encode_utf8(entry.name) == file_name(path)->0
    &&& entry.path == lossy_text(path)
    &&& entry.size_bytes == metadata.len
    &&& metadata.modified matches Some(time) ==> entry.modified_at == rfc3339_text(
        time.secs,
        time.nanos,
    )
    &&& metadata.modified is None ==> entry.modified_at == rfc3339_text(0, 0)
}

/// A file whose name is text is told of, and by the milliseconds since 1970 it is placed. One whose
/// name is no text is an error of the server.
pub proof fn law_files_are_told_as_they_are(
    kind: ListKind,
    path: Seq<u8>,
    metadata: FileMetadataView,
)
    ensures
        candidate(kind, path, metadata) is Ok <==> (file_name(path) is Some && valid_utf8(
            file_name(path)->0,
        )),
        candidate(kind, path, metadata) matches Ok(c) ==> {
            &&& is_entry_of(c.entry, path, metadata)
            &&& c.sort_key == told_millis(metadata)
        },
        candidate(kind, path, metadata) matches Err(error) ==> {
            &&& error.status == 500
            &&& kind is Backups ==> error.message == "invalid backup filename: "@ + lossy_text(path)
            &&& kind is Srs ==> error.message == "invalid srs filename: "@ + lossy_text(path)
        },
{
    if let Ok(c) = candidate(kind, path, metadata) {
        vstd::utf8::decode_utf8_encode_utf8(file_name(path)->0);
        law_time_is_counted_from_1970(modified_or_epoch(metadata));
    }
    if let Err(error) = candidate(kind, path, metadata) {
        reveal_strlit("invalid ");
        reveal_strlit("backup");
        reveal_strlit("srs");
        reveal_strlit(" filename: ");
        reveal_strlit("invalid backup filename: ");
        reveal_strlit("invalid srs filename: ");
        assert("invalid "@ + "backup"@ + " filename: "@ =~= "invalid backup filename: "@);
        assert("invalid "@ + "srs"@ + " filename: "@ =~= "invalid srs filename: "@);
    }
}

/// Of two files, the one that was modified in a later millisecond has the higher place, whatever
/// else is told of them.
pub proof fn law_later_files_have_higher_places(
    kind: ListKind,
    a: Seq<u8>,
    told_of_a: FileMetadataView,
    b: Seq<u8>,
    told_of_b: FileMetadataView,
)
    requires
        candidate(kind, a, told_of_a) is Ok,
        candidate(kind, b, told_of_b) is Ok,
    ensures
        candidate(kind, a, told_of_a)->Ok_0.sort_key > candidate(kind, b, told_of_b)->Ok_0.sort_key
            <==> told_millis(told_of_a) > told_millis(told_of_b),
{
    law_files_are_told_as_they_are(kind, a, told_of_a);
    law_files_are_told_as_they_are(kind, b, told_of_b);
}

/// Backups are listed from their own directory, every one of them, and `.srs` files from theirs.
pub proof fn law_each_list_has_its_directory(settings: AppConfigView, path: Seq<u8>)
    ensures
        list_dir(ListKind::Backups, settings) == settings.backups_dir,
        list_dir(ListKind::Srs, settings) == settings.srs_dir,
        is_listed(ListKind::Backups, path),
{
}

/// The entries of candidates are told one by one, in order.
pub proof fn law_entries_keep_their_order(candidates: Seq<CandidateView>)
    ensures
        entries_of(candidates).len() == candidates.len(),
        forall|i: int|
            0 <= i < candidates.len() ==> #[trigger] entries_of(candidates)[i]
                == candidates[i].entry,
{
}

} // verus!
