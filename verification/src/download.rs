//! Downloads of `.srs` files.
use crate::config::{AppConfig, AppConfigView};
use crate::directory::{
    is_in_list, is_list_run, is_same_file, is_wanted, law_file_is_in_the_list,
    law_stored_srs_files_are_listed, lemma_plain_name_is_in, list_after, tells_of,
};
use crate::download_url::{
    law_downloads_are_confined, parse_srs_download_url, source_result, srs_source, url_parse,
    ParsedUrl, UrlView,
};
use crate::error::{internal, is_success, status_text, ApiError, ApiErrorView};
use crate::io::{
    describe_failure, failure_text, report_unexpected, unexpected, Action, ActionView, Event,
    EventView, Step,
};
use crate::listing::{
    candidate, candidate_from_path, metadata_failure, report_metadata_failure, FileEntry,
    FileEntryView, ListKind,
};
use crate::names::lemma_plain;
use crate::path::{join, lemma_join_name, lemma_plain_file_name, UnixPath};
use crate::text::concat4;
use crate::utf8::lossy_text;
use crate::world::{
    after, is_failure, is_run, lemma_run_keeps, no_failure, same_but, truthful, Disk,
};
use vstd::prelude::*;
use vstd::utf8::encode_utf8;

verus! {

/// A download that a client asks for.
#[derive(Debug)]
pub struct DownloadSrsRequest {
    pub url: String,
}

/// The answer to a download.
#[derive(Debug)]
pub struct DownloadSrsResponse {
    /// The address as the client gave it.
    pub source_url: String,
    pub file: FileEntry,
}

/// The answer to a download, as a value of the model.
pub struct DownloadSrsResponseView {
    pub source_url: Seq<char>,
    pub file: FileEntryView,
}

impl View for DownloadSrsResponse {
    type V = DownloadSrsResponseView;

    open spec fn view(&self) -> DownloadSrsResponseView {
        DownloadSrsResponseView { source_url: self.source_url@, file: self.file@ }
    }
}

/// What a download is doing.
#[derive(Debug)]
pub enum DownloadStage<P, B> {
    /// The file is being requested.
    Fetching,
    /// The file is being received.
    ReadingBody,
    /// The directory of the `.srs` files is being created.
    CreatingDir { contents: B },
    /// The file is being stored.
    Writing { path: P },
    /// What is known of the file is being read.
    ReadingMetadata { path: P },
}

impl<P: View, B: View> View for DownloadStage<P, B> {
    type V = DownloadStage<P::V, B::V>;

    open spec fn view(&self) -> DownloadStage<P::V, B::V> {
        match *self {
            DownloadStage::Fetching => DownloadStage::Fetching,
            DownloadStage::ReadingBody => DownloadStage::ReadingBody,
            DownloadStage::CreatingDir { contents } => DownloadStage::CreatingDir {
                contents: contents@,
            },
            DownloadStage::Writing { path } => DownloadStage::Writing { path: path@ },
            DownloadStage::ReadingMetadata { path } => DownloadStage::ReadingMetadata {
                path: path@,
            },
        }
    }
}

/// A download that is under way.
#[derive(Debug)]
pub struct Download {
    /// The address as the client gave it.
    pub source_url: String,
    /// The address that is requested.
    pub url: String,
    /// The name under which the file is stored.
    pub file_name: String,
    pub stage: DownloadStage<UnixPath, Vec<u8>>,
}

/// A download that is under way, as a value of the model.
pub struct DownloadView {
    pub source_url: Seq<char>,
    pub url: Seq<char>,
    pub file_name: Seq<char>,
    pub stage: DownloadStage<Seq<u8>, Seq<u8>>,
}

impl View for Download {
    type V = DownloadView;

    open spec fn view(&self) -> DownloadView {
        DownloadView {
            source_url: self.source_url@,
            url: self.url@,
            file_name: self.file_name@,
            stage: self.stage@,
        }
    }
}

/// The next step of a download.
pub type DownloadStep = Step<Action, Download, DownloadSrsResponse, ApiError>;

/// The next step of a download, as a value of the model.
pub type DownloadStepView = Step<
    ActionView,
    DownloadView,
    DownloadSrsResponseView,
    ApiErrorView,
>;

/// The first step of a download from the address `source_url`, which was accepted or not.
pub open spec fn download_start(
    source_url: Seq<char>,
    source: Result<(UrlView, Seq<char>), ApiErrorView>,
) -> DownloadStepView {
    match source {
        Ok((url, file_name)) => Step::Perform {
            action: ActionView::Fetch { url: url.text },
            state: DownloadView {
                source_url,
                url: url.text,
                file_name,
                stage: DownloadStage::Fetching,
            },
        },
        Err(error) => Step::Fail { error },
    }
}

/// What follows an answer during a download.
pub open spec fn download_next(
    settings: AppConfigView,
    state: DownloadView,
    event: EventView,
) -> DownloadStepView {
    let url = state.url;
    match (state.stage, event) {
        (DownloadStage::Fetching, EventView::Status(Ok(status))) => if is_success(status) {
            Step::Perform {
                action: ActionView::ReadBody,
                state: DownloadView { stage: DownloadStage::ReadingBody, ..state },
            }
        } else {
            Step::Fail {
                error: internal(
                    "failed to download srs file from "@ + url + ": upstream returned "@
                        + status_text(status),
                ),
            }
        },
        (DownloadStage::Fetching, EventView::Status(Err(failure))) => Step::Fail {
            error: internal(failure_text("failed to download srs file from "@, url, failure)),
        },
        (DownloadStage::ReadingBody, EventView::Contents(Ok(contents))) => Step::Perform {
            action: ActionView::CreateDirs { path: settings.srs_dir },
            state: DownloadView { stage: DownloadStage::CreatingDir { contents }, ..state },
        },
        (DownloadStage::ReadingBody, EventView::Contents(Err(failure))) => Step::Fail {
            error: internal(
                failure_text("failed to read downloaded srs content from "@, url, failure),
            ),
        },
        (DownloadStage::CreatingDir { contents }, EventView::Done(Ok(_))) => {
            let path = join(settings.srs_dir, encode_utf8(state.file_name));
            Step::Perform {
                action: ActionView::WriteFile { path, contents },
                state: DownloadView { stage: DownloadStage::Writing { path }, ..state },
            }
        },
        (DownloadStage::CreatingDir { contents }, EventView::Done(Err(failure))) => Step::Fail {
            error: internal(
                failure_text(
                    "failed to create srs directory "@,
                    lossy_text(settings.srs_dir),
                    failure,
                ),
            ),
        },
        (DownloadStage::Writing { path }, EventView::Done(Ok(_))) => Step::Perform {
            action: ActionView::ReadMetadata { path },
            state: DownloadView { stage: DownloadStage::ReadingMetadata { path }, ..state },
        },
        (DownloadStage::Writing { path }, EventView::Done(Err(failure))) => Step::Fail {
            error: internal(
                failure_text("failed to store downloaded srs file "@, lossy_text(path), failure),
            ),
        },
        (DownloadStage::ReadingMetadata { path }, EventView::Metadata(Ok(metadata))) =>
            match candidate(ListKind::Srs, path, metadata) {
            Ok(c) => Step::Finish {
                response: DownloadSrsResponseView { source_url: state.source_url, file: c.entry },
            },
            Err(error) => Step::Fail { error },
        },
        (DownloadStage::ReadingMetadata { path }, EventView::Metadata(Err(failure))) => Step::Fail {
            error: metadata_failure(path, failure),
        },
        _ => Step::Fail { error: unexpected() },
    }
}

impl Download {
    /// Starts a download.
    pub fn start(request: DownloadSrsRequest) -> (r: DownloadStep)
        ensures
            r@ == download_start(request.url@, srs_source(url_parse(request.url@))),
    {
        let source = parse_srs_download_url(request.url.as_str());
        Download::start_from(request.url, source)
    }

    /// Starts a download from the address `source_url`, which was accepted or not.
    pub fn start_from(
        source_url: String,
        source: Result<(ParsedUrl, String), ApiError>,
    ) -> (r: DownloadStep)
        ensures
            r@ == download_start(source_url@, source_result(source)),
    {
        match source {
            Ok((url, file_name)) => Step::Perform {
                action: Action::Fetch { url: url.text.clone() },
                state: Download {
                    source_url,
                    url: url.text,
                    file_name,
                    stage: DownloadStage::Fetching,
                },
            },
            Err(error) => Step::Fail { error },
        }
    }

    /// Goes on with the answer to the operation that was asked for.
    pub fn next(self, settings: &AppConfig, event: Event) -> (r: DownloadStep)
        ensures
            r@ == download_next(settings@, self@, event@),
    {
        let Download { source_url, url, file_name, stage } = self;
        match (stage, event) {
            (DownloadStage::Fetching, Event::Status(Ok(status))) => if status.is_success() {
                Step::Perform {
                    action: Action::ReadBody,
                    state: Download {
                        source_url,
                        url,
                        file_name,
                        stage: DownloadStage::ReadingBody,
                    },
                }
            } else {
                Step::Fail {
                    error: ApiError::internal(
                        concat4(
                            "failed to download srs file from ",
                            url.as_str(),
                            ": upstream returned ",
                            status.text().as_str(),
                        ),
                    ),
                }
            },
            (DownloadStage::Fetching, Event::Status(Err(failure))) => Step::Fail {
                error: ApiError::internal(
                    describe_failure("failed to download srs file from ", url.as_str(), &failure),
                ),
            },
            (DownloadStage::ReadingBody, Event::Contents(Ok(contents))) => Step::Perform {
                action: Action::CreateDirs { path: settings.srs_dir.copy() },
                state: Download {
                    source_url,
                    url,
                    file_name,
                    stage: DownloadStage::CreatingDir { contents },
                },
            },
            (DownloadStage::ReadingBody, Event::Contents(Err(failure))) => Step::Fail {
                error: ApiError::internal(
                    describe_failure(
                        "failed to read downloaded srs content from ",
                        url.as_str(),
                        &failure,
                    ),
                ),
            },
            (DownloadStage::CreatingDir { contents }, Event::Done(Ok(_))) => {
                let path = settings.srs_dir.join(&UnixPath::new(file_name.as_str()));
                Step::Perform {
                    action: Action::WriteFile { path: path.copy(), contents },
                    state: Download {
                        source_url,
                        url,
                        file_name,
                        stage: DownloadStage::Writing { path },
                    },
                }
            },
            (DownloadStage::CreatingDir { contents }, Event::Done(Err(failure))) => Step::Fail {
                error: ApiError::internal(
                    describe_failure(
                        "failed to create srs directory ",
                        settings.srs_dir.display().as_str(),
                        &failure,
                    ),
                ),
            },
            (DownloadStage::Writing { path }, Event::Done(Ok(_))) => Step::Perform {
                action: Action::ReadMetadata { path: path.copy() },
                state: Download {
                    source_url,
                    url,
                    file_name,
                    stage: DownloadStage::ReadingMetadata { path },
                },
            },
            (DownloadStage::Writing { path }, Event::Done(Err(failure))) => Step::Fail {
                error: ApiError::internal(
                    describe_failure(
                        "failed to store downloaded srs file ",
                        path.display().as_str(),
                        &failure,
                    ),
                ),
            },
            (DownloadStage::ReadingMetadata { path }, Event::Metadata(Ok(metadata))) => {
                match candidate_from_path(&ListKind::Srs, &path, &metadata) {
                    Ok(c) => Step::Finish {
                        response: DownloadSrsResponse { source_url, file: c.entry },
                    },
                    Err(error) => Step::Fail { error },
                }
            },
            (DownloadStage::ReadingMetadata { path }, Event::Metadata(Err(failure))) => Step::Fail {
                error: report_metadata_failure(&path, &failure),
            },
            _ => Step::Fail { error: report_unexpected() },
        }
    }
}

/// Where a download from the address `source_url`, which is taken for `parsed`, stands once it was
/// given `events`.
pub open spec fn download_after(
    settings: AppConfigView,
    source_url: Seq<char>,
    parsed: Result<UrlView, Seq<char>>,
    events: Seq<EventView>,
) -> DownloadStepView {
    after(
        download_start(source_url, srs_source(parsed)),
        |state: DownloadView, event: EventView| download_next(settings, state, event),
        events,
    )
}

/// Whether `events` are true answers to a download that finds and leaves the disk as in `disks`.
pub open spec fn is_download_run(
    settings: AppConfigView,
    source_url: Seq<char>,
    parsed: Result<UrlView, Seq<char>>,
    events: Seq<EventView>,
    disks: Seq<Disk>,
) -> bool {
    is_run(
        download_start(source_url, srs_source(parsed)),
        |state: DownloadView, event: EventView| download_next(settings, state, event),
        events,
        disks,
    )
}

/// Where the file from an accepted address is stored.
pub open spec fn stored_at(settings: AppConfigView, parsed: Result<UrlView, Seq<char>>) -> Seq<u8> {
    join(settings.srs_dir, encode_utf8(srs_source(parsed)->Ok_0.1))
}

/// What holds during and after a download.
spec fn download_kept(
    settings: AppConfigView,
    source_url: Seq<char>,
    parsed: Result<UrlView, Seq<char>>,
    start: Disk,
    told: Seq<EventView>,
    step: DownloadStepView,
    now: Disk,
) -> bool {
    let source = srs_source(parsed);
    let path = stored_at(settings, parsed);
    match step {
        Step::Perform { action, state } => {
            let body = EventView::Contents(Ok(now.read(path)->0));
            &&& source is Ok
            &&& state.source_url == source_url
            &&& state.url == source->Ok_0.0.text
            &&& state.file_name == source->Ok_0.1
            &&& no_failure(told)
            &&& match state.stage {
                DownloadStage::Fetching => {
                    &&& told.len() == 0
                    &&& now == start
                    &&& action == (ActionView::Fetch { url: state.url })
                },
                DownloadStage::ReadingBody => {
                    &&& told.len() == 1
                    &&& now == start
                    &&& action == ActionView::ReadBody
                    &&& told[0] is Status
                    &&& is_success(told[0]->Status_0->Ok_0)
                },
                DownloadStage::CreatingDir { contents } => {
                    &&& told.len() == 2
                    &&& now == start
                    &&& action == (ActionView::CreateDirs { path: settings.srs_dir })
                    &&& told[0] is Status
                    &&& is_success(told[0]->Status_0->Ok_0)
                    &&& told[1] == EventView::Contents(Ok(contents))
                },
                DownloadStage::Writing { path: to } => {
                    &&& told.len() == 3
                    &&& start.dirs.subset_of(now.dirs)
                    &&& now.dirs.contains(settings.srs_dir)
                    &&& same_but(start, now, Set::empty())
                    &&& to == path
                    &&& action is WriteFile
                    &&& action->WriteFile_path == path
                    &&& told[0] is Status
                    &&& is_success(told[0]->Status_0->Ok_0)
                    &&& told[1] == EventView::Contents(Ok(action->WriteFile_contents))
                },
                DownloadStage::ReadingMetadata { path: of } => {
                    &&& told.len() == 4
                    &&& start.dirs.subset_of(now.dirs)
                    &&& now.dirs.contains(settings.srs_dir)
                    &&& same_but(start, now, set![path])
                    &&& of == path
                    &&& action == (ActionView::ReadMetadata { path })
                    &&& told[0] is Status
                    &&& is_success(told[0]->Status_0->Ok_0)
                    &&& now.read(path) is Some
                    &&& told[1] == body
                },
            }
        },
        Step::Finish { response } => {
            &&& source is Ok
            &&& told.len() == 5
            &&& start.dirs.subset_of(now.dirs)
            &&& now.dirs.contains(settings.srs_dir)
            &&& response.source_url == source_url
            &&& response.file.name == source->Ok_0.1
            &&& response.file.path == lossy_text(path)
            &&& same_but(start, now, set![path])
            &&& now.read(path) is Some
            &&& response.file.size_bytes == now.read(path)->0.len()
            &&& told[0] is Status
            &&& is_success(told[0]->Status_0->Ok_0)
            &&& told[1] == EventView::Contents(Ok(now.read(path)->0))
        },
        Step::Fail { error } => {
            &&& told.len() <= 5
            &&& start.dirs.subset_of(now.dirs)
            &&& told.len() < 3 ==> now == start
            &&& source is Ok ==> same_but(start, now, set![path])
            &&& source is Err ==> now == start && told.len() == 0
            &&& told.len() < 4 ==> same_but(start, now, Set::empty())
            &&& no_failure(told) ==> {
                ||| source == Err::<(UrlView, Seq<char>), ApiErrorView>(error)
                ||| {
                    &&& told.len() == 1
                    &&& told[0] is Status
                    &&& !is_success(told[0]->Status_0->Ok_0)
                }
            }
        },
    }
}

/// What holds during and after a download holds of every run.
proof fn lemma_download_run(
    settings: AppConfigView,
    source_url: Seq<char>,
    parsed: Result<UrlView, Seq<char>>,
    events: Seq<EventView>,
    disks: Seq<Disk>,
)
    requires
        is_download_run(settings, source_url, parsed, events, disks),
    ensures
        download_kept(
            settings,
            source_url,
            parsed,
            disks[0],
            events,
            download_after(settings, source_url, parsed, events),
            disks.last(),
        ),
{
    let start = disks[0];
    let next = |state: DownloadView, event: EventView| download_next(settings, state, event);
    let kept = |told: Seq<EventView>, step: DownloadStepView, now: Disk|
        download_kept(settings, source_url, parsed, start, told, step, now);
    if let Ok((url, name)) = srs_source(parsed) {
        law_downloads_are_confined(parsed);
        lemma_plain(name);
        lemma_plain_file_name(encode_utf8(name));
        lemma_join_name(settings.srs_dir, encode_utf8(name));
        vstd::utf8::encode_utf8_valid_utf8(name);
        vstd::utf8::encode_utf8_decode_utf8(name);
    }
    assert forall|
        told: Seq<EventView>,
        action: ActionView,
        state: DownloadView,
        before: Disk,
        event: EventView,
        after: Disk,
    |
        kept(told, Step::Perform { action, state }, before) && #[trigger] truthful(
            before,
            action,
            event,
            after,
        ) implies #[trigger] kept(told.push(event), next(state, event), after) by {
        let more = told.push(event);
        assert(more[told.len() as int] == event);
        assert(forall|i: int| 0 <= i < told.len() ==> more[i] == told[i]);
        assert(no_failure(more) <==> no_failure(told) && !is_failure(event));
    }
    lemma_run_keeps(download_start(source_url, srs_source(parsed)), next, events, disks, kept);
}

/// A download that succeeds stores exactly what the server sent, after it answered with success,
/// under the name that the address ends in, in the directory of the `.srs` files, and changes no
/// other file.
pub proof fn law_download_stores_what_was_sent(
    settings: AppConfigView,
    source_url: Seq<char>,
    parsed: Result<UrlView, Seq<char>>,
    events: Seq<EventView>,
    disks: Seq<Disk>,
)
    requires
        is_download_run(settings, source_url, parsed, events, disks),
    ensures
        download_after(settings, source_url, parsed, events) matches Step::Finish { response } ==> {
            let path = stored_at(settings, parsed);
            &&& srs_source(parsed) is Ok
            &&& response.source_url == source_url
            &&& response.file.name == srs_source(parsed)->Ok_0.1
            &&& response.file.path == lossy_text(path)
            &&& events.len() == 5
            &&& events[0] is Status
            &&& is_success(events[0]->Status_0->Ok_0)
            &&& disks.last().read(path) is Some
            &&& events[1] == EventView::Contents(Ok(disks.last().read(path)->0))
            &&& response.file.size_bytes == disks.last().read(path)->0.len()
            &&& same_but(disks[0], disks.last(), set![path])
            &&& disks[0].dirs.subset_of(disks.last().dirs)
            &&& disks.last().dirs.contains(settings.srs_dir)
        },
{
    lemma_download_run(settings, source_url, parsed, events, disks);
}

/// A download that does not succeed changes at most the file that it was to store, and no
/// directory goes away. Until the server sent the whole file and the directory was asked for,
/// nothing is changed at all. A refused address is not requested.
pub proof fn law_failed_download_changes_little(
    settings: AppConfigView,
    source_url: Seq<char>,
    parsed: Result<UrlView, Seq<char>>,
    events: Seq<EventView>,
    disks: Seq<Disk>,
)
    requires
        is_download_run(settings, source_url, parsed, events, disks),
        !(download_after(settings, source_url, parsed, events) is Finish),
    ensures
        srs_source(parsed) is Err ==> events.len() == 0,
        srs_source(parsed) is Ok ==> same_but(
            disks[0],
            disks.last(),
            set![stored_at(settings, parsed)],
        ),
        events.len() < 3 ==> disks.last() == disks[0],
        events.len() < 4 ==> same_but(disks[0], disks.last(), Set::empty()),
        disks[0].dirs.subset_of(disks.last().dirs),
{
    lemma_download_run(settings, source_url, parsed, events, disks);
}

/// A download takes at most five operations. Where none of them fails, it fails only if the
/// address is refused or the server does not answer with success.
pub proof fn law_download_succeeds(
    settings: AppConfigView,
    source_url: Seq<char>,
    parsed: Result<UrlView, Seq<char>>,
    events: Seq<EventView>,
    disks: Seq<Disk>,
)
    requires
        is_download_run(settings, source_url, parsed, events, disks),
    ensures
        events.len() <= 5,
        events.len() == 5 ==> !(download_after(settings, source_url, parsed, events) is Perform),
        no_failure(events) ==> (download_after(settings, source_url, parsed, events) matches
            Step::Fail { error } ==> {
            ||| srs_source(parsed) == Err::<(UrlView, Seq<char>), ApiErrorView>(error)
            ||| {
                &&& events.len() == 1
                &&& events[0] is Status
                &&& !is_success(events[0]->Status_0->Ok_0)
            }
        }),
{
    lemma_download_run(settings, source_url, parsed, events, disks);
}

/// A file that was downloaded is in the list of `.srs` files that is made next, with the name, the
/// path and the size that were told. The name that is nothing but the ending is left aside.
pub proof fn law_download_is_listed(
    settings: AppConfigView,
    source_url: Seq<char>,
    parsed: Result<UrlView, Seq<char>>,
    events: Seq<EventView>,
    disks: Seq<Disk>,
    list_events: Seq<EventView>,
    list_disks: Seq<Disk>,
)
    requires
        is_download_run(settings, source_url, parsed, events, disks),
        download_after(settings, source_url, parsed, events) is Finish,
        srs_source(parsed)->Ok_0.1 != ".srs"@,
        is_list_run(ListKind::Srs, settings.srs_dir, list_events, list_disks),
        list_after(ListKind::Srs, settings.srs_dir, list_events) is Finish,
        list_disks[0] == disks.last(),
    ensures
        is_in_list(
            list_after(ListKind::Srs, settings.srs_dir, list_events)->response,
            download_after(settings, source_url, parsed, events)->response.file,
        ),
{
    let dir = settings.srs_dir;
    let path = stored_at(settings, parsed);
    let file = download_after(settings, source_url, parsed, events)->response.file;
    lemma_download_run(settings, source_url, parsed, events, disks);
    law_downloads_are_confined(parsed);
    lemma_plain_name_is_in(dir, file.name);
    law_stored_srs_files_are_listed(dir, file.name);
    assert(is_wanted(list_disks[0], ListKind::Srs, dir, path));
    law_file_is_in_the_list(ListKind::Srs, dir, path, list_events, list_disks);
    let list = list_after(ListKind::Srs, dir, list_events)->response;
    let i = choose|i: int|
        0 <= i < list.len() && tells_of(list_disks[0], path, #[trigger] list[i]);
    assert(is_same_file(list[i], file));
}

} // verus!
