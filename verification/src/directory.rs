//! What the lists show of a directory.
use crate::error::internal;
use crate::io::{ActionView, EventView, FileMetadataView, Step};
use crate::listing::{
    candidate, entries_of, file_word, is_entry_of, is_listed, law_files_are_told_as_they_are,
    law_newest_first, lemma_placed_somewhere, list_next, list_start, newest_first, placed,
    read_next, told_millis, CandidateView, FileEntryView, ListFilesView, ListKind, ListStage,
    ListStepView,
};
use crate::names::{is_plain_name, lemma_plain};
use crate::path::{file_name, join, last_dot, lemma_join_name, lemma_plain_file_name, DOT};
use crate::utf8::lossy_text;
use crate::world::{
    after, is_failure, is_in, is_run, lemma_after_more, lemma_run_keeps, no_failure, truthful, Disk,
};
use vstd::prelude::*;
use vstd::utf8::{decode_utf8, encode_utf8, valid_utf8};

verus! {

/// Something that a directory holds.
pub struct DirEntry {
    pub path: Seq<u8>,
    pub is_file: bool,
    pub metadata: FileMetadataView,
}

/// Whether something in a directory is shown.
pub open spec fn is_shown(kind: ListKind, entry: DirEntry) -> bool {
    entry.is_file && is_listed(kind, entry.path)
}

/// What is told of something in a directory while a list is made.
pub open spec fn told_of(kind: ListKind, entry: DirEntry) -> Seq<EventView> {
    let told = seq![
        EventView::Entry(Ok(Some(entry.path))),
        EventView::Found(Ok(entry.is_file)),
    ];
    if is_shown(kind, entry) {
        told.push(EventView::Metadata(Ok(entry.metadata)))
    } else {
        told
    }
}

/// What is told of all that a directory holds, in the order in which it is met.
pub open spec fn told_of_all(kind: ListKind, entries: Seq<DirEntry>) -> Seq<EventView>
    decreases entries.len(),
{
    if entries.len() == 0 {
        seq![EventView::Found(Ok(true)), EventView::Done(Ok(()))]
    } else {
        told_of_all(kind, entries.drop_last()) + told_of(kind, entries.last())
    }
}

/// The files in a directory that are shown, in the order in which they are met.
pub open spec fn shown(kind: ListKind, entries: Seq<DirEntry>) -> Seq<CandidateView>
    decreases entries.len(),
{
    if entries.len() == 0 {
        Seq::empty()
    } else {
        let front = shown(kind, entries.drop_last());
        let last = entries.last();
        if is_shown(kind, last) {
            front.push(candidate(kind, last.path, last.metadata)->Ok_0)
        } else {
            front
        }
    }
}

/// Whether every file that is shown has a name that is text.
pub open spec fn names_are_text(kind: ListKind, entries: Seq<DirEntry>) -> bool {
    forall|i: int|
        0 <= i < entries.len() && is_shown(kind, #[trigger] entries[i]) ==> candidate(
            kind,
            entries[i].path,
            entries[i].metadata,
        ) is Ok
}

/// Where a list of the files in `dir` stands once it was given `events`.
pub open spec fn list_after(kind: ListKind, dir: Seq<u8>, events: Seq<EventView>) -> ListStepView {
    after(
        list_start(dir),
        |state: ListFilesView, event: EventView| list_next(kind, dir, state, event),
        events,
    )
}

/// A list that was told of all that a directory holds so far has the files in order.
proof fn lemma_list_so_far(kind: ListKind, dir: Seq<u8>, entries: Seq<DirEntry>)
    requires
        names_are_text(kind, entries),
    ensures
        list_after(kind, dir, told_of_all(kind, entries)) == read_next(
            newest_first(shown(kind, entries)),
        ),
    decreases entries.len(),
{
    let next = |state: ListFilesView, event: EventView| list_next(kind, dir, state, event);
    let first = list_start(dir);
    reveal_with_fuel(after, 4);
    if entries.len() == 0 {
        let told = told_of_all(kind, entries);
        assert(told.drop_last() =~= seq![EventView::Found(Ok(true))]);
        assert(told.drop_last().drop_last() =~= Seq::empty());
        assert(newest_first(shown(kind, entries)) =~= Seq::empty());
    } else {
        let front = entries.drop_last();
        let entry = entries.last();
        assert forall|i: int|
            0 <= i < front.len() && is_shown(kind, #[trigger] front[i]) implies candidate(
            kind,
            front[i].path,
            front[i].metadata,
        ) is Ok by {
            assert(front[i] == entries[i]);
        }
        lemma_list_so_far(kind, dir, front);
        let before = told_of_all(kind, front);
        let told = told_of(kind, entry);
        lemma_after_more(first, next, before, told);
        lemma_told_of(kind, dir, newest_first(shown(kind, front)), entry);
        assert(is_shown(kind, entries[entries.len() - 1]) ==> candidate(
            kind,
            entry.path,
            entry.metadata,
        ) is Ok);
        if is_shown(kind, entry) {
            let c = candidate(kind, entry.path, entry.metadata)->Ok_0;
            assert(shown(kind, front).push(c).drop_last() =~= shown(kind, front));
        }
    }
}

/// Where a list stands once it was told of one more thing in the directory.
proof fn lemma_told_of(
    kind: ListKind,
    dir: Seq<u8>,
    found: Seq<CandidateView>,
    entry: DirEntry,
)
    ensures
        ({
            let next = |state: ListFilesView, event: EventView| list_next(kind, dir, state, event);
            let step = after(read_next(found), next, told_of(kind, entry));
            match candidate(kind, entry.path, entry.metadata) {
                _ if !is_shown(kind, entry) => step == read_next(found),
                Ok(c) => step == read_next(placed(found, c)),
                Err(error) => step == ListStepView::Fail { error },
            }
        }),
{
    reveal_with_fuel(after, 4);
    let told = told_of(kind, entry);
    let two = seq![
        EventView::Entry(Ok(Some(entry.path))),
        EventView::Found(Ok(entry.is_file)),
    ];
    assert(two.drop_last() =~= seq![EventView::Entry(Ok(Some(entry.path)))]);
    assert(two.drop_last().drop_last() =~= Seq::empty());
    if is_shown(kind, entry) {
        assert(told.drop_last() =~= two);
    }
}

/// A list shows exactly the files in the directory that are to be listed, newest first, and those
/// of the same age in the order in which they are met.
pub proof fn law_list_shows_the_directory(kind: ListKind, dir: Seq<u8>, entries: Seq<DirEntry>)
    requires
        names_are_text(kind, entries),
    ensures
        list_after(
            kind,
            dir,
            told_of_all(kind, entries).push(EventView::Entry(Ok(None))),
        ) == (ListStepView::Finish { response: entries_of(newest_first(shown(kind, entries))) }),
{
    lemma_list_so_far(kind, dir, entries);
    let told = told_of_all(kind, entries);
    assert(told.push(EventView::Entry(Ok(None))).drop_last() =~= told);
}

/// Where the name of a file that is to be listed is no text, there is no list: the first such file
/// is reported.
pub proof fn law_list_reports_names_that_are_no_text(
    kind: ListKind,
    dir: Seq<u8>,
    entries: Seq<DirEntry>,
    entry: DirEntry,
)
    requires
        names_are_text(kind, entries),
        is_shown(kind, entry),
        !(file_name(entry.path) matches Some(name) && valid_utf8(name)),
    ensures
        list_after(kind, dir, told_of_all(kind, entries.push(entry))) == (ListStepView::Fail {
            error: internal(
                "invalid "@ + file_word(kind) + " filename: "@ + lossy_text(entry.path),
            ),
        }),
{
    lemma_list_so_far(kind, dir, entries);
    lemma_told_of(kind, dir, newest_first(shown(kind, entries)), entry);
    let next = |state: ListFilesView, event: EventView| list_next(kind, dir, state, event);
    lemma_after_more(list_start(dir), next, told_of_all(kind, entries), told_of(kind, entry));
    assert(entries.push(entry).drop_last() =~= entries);
}

/// A directory that does not exist has an empty list.
pub proof fn law_missing_directory_has_empty_list(kind: ListKind, dir: Seq<u8>)
    ensures
        list_after(kind, dir, seq![EventView::Found(Ok(false))]) == (ListStepView::Finish {
            response: Seq::empty(),
        }),
{
    reveal_with_fuel(after, 2);
    assert(seq![EventView::Found(Ok(false))].drop_last() =~= Seq::empty());
}

/// Whether an operation only reads.
pub open spec fn only_reads(action: ActionView) -> bool {
    action is CheckExists || action is OpenDir || action is NextEntry || action is CheckIsFile
        || action is ReadMetadata
}

/// Whatever it is answered, a list asks for operations that only read.
pub proof fn law_list_only_reads(kind: ListKind, dir: Seq<u8>, events: Seq<EventView>)
    ensures
        list_after(kind, dir, events) matches Step::Perform { action, state } ==> only_reads(
            action,
        ),
    decreases events.len(),
{
    if events.len() > 0 {
        law_list_only_reads(kind, dir, events.drop_last());
    }
}

/// Whether `events` are true answers to a list of the files in `dir` that finds and leaves the disk
/// as in `disks`.
pub open spec fn is_list_run(
    kind: ListKind,
    dir: Seq<u8>,
    events: Seq<EventView>,
    disks: Seq<Disk>,
) -> bool {
    is_run(
        list_start(dir),
        |state: ListFilesView, event: EventView| list_next(kind, dir, state, event),
        events,
        disks,
    )
}

/// Whether there is a file at `path`, in the directory `dir` itself, that is to be listed.
pub open spec fn is_wanted(disk: Disk, kind: ListKind, dir: Seq<u8>, path: Seq<u8>) -> bool {
    disk.files.contains_key(path) && is_in(dir, path) && is_listed(kind, path)
}

/// Whether `entry` tells of the file at `path`.
pub open spec fn tells_of(disk: Disk, path: Seq<u8>, entry: FileEntryView) -> bool {
    &&& file_name(path) is Some
    &&& valid_utf8(file_name(path)->0)
    &&& entry.name == decode_utf8(file_name(path)->0)
    &&& entry.path == lossy_text(path)
    &&& disk.read(path) is Some
    &&& entry.size_bytes == disk.read(path)->0.len()
}

/// Whether two entries tell the same name, path and size.
pub open spec fn is_same_file(a: FileEntryView, b: FileEntryView) -> bool {
    a.name == b.name && a.path == b.path && a.size_bytes == b.size_bytes
}

/// Whether a list tells of the file that `entry` tells of.
pub open spec fn is_in_list(list: Seq<FileEntryView>, entry: FileEntryView) -> bool {
    exists|i: int| 0 <= i < list.len() && is_same_file(#[trigger] list[i], entry)
}

/// Whether `entries` tell of the files at `paths`, one by one, and these are, each of them once,
/// the files in `dir` that are to be listed, but for those in `left`.
pub open spec fn is_list_of(
    disk: Disk,
    kind: ListKind,
    dir: Seq<u8>,
    left: Set<Seq<u8>>,
    entries: Seq<FileEntryView>,
    paths: Seq<Seq<u8>>,
) -> bool {
    &&& paths.len() == entries.len()
    &&& paths.no_duplicates()
    &&& forall|i: int| 0 <= i < paths.len() ==> tells_of(disk, #[trigger] paths[i], entries[i])
    &&& forall|path: Seq<u8>| #[trigger]
        paths.contains(path) <==> is_wanted(disk, kind, dir, path) && !left.contains(path)
}

/// Whether the files that were found so far are those in `dir` that are to be listed, but for those
/// in `left`.
spec fn is_found_so_far(
    disk: Disk,
    kind: ListKind,
    dir: Seq<u8>,
    left: Set<Seq<u8>>,
    found: Seq<CandidateView>,
) -> bool {
    exists|paths: Seq<Seq<u8>>| #[trigger]
        is_list_of(disk, kind, dir, left, entries_of(found), paths)
}

/// What holds during and after a list.
spec fn list_kept(
    kind: ListKind,
    dir: Seq<u8>,
    start: Disk,
    told: Seq<EventView>,
    step: ListStepView,
    now: Disk,
) -> bool {
    &&& now.files == start.files
    &&& now.dirs == start.dirs
    &&& match step {
        Step::Perform { action, state } => match state.stage {
            ListStage::CheckingDir => {
                &&& action == (ActionView::CheckExists { path: dir })
                &&& state.found == Seq::<CandidateView>::empty()
            },
            ListStage::OpeningDir => {
                &&& action == (ActionView::OpenDir { path: dir })
                &&& state.found == Seq::<CandidateView>::empty()
                &&& start.holds(dir)
            },
            ListStage::ReadingEntry => {
                &&& action == ActionView::NextEntry
                &&& start.holds(dir)
                &&& now.untold.subset_of(start.entries(dir))
                &&& is_found_so_far(start, kind, dir, now.untold, state.found)
            },
            ListStage::CheckingEntry { path } => {
                &&& action == (ActionView::CheckIsFile { path })
                &&& start.holds(dir)
                &&& now.untold.subset_of(start.entries(dir))
                &&& start.entries(dir).contains(path)
                &&& !now.untold.contains(path)
                &&& is_found_so_far(start, kind, dir, now.untold.insert(path), state.found)
            },
            ListStage::ReadingMetadata { path } => {
                &&& action == (ActionView::ReadMetadata { path })
                &&& start.holds(dir)
                &&& now.untold.subset_of(start.entries(dir))
                &&& is_wanted(start, kind, dir, path)
                &&& !now.untold.contains(path)
                &&& is_found_so_far(start, kind, dir, now.untold.insert(path), state.found)
            },
        },
        Step::Finish { response } => if start.holds(dir) {
            exists|paths: Seq<Seq<u8>>| #[trigger]
                is_list_of(start, kind, dir, Set::empty(), response, paths)
        } else {
            response == Seq::<FileEntryView>::empty()
        },
        Step::Fail { error } => no_failure(told) ==> exists|path: Seq<u8>| #[trigger]
            is_wanted(start, kind, dir, path) && !is_text_name(path),
    }
}

/// Whether the file name in a path is text.
pub open spec fn is_text_name(path: Seq<u8>) -> bool {
    file_name(path) matches Some(name) && valid_utf8(name)
}

/// A list with one more file.
proof fn lemma_one_more(
    disk: Disk,
    kind: ListKind,
    dir: Seq<u8>,
    left: Set<Seq<u8>>,
    found: Seq<CandidateView>,
    path: Seq<u8>,
    c: CandidateView,
)
    requires
        is_found_so_far(disk, kind, dir, left.insert(path), found),
        is_wanted(disk, kind, dir, path),
        !left.contains(path),
        tells_of(disk, path, c.entry),
    ensures
        is_found_so_far(disk, kind, dir, left, placed(found, c)),
{
    let entries = entries_of(found);
    let paths = choose|paths: Seq<Seq<u8>>| #[trigger]
        is_list_of(disk, kind, dir, left.insert(path), entries, paths);
    let at = lemma_placed_somewhere(found, c);
    let more = paths.insert(at, path);
    let told = entries_of(placed(found, c));
    assert(told =~= entries.insert(at, c.entry));
    assert(!paths.contains(path));
    assert forall|i: int| 0 <= i < more.len() implies tells_of(
        disk,
        #[trigger] more[i],
        told[i],
    ) by {
        if i < at {
            assert(more[i] == paths[i]);
        } else if i > at {
            assert(more[i] == paths[i - 1]);
        }
    }
    assert forall|p: Seq<u8>| #[trigger] more.contains(p) <==> is_wanted(disk, kind, dir, p)
        && !left.contains(p) by {
        if more.contains(p) {
            let i = choose|i: int| 0 <= i < more.len() && more[i] == p;
            if i < at {
                assert(paths[i] == p);
                assert(paths.contains(p));
            } else if i > at {
                assert(paths[i - 1] == p);
                assert(paths.contains(p));
            }
        }
        if is_wanted(disk, kind, dir, p) && !left.contains(p) {
            if p == path {
                assert(more[at] == p);
            } else {
                assert(paths.contains(p));
                let i = choose|i: int| 0 <= i < paths.len() && paths[i] == p;
                if i < at {
                    assert(more[i] == p);
                } else {
                    assert(more[i + 1] == p);
                }
            }
        }
    }
    assert(more.no_duplicates()) by {
        assert forall|i: int, j: int| 0 <= i < more.len() && 0 <= j < more.len() && i
            != j implies more[i] != more[j] by {
            let a = if i < at { i } else { i - 1 };
            let b = if j < at { j } else { j - 1 };
            if i != at {
                assert(more[i] == paths[a]);
                assert(paths.contains(paths[a]));
            }
            if j != at {
                assert(more[j] == paths[b]);
                assert(paths.contains(paths[b]));
            }
        }
    }
    assert(is_list_of(disk, kind, dir, left, told, more));
}

/// A list that passes over something that is not to be listed.
proof fn lemma_passed_over(
    disk: Disk,
    kind: ListKind,
    dir: Seq<u8>,
    left: Set<Seq<u8>>,
    found: Seq<CandidateView>,
    path: Seq<u8>,
)
    requires
        is_found_so_far(disk, kind, dir, left.insert(path), found),
        !is_wanted(disk, kind, dir, path),
    ensures
        is_found_so_far(disk, kind, dir, left, found),
{
    let paths = choose|paths: Seq<Seq<u8>>| #[trigger]
        is_list_of(disk, kind, dir, left.insert(path), entries_of(found), paths);
    assert(is_list_of(disk, kind, dir, left, entries_of(found), paths));
}

/// A true answer keeps what holds during a list.
proof fn lemma_list_step(
    kind: ListKind,
    dir: Seq<u8>,
    start: Disk,
    told: Seq<EventView>,
    action: ActionView,
    state: ListFilesView,
    before: Disk,
    event: EventView,
    after: Disk,
)
    requires
        list_kept(kind, dir, start, told, Step::Perform { action, state }, before),
        truthful(before, action, event, after),
    ensures
        list_kept(
            kind,
            dir,
            start,
            told.push(event),
            list_next(kind, dir, state, event),
            after,
        ),
{
    let more = told.push(event);
    assert(more[told.len() as int] == event);
    let found = state.found;
    match state.stage {
        ListStage::OpeningDir => {
            if event is Done && event->Done_0 is Ok {
                assert(after.untold =~= start.entries(dir));
                let none = Seq::<Seq<u8>>::empty();
                assert(entries_of(found) =~= Seq::empty());
                assert(is_list_of(start, kind, dir, after.untold, entries_of(found), none));
            }
        },
        ListStage::ReadingEntry => {
            if let EventView::Entry(Ok(Some(path))) = event {
                assert(after.untold.insert(path) =~= before.untold);
            } else if let EventView::Entry(Ok(None)) = event {
                let paths = choose|paths: Seq<Seq<u8>>| #[trigger]
                    is_list_of(start, kind, dir, before.untold, entries_of(found), paths);
                let response = list_next(kind, dir, state, event)->response;
                assert(response == entries_of(found));
                assert(is_list_of(start, kind, dir, Set::empty(), response, paths));
            }
        },
        ListStage::CheckingEntry { path } => {
            if let EventView::Found(Ok(is_file)) = event {
                if !(is_file && is_listed(kind, path)) {
                    lemma_passed_over(start, kind, dir, after.untold, found, path);
                }
            }
        },
        ListStage::ReadingMetadata { path } => {
            if let EventView::Metadata(Ok(metadata)) = event {
                if let Ok(c) = candidate(kind, path, metadata) {
                    assert(before.read(path) == start.read(path));
                    lemma_one_more(start, kind, dir, after.untold, found, path, c);
                } else {
                    assert(is_wanted(start, kind, dir, path) && !is_text_name(path));
                }
            }
        },
        _ => {},
    }
    if no_failure(more) {
        assert(!is_failure(event));
    }
}

/// What holds during and after a list holds of every run.
proof fn lemma_list_run(kind: ListKind, dir: Seq<u8>, events: Seq<EventView>, disks: Seq<Disk>)
    requires
        is_list_run(kind, dir, events, disks),
    ensures
        list_kept(
            kind,
            dir,
            disks[0],
            events,
            list_after(kind, dir, events),
            disks.last(),
        ),
{
    let start = disks[0];
    let next = |state: ListFilesView, event: EventView| list_next(kind, dir, state, event);
    let kept = |told: Seq<EventView>, step: ListStepView, now: Disk|
        list_kept(kind, dir, start, told, step, now);
    assert forall|
        told: Seq<EventView>,
        action: ActionView,
        state: ListFilesView,
        before: Disk,
        event: EventView,
        after: Disk,
    |
        kept(told, Step::Perform { action, state }, before) && #[trigger] truthful(
            before,
            action,
            event,
            after,
        ) implies #[trigger] kept(told.push(event), next(state, event), after) by {
        lemma_list_step(kind, dir, start, told, action, state, before, event, after);
    }
    lemma_run_keeps(list_start(dir), next, events, disks, kept);
}

/// A list leaves files and directories as they were, whether it succeeds or not.
pub proof fn law_list_changes_nothing(
    kind: ListKind,
    dir: Seq<u8>,
    events: Seq<EventView>,
    disks: Seq<Disk>,
)
    requires
        is_list_run(kind, dir, events, disks),
    ensures
        disks.last().files == disks[0].files,
        disks.last().dirs == disks[0].dirs,
{
    lemma_list_run(kind, dir, events, disks);
}

/// A list tells of exactly the files on the disk that stand in the directory itself and are to be
/// listed, each of them once. A directory that does not exist has an empty list.
pub proof fn law_list_matches_the_disk(
    kind: ListKind,
    dir: Seq<u8>,
    events: Seq<EventView>,
    disks: Seq<Disk>,
)
    requires
        is_list_run(kind, dir, events, disks),
    ensures
        list_after(kind, dir, events) matches Step::Finish { response } ==> if disks[0].holds(dir) {
            exists|paths: Seq<Seq<u8>>| #[trigger]
                is_list_of(disks[0], kind, dir, Set::empty(), response, paths)
        } else {
            response == Seq::<FileEntryView>::empty()
        },
{
    lemma_list_run(kind, dir, events, disks);
}

/// Where no operation fails, a list fails only if a file that is to be listed has a name that is no
/// text.
pub proof fn law_list_succeeds(
    kind: ListKind,
    dir: Seq<u8>,
    events: Seq<EventView>,
    disks: Seq<Disk>,
)
    requires
        is_list_run(kind, dir, events, disks),
        no_failure(events),
        forall|path: Seq<u8>| #[trigger]
            is_wanted(disks[0], kind, dir, path) ==> is_text_name(path),
    ensures
        !(list_after(kind, dir, events) is Fail),
{
    lemma_list_run(kind, dir, events, disks);
}

/// A file that stands in the directory and is to be listed is in the list.
pub proof fn law_file_is_in_the_list(
    kind: ListKind,
    dir: Seq<u8>,
    path: Seq<u8>,
    events: Seq<EventView>,
    disks: Seq<Disk>,
)
    requires
        is_list_run(kind, dir, events, disks),
        list_after(kind, dir, events) is Finish,
        disks[0].holds(dir),
        is_wanted(disks[0], kind, dir, path),
    ensures
        exists|i: int|
            0 <= i < list_after(kind, dir, events)->response.len() && tells_of(
                disks[0],
                path,
                #[trigger] list_after(kind, dir, events)->response[i],
            ),
{
    lemma_list_run(kind, dir, events, disks);
    let response = list_after(kind, dir, events)->response;
    let paths = choose|paths: Seq<Seq<u8>>| #[trigger]
        is_list_of(disks[0], kind, dir, Set::empty(), response, paths);
    assert(paths.contains(path));
    let i = choose|i: int| 0 <= i < paths.len() && paths[i] == path;
    assert(tells_of(disks[0], paths[i], response[i]));
}

/// A plain name leads to something in the directory itself.
pub proof fn lemma_plain_name_is_in(dir: Seq<u8>, name: Seq<char>)
    requires
        is_plain_name(name),
    ensures
        is_in(dir, join(dir, encode_utf8(name))),
        file_name(join(dir, encode_utf8(name))) == Some(encode_utf8(name)),
        valid_utf8(encode_utf8(name)),
        decode_utf8(encode_utf8(name)) == name,
{
    lemma_plain(name);
    lemma_plain_file_name(encode_utf8(name));
    lemma_join_name(dir, encode_utf8(name));
    vstd::utf8::encode_utf8_valid_utf8(name);
    vstd::utf8::encode_utf8_decode_utf8(name);
}

/// The bytes of the ending of an `.srs` file.
pub open spec fn srs_ending() -> Seq<u8> {
    seq![DOT, 115u8, 114u8, 115u8]
}

/// How the ending is encoded, with and without its dot.
proof fn lemma_srs_encoded()
    ensures
        encode_utf8("srs"@) == seq![115u8, 114u8, 115u8],
        encode_utf8(".srs"@) == srs_ending(),
{
    reveal_strlit("srs");
    reveal_strlit(".srs");
    vstd::utf8::is_ascii_chars_encode_utf8("srs"@);
    vstd::utf8::is_ascii_chars_encode_utf8(".srs"@);
    assert("srs"@[0] == 's' && "srs"@[1] == 'r' && "srs"@[2] == 's');
    assert(".srs"@[0] == '.' && ".srs"@[1] == 's' && ".srs"@[2] == 'r' && ".srs"@[3] == 's');
    assert(encode_utf8("srs"@) =~= seq![115u8, 114u8, 115u8]);
    assert(encode_utf8(".srs"@) =~= srs_ending());
}

/// At the last dot there is a dot.
proof fn lemma_last_dot(name: Seq<u8>)
    ensures
        -1 <= last_dot(name) < name.len(),
        last_dot(name) >= 0 ==> name[last_dot(name)] == DOT,
    decreases name.len(),
{
    if name.len() > 0 && name.last() != DOT {
        lemma_last_dot(name.drop_last());
    }
}

/// The list of `.srs` files shows a file exactly if its name ends in `.srs` and has something
/// before that.
pub proof fn law_srs_files_are_known_by_their_ending(path: Seq<u8>)
    ensures
        is_listed(ListKind::Srs, path) <==> (file_name(path) matches Some(name) && name.len() > 4
            && srs_ending().is_suffix_of(name)),
{
    lemma_srs_encoded();
    if let Some(name) = file_name(path) {
        lemma_last_dot(name);
        let n = name.len() as int;
        let dot = last_dot(name);
        let tail = seq![115u8, 114u8, 115u8];
        if is_listed(ListKind::Srs, path) {
            let ext = name.skip(dot + 1);
            assert(ext.len() == 3);
            assert(n == dot + 4);
            assert(ext[0] == tail[0] && ext[1] == tail[1] && ext[2] == tail[2]);
            assert(name.subrange(n - 4, n) =~= srs_ending());
        }
        if n > 4 && srs_ending().is_suffix_of(name) {
            let end = name.subrange(n - 4, n);
            assert(end == srs_ending());
            assert(end[0] == name[n - 4] && end[1] == name[n - 3]);
            assert(end[2] == name[n - 2] && end[3] == name[n - 1]);
            assert(name.drop_last().last() == name[n - 2]);
            assert(name.drop_last().drop_last().last() == name[n - 3]);
            assert(name.drop_last().drop_last().drop_last().last() == name[n - 4]);
            reveal_with_fuel(last_dot, 5);
            assert(dot == n - 4);
            assert(name.skip(dot + 1) =~= tail);
        }
    }
}

/// The name of every file in the list of `.srs` files ends in `.srs`.
pub proof fn law_srs_list_holds_only_srs_files(entries: Seq<DirEntry>)
    requires
        names_are_text(ListKind::Srs, entries),
    ensures
        forall|i: int|
            0 <= i < newest_first(shown(ListKind::Srs, entries)).len() ==> ".srs"@.is_suffix_of(
                (#[trigger] newest_first(shown(ListKind::Srs, entries))[i]).entry.name,
            ),
{
    broadcast use vstd::seq_lib::group_to_multiset_ensures;

    let given = shown(ListKind::Srs, entries);
    let list = newest_first(given);
    law_newest_first(given);
    lemma_shown_names(entries);
    assert forall|i: int| 0 <= i < list.len() implies ".srs"@.is_suffix_of(
        (#[trigger] list[i]).entry.name,
    ) by {
        assert(list.contains(list[i]));
        assert(list.to_multiset().count(list[i]) > 0);
        assert(given.contains(list[i]));
    }
}

/// The name of every `.srs` file that is shown ends in `.srs`.
proof fn lemma_shown_names(entries: Seq<DirEntry>)
    requires
        names_are_text(ListKind::Srs, entries),
    ensures
        forall|c: CandidateView| #[trigger]
            shown(ListKind::Srs, entries).contains(c) ==> ".srs"@.is_suffix_of(c.entry.name),
    decreases entries.len(),
{
    if entries.len() > 0 {
        let front = entries.drop_last();
        let last = entries.last();
        assert forall|i: int|
            0 <= i < front.len() && is_shown(ListKind::Srs, #[trigger] front[i]) implies candidate(
            ListKind::Srs,
            front[i].path,
            front[i].metadata,
        ) is Ok by {
            assert(front[i] == entries[i]);
        }
        lemma_shown_names(front);
        if is_shown(ListKind::Srs, last) {
            assert(is_shown(ListKind::Srs, entries[entries.len() - 1]));
            let name = file_name(last.path)->0;
            law_srs_files_are_known_by_their_ending(last.path);
            lemma_ending_decoded(name);
            let before = shown(ListKind::Srs, front);
            let c = candidate(ListKind::Srs, last.path, last.metadata)->Ok_0;
            assert(shown(ListKind::Srs, entries) == before.push(c));
            assert forall|x: CandidateView| #[trigger]
                before.push(c).contains(x) implies ".srs"@.is_suffix_of(x.entry.name) by {
                if x != c {
                    let i = choose|i: int| 0 <= i < before.push(c).len() && before.push(c)[i] == x;
                    assert(before[i] == x);
                    assert(before.contains(x));
                }
            }
        } else {
            assert(shown(ListKind::Srs, entries) == shown(ListKind::Srs, front));
        }
    }
}

/// A name whose bytes end in `.srs` ends so as a text.
proof fn lemma_ending_decoded(name: Seq<u8>)
    requires
        valid_utf8(name),
        srs_ending().is_suffix_of(name),
    ensures
        ".srs"@.is_suffix_of(decode_utf8(name)),
{
    broadcast use vstd::utf8::is_char_boundary_iff_not_is_continuation_byte;

    lemma_srs_encoded();
    let n = name.len() as int;
    let end = name.subrange(n - 4, n);
    assert(end == srs_ending());
    assert(end[0] == name[n - 4]);
    assert(!vstd::utf8::is_continuation_byte(name[n - 4]));
    assert(vstd::utf8::is_char_boundary(name, n - 4));
    vstd::utf8::decode_utf8_split(name, n - 4);
    vstd::utf8::encode_utf8_decode_utf8(".srs"@);
    let text = decode_utf8(name);
    assert(text.subrange(text.len() - ".srs"@.len(), text.len() as int) =~= ".srs"@);
}

/// A file that is stored under an accepted name is in the list of `.srs` files. The name that is
/// nothing but the ending is left aside: such a file is hidden, and has no ending.
pub proof fn law_stored_srs_files_are_listed(dir: Seq<u8>, name: Seq<char>)
    requires
        is_plain_name(name),
        ".srs"@.is_suffix_of(name),
        name != ".srs"@,
    ensures
        is_listed(ListKind::Srs, join(dir, encode_utf8(name))),
{
    lemma_srs_encoded();
    let bytes = encode_utf8(name);
    lemma_plain(name);
    lemma_plain_file_name(bytes);
    lemma_join_name(dir, bytes);
    reveal_strlit(".srs");
    let k = name.len() - 4;
    let head = name.take(k);
    assert(name =~= head + ".srs"@);
    lemma_encode_concat(head, ".srs"@);
    assert(bytes == encode_utf8(head) + srs_ending());
    assert(head.len() > 0) by {
        if head.len() == 0 {
            assert(name =~= ".srs"@);
        }
    }
    assert(encode_utf8(head).len() > 0) by {
        if encode_utf8(head).len() == 0 {
            assert(encode_utf8(Seq::<char>::empty()) =~= encode_utf8(head));
            crate::utf8::lemma_encoding_is_injective(head, Seq::empty());
        }
    }
    assert(bytes.subrange(bytes.len() - 4, bytes.len() as int) =~= srs_ending());
    law_srs_files_are_known_by_their_ending(join(dir, bytes));
}

/// Texts that follow each other are encoded one behind the other.
proof fn lemma_encode_concat(a: Seq<char>, b: Seq<char>)
    ensures
        encode_utf8(a + b) == encode_utf8(a) + encode_utf8(b),
    decreases a.len(),
{
    if a.len() == 0 {
        assert(a + b =~= b);
        assert(encode_utf8(a) + encode_utf8(b) =~= encode_utf8(b));
    } else {
        assert((a + b).drop_first() =~= a.drop_first() + b);
        lemma_encode_concat(a.drop_first(), b);
        assert(encode_utf8(a + b) =~= encode_utf8(a) + encode_utf8(b));
    }
}

/// Whether `entry` tells of the file of which the answer at `k` told, two answers after the one
/// that named the file and one after the one that said that it is a file.
pub open spec fn is_told_at(
    kind: ListKind,
    told: Seq<EventView>,
    k: int,
    entry: FileEntryView,
) -> bool {
    &&& 2 <= k < told.len()
    &&& told[k - 2] is Entry
    &&& told[k - 2]->Entry_0 is Ok
    &&& told[k - 2]->Entry_0->Ok_0 is Some
    &&& told[k - 1] == EventView::Found(Ok(true))
    &&& told[k] is Metadata
    &&& told[k]->Metadata_0 is Ok
    &&& is_listed(kind, told[k - 2]->Entry_0->Ok_0->0)
    &&& is_entry_of(entry, told[k - 2]->Entry_0->Ok_0->0, told[k]->Metadata_0->Ok_0)
}

/// Whether the file of which the answer at `a` told comes before the one of which the answer at `b`
/// told: it was modified in a later millisecond since 1970, or in the same one and was met earlier.
pub open spec fn comes_before(told: Seq<EventView>, a: int, b: int) -> bool {
    let of_a = told_millis(told[a]->Metadata_0->Ok_0);
    let of_b = told_millis(told[b]->Metadata_0->Ok_0);
    of_a > of_b || (of_a == of_b && a < b)
}

/// Whether the last two answers named a file that is to be listed.
spec fn is_pending(kind: ListKind, told: Seq<EventView>, at: int) -> bool {
    &&& 0 <= at
    &&& at + 1 < told.len()
    &&& told[at] is Entry
    &&& told[at]->Entry_0 is Ok
    &&& told[at]->Entry_0->Ok_0 is Some
    &&& told[at + 1] == EventView::Found(Ok(true))
    &&& is_listed(kind, told[at]->Entry_0->Ok_0->0)
}

/// Whether `entries` tell, in order, of the files of which the answers at `sources` told, and these
/// are all answers that told of files.
pub open spec fn is_told_in_order(
    kind: ListKind,
    told: Seq<EventView>,
    entries: Seq<FileEntryView>,
    sources: Seq<int>,
) -> bool {
    &&& sources.len() == entries.len()
    &&& forall|i: int|
        0 <= i < sources.len() ==> is_told_at(kind, told, #[trigger] sources[i], entries[i])
    &&& forall|i: int, j: int|
        0 <= i < j < sources.len() ==> comes_before(
            told,
            #[trigger] sources[i],
            #[trigger] sources[j],
        )
    &&& forall|k: int|
        0 <= k < told.len() && (#[trigger] told[k]) is Metadata ==> sources.contains(k)
}

/// Whether the files that were found so far are those of which answers told, in order, each placed
/// by the milliseconds that were told.
#[verifier::opaque]
spec fn is_order_so_far(
    kind: ListKind,
    told: Seq<EventView>,
    found: Seq<CandidateView>,
) -> bool {
    exists|sources: Seq<int>|
        {
            &&& #[trigger] is_told_in_order(kind, told, entries_of(found), sources)
            &&& forall|i: int|
                0 <= i < found.len() ==> (#[trigger] found[i]).sort_key == told_millis(
                    told[sources[i]]->Metadata_0->Ok_0,
                )
        }
}

/// What holds of the answers during and after a list.
spec fn list_told(kind: ListKind, told: Seq<EventView>, step: ListStepView) -> bool {
    &&& !(step is Fail) ==> forall|k: int| #[trigger]
        is_pending(kind, told, k) && k + 2 < told.len() ==> told[k + 2] is Metadata
    &&& match step {
        Step::Perform { action, state } => {
            let found = state.found;
            &&& is_order_so_far(kind, told, found)
            &&& match state.stage {
                ListStage::CheckingDir => told.len() == 0 && found.len() == 0,
                ListStage::OpeningDir => told.len() == 1 && found.len() == 0,
                ListStage::ReadingEntry => !is_pending(kind, told, told.len() - 2),
                ListStage::CheckingEntry { path } => {
                    &&& told.len() > 0
                    &&& told.last() == EventView::Entry(Ok(Some(path)))
                },
                ListStage::ReadingMetadata { path } => {
                    &&& told.len() > 1
                    &&& told[told.len() - 2] == EventView::Entry(Ok(Some(path)))
                    &&& told.last() == EventView::Found(Ok(true))
                    &&& is_listed(kind, path)
                },
            }
        },
        Step::Finish { response } => exists|sources: Seq<int>| #[trigger]
            is_told_in_order(kind, told, response, sources),
        Step::Fail { error } => true,
    }
}

/// An answer that tells of no file changes nothing of what was told in order.
proof fn lemma_told_more(
    kind: ListKind,
    told: Seq<EventView>,
    event: EventView,
    entries: Seq<FileEntryView>,
    sources: Seq<int>,
)
    requires
        is_told_in_order(kind, told, entries, sources),
        !(event is Metadata),
    ensures
        is_told_in_order(kind, told.push(event), entries, sources),
{
    let more = told.push(event);
    assert forall|i: int| 0 <= i < sources.len() implies is_told_at(
        kind,
        more,
        #[trigger] sources[i],
        entries[i],
    ) by {
        let k = sources[i];
        assert(is_told_at(kind, told, k, entries[i]));
        assert(more[k] == told[k] && more[k - 1] == told[k - 1] && more[k - 2] == told[k - 2]);
    }
    assert forall|i: int, j: int| 0 <= i < j < sources.len() implies comes_before(
        more,
        #[trigger] sources[i],
        #[trigger] sources[j],
    ) by {
        assert(is_told_at(kind, told, sources[i], entries[i]));
        assert(is_told_at(kind, told, sources[j], entries[j]));
        assert(comes_before(told, sources[i], sources[j]));
    }
    assert forall|k: int| 0 <= k < more.len() && (#[trigger] more[k]) is Metadata implies
        sources.contains(k) by {
        assert(k < told.len());
        assert(told[k] is Metadata);
    }
}

/// An answer that tells of a file puts it into its place.
proof fn lemma_told_of_one_more(
    kind: ListKind,
    told: Seq<EventView>,
    path: Seq<u8>,
    metadata: FileMetadataView,
    found: Seq<CandidateView>,
    sources: Seq<int>,
) -> (all: Seq<int>)
    requires
        is_told_in_order(kind, told, entries_of(found), sources),
        forall|i: int|
            0 <= i < found.len() ==> (#[trigger] found[i]).sort_key == told_millis(
                told[sources[i]]->Metadata_0->Ok_0,
            ),
        told.len() > 1,
        told[told.len() - 2] == EventView::Entry(Ok(Some(path))),
        told.last() == EventView::Found(Ok(true)),
        is_listed(kind, path),
        candidate(kind, path, metadata) is Ok,
    ensures
        ({
            let more = told.push(EventView::Metadata(Ok(metadata)));
            let now = placed(found, candidate(kind, path, metadata)->Ok_0);
            &&& is_told_in_order(kind, more, entries_of(now), all)
            &&& forall|i: int|
                0 <= i < now.len() ==> (#[trigger] now[i]).sort_key == told_millis(
                    more[all[i]]->Metadata_0->Ok_0,
                )
        }),
{
    let n = told.len() as int;
    let event = EventView::Metadata(Ok(metadata));
    let more = told.push(event);
    let c = candidate(kind, path, metadata)->Ok_0;
    law_files_are_told_as_they_are(kind, path, metadata);
    let at = lemma_placed_somewhere(found, c);
    let now = placed(found, c);
    let all = sources.insert(at, n);
    let entries = entries_of(found);
    let after = entries_of(now);
    assert(after =~= entries.insert(at, c.entry));
    assert(more[n] == event && more[n - 1] == told.last() && more[n - 2] == told[n - 2]);
    assert forall|i: int| 0 <= i < all.len() implies {
        &&& is_told_at(kind, more, #[trigger] all[i], after[i])
        &&& now[i].sort_key == told_millis(more[all[i]]->Metadata_0->Ok_0)
    } by {
        if i != at {
            let j = if i < at { i } else { i - 1 };
            let k = sources[j];
            assert(all[i] == k && after[i] == entries[j] && now[i] == found[j]);
            assert(is_told_at(kind, told, k, entries[j]));
            assert(more[k] == told[k] && more[k - 1] == told[k - 1] && more[k - 2] == told[k - 2]);
        }
    }
    assert forall|i: int| 0 <= i < now.len() implies (#[trigger] now[i]).sort_key == told_millis(
        more[all[i]]->Metadata_0->Ok_0,
    ) by {
        assert(is_told_at(kind, more, all[i], after[i]));
    }
    assert forall|i: int, j: int| 0 <= i < j < all.len() implies comes_before(
        more,
        #[trigger] all[i],
        #[trigger] all[j],
    ) by {
        assert(is_told_at(kind, more, all[i], after[i]));
        assert(is_told_at(kind, more, all[j], after[j]));
        let a = if i < at { i } else { i - 1 };
        let b = if j < at { j } else { j - 1 };
        if i != at && j != at {
            assert(all[i] == sources[a] && all[j] == sources[b]);
            assert(is_told_at(kind, told, sources[a], entries[a]));
            assert(is_told_at(kind, told, sources[b], entries[b]));
            assert(comes_before(told, sources[a], sources[b]));
        } else if j == at {
            assert(all[i] == sources[a]);
            assert(is_told_at(kind, told, sources[a], entries[a]));
            assert(found[at - 1].sort_key >= c.sort_key);
            if a < at - 1 {
                assert(is_told_at(kind, told, sources[at - 1], entries[at - 1]));
                assert(comes_before(told, sources[a], sources[at - 1]));
                assert(found[a].sort_key >= found[at - 1].sort_key);
            }
            assert(found[a].sort_key >= c.sort_key);
        } else {
            assert(all[j] == sources[b]);
            assert(is_told_at(kind, told, sources[b], entries[b]));
            assert(found[b].sort_key < c.sort_key);
        }
    }
    assert forall|k: int| 0 <= k < more.len() && (#[trigger] more[k]) is Metadata implies
        all.contains(k) by {
        if k == n {
            assert(all[at] == n);
        } else {
            assert(told[k] is Metadata);
            let i = choose|i: int| 0 <= i < sources.len() && sources[i] == k;
            if i < at {
                assert(all[i] == k);
            } else {
                assert(all[i + 1] == k);
            }
        }
    }
    all
}

/// An answer that tells of no file leaves the files that were found in order.
proof fn lemma_order_is_kept(
    kind: ListKind,
    front: Seq<EventView>,
    event: EventView,
    found: Seq<CandidateView>,
)
    requires
        is_order_so_far(kind, front, found),
        !(event is Metadata),
    ensures
        is_order_so_far(kind, front.push(event), found),
{
    reveal(is_order_so_far);
    let told = front.push(event);
    let sources = choose|sources: Seq<int>|
        {
            &&& #[trigger] is_told_in_order(kind, front, entries_of(found), sources)
            &&& forall|i: int|
                0 <= i < found.len() ==> (#[trigger] found[i]).sort_key == told_millis(
                    front[sources[i]]->Metadata_0->Ok_0,
                )
        };
    lemma_told_more(kind, front, event, entries_of(found), sources);
    assert forall|i: int| 0 <= i < found.len() implies (#[trigger] found[i]).sort_key
        == told_millis(told[sources[i]]->Metadata_0->Ok_0) by {
        assert(is_told_at(kind, front, sources[i], entries_of(found)[i]));
        assert(told[sources[i]] == front[sources[i]]);
    }
}

/// An answer that tells of a file leaves the files that were found in order.
proof fn lemma_order_has_one_more(
    kind: ListKind,
    front: Seq<EventView>,
    path: Seq<u8>,
    metadata: FileMetadataView,
    found: Seq<CandidateView>,
)
    requires
        is_order_so_far(kind, front, found),
        front.len() > 1,
        front[front.len() - 2] == EventView::Entry(Ok(Some(path))),
        front.last() == EventView::Found(Ok(true)),
        is_listed(kind, path),
        candidate(kind, path, metadata) is Ok,
    ensures
        is_order_so_far(
            kind,
            front.push(EventView::Metadata(Ok(metadata))),
            placed(found, candidate(kind, path, metadata)->Ok_0),
        ),
{
    reveal(is_order_so_far);
    let sources = choose|sources: Seq<int>|
        {
            &&& #[trigger] is_told_in_order(kind, front, entries_of(found), sources)
            &&& forall|i: int|
                0 <= i < found.len() ==> (#[trigger] found[i]).sort_key == told_millis(
                    front[sources[i]]->Metadata_0->Ok_0,
                )
        };
    let all = lemma_told_of_one_more(kind, front, path, metadata, found, sources);
    let told = front.push(EventView::Metadata(Ok(metadata)));
    let now = placed(found, candidate(kind, path, metadata)->Ok_0);
    assert(is_told_in_order(kind, told, entries_of(now), all));
}

/// Files that were found in order are told in order.
proof fn lemma_order_is_told(kind: ListKind, told: Seq<EventView>, found: Seq<CandidateView>)
    requires
        is_order_so_far(kind, told, found),
    ensures
        exists|sources: Seq<int>| #[trigger]
            is_told_in_order(kind, told, entries_of(found), sources),
{
    reveal(is_order_so_far);
}

/// An answer keeps what holds of the answers to a list.
proof fn lemma_list_told_step(
    kind: ListKind,
    dir: Seq<u8>,
    front: Seq<EventView>,
    action: ActionView,
    state: ListFilesView,
    event: EventView,
)
    requires
        list_told(kind, front, Step::Perform { action, state }),
    ensures
        list_told(kind, front.push(event), list_next(kind, dir, state, event)),
{
    let told = front.push(event);
    let n = front.len() as int;
    let found = state.found;
    let step = list_next(kind, dir, state, event);
    assert(told.last() == event && told[n] == event);
    assert(n > 0 ==> told[n - 1] == front.last());
    if !(step is Fail) {
        assert forall|k: int| #[trigger]
            is_pending(kind, told, k) && k + 2 < told.len() implies told[k + 2] is Metadata by {
            assert(front[k] == told[k] && front[k + 1] == told[k + 1]);
            assert(is_pending(kind, front, k));
            if k + 2 < n {
                assert(front[k + 2] == told[k + 2]);
            }
        }
        if event is Metadata {
            let path = state.stage->ReadingMetadata_path;
            let metadata = event->Metadata_0->Ok_0;
            lemma_order_has_one_more(kind, front, path, metadata, found);
        } else {
            lemma_order_is_kept(kind, front, event, found);
            if step is Finish {
                lemma_order_is_told(kind, told, found);
                if state.stage is CheckingDir {
                    assert(entries_of(found) =~= step->response);
                }
                assert(step->response == entries_of(found));
            }
        }
    }
}

/// What holds of the answers to a list holds of all of them, up to the one that ends it.
proof fn lemma_list_told(kind: ListKind, dir: Seq<u8>, told: Seq<EventView>)
    requires
        told.len() > 0 ==> list_after(kind, dir, told.drop_last()) is Perform,
    ensures
        list_told(kind, told, list_after(kind, dir, told)),
    decreases told.len(),
{
    if told.len() == 0 {
        let none = Seq::<int>::empty();
        let found = Seq::<CandidateView>::empty();
        assert(entries_of(found) =~= Seq::empty());
        reveal(is_order_so_far);
        assert(is_told_in_order(kind, told, entries_of(found), none));
    } else {
        let front = told.drop_last();
        lemma_list_told(kind, dir, front);
        assert(front.push(told.last()) =~= told);
        if let Step::Perform { action, state } = list_after(kind, dir, front) {
            lemma_list_told_step(kind, dir, front, action, state, told.last());
        }
    }
}

/// A list that ends with the last of `events` tells of the files newest first: of the answers that
/// told of a file, each gives one entry, with what the answer told, and an entry comes before
/// another if its file was modified in a later millisecond since 1970, or in the same one and was
/// met earlier. Every file that is to be listed is told of.
pub proof fn law_list_is_newest_first(kind: ListKind, dir: Seq<u8>, events: Seq<EventView>)
    requires
        list_after(kind, dir, events) is Finish,
        events.len() > 0,
        list_after(kind, dir, events.drop_last()) is Perform,
    ensures
        exists|sources: Seq<int>| #[trigger]
            is_told_in_order(kind, events, list_after(kind, dir, events)->response, sources),
        forall|k: int|
            {
                &&& 0 <= k
                &&& k + 2 < events.len()
                &&& (#[trigger] events[k]) is Entry
                &&& events[k]->Entry_0 is Ok
                &&& events[k]->Entry_0->Ok_0 is Some
                &&& events[k + 1] == EventView::Found(Ok(true))
                &&& is_listed(kind, events[k]->Entry_0->Ok_0->0)
            } ==> events[k + 2] is Metadata,
{
    lemma_list_told(kind, dir, events);
    assert forall|k: int|
        {
            &&& 0 <= k
            &&& k + 2 < events.len()
            &&& (#[trigger] events[k]) is Entry
            &&& events[k]->Entry_0 is Ok
            &&& events[k]->Entry_0->Ok_0 is Some
            &&& events[k + 1] == EventView::Found(Ok(true))
            &&& is_listed(kind, events[k]->Entry_0->Ok_0->0)
        } implies events[k + 2] is Metadata by {
        assert(is_pending(kind, events, k));
    }
}

} // verus!
