//! A model of the surroundings: what the files hold, which answers are true of them, and how a
//! piece of work runs against them.
use crate::clock::has_own_name;
use crate::error::ApiErrorView;
use crate::io::{ActionView, EventView, Step};
use crate::path::{is_blank, join, DOT, SEPARATOR};
use vstd::prelude::*;

verus! {

/// What is stored. Paths with different bytes are taken to lead to different places, and there are
/// no links.
pub struct Disk {
    /// The contents of each file.
    pub files: Map<Seq<u8>, Seq<u8>>,
    /// The directories.
    pub dirs: Set<Seq<u8>>,
    /// What the directory that is being listed holds and was not told of yet.
    pub untold: Set<Seq<u8>>,
}

/// Whether `path` leads to something in the directory `dir` itself.
pub open spec fn is_in(dir: Seq<u8>, path: Seq<u8>) -> bool {
    exists|name: Seq<u8>|
        !is_blank(name) && name != seq![DOT, DOT] && !name.contains(SEPARATOR) && path
            == #[trigger] join(dir, name)
}

impl Disk {
    /// Whether there is a file or a directory at `path`.
    pub open spec fn holds(self, path: Seq<u8>) -> bool {
        self.files.contains_key(path) || self.dirs.contains(path)
    }

    /// What there is in the directory `dir` itself.
    pub open spec fn entries(self, dir: Seq<u8>) -> Set<Seq<u8>> {
        Set::new(|path: Seq<u8>| self.holds(path) && is_in(dir, path))
    }

    /// What the file at `path` holds, if there is one.
    pub open spec fn read(self, path: Seq<u8>) -> Option<Seq<u8>> {
        if self.files.contains_key(path) {
            Some(self.files[path])
        } else {
            None
        }
    }
}

/// Whether two states of the disk have the same files, but for those at paths in `paths`.
pub open spec fn same_but(before: Disk, after: Disk, paths: Set<Seq<u8>>) -> bool {
    forall|path: Seq<u8>|
        !paths.contains(path) ==> #[trigger] after.read(path) == before.read(path)
}

/// Whether `event` is a true answer to `action`, which found the disk as `before` and left it as
/// `after`. Any operation may fail; one that writes may then have spoiled what it was to write.
/// A program may do anything to the disk. The clock reads a time with a name of its own for a
/// backup, as every `Timestamp` has. A directory that is listed tells of each thing in it once.
pub open spec fn truthful(
    before: Disk,
    action: ActionView,
    event: EventView,
    after: Disk,
) -> bool {
    match (action, event) {
        (ActionView::CheckExists { path }, EventView::Found(r)) => {
            &&& after == before
            &&& r matches Ok(found) ==> found == before.holds(path)
        },
        (ActionView::CreateDirs { path }, EventView::Done(r)) => {
            &&& same_but(before, after, Set::empty())
            &&& before.dirs.subset_of(after.dirs)
            &&& r is Ok ==> after.dirs.contains(path)
        },
        (ActionView::ReadClock, EventView::Time(time)) => {
            &&& after == before
            &&& has_own_name(time)
        },
        (ActionView::CopyFile { from, to }, EventView::Done(r)) => {
            &&& after.dirs == before.dirs
            &&& same_but(before, after, set![to])
            &&& r is Ok ==> before.read(from) is Some
            &&& r is Ok && from != to ==> after.read(to) == before.read(from)
        },
        (ActionView::ReadFile { path }, EventView::Contents(r)) => {
            &&& after == before
            &&& r matches Ok(contents) ==> before.read(path) == Some(contents)
        },
        (ActionView::WriteFile { path, contents }, EventView::Done(r)) => {
            &&& after.dirs == before.dirs
            &&& same_but(before, after, set![path])
            &&& r is Ok ==> after.read(path) == Some(contents)
        },
        (ActionView::RemoveFile { path }, EventView::Done(r)) => {
            &&& after.dirs == before.dirs
            &&& same_but(before, after, set![path])
            &&& r is Ok ==> after.read(path) is None
            &&& r is Err ==> after == before
        },
        (ActionView::ReadMetadata { path }, EventView::Metadata(r)) => {
            &&& after == before
            &&& r matches Ok(metadata) ==> before.holds(path)
            &&& r matches Ok(metadata) ==> (before.read(path) matches Some(contents)
                ==> metadata.len == contents.len())
        },
        (ActionView::OpenDir { path }, EventView::Done(r)) => {
            &&& after.files == before.files
            &&& after.dirs == before.dirs
            &&& r is Ok ==> before.dirs.contains(path) && after.untold == before.entries(path)
        },
        (ActionView::NextEntry, EventView::Entry(r)) => {
            &&& after.files == before.files
            &&& after.dirs == before.dirs
            &&& match r {
                Ok(Some(path)) => {
                    &&& before.untold.contains(path)
                    &&& after.untold == before.untold.remove(path)
                },
                Ok(None) => before.untold == Set::<Seq<u8>>::empty() && after == before,
                Err(_) => true,
            }
        },
        (ActionView::CheckIsFile { path }, EventView::Found(r)) => {
            &&& after == before
            &&& r matches Ok(is_file) ==> is_file == before.files.contains_key(path)
        },
        (ActionView::RunProgram { program, args }, EventView::Output(_)) => true,
        (ActionView::Fetch { url }, EventView::Status(_)) => after == before,
        (ActionView::ReadBody, EventView::Contents(_)) => after == before,
        _ => false,
    }
}

/// Whether an answer tells of a failure.
pub open spec fn is_failure(event: EventView) -> bool {
    match event {
        EventView::Found(r) => r is Err,
        EventView::Done(r) => r is Err,
        EventView::Time(_) => false,
        EventView::Contents(r) => r is Err,
        EventView::Metadata(r) => r is Err,
        EventView::Entry(r) => r is Err,
        EventView::Output(r) => r is Err,
        EventView::Status(r) => r is Err,
    }
}

/// Where a piece of work that starts with `first` stands once it was given `events`, each in
/// answer to what it last asked for.
pub open spec fn after<S, R>(
    first: Step<ActionView, S, R, ApiErrorView>,
    next: spec_fn(S, EventView) -> Step<ActionView, S, R, ApiErrorView>,
    events: Seq<EventView>,
) -> Step<ActionView, S, R, ApiErrorView>
    decreases events.len(),
{
    if events.len() == 0 {
        first
    } else {
        match after(first, next, events.drop_last()) {
            Step::Perform { action, state } => next(state, events.last()),
            end => end,
        }
    }
}

/// Whether `events` are answers to a piece of work, and true ones: those to its first operations,
/// of which the one at each place found the disk as `disks` has it at that place and left it as
/// `disks` has it at the place behind. In between, nothing else changes the disk.
pub open spec fn is_run<S, R>(
    first: Step<ActionView, S, R, ApiErrorView>,
    next: spec_fn(S, EventView) -> Step<ActionView, S, R, ApiErrorView>,
    events: Seq<EventView>,
    disks: Seq<Disk>,
) -> bool {
    &&& disks.len() == events.len() + 1
    &&& forall|i: int|
        0 <= i < events.len() ==> {
            let step = #[trigger] after(first, next, events.take(i));
            &&& step is Perform
            &&& truthful(disks[i], step->action, events[i], disks[i + 1])
        }
}

/// Whether no answer tells of a failure.
pub open spec fn no_failure(events: Seq<EventView>) -> bool {
    forall|i: int| 0 <= i < events.len() ==> !is_failure(#[trigger] events[i])
}

/// A piece of work that is given more answers goes on from where it stands.
pub proof fn lemma_after_more<S, R>(
    first: Step<ActionView, S, R, ApiErrorView>,
    next: spec_fn(S, EventView) -> Step<ActionView, S, R, ApiErrorView>,
    events: Seq<EventView>,
    more: Seq<EventView>,
)
    ensures
        after(first, next, events + more) == after(after(first, next, events), next, more),
    decreases more.len(),
{
    if more.len() == 0 {
        assert(events + more =~= events);
    } else {
        lemma_after_more(first, next, events, more.drop_last());
        assert((events + more).drop_last() =~= events + more.drop_last());
    }
}

/// What holds at the start of a run, and is kept by each true answer, holds at its end.
pub proof fn lemma_run_keeps<S, R>(
    first: Step<ActionView, S, R, ApiErrorView>,
    next: spec_fn(S, EventView) -> Step<ActionView, S, R, ApiErrorView>,
    events: Seq<EventView>,
    disks: Seq<Disk>,
    kept: spec_fn(Seq<EventView>, Step<ActionView, S, R, ApiErrorView>, Disk) -> bool,
)
    requires
        is_run(first, next, events, disks),
        kept(Seq::empty(), first, disks[0]),
        forall|
            so_far: Seq<EventView>,
            action: ActionView,
            state: S,
            before: Disk,
            event: EventView,
            after: Disk,
        |
            kept(so_far, Step::Perform { action, state }, before) && #[trigger] truthful(
                before,
                action,
                event,
                after,
            ) ==> #[trigger] kept(so_far.push(event), next(state, event), after),
    ensures
        kept(events, after(first, next, events), disks.last()),
    decreases events.len(),
{
    if events.len() == 0 {
        assert(events =~= Seq::empty());
    } else {
        let n = events.len() - 1;
        let fewer = events.drop_last();
        assert(fewer =~= events.take(n));
        assert forall|i: int| 0 <= i < fewer.len() implies {
            let step = #[trigger] after(first, next, fewer.take(i));
            &&& step is Perform
            &&& truthful(disks.drop_last()[i], step->action, fewer[i], disks.drop_last()[i + 1])
        } by {
            assert(fewer.take(i) =~= events.take(i));
            assert(after(first, next, events.take(i)) is Perform);
        }
        lemma_run_keeps(first, next, fewer, disks.drop_last(), kept);
        let step = after(first, next, events.take(n));
        assert(step is Perform);
        assert(truthful(disks[n], step->action, events[n], disks[n + 1]));
        assert(kept(fewer, Step::Perform { action: step->action, state: step->state }, disks[n]));
        assert(kept(fewer.push(events[n]), next(step->state, events[n]), disks[n + 1]));
        assert(fewer.push(events[n]) =~= events);
    }
}

} // verus!
