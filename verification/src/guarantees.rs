//! What holds of every step of a batch, whatever the directories hold and
//! whatever the catalog answers.

use vstd::prelude::*;
use crate::batch::{entries_of, ActionView, BatchView, DirItemView, EventView, NoticeView, PhaseView};
use crate::entry::{is_blocked_extension, EntryView};
use crate::lookup::{lemma_url_shape, page_url_of, url_prefix, url_suffix};
use crate::pipeline::{is_success, named, FetchCauseView, PipelineErrorView, ResponseView};
use crate::scan::{is_ordered, lemma_selected, lemma_sorted_by_name, planned, sorted_by_name};
use crate::work::{classified, uppercase, WorkType};

verus! {

/// An entry whose extension is that of a download in progress is never a
/// candidate, whatever its stem; a directory is never a candidate where
/// only files are asked for; and every candidate has a stem of a known
/// format.
pub proof fn lemma_candidate_rules(entry: EntryView, file_only: bool)
    ensures
        is_blocked_extension(entry.extension()) ==> !entry.is_candidate(file_only),
        entry.is_dir ==> !entry.is_candidate(true),
        entry.is_candidate(file_only) ==> classified(uppercase(entry.stem())) is Some,
{
}

/// The plan of a directory is ordered by name and holds exactly the
/// candidates among its entries: none with the extension of a download in
/// progress, and no directory where only files are asked for.
pub proof fn lemma_plan_rules(entries: Seq<EntryView>, file_only: bool)
    ensures
        is_ordered(planned(entries, file_only)),
        forall|i: int|
            0 <= i < planned(entries, file_only).len() ==> {
                let e = #[trigger] planned(entries, file_only)[i];
                &&& e.is_candidate(file_only)
                &&& entries.contains(e)
                &&& !is_blocked_extension(e.extension())
                &&& file_only ==> !e.is_dir
            },
        forall|k: int|
            0 <= k < entries.len() && (#[trigger] entries[k]).is_candidate(file_only) ==> planned(
                entries,
                file_only,
            ).contains(entries[k]),
{
    let ordered = sorted_by_name(entries);
    let plan = planned(entries, file_only);
    lemma_sorted_by_name(entries);
    lemma_selected(ordered, file_only);
    ordered.to_multiset_ensures();
    entries.to_multiset_ensures();
    assert forall|i: int| 0 <= i < plan.len() implies {
        let e = #[trigger] plan[i];
        &&& e.is_candidate(file_only)
        &&& entries.contains(e)
        &&& !is_blocked_extension(e.extension())
        &&& file_only ==> !e.is_dir
    } by {
        let e = plan[i];
        assert(ordered.contains(e));
        assert(ordered.to_multiset().count(e) > 0);
    }
    assert forall|k: int|
        0 <= k < entries.len() && (#[trigger] entries[k]).is_candidate(file_only) implies plan.contains(
        entries[k],
    ) by {
        let e = entries[k];
        assert(entries.contains(e));
        assert(entries.to_multiset().count(e) > 0);
        assert(ordered.contains(e));
        let j = choose|j: int| 0 <= j < ordered.len() && ordered[j] == e;
        assert(ordered[j].is_candidate(file_only));
    }
}

/// Every step leads from a state that a batch can be in to another such
/// state, and leaves the list of directories, the separator and the mode
/// as they are.
pub proof fn lemma_step_keeps_wf(state: BatchView, event: EventView)
    requires
        state.wf(),
    ensures
        state.step(event).0.wf(),
        state.step(event).0.directories == state.directories,
        state.step(event).0.separator == state.separator,
        state.step(event).0.file_only == state.file_only,
        state.any_match ==> state.step(event).0.any_match,
{
    match (state.phase, event) {
        (PhaseView::Listing, EventView::Listed { items }) => {
            let entries = entries_of(state.dir(), items);
            lemma_plan_rules(entries, state.file_only);
            let plan = planned(entries, state.file_only);
            assert forall|i: int| 0 <= i < plan.len() implies (#[trigger] plan[i]).dir
                == state.dir() by {
                let k = choose|k: int| 0 <= k < entries.len() && entries[k] == plan[i];
                assert(entries[k].dir == state.dir());
            }
        },
        _ => {},
    }
}

/// Whatever a batch asks to be fetched or renamed is a candidate of the
/// directory that it is working on: an entry with a stem of a known
/// format, never a download in progress, and never a directory where only
/// files are asked for. A rename leaves the entry in its directory.
pub proof fn lemma_pending_item_is_candidate(state: BatchView)
    requires
        state.wf(),
        state.action() is Fetch || state.action() is Rename,
    ensures
        state.item().is_candidate(state.file_only),
        state.item().dir == state.dir(),
        classified(uppercase(state.item().stem())) is Some,
        !is_blocked_extension(state.item().extension()),
        state.file_only ==> !state.item().is_dir,
        state.action() matches ActionView::Rename { from, to } ==> from == state.dir()
            + state.separator + state.item().name && exists|file: Seq<char>|
            to == state.dir() + state.separator + file,
{
    match state.phase {
        PhaseView::Renaming { display } => {
            let file = crate::entry::renamed_file(display, state.item().extension());
            assert(state.action()->to == state.dir() + state.separator + file);
        },
        _ => {},
    }
}

/// Whether `event` answers the action that is pending in `state`.
pub open spec fn answers(state: BatchView, event: EventView) -> bool {
    match (state.phase, event) {
        (PhaseView::Listing, EventView::Listed { .. }) => true,
        (PhaseView::Listing, EventView::ListFailed { .. }) => true,
        (PhaseView::Fetching, EventView::Answered { .. }) => true,
        (PhaseView::Renaming { .. }, EventView::Renamed) => true,
        (PhaseView::Renaming { .. }, EventView::RenameFailed { .. }) => true,
        _ => false,
    }
}

/// How far a phase is in the work on one entry.
pub open spec fn phase_rank(phase: PhaseView) -> nat {
    match phase {
        PhaseView::Listing => 0,
        PhaseView::Fetching => 1,
        PhaseView::Renaming { .. } => 2,
        PhaseView::Finished => 3,
    }
}

/// `next` is further on than `state`: at a later directory, or at a later
/// entry of the same directory, or further in the work on the same entry.
pub open spec fn is_ahead(next: BatchView, state: BatchView) -> bool {
    ||| next.dir_index > state.dir_index
    ||| next.dir_index == state.dir_index && next.item_index > state.item_index
    ||| next.dir_index == state.dir_index && next.item_index == state.item_index && phase_rank(
        next.phase,
    ) > phase_rank(state.phase)
}

/// An event that answers the pending action moves the batch forward, and
/// never beyond the end of the list of directories; any other event is
/// ignored. So a batch ends after finitely many answers.
pub proof fn lemma_step_moves_forward(state: BatchView, event: EventView)
    requires
        state.wf(),
    ensures
        answers(state, event) ==> is_ahead(state.step(event).0, state),
        answers(state, event) ==> state.step(event).0.dir_index <= state.directories.len(),
        !answers(state, event) ==> state.step(event) == (state, Seq::<NoticeView>::empty()),
{
}

/// A directory that cannot be read is reported and passed over: the batch
/// goes on to the next directory, or ends where none is left, and what it
/// knows of earlier matches stays.
pub proof fn lemma_unreadable_directory_is_skipped(state: BatchView, cause: Seq<char>)
    requires
        state.wf(),
        state.phase is Listing,
    ensures
        ({
            let (next, notices) = state.step(EventView::ListFailed { cause });
            &&& notices == seq![NoticeView::DirectoryUnreadable { dir: state.dir(), cause }]
            &&& next.wf()
            &&& next.any_match == state.any_match
            &&& state.dir_index + 1 < state.directories.len() ==> next.action()
                == (ActionView::List { dir: state.directories[state.dir_index + 1int] })
            &&& state.dir_index + 1 >= state.directories.len() ==> next.action()
                == (ActionView::Finish { no_matches: !state.any_match })
        }),
{
}

/// A directory without entries is reported and passed over like one that
/// cannot be read; a directory without candidates is passed over in
/// silence.
pub proof fn lemma_directory_without_candidates_is_skipped(
    state: BatchView,
    items: Seq<DirItemView>,
)
    requires
        state.wf(),
        state.phase is Listing,
        planned(entries_of(state.dir(), items), state.file_only).len() == 0,
    ensures
        ({
            let (next, notices) = state.step(EventView::Listed { items });
            &&& next == state.next_directory()
            &&& next.any_match == state.any_match
            &&& items.len() == 0 ==> notices == seq![
                NoticeView::DirectoryEmpty { dir: state.dir() },
            ]
            &&& items.len() > 0 ==> notices.len() == 0
        }),
{
}

/// A directory with candidates is worked through in the order of their
/// names: the first request is for the first of them.
pub proof fn lemma_listing_starts_queue(state: BatchView, items: Seq<DirItemView>)
    requires
        state.wf(),
        state.phase is Listing,
        planned(entries_of(state.dir(), items), state.file_only).len() > 0,
    ensures
        ({
            let (next, notices) = state.step(EventView::Listed { items });
            let plan = planned(entries_of(state.dir(), items), state.file_only);
            &&& notices.len() == 0
            &&& next.queue == plan
            &&& is_ordered(next.queue)
            &&& next.any_match
            &&& next.action() == ActionView::Fetch { url: page_url_of(plan[0].stem()) }
        }),
{
    lemma_plan_rules(entries_of(state.dir(), items), state.file_only);
    sorted_by_name(entries_of(state.dir(), items)).to_multiset_ensures();
    lemma_sorted_by_name(entries_of(state.dir(), items));
}

/// The address that is requested for a candidate is the page address of
/// its work type, filled with its stem in upper case.
pub proof fn lemma_candidate_url(entry: EntryView, file_only: bool)
    requires
        entry.is_candidate(file_only),
    ensures
        exists|work: WorkType|
            classified(uppercase(entry.stem())) == Some(work) && page_url_of(entry.stem())
                == url_prefix(work) + uppercase(entry.stem()) + url_suffix(),
{
    let work = classified(uppercase(entry.stem()))->Some_0;
    lemma_url_shape(work, uppercase(entry.stem()));
}

/// An entry that gets no display name is reported, with its path, its
/// identifier, the error and the address of its page, and is not renamed:
/// the batch goes on to the next entry, or to the next directory.
pub proof fn lemma_failed_item_is_skipped(state: BatchView, response: ResponseView)
    requires
        state.wf(),
        state.phase is Fetching,
        named(state.item().stem(), response) is Err,
    ensures
        ({
            let (next, notices) = state.step(EventView::Answered { response });
            &&& notices == seq![
                NoticeView::ItemFailed {
                    path: state.item().path(state.separator),
                    id: state.item().stem(),
                    error: named(state.item().stem(), response)->Err_0,
                    url: page_url_of(state.item().stem()),
                },
            ]
            &&& next == state.next_item()
            &&& next.wf()
            &&& !(next.action() is Rename)
            &&& state.item_index + 1 < state.queue.len() ==> next.action() == ActionView::Fetch {
                url: page_url_of(state.queue[state.item_index + 1int].stem()),
            }
        }),
{
    lemma_step_keeps_wf(state, EventView::Answered { response });
}

/// A request that fails on its way, or is answered with a status that
/// reports no success, is a failed fetch that names the identifier and the
/// cause; the entry is passed over as the one before says.
pub proof fn lemma_failed_fetch_is_reported(state: BatchView, response: ResponseView)
    requires
        state.wf(),
        state.phase is Fetching,
        response is Failed || (response is Arrived && !is_success(response->status)),
    ensures
        named(state.item().stem(), response) == Err::<Seq<char>, PipelineErrorView>(
            PipelineErrorView::FetchFailed {
                id: state.item().stem(),
                cause: match response {
                    ResponseView::Failed { cause } => FetchCauseView::Transport(cause),
                    ResponseView::Arrived { status, .. } => FetchCauseView::Status(status),
                },
            },
        ),
        state.step(EventView::Answered { response }).0 == state.next_item(),
        !(state.step(EventView::Answered { response }).0.action() is Rename),
{
    lemma_failed_item_is_skipped(state, response);
}

/// A rename that fails is reported, with the path, the identifier, the
/// cause and the address of the page, and the batch goes on; a rename that
/// succeeds is reported with the new file name.
pub proof fn lemma_rename_is_reported(state: BatchView, cause: Seq<char>)
    requires
        state.wf(),
        state.phase is Renaming,
    ensures
        state.step(EventView::RenameFailed { cause }) == (
            state.next_item(),
            seq![
                NoticeView::RenameFailed {
                    path: state.item().path(state.separator),
                    id: state.item().stem(),
                    cause,
                    url: page_url_of(state.item().stem()),
                },
            ],
        ),
        state.step(EventView::Renamed).0 == state.next_item(),
        state.step(EventView::Renamed).1.len() == 1,
        state.action() matches ActionView::Rename { from, to } && from == state.item().path(
            state.separator,
        ) && to == state.item().target(state.phase->display, state.separator),
{
}

} // verus!
