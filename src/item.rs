use vstd::prelude::*;
use crate::errors::{FetchError, MergeError};

verus! {

/// Where the work on one item stands.
#[derive(Debug, Clone, Copy, PartialEq, Eq)]
pub enum ItemState {
    Start,
    FetchingVideo,
    FetchingAudio,
    /// Fetching the single stream that holds both tracks.
    FetchingCombined,
    Merging,
    Done,
    Failed,
}

/// What happened since the last step.
#[derive(Debug, Clone, Copy, PartialEq, Eq)]
pub enum ItemEvent {
    /// The item is taken up; `output_exists` tells whether its final file is
    /// already on disk, `combined` whether it comes as one stream.
    Begin { output_exists: bool, combined: bool },
    Fetched,
    FetchFailed,
    Merged,
    MergeFailed,
}

/// What the caller is to do next.
#[derive(Debug, Clone, Copy, PartialEq, Eq)]
pub enum ItemAction {
    /// Leave the item alone: its final file is already there.
    Skip,
    FetchVideo,
    FetchAudio,
    FetchCombined,
    Merge,
    /// Delete both staging files; a failure to delete is of no consequence.
    RemoveStaging,
    /// Stop: the item, and the batch it belongs to, failed.
    Abort,
    Nothing,
}

/// One step of the work on an item.
pub open spec fn item_step_spec(state: ItemState, event: ItemEvent) -> (ItemState, ItemAction) {
    match (state, event) {
        (ItemState::Start, ItemEvent::Begin { output_exists, combined }) => if output_exists {
            (ItemState::Done, ItemAction::Skip)
        } else if combined {
            (ItemState::FetchingCombined, ItemAction::FetchCombined)
        } else {
            (ItemState::FetchingVideo, ItemAction::FetchVideo)
        },
        (ItemState::FetchingVideo, ItemEvent::Fetched) => (
            ItemState::FetchingAudio,
            ItemAction::FetchAudio,
        ),
        (ItemState::FetchingAudio, ItemEvent::Fetched) => (ItemState::Merging, ItemAction::Merge),
        (ItemState::FetchingCombined, ItemEvent::Fetched) => (ItemState::Done, ItemAction::Nothing),
        (ItemState::FetchingVideo, ItemEvent::FetchFailed) => (ItemState::Failed, ItemAction::Abort),
        (ItemState::FetchingAudio, ItemEvent::FetchFailed) => (ItemState::Failed, ItemAction::Abort),
        (ItemState::FetchingCombined, ItemEvent::FetchFailed) => (
            ItemState::Failed,
            ItemAction::Abort,
        ),
        (ItemState::Merging, ItemEvent::Merged) => (ItemState::Done, ItemAction::RemoveStaging),
        (ItemState::Merging, ItemEvent::MergeFailed) => (ItemState::Failed, ItemAction::Abort),
        _ => (state, ItemAction::Nothing),
    }
}

/// One step of the work on an item: from where it stands and what just
/// happened, where it stands next and what to do.
pub fn item_step(state: ItemState, event: ItemEvent) -> (r: (ItemState, ItemAction))
    ensures
        r == item_step_spec(state, event),
{
    match (state, event) {
        (ItemState::Start, ItemEvent::Begin { output_exists, combined }) => if output_exists {
            (ItemState::Done, ItemAction::Skip)
        } else if combined {
            (ItemState::FetchingCombined, ItemAction::FetchCombined)
        } else {
            (ItemState::FetchingVideo, ItemAction::FetchVideo)
        },
        (ItemState::FetchingVideo, ItemEvent::Fetched) => (
            ItemState::FetchingAudio,
            ItemAction::FetchAudio,
        ),
        (ItemState::FetchingAudio, ItemEvent::Fetched) => (ItemState::Merging, ItemAction::Merge),
        (ItemState::FetchingCombined, ItemEvent::Fetched) => (ItemState::Done, ItemAction::Nothing),
        (ItemState::FetchingVideo, ItemEvent::FetchFailed) => (ItemState::Failed, ItemAction::Abort),
        (ItemState::FetchingAudio, ItemEvent::FetchFailed) => (ItemState::Failed, ItemAction::Abort),
        (ItemState::FetchingCombined, ItemEvent::FetchFailed) => (
            ItemState::Failed,
            ItemAction::Abort,
        ),
        (ItemState::Merging, ItemEvent::Merged) => (ItemState::Done, ItemAction::RemoveStaging),
        (ItemState::Merging, ItemEvent::MergeFailed) => (ItemState::Failed, ItemAction::Abort),
        _ => (state, ItemAction::Nothing),
    }
}

/// The actions that the events `events` call for, from `state` on.
pub open spec fn run_from(state: ItemState, events: Seq<ItemEvent>) -> Seq<ItemAction>
    decreases events.len(),
{
    if events.len() == 0 {
        Seq::empty()
    } else {
        let (next, action) = item_step_spec(state, events[0]);
        seq![action] + run_from(next, events.skip(1))
    }
}

/// Whether an action touches the network or the mux tool.
pub open spec fn is_work(a: ItemAction) -> bool {
    a == ItemAction::FetchVideo || a == ItemAction::FetchAudio || a == ItemAction::FetchCombined
        || a == ItemAction::Merge
}

/// An item that is done or has failed calls for nothing more.
pub proof fn lemma_finished_is_inert(state: ItemState, events: Seq<ItemEvent>)
    requires
        state == ItemState::Done || state == ItemState::Failed,
    ensures
        forall|k: int| 0 <= k < run_from(state, events).len() ==> #[trigger] run_from(state, events)[k]
            == ItemAction::Nothing,
        run_from(state, events).len() == events.len(),
    decreases events.len(),
{
    if events.len() > 0 {
        lemma_finished_is_inert(state, events.skip(1));
        let r = run_from(state, events);
        assert forall|k: int| 0 <= k < r.len() implies #[trigger] r[k] == ItemAction::Nothing by {
            if k > 0 {
                assert(r[k] == run_from(state, events.skip(1))[k - 1]);
            }
        }
    }
}

/// An item whose final file already exists is skipped: whatever happens
/// after, no track is fetched and nothing is merged for it.
pub proof fn lemma_skip_if_exists(combined: bool, later: Seq<ItemEvent>)
    ensures
        ({
            let events = seq![ItemEvent::Begin { output_exists: true, combined }] + later;
            let actions = run_from(ItemState::Start, events);
            &&& actions[0] == ItemAction::Skip
            &&& forall|k: int| 0 <= k < actions.len() ==> !is_work(#[trigger] actions[k])
        }),
{
    let events = seq![ItemEvent::Begin { output_exists: true, combined }] + later;
    assert(events.skip(1) =~= later);
    lemma_finished_is_inert(ItemState::Done, later);
    let actions = run_from(ItemState::Start, events);
    assert forall|k: int| 0 <= k < actions.len() implies !is_work(#[trigger] actions[k]) by {
        if k > 0 {
            assert(actions[k] == run_from(ItemState::Done, later)[k - 1]);
        }
    }
}

/// A merge that succeeds is followed by the removal of both staging files;
/// after one that fails they are never removed.
pub proof fn lemma_merge_cleanup(later: Seq<ItemEvent>)
    ensures
        run_from(ItemState::Merging, seq![ItemEvent::Merged] + later)[0]
            == ItemAction::RemoveStaging,
        forall|k: int|
            0 <= k < run_from(ItemState::Merging, seq![ItemEvent::MergeFailed] + later).len()
                ==> #[trigger] run_from(ItemState::Merging, seq![ItemEvent::MergeFailed] + later)[k]
                != ItemAction::RemoveStaging,
{
    let failed = seq![ItemEvent::MergeFailed] + later;
    assert(failed.skip(1) =~= later);
    lemma_finished_is_inert(ItemState::Failed, later);
    let actions = run_from(ItemState::Merging, failed);
    assert forall|k: int| 0 <= k < actions.len() implies #[trigger] actions[k]
        != ItemAction::RemoveStaging by {
        if k > 0 {
            assert(actions[k] == run_from(ItemState::Failed, later)[k - 1]);
        }
    }
}

/// The event that a fetch's outcome makes: a staging file that was already
/// whole counts as fetched.
pub fn fetch_event(outcome: Result<(), FetchError>) -> (r: ItemEvent)
    ensures
        r == (match outcome {
            Ok(()) => ItemEvent::Fetched,
            Err(FetchError::AlreadyComplete) => ItemEvent::Fetched,
            Err(_) => ItemEvent::FetchFailed,
        }),
{
    match outcome {
        Ok(()) => ItemEvent::Fetched,
        Err(FetchError::AlreadyComplete) => ItemEvent::Fetched,
        Err(_) => ItemEvent::FetchFailed,
    }
}

/// The outcome of a run of the mux tool: it could not be started, it ended
/// with a status other than zero (or none, when a signal stopped it), or it
/// left an empty output; else the merge succeeded.
pub fn merge_outcome(started: bool, exit_code: Option<i32>, output_len: u64) -> (r: Result<
    (),
    MergeError,
>)
    ensures
        !started ==> r == Err::<(), MergeError>(MergeError::ToolMissing),
        started && exit_code != Some(0i32) ==> r == Err::<(), MergeError>(
            MergeError::ToolFailed(exit_code),
        ),
        started && exit_code == Some(0i32) && output_len == 0 ==> r == Err::<(), MergeError>(
            MergeError::ToolFailed(exit_code),
        ),
        started && exit_code == Some(0i32) && output_len > 0 ==> r == Ok::<(), MergeError>(()),
{
    if !started {
        Err(MergeError::ToolMissing)
    } else if exit_code != Some(0i32) || output_len == 0 {
        Err(MergeError::ToolFailed(exit_code))
    } else {
        Ok(())
    }
}

/// The event that a merge's outcome makes.
pub fn merge_event(outcome: Result<(), MergeError>) -> (r: ItemEvent)
    ensures
        outcome is Ok ==> r == ItemEvent::Merged,
        outcome is Err ==> r == ItemEvent::MergeFailed,
{
    match outcome {
        Ok(()) => ItemEvent::Merged,
        Err(_) => ItemEvent::MergeFailed,
    }
}

} // verus!
