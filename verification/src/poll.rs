//! One cycle of watching, step by step, and what follows a cycle.
//!
//! A cycle fetches the page, renders the new snapshot, reads the old one and
//! compares the two. Where they differ the operator is shown the difference
//! and decides. The fetching, the reading and writing of the file, the
//! printing and the keyboard are the caller's: the cycle is a state machine
//! that is handed what they gave and answers with what to do next.

use crate::chars::{chars_of, push_all, text_of};
use crate::confirmer::{
    announce, announcement, confirmed, decide_on, decision_on, Decision, KeyEvent,
    POLL_WAIT_MILLIS,
};
use crate::differ::{diff, script_between};
use crate::extractor::{decimal, decimal_of, extraction, gen_results_from_source, ExtractionError};
use crate::store::{
    loaded, loaded_text, saved, PersistenceError, ReadOutcome, ReadOutcomeView, WriteOutcome,
    SAVED_FILE,
};
use vstd::prelude::*;

verus! {

/// The address of the catalogue page.
pub const SOURCE_URL: &'static str =
    "https://www.microsoft.com/en-us/surface/devices/compare-devices";

/// The time between two cycles, in seconds.
pub const WAIT_TIME_SECONDS: u64 = 5 * 60;

/// What is reported where the new snapshot is the old one.
pub const SAME_REPORT: &'static str = "Results are the same.";

/// What is reported where the operator ignores the new snapshot.
pub const IGNORED_REPORT: &'static str = "Ignoring results and continuing.";

/// What is reported once the new snapshot is written.
pub const OVERWRITTEN_REPORT: &'static str = "Overwriting and continuing.";

/// Where to fetch, where to keep the snapshot and how long to rest.
#[derive(Debug, PartialEq, Eq)]
pub struct Config {
    pub source_url: String,
    pub saved_file: String,
    pub wait_time_seconds: u64,
}

impl Config {
    /// The catalogue page, the snapshot file and the rest of five minutes.
    pub fn standard() -> (c: Config)
        ensures
            c.source_url@ == SOURCE_URL@,
            c.saved_file@ == SAVED_FILE@,
            c.wait_time_seconds == WAIT_TIME_SECONDS,
    {
        Config {
            source_url: SOURCE_URL.to_owned(),
            saved_file: SAVED_FILE.to_owned(),
            wait_time_seconds: WAIT_TIME_SECONDS,
        }
    }
}

/// How a comparison of the two snapshots ended.
#[derive(Clone, Copy, Debug, PartialEq, Eq, Structural)]
pub enum ComparisonResult {
    IsSame,
    MustOverwrite,
    MustIgnore,
    MustQuit,
}

/// How a cycle ended.
#[derive(Clone, Copy, Debug, PartialEq, Eq, Structural)]
pub enum ReadResult {
    MustQuit,
    MustContinue,
}

/// Why a cycle broke off.
#[derive(Clone, Copy, Debug, PartialEq, Eq, Structural)]
pub enum CycleError {
    /// The page could not be fetched.
    Fetch,
    /// The page yields no snapshot.
    Extraction(ExtractionError),
    /// The snapshot file could not be read or written.
    Persistence(PersistenceError),
}

/// Where a cycle stands.
#[derive(Debug, PartialEq, Eq)]
pub enum CycleState {
    /// The page is being fetched.
    AwaitingPage,
    /// The old snapshot is being read; `fresh` is the new one.
    AwaitingSnapshot { fresh: String },
    /// The operator has been shown the difference and has not decided yet.
    AwaitingKey { fresh: String },
    /// The new snapshot is being written.
    AwaitingWrite { fresh: String },
    /// The cycle is over.
    Finished(ReadResult),
    /// The cycle broke off.
    Failed(CycleError),
}

/// What the caller hands in.
#[derive(Debug, PartialEq, Eq)]
pub enum CycleEvent {
    /// The text of the fetched page.
    Page(String),
    /// The page could not be fetched.
    FetchFailed,
    /// What reading the snapshot file gave.
    Snapshot(ReadOutcome),
    /// What the keyboard gave.
    Key(KeyEvent),
    /// What writing the snapshot file gave.
    Written(WriteOutcome),
}

/// What the caller is to do next.
#[derive(Debug, PartialEq, Eq)]
pub enum CycleAction {
    /// Fetch the page and hand in its text.
    Fetch,
    /// Read the snapshot file and hand in the outcome.
    Load,
    /// Print the text, then poll the keyboard and hand in what it gave.
    Prompt(String),
    /// Wait so many milliseconds, then poll the keyboard again.
    Wait(u64),
    /// Write the text to the snapshot file and hand in the outcome.
    Save(String),
    /// Print the line; the cycle is over.
    Report(String),
    /// Nothing; the cycle is over.
    Rest,
}

/// A state, as contracts see it.
pub enum CycleStateView {
    AwaitingPage,
    AwaitingSnapshot { fresh: Seq<char> },
    AwaitingKey { fresh: Seq<char> },
    AwaitingWrite { fresh: Seq<char> },
    Finished(ReadResult),
    Failed(CycleError),
}

/// An event, as contracts see it.
pub enum CycleEventView {
    Page(Seq<char>),
    FetchFailed,
    Snapshot(ReadOutcomeView),
    Key(KeyEvent),
    Written(WriteOutcome),
}

/// An action, as contracts see it.
pub enum CycleActionView {
    Fetch,
    Load,
    Prompt(Seq<char>),
    Wait(u64),
    Save(Seq<char>),
    Report(Seq<char>),
    Rest,
}

impl View for CycleState {
    type V = CycleStateView;

    open spec fn view(&self) -> CycleStateView {
        match self {
            CycleState::AwaitingPage => CycleStateView::AwaitingPage,
            CycleState::AwaitingSnapshot { fresh } => CycleStateView::AwaitingSnapshot {
                fresh: fresh@,
            },
            CycleState::AwaitingKey { fresh } => CycleStateView::AwaitingKey { fresh: fresh@ },
            CycleState::AwaitingWrite { fresh } => CycleStateView::AwaitingWrite { fresh: fresh@ },
            CycleState::Finished(result) => CycleStateView::Finished(*result),
            CycleState::Failed(error) => CycleStateView::Failed(*error),
        }
    }
}

impl View for CycleEvent {
    type V = CycleEventView;

    open spec fn view(&self) -> CycleEventView {
        match self {
            CycleEvent::Page(source) => CycleEventView::Page(source@),
            CycleEvent::FetchFailed => CycleEventView::FetchFailed,
            CycleEvent::Snapshot(outcome) => CycleEventView::Snapshot(outcome@),
            CycleEvent::Key(key) => CycleEventView::Key(*key),
            CycleEvent::Written(outcome) => CycleEventView::Written(*outcome),
        }
    }
}

impl View for CycleAction {
    type V = CycleActionView;

    open spec fn view(&self) -> CycleActionView {
        match self {
            CycleAction::Fetch => CycleActionView::Fetch,
            CycleAction::Load => CycleActionView::Load,
            CycleAction::Prompt(text) => CycleActionView::Prompt(text@),
            CycleAction::Wait(millis) => CycleActionView::Wait(*millis),
            CycleAction::Save(text) => CycleActionView::Save(text@),
            CycleAction::Report(line) => CycleActionView::Report(line@),
            CycleAction::Rest => CycleActionView::Rest,
        }
    }
}

/// What comparing the old snapshot with the new one shows the operator:
/// nothing where they are the same text, else the script between them.
pub open spec fn comparison(existing: Seq<char>, fresh: Seq<char>) -> Option<Seq<char>> {
    if existing == fresh {
        None
    } else {
        Some(announcement(script_between(existing, fresh)))
    }
}

/// How the comparison ends on a decision of the operator.
pub open spec fn resolution(decision: Decision) -> ComparisonResult {
    match decision {
        Decision::Overwrite => ComparisonResult::MustOverwrite,
        Decision::Ignore => ComparisonResult::MustIgnore,
        Decision::Quit => ComparisonResult::MustQuit,
    }
}

/// What follows the end of a comparison: the new snapshot is written only
/// where it must overwrite the old one.
pub open spec fn outcome_of(result: ComparisonResult, fresh: Seq<char>) -> (
    CycleStateView,
    CycleActionView,
) {
    match result {
        ComparisonResult::MustOverwrite => (
            CycleStateView::AwaitingWrite { fresh },
            CycleActionView::Save(fresh),
        ),
        ComparisonResult::MustIgnore => (
            CycleStateView::Finished(ReadResult::MustContinue),
            CycleActionView::Report(IGNORED_REPORT@),
        ),
        ComparisonResult::IsSame => (
            CycleStateView::Finished(ReadResult::MustContinue),
            CycleActionView::Report(SAME_REPORT@),
        ),
        ComparisonResult::MustQuit => (
            CycleStateView::Finished(ReadResult::MustQuit),
            CycleActionView::Rest,
        ),
    }
}

/// What a state waits for: the action that the caller still owes it.
pub open spec fn pending(state: CycleStateView) -> CycleActionView {
    match state {
        CycleStateView::AwaitingPage => CycleActionView::Fetch,
        CycleStateView::AwaitingSnapshot { fresh } => CycleActionView::Load,
        CycleStateView::AwaitingKey { fresh } => CycleActionView::Wait(POLL_WAIT_MILLIS),
        CycleStateView::AwaitingWrite { fresh } => CycleActionView::Save(fresh),
        CycleStateView::Finished(_) => CycleActionView::Rest,
        CycleStateView::Failed(_) => CycleActionView::Rest,
    }
}

/// The state and the action that follow an event. An event that the state
/// does not wait for changes nothing: the state stays, and the action is the
/// pending one.
pub open spec fn next(state: CycleStateView, event: CycleEventView) -> (
    CycleStateView,
    CycleActionView,
) {
    match (state, event) {
        (CycleStateView::AwaitingPage, CycleEventView::Page(source)) => match extraction(source) {
            Ok(fresh) => (CycleStateView::AwaitingSnapshot { fresh }, CycleActionView::Load),
            Err(e) => (CycleStateView::Failed(CycleError::Extraction(e)), CycleActionView::Rest),
        },
        (CycleStateView::AwaitingPage, CycleEventView::FetchFailed) => (
            CycleStateView::Failed(CycleError::Fetch),
            CycleActionView::Rest,
        ),
        (
            CycleStateView::AwaitingSnapshot { fresh },
            CycleEventView::Snapshot(outcome),
        ) => match loaded_text(outcome) {
            Ok(existing) => match comparison(existing, fresh) {
                None => outcome_of(ComparisonResult::IsSame, fresh),
                Some(shown) => (
                    CycleStateView::AwaitingKey { fresh },
                    CycleActionView::Prompt(shown),
                ),
            },
            Err(e) => (CycleStateView::Failed(CycleError::Persistence(e)), CycleActionView::Rest),
        },
        (CycleStateView::AwaitingKey { fresh }, CycleEventView::Key(key)) => match decision_on(
            key,
        ) {
            Some(decision) => outcome_of(resolution(decision), fresh),
            None => (CycleStateView::AwaitingKey { fresh }, CycleActionView::Wait(POLL_WAIT_MILLIS)),
        },
        (
            CycleStateView::AwaitingWrite { fresh },
            CycleEventView::Written(outcome),
        ) => match outcome {
            WriteOutcome::Written => (
                CycleStateView::Finished(ReadResult::MustContinue),
                CycleActionView::Report(OVERWRITTEN_REPORT@),
            ),
            WriteOutcome::Failed => (
                CycleStateView::Failed(CycleError::Persistence(PersistenceError::WriteFailed)),
                CycleActionView::Rest,
            ),
        },
        _ => (state, pending(state)),
    }
}

/// The state in which a cycle starts, and its first action.
pub fn start() -> (r: (CycleState, CycleAction))
    ensures
        r.0@ == CycleStateView::AwaitingPage,
        r.1@ == CycleActionView::Fetch,
{
    (CycleState::AwaitingPage, CycleAction::Fetch)
}

/// Compares the old snapshot with the new one. Where they are the same text,
/// to the last character, there is nothing to show; else the result is the
/// text to show the operator: the notice, the script between the two, the
/// prompt.
pub fn compare_results(existing_results: &str, new_results: &str) -> (r: Option<String>)
    ensures
        match r {
            Some(shown) => comparison(existing_results@, new_results@) == Some(shown@),
            None => comparison(existing_results@, new_results@) is None,
        },
{
    if existing_results.to_owned() == new_results.to_owned() {
        None
    } else {
        let script = diff(existing_results, new_results);
        Some(announce(&script))
    }
}

/// How the comparison ends on a decision of the operator.
pub fn resolve(decision: Decision) -> (r: ComparisonResult)
    ensures
        r == resolution(decision),
{
    match decision {
        Decision::Overwrite => ComparisonResult::MustOverwrite,
        Decision::Ignore => ComparisonResult::MustIgnore,
        Decision::Quit => ComparisonResult::MustQuit,
    }
}

/// What follows the end of a comparison.
pub fn act_on(result: ComparisonResult, fresh: String) -> (r: (CycleState, CycleAction))
    ensures
        (r.0@, r.1@) == outcome_of(result, fresh@),
{
    match result {
        ComparisonResult::MustOverwrite => {
            let text = fresh.clone();
            (CycleState::AwaitingWrite { fresh }, CycleAction::Save(text))
        },
        ComparisonResult::MustIgnore => (
            CycleState::Finished(ReadResult::MustContinue),
            CycleAction::Report(IGNORED_REPORT.to_owned()),
        ),
        ComparisonResult::IsSame => (
            CycleState::Finished(ReadResult::MustContinue),
            CycleAction::Report(SAME_REPORT.to_owned()),
        ),
        ComparisonResult::MustQuit => (CycleState::Finished(ReadResult::MustQuit), CycleAction::Rest),
    }
}

/// Takes one step of a cycle: from the state and what the caller hands in to
/// the next state and what the caller is to do.
pub fn step(state: CycleState, event: CycleEvent) -> (r: (CycleState, CycleAction))
    ensures
        (r.0@, r.1@) == next(state@, event@),
{
    match state {
        CycleState::AwaitingPage => match event {
            CycleEvent::Page(source) => match gen_results_from_source(source) {
                Ok(fresh) => (CycleState::AwaitingSnapshot { fresh }, CycleAction::Load),
                Err(e) => (CycleState::Failed(CycleError::Extraction(e)), CycleAction::Rest),
            },
            CycleEvent::FetchFailed => (CycleState::Failed(CycleError::Fetch), CycleAction::Rest),
            _ => (CycleState::AwaitingPage, CycleAction::Fetch),
        },
        CycleState::AwaitingSnapshot { fresh } => match event {
            CycleEvent::Snapshot(outcome) => match loaded(outcome) {
                Ok(existing) => match compare_results(existing.as_str(), fresh.as_str()) {
                    None => act_on(ComparisonResult::IsSame, fresh),
                    Some(shown) => (CycleState::AwaitingKey { fresh }, CycleAction::Prompt(shown)),
                },
                Err(e) => (CycleState::Failed(CycleError::Persistence(e)), CycleAction::Rest),
            },
            _ => (CycleState::AwaitingSnapshot { fresh }, CycleAction::Load),
        },
        CycleState::AwaitingKey { fresh } => match event {
            CycleEvent::Key(key) => match decide_on(key) {
                Some(decision) => act_on(resolve(decision), fresh),
                None => (CycleState::AwaitingKey { fresh }, CycleAction::Wait(POLL_WAIT_MILLIS)),
            },
            _ => (CycleState::AwaitingKey { fresh }, CycleAction::Wait(POLL_WAIT_MILLIS)),
        },
        CycleState::AwaitingWrite { fresh } => match event {
            CycleEvent::Written(outcome) => match saved(outcome) {
                Ok(_) => (
                    CycleState::Finished(ReadResult::MustContinue),
                    CycleAction::Report(OVERWRITTEN_REPORT.to_owned()),
                ),
                Err(e) => (CycleState::Failed(CycleError::Persistence(e)), CycleAction::Rest),
            },
            _ => {
                let text = fresh.clone();
                (CycleState::AwaitingWrite { fresh }, CycleAction::Save(text))
            },
        },
        CycleState::Finished(result) => (CycleState::Finished(result), CycleAction::Rest),
        CycleState::Failed(error) => (CycleState::Failed(error), CycleAction::Rest),
    }
}

/// The state that a run of events leads to, and the actions on the way, one
/// for each event.
pub open spec fn run(state: CycleStateView, events: Seq<CycleEventView>) -> (
    CycleStateView,
    Seq<CycleActionView>,
)
    decreases events.len(),
{
    if events.len() == 0 {
        (state, Seq::empty())
    } else {
        let before = run(state, events.drop_last());
        let last = next(before.0, events.last());
        (last.0, before.1.push(last.1))
    }
}

/// Whether a cycle is over in this state.
pub open spec fn is_over(state: CycleStateView) -> bool {
    state is Finished || state is Failed
}

/// Whether an action shows the operator anything to decide on, or writes
/// the file.
pub open spec fn asks_or_writes(action: CycleActionView) -> bool {
    action is Prompt || action is Wait || action is Save
}

/// A cycle that is over stays as it is, whatever is handed in, and asks for
/// nothing more.
pub proof fn over_is_over(state: CycleStateView, events: Seq<CycleEventView>)
    requires
        is_over(state),
    ensures
        run(state, events).0 == state,
        run(state, events).1.len() == events.len(),
        forall|i: int|
            0 <= i < events.len() ==> (#[trigger] run(state, events).1[i]) == CycleActionView::Rest,
    decreases events.len(),
{
    if events.len() > 0 {
        over_is_over(state, events.drop_last());
    }
}

/// A run of events, taken in two parts: the second part goes on from where
/// the first one ended.
pub proof fn run_in_two_parts(
    state: CycleStateView,
    first: Seq<CycleEventView>,
    second: Seq<CycleEventView>,
)
    ensures
        run(state, first + second).0 == run(run(state, first).0, second).0,
        run(state, first + second).1 == run(state, first).1 + run(run(state, first).0, second).1,
    decreases second.len(),
{
    if second.len() == 0 {
        assert(first + second =~= first);
        assert(run(state, first).1 + Seq::<CycleActionView>::empty() =~= run(state, first).1);
    } else {
        run_in_two_parts(state, first, second.drop_last());
        assert((first + second).drop_last() =~= first + second.drop_last());
        assert((first + second).last() == second.last());
        let middle = run(state, first).0;
        assert(run(state, first).1 + run(middle, second).1 =~= (run(state, first).1 + run(
            middle,
            second.drop_last(),
        ).1).push(next(run(middle, second.drop_last()).0, second.last()).1));
    }
}

/// Where the snapshot that is read is the new one, to the last character,
/// the cycle ends at once and goes on to the next: it reports that nothing
/// changed, and whatever is handed in after that, the operator is not asked
/// and the file is not written.
pub proof fn same_snapshot_is_left_alone(
    fresh: Seq<char>,
    outcome: ReadOutcomeView,
    later: Seq<CycleEventView>,
)
    requires
        loaded_text(outcome) == Ok::<Seq<char>, PersistenceError>(fresh),
    ensures
        ({
            let r = run(
                CycleStateView::AwaitingSnapshot { fresh },
                seq![CycleEventView::Snapshot(outcome)] + later,
            );
            &&& r.0 == CycleStateView::Finished(ReadResult::MustContinue)
            &&& r.1.len() == later.len() + 1
            &&& r.1[0] == CycleActionView::Report(SAME_REPORT@)
            &&& forall|i: int| 0 <= i < r.1.len() ==> !asks_or_writes(#[trigger] r.1[i])
        }),
{
    let state = CycleStateView::AwaitingSnapshot { fresh };
    let first = seq![CycleEventView::Snapshot(outcome)];
    assert(first.drop_last() =~= Seq::<CycleEventView>::empty());
    assert(run(state, first.drop_last()).0 == state);
    assert(run(state, first).1 =~= seq![CycleActionView::Report(SAME_REPORT@)]);
    run_in_two_parts(state, first, later);
    over_is_over(CycleStateView::Finished(ReadResult::MustContinue), later);
}

/// Where the operator quits, the cycle ends with the order to stop, and
/// whatever is handed in after that, the file is not written.
pub proof fn quit_leaves_the_file(fresh: Seq<char>, key: KeyEvent, later: Seq<CycleEventView>)
    requires
        decision_on(key) == Some(Decision::Quit),
    ensures
        ({
            let r = run(
                CycleStateView::AwaitingKey { fresh },
                seq![CycleEventView::Key(key)] + later,
            );
            &&& r.0 == CycleStateView::Finished(ReadResult::MustQuit)
            &&& forall|i: int| 0 <= i < r.1.len() ==> (#[trigger] r.1[i]) == CycleActionView::Rest
        }),
{
    let state = CycleStateView::AwaitingKey { fresh };
    let first = seq![CycleEventView::Key(key)];
    assert(first.drop_last() =~= Seq::<CycleEventView>::empty());
    assert(run(state, first.drop_last()).0 == state);
    assert(run(state, first).1 =~= seq![CycleActionView::Rest]);
    run_in_two_parts(state, first, later);
    over_is_over(CycleStateView::Finished(ReadResult::MustQuit), later);
}

/// The file is written in one case only: the operator was asked and chose to
/// overwrite, and what is written is the new snapshot. (A state that waits
/// for that write to end repeats the order.)
pub proof fn writes_follow_overwrite(state: CycleStateView, event: CycleEventView)
    ensures
        next(state, event).1 matches CycleActionView::Save(text) ==> {
            ||| {
                &&& state == (CycleStateView::AwaitingKey { fresh: text })
                &&& event matches CycleEventView::Key(key)
                &&& decision_on(key) == Some(Decision::Overwrite)
            }
            ||| state == (CycleStateView::AwaitingWrite { fresh: text })
        },
{
}

/// The operator is asked in one case only: the snapshot that was read is not
/// the new one.
pub proof fn prompts_follow_change(state: CycleStateView, event: CycleEventView)
    ensures
        next(state, event).1 matches CycleActionView::Prompt(shown) ==> {
            &&& state matches CycleStateView::AwaitingSnapshot { fresh }
            &&& event matches CycleEventView::Snapshot(outcome)
            &&& loaded_text(outcome) matches Ok(existing)
            &&& existing != fresh
            &&& shown == announcement(script_between(existing, fresh))
        },
{
}

/// The events of the keyboard, as events of a cycle.
pub open spec fn key_events(keys: Seq<KeyEvent>) -> Seq<CycleEventView> {
    keys.map_values(|key: KeyEvent| CycleEventView::Key(key))
}

/// A run of keys leads to no decision where none of the keys stands for one,
/// and only there.
pub proof fn undecided_keys(keys: Seq<KeyEvent>)
    ensures
        confirmed(keys) is None <==> forall|i: int|
            0 <= i < keys.len() ==> decision_on(#[trigger] keys[i]) is None,
    decreases keys.len(),
{
    if keys.len() > 0 {
        undecided_keys(keys.skip(1));
        if confirmed(keys) is None {
            assert forall|i: int| 0 <= i < keys.len() implies decision_on(
                #[trigger] keys[i],
            ) is None by {
                if i > 0 {
                    assert(keys.skip(1)[i - 1] == keys[i]);
                }
            }
        } else if decision_on(keys[0]) is None {
            let k = choose|k: int|
                0 <= k < keys.skip(1).len() && !(decision_on(#[trigger] keys.skip(1)[k]) is None);
            assert(keys[k + 1] == keys.skip(1)[k]);
        }
    }
}

/// While no key decides, the operator is waited for: the cycle stays where
/// it is, however many keys come, and each of them is answered with the
/// order to wait and poll again.
pub proof fn undecided_keys_keep_waiting(fresh: Seq<char>, keys: Seq<KeyEvent>)
    requires
        confirmed(keys) is None,
    ensures
        ({
            let r = run(CycleStateView::AwaitingKey { fresh }, key_events(keys));
            &&& r.0 == CycleStateView::AwaitingKey { fresh }
            &&& r.1.len() == keys.len()
            &&& forall|i: int|
                0 <= i < keys.len() ==> (#[trigger] r.1[i]) == CycleActionView::Wait(
                    POLL_WAIT_MILLIS,
                )
        }),
    decreases keys.len(),
{
    if keys.len() > 0 {
        undecided_keys(keys);
        undecided_keys(keys.drop_last());
        undecided_keys_keep_waiting(fresh, keys.drop_last());
        assert(key_events(keys).drop_last() =~= key_events(keys.drop_last()));
        assert(key_events(keys).last() == CycleEventView::Key(keys.last()));
        assert(decision_on(keys[keys.len() - 1]) is None);
    }
}

/// The first key that decides ends the wait: what follows is settled by
/// that key, and by none of the keys before it.
pub proof fn first_deciding_key_ends_the_wait(
    fresh: Seq<char>,
    keys: Seq<KeyEvent>,
    key: KeyEvent,
)
    requires
        confirmed(keys) is None,
        decision_on(key) is Some,
    ensures
        ({
            let r = run(CycleStateView::AwaitingKey { fresh }, key_events(keys.push(key)));
            let end = outcome_of(resolution(decision_on(key)->0), fresh);
            r.0 == end.0 && r.1.last() == end.1
        }),
{
    undecided_keys_keep_waiting(fresh, keys);
    assert(key_events(keys.push(key)).drop_last() =~= key_events(keys));
    assert(key_events(keys.push(key)).last() == CycleEventView::Key(key));
}

/// The text of the snapshot file once the caller has carried out the
/// actions: each order to save puts its text in place of what was there.
pub open spec fn file_after(file: Seq<char>, actions: Seq<CycleActionView>) -> Seq<char>
    decreases actions.len(),
{
    if actions.len() == 0 {
        file
    } else {
        match actions.last() {
            CycleActionView::Save(text) => text,
            _ => file_after(file, actions.drop_last()),
        }
    }
}

/// What is saved is what is read next: once the caller has written the text
/// that it was told to save, and reads the file again, the snapshot that the
/// read stands for is that text, character for character.
pub proof fn saved_text_is_read_again(file: Seq<char>, text: Seq<char>)
    ensures
        loaded_text(ReadOutcomeView::Text(file_after(file, seq![CycleActionView::Save(text)])))
            == Ok::<Seq<char>, PersistenceError>(text),
{
    assert(seq![CycleActionView::Save(text)].last() == CycleActionView::Save(text));
}

/// The new snapshot that a state holds.
pub open spec fn held(state: CycleStateView) -> Option<Seq<char>> {
    match state {
        CycleStateView::AwaitingSnapshot { fresh } => Some(fresh),
        CycleStateView::AwaitingKey { fresh } => Some(fresh),
        CycleStateView::AwaitingWrite { fresh } => Some(fresh),
        _ => None,
    }
}

/// Whether an event hands in a page that yields this snapshot.
pub open spec fn yields(event: CycleEventView, snapshot: Seq<char>) -> bool {
    event matches CycleEventView::Page(source) && extraction(source) == Ok::<
        Seq<char>,
        ExtractionError,
    >(snapshot)
}

/// Whether a page that yields this snapshot is among the events.
pub open spec fn fetched(events: Seq<CycleEventView>, snapshot: Seq<char>) -> bool {
    exists|i: int| 0 <= i < events.len() && yields(#[trigger] events[i], snapshot)
}

/// Whatever is handed in during a cycle, the snapshot file ends as it was, or
/// holds the snapshot of a page that was fetched in this cycle.
pub proof fn file_holds_what_was_accepted(file: Seq<char>, events: Seq<CycleEventView>)
    ensures
        ({
            let r = run(CycleStateView::AwaitingPage, events);
            &&& held(r.0) matches Some(fresh) ==> fetched(events, fresh)
            &&& file_after(file, r.1) == file || fetched(events, file_after(file, r.1))
        }),
    decreases events.len(),
{
    if events.len() > 0 {
        let before = events.drop_last();
        file_holds_what_was_accepted(file, before);
        let r = run(CycleStateView::AwaitingPage, before);
        let last = next(r.0, events.last());
        assert(r.1.push(last.1).drop_last() =~= r.1);
        assert forall|text: Seq<char>| fetched(before, text) implies fetched(events, text) by {
            let i = choose|i: int| 0 <= i < before.len() && yields(#[trigger] before[i], text);
            assert(events[i] == before[i]);
        }
        if held(last.0) is Some && held(r.0) != held(last.0) {
            assert(yields(events[events.len() - 1], held(last.0)->0));
        }
    }
}

/// While the new snapshot is the one that is read, the file stays as it is.
pub proof fn same_snapshot_keeps_the_file(
    file: Seq<char>,
    fresh: Seq<char>,
    outcome: ReadOutcomeView,
    later: Seq<CycleEventView>,
)
    requires
        loaded_text(outcome) == Ok::<Seq<char>, PersistenceError>(fresh),
    ensures
        file_after(
            file,
            run(
                CycleStateView::AwaitingSnapshot { fresh },
                seq![CycleEventView::Snapshot(outcome)] + later,
            ).1,
        ) == file,
{
    same_snapshot_is_left_alone(fresh, outcome, later);
    let actions = run(
        CycleStateView::AwaitingSnapshot { fresh },
        seq![CycleEventView::Snapshot(outcome)] + later,
    ).1;
    file_without_saves(file, actions);
}

/// Actions without an order to save leave the file as it is.
pub proof fn file_without_saves(file: Seq<char>, actions: Seq<CycleActionView>)
    requires
        forall|i: int| 0 <= i < actions.len() ==> !((#[trigger] actions[i]) is Save),
    ensures
        file_after(file, actions) == file,
    decreases actions.len(),
{
    if actions.len() > 0 {
        file_without_saves(file, actions.drop_last());
    }
}

/// What follows a cycle.
#[derive(Debug, PartialEq, Eq)]
pub enum DriverStep {
    /// Leave, with this exit status.
    Exit { status: i32 },
    /// Print the report, rest for so many seconds, and start the next cycle
    /// with this count.
    Sleep { count: u64, report: String, seconds: u64 },
}

/// The line that reports how many cycles have run and how long the rest is.
pub open spec fn attempts_report(count: nat, seconds: nat) -> Seq<char> {
    "Attempted "@ + decimal(count) + " times; waiting "@ + decimal(seconds)
        + " seconds until next request."@
}

/// Decides what follows a cycle: after an order to quit the program leaves
/// with status 0; else the count of cycles goes up by one and the program
/// rests before the next.
pub fn after_cycle(count: u64, result: ReadResult, wait_seconds: u64) -> (r: DriverStep)
    requires
        count < u64::MAX,
    ensures
        match result {
            ReadResult::MustQuit => r matches DriverStep::Exit { status } && status == 0,
            ReadResult::MustContinue => r matches DriverStep::Sleep { count: c, report, seconds }
                && c == count + 1 && report@ == attempts_report((count + 1) as nat, wait_seconds as nat)
                && seconds == wait_seconds,
        },
{
    match result {
        ReadResult::MustQuit => DriverStep::Exit { status: 0 },
        ReadResult::MustContinue => {
            let mut out: Vec<char> = Vec::new();
            push_all(&mut out, chars_of("Attempted ").as_slice());
            push_all(&mut out, decimal_of(count + 1).as_slice());
            push_all(&mut out, chars_of(" times; waiting ").as_slice());
            push_all(&mut out, decimal_of(wait_seconds).as_slice());
            push_all(&mut out, chars_of(" seconds until next request.").as_slice());
            assert(out@ =~= attempts_report((count + 1) as nat, wait_seconds as nat));
            DriverStep::Sleep { count: count + 1, report: text_of(out.as_slice()), seconds: wait_seconds }
        },
    }
}

} // verus!
