use catalog_watch::confirmer::{Decision, KeyEvent};
use catalog_watch::extractor::ExtractionError;
use catalog_watch::poll::{
    act_on, after_cycle, compare_results, resolve, start, step, ComparisonResult, Config,
    CycleAction, CycleError, CycleEvent, CycleState, DriverStep, ReadResult, SOURCE_URL,
    WAIT_TIME_SECONDS,
};
use catalog_watch::store::{PersistenceError, ReadOutcome, WriteOutcome};

const LINE: &str = "[2023] Pro 9 - $0 - http://x/pro9\n";

fn page_with_one_record() -> String {
    let payload = "{\"Devices\":[{\"Product\":{\"SkuID\":\"A1\",\"DeviceDetails\":{\
        \"DeviceName\":\"Pro 9\",\"ShopNowCTA\":{\"Url\":\"http://x/pro9\"},\
        \"Sortfilters\":{\"year\":\"2023X\"}}}}]}";
    format!(
        "<html><div class=\"d-none\" id=\"ConsumerData\" data-json=\"{}\"></div></html>",
        payload.replace('"', "&quot;")
    )
}

fn shown_for_one_new_line() -> String {
    format!(
        "New results detected!\n\u{1b}[38;5;2m+{}\u{1b}[39m(O)verwrite, (I)gnore, (Q)uit?\n",
        LINE
    )
}

fn awaiting_key() -> CycleState {
    CycleState::AwaitingKey { fresh: String::from(LINE) }
}

/// The file as the caller would keep it: it changes only on `Save`.
fn drive(events: Vec<CycleEvent>, file: &mut Option<String>) -> (CycleState, Vec<CycleAction>) {
    let (mut state, first) = start();
    let mut actions = vec![first];
    for event in events {
        let (next, action) = step(state, event);
        if let CycleAction::Save(text) = &action {
            *file = Some(text.clone());
        }
        state = next;
        actions.push(action);
    }
    (state, actions)
}

#[test]
fn cycle_starts_by_fetching() {
    assert_eq!(start(), (CycleState::AwaitingPage, CycleAction::Fetch));
}

#[test]
fn new_record_is_shown_and_written_on_overwrite() {
    let mut file = None;
    let (state, actions) = drive(
        vec![
            CycleEvent::Page(page_with_one_record()),
            CycleEvent::Snapshot(ReadOutcome::Missing),
            CycleEvent::Key(KeyEvent::Nothing),
            CycleEvent::Key(KeyEvent::Char('o')),
            CycleEvent::Written(WriteOutcome::Written),
        ],
        &mut file,
    );
    assert_eq!(
        actions,
        vec![
            CycleAction::Fetch,
            CycleAction::Load,
            CycleAction::Prompt(shown_for_one_new_line()),
            CycleAction::Wait(50),
            CycleAction::Save(String::from(LINE)),
            CycleAction::Report(String::from("Overwriting and continuing.")),
        ]
    );
    assert_eq!(state, CycleState::Finished(ReadResult::MustContinue));
    assert_eq!(file, Some(String::from(LINE)));
}

#[test]
fn unchanged_snapshot_is_reported_and_left_alone() {
    let mut file = Some(String::from(LINE));
    let (state, actions) = drive(
        vec![
            CycleEvent::Page(page_with_one_record()),
            CycleEvent::Snapshot(ReadOutcome::Text(String::from(LINE))),
        ],
        &mut file,
    );
    assert_eq!(
        actions,
        vec![
            CycleAction::Fetch,
            CycleAction::Load,
            CycleAction::Report(String::from("Results are the same.")),
        ]
    );
    assert_eq!(state, CycleState::Finished(ReadResult::MustContinue));
    assert_eq!(file, Some(String::from(LINE)));
}

#[test]
fn quit_stops_and_leaves_the_file() {
    let mut file = Some(String::from("[2019] Old - $0 - http://x/old\n"));
    let (state, actions) = drive(
        vec![
            CycleEvent::Page(page_with_one_record()),
            CycleEvent::Snapshot(ReadOutcome::Text(String::from("[2019] Old - $0 - http://x/old\n"))),
            CycleEvent::Key(KeyEvent::Char('q')),
        ],
        &mut file,
    );
    assert_eq!(state, CycleState::Finished(ReadResult::MustQuit));
    assert_eq!(actions.last(), Some(&CycleAction::Rest));
    assert!(matches!(actions[2], CycleAction::Prompt(_)));
    assert_eq!(file, Some(String::from("[2019] Old - $0 - http://x/old\n")));
    assert_eq!(after_cycle(3, ReadResult::MustQuit, WAIT_TIME_SECONDS), DriverStep::Exit { status: 0 });
}

#[test]
fn ignore_goes_on_without_writing() {
    let (state, action) = step(awaiting_key(), CycleEvent::Key(KeyEvent::Char('I')));
    assert_eq!(state, CycleState::Finished(ReadResult::MustContinue));
    assert_eq!(action, CycleAction::Report(String::from("Ignoring results and continuing.")));
}

#[test]
fn other_keys_wait_and_poll_again() {
    for key in [KeyEvent::Nothing, KeyEvent::Other, KeyEvent::Char('x'), KeyEvent::Char('\n')] {
        assert_eq!(step(awaiting_key(), CycleEvent::Key(key)), (awaiting_key(), CycleAction::Wait(50)));
    }
}

#[test]
fn capital_keys_decide_too() {
    let (state, action) = step(awaiting_key(), CycleEvent::Key(KeyEvent::Char('O')));
    assert_eq!(state, CycleState::AwaitingWrite { fresh: String::from(LINE) });
    assert_eq!(action, CycleAction::Save(String::from(LINE)));
    let (state, action) = step(awaiting_key(), CycleEvent::Key(KeyEvent::Char('Q')));
    assert_eq!(state, CycleState::Finished(ReadResult::MustQuit));
    assert_eq!(action, CycleAction::Rest);
}

#[test]
fn failed_fetch_breaks_the_cycle_off() {
    assert_eq!(
        step(CycleState::AwaitingPage, CycleEvent::FetchFailed),
        (CycleState::Failed(CycleError::Fetch), CycleAction::Rest)
    );
}

#[test]
fn page_without_data_breaks_the_cycle_off() {
    assert_eq!(
        step(CycleState::AwaitingPage, CycleEvent::Page(String::from("<html></html>"))),
        (
            CycleState::Failed(CycleError::Extraction(ExtractionError::NoEmbeddedData)),
            CycleAction::Rest
        )
    );
}

#[test]
fn failed_read_breaks_the_cycle_off() {
    assert_eq!(
        step(
            CycleState::AwaitingSnapshot { fresh: String::from(LINE) },
            CycleEvent::Snapshot(ReadOutcome::Failed)
        ),
        (
            CycleState::Failed(CycleError::Persistence(PersistenceError::ReadFailed)),
            CycleAction::Rest
        )
    );
}

#[test]
fn failed_write_breaks_the_cycle_off() {
    assert_eq!(
        step(
            CycleState::AwaitingWrite { fresh: String::from(LINE) },
            CycleEvent::Written(WriteOutcome::Failed)
        ),
        (
            CycleState::Failed(CycleError::Persistence(PersistenceError::WriteFailed)),
            CycleAction::Rest
        )
    );
}

#[test]
fn unexpected_event_repeats_the_pending_action() {
    assert_eq!(
        step(CycleState::AwaitingPage, CycleEvent::Key(KeyEvent::Char('o'))),
        (CycleState::AwaitingPage, CycleAction::Fetch)
    );
    assert_eq!(
        step(CycleState::AwaitingSnapshot { fresh: String::from(LINE) }, CycleEvent::FetchFailed),
        (CycleState::AwaitingSnapshot { fresh: String::from(LINE) }, CycleAction::Load)
    );
    assert_eq!(
        step(awaiting_key(), CycleEvent::Written(WriteOutcome::Written)),
        (awaiting_key(), CycleAction::Wait(50))
    );
    assert_eq!(
        step(
            CycleState::AwaitingWrite { fresh: String::from(LINE) },
            CycleEvent::Key(KeyEvent::Char('q'))
        ),
        (
            CycleState::AwaitingWrite { fresh: String::from(LINE) },
            CycleAction::Save(String::from(LINE))
        )
    );
}

#[test]
fn cycle_that_is_over_stays_over() {
    for state in [
        CycleState::Finished(ReadResult::MustContinue),
        CycleState::Finished(ReadResult::MustQuit),
        CycleState::Failed(CycleError::Fetch),
    ] {
        let expected = match &state {
            CycleState::Finished(r) => CycleState::Finished(*r),
            CycleState::Failed(e) => CycleState::Failed(*e),
            _ => unreachable!(),
        };
        assert_eq!(
            step(state, CycleEvent::Key(KeyEvent::Char('o'))),
            (expected, CycleAction::Rest)
        );
    }
}

#[test]
fn compare_results_shows_nothing_for_equal_texts() {
    assert_eq!(compare_results(LINE, LINE), None);
    assert_eq!(compare_results("", ""), None);
}

#[test]
fn compare_results_tells_texts_apart_to_the_last_character() {
    assert_eq!(compare_results("", LINE), Some(shown_for_one_new_line()));
    let without_end = &LINE[..LINE.len() - 1];
    assert!(compare_results(without_end, LINE).is_some());
    assert!(compare_results(LINE, "").is_some());
}

#[test]
fn decisions_resolve_the_comparison() {
    assert_eq!(resolve(Decision::Overwrite), ComparisonResult::MustOverwrite);
    assert_eq!(resolve(Decision::Ignore), ComparisonResult::MustIgnore);
    assert_eq!(resolve(Decision::Quit), ComparisonResult::MustQuit);
}

#[test]
fn only_overwrite_writes() {
    let fresh = || String::from(LINE);
    assert_eq!(
        act_on(ComparisonResult::MustOverwrite, fresh()),
        (CycleState::AwaitingWrite { fresh: fresh() }, CycleAction::Save(fresh()))
    );
    assert_eq!(
        act_on(ComparisonResult::IsSame, fresh()),
        (
            CycleState::Finished(ReadResult::MustContinue),
            CycleAction::Report(String::from("Results are the same."))
        )
    );
    assert_eq!(
        act_on(ComparisonResult::MustIgnore, fresh()),
        (
            CycleState::Finished(ReadResult::MustContinue),
            CycleAction::Report(String::from("Ignoring results and continuing."))
        )
    );
    assert_eq!(
        act_on(ComparisonResult::MustQuit, fresh()),
        (CycleState::Finished(ReadResult::MustQuit), CycleAction::Rest)
    );
}

#[test]
fn after_a_cycle_the_count_goes_up_and_the_program_rests() {
    assert_eq!(
        after_cycle(0, ReadResult::MustContinue, WAIT_TIME_SECONDS),
        DriverStep::Sleep {
            count: 1,
            report: String::from("Attempted 1 times; waiting 300 seconds until next request."),
            seconds: 300,
        }
    );
    assert_eq!(
        after_cycle(41, ReadResult::MustContinue, 7),
        DriverStep::Sleep {
            count: 42,
            report: String::from("Attempted 42 times; waiting 7 seconds until next request."),
            seconds: 7,
        }
    );
}

#[test]
fn standard_config_names_page_file_and_rest() {
    let c = Config::standard();
    assert_eq!(c.source_url, SOURCE_URL);
    assert_eq!(c.source_url, "https://www.microsoft.com/en-us/surface/devices/compare-devices");
    assert_eq!(c.saved_file, "past_results.txt");
    assert_eq!(c.wait_time_seconds, 300);
}
