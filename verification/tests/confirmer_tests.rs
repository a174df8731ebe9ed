use catalog_watch::confirmer::{
    announce, confirm, decide, decide_on, Decision, KeyEvent, CHANGE_NOTICE, POLL_WAIT_MILLIS,
    PROMPT,
};
use catalog_watch::differ::{ChangeTag, DiffLine};

#[test]
fn three_keys_decide_in_either_case() {
    assert_eq!(decide('o'), Some(Decision::Overwrite));
    assert_eq!(decide('O'), Some(Decision::Overwrite));
    assert_eq!(decide('i'), Some(Decision::Ignore));
    assert_eq!(decide('I'), Some(Decision::Ignore));
    assert_eq!(decide('q'), Some(Decision::Quit));
    assert_eq!(decide('Q'), Some(Decision::Quit));
}

#[test]
fn other_keys_decide_nothing() {
    for key in ['a', 'x', '0', ' ', '\n', '\u{1b}', 'p', 'j', 'r', '\u{f6}'] {
        assert_eq!(decide(key), None, "{:?}", key);
    }
    assert_eq!(decide_on(KeyEvent::Other), None);
    assert_eq!(decide_on(KeyEvent::Nothing), None);
    assert_eq!(decide_on(KeyEvent::Char('x')), None);
    assert_eq!(decide_on(KeyEvent::Char('i')), Some(Decision::Ignore));
}

#[test]
fn first_deciding_key_counts() {
    let events = [
        KeyEvent::Nothing,
        KeyEvent::Char('x'),
        KeyEvent::Other,
        KeyEvent::Char('I'),
        KeyEvent::Char('q'),
    ];
    assert_eq!(confirm(&events), Some(Decision::Ignore));
    assert_eq!(confirm(&events[..3]), None);
    assert_eq!(confirm(&[]), None);
    assert_eq!(confirm(&[KeyEvent::Char('q'), KeyEvent::Char('o')]), Some(Decision::Quit));
}

#[test]
fn announcement_is_notice_script_and_prompt() {
    let script = vec![DiffLine { tag: ChangeTag::Inserted, text: String::from("a\n") }];
    assert_eq!(
        announce(&script),
        "New results detected!\n\u{1b}[38;5;2m+a\n\u{1b}[39m(O)verwrite, (I)gnore, (Q)uit?\n"
    );
    assert_eq!(announce(&vec![]), format!("{}{}", CHANGE_NOTICE, PROMPT));
}

#[test]
fn poll_wait_is_tens_of_milliseconds() {
    assert_eq!(POLL_WAIT_MILLIS, 50);
}
