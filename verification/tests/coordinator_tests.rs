use capture_archive::coordinator::{
    advance, begin, next_action, observe, start_polling, submit, ModTime, PollState, PollStep,
    Reading, SaveAction, SaveEvent, Stage, POLL_ATTEMPTS, POLL_INTERVAL_MS,
};

fn at(secs: u64) -> ModTime {
    ModTime { secs, nanos: 0 }
}

#[test]
fn empty_label_ends_the_request() {
    assert_eq!(submit(""), None);
}

#[test]
fn label_is_sanitized_on_submission() {
    assert_eq!(submit("my label!"), Some(String::from("myxlabelx")));
    assert_eq!(submit("/"), Some(String::from("x")));
    assert_eq!(submit("abc"), Some(String::from("abc")));
}

#[test]
fn polling_starts_with_all_attempts() {
    let state = start_polling(at(7));
    assert_eq!(
        state,
        PollState { first: at(7), last: at(7), changed: false, readings_left: 40 }
    );
    assert_eq!(POLL_ATTEMPTS, 40);
    assert_eq!(POLL_INTERVAL_MS, 25);
}

#[test]
fn unchanged_reading_waits() {
    let (next, step) = observe(start_polling(at(7)), Reading::At(at(7)));
    assert_eq!(step, PollStep::SleepThenRead);
    assert_eq!(
        next,
        PollState { first: at(7), last: at(7), changed: false, readings_left: 39 }
    );
}

#[test]
fn change_is_noticed_and_waits_for_one_more_reading() {
    let (next, step) = observe(start_polling(at(7)), Reading::At(at(8)));
    assert_eq!(step, PollStep::SleepThenRead);
    assert_eq!(
        next,
        PollState { first: at(7), last: at(8), changed: true, readings_left: 39 }
    );
}

#[test]
fn equal_reading_after_a_change_settles() {
    let (changed, _) = observe(start_polling(at(7)), Reading::At(at(8)));
    let (next, step) = observe(changed, Reading::At(at(8)));
    assert_eq!(step, PollStep::Archive);
    assert_eq!(next, changed);
}

#[test]
fn second_change_keeps_waiting() {
    let (changed, _) = observe(start_polling(at(7)), Reading::At(at(8)));
    let (next, step) = observe(changed, Reading::At(ModTime { secs: 8, nanos: 1 }));
    assert_eq!(step, PollStep::SleepThenRead);
    assert_eq!(next.last, ModTime { secs: 8, nanos: 1 });
    assert!(next.changed);
    assert_eq!(next.readings_left, 38);
}

#[test]
fn snapshot_that_never_changes_times_out_after_forty_readings() {
    let mut state = start_polling(at(7));
    for n in 1..=40u32 {
        let (next, step) = observe(state, Reading::At(at(7)));
        if n < 40 {
            assert_eq!(step, PollStep::SleepThenRead);
        } else {
            assert_eq!(step, PollStep::SleepThenArchive);
        }
        assert_eq!(next.readings_left, 40 - n);
        state = next;
    }
    assert_eq!(observe(state, Reading::At(at(9))), (state, PollStep::Archive));
}

#[test]
fn snapshot_that_always_changes_times_out_too() {
    let mut state = start_polling(at(0));
    let mut readings = 0;
    loop {
        readings += 1;
        let (next, step) = observe(state, Reading::At(at(readings)));
        state = next;
        if step != PollStep::SleepThenRead {
            assert_eq!(step, PollStep::SleepThenArchive);
            break;
        }
    }
    assert_eq!(readings, 40);
}

#[test]
fn missing_metadata_counts_as_the_first_reading() {
    let (changed, _) = observe(start_polling(at(7)), Reading::At(at(8)));
    let (next, step) = observe(changed, Reading::Missing);
    assert_eq!(step, PollStep::SleepThenRead);
    assert_eq!(next.last, at(7));
    let (_, step) = observe(start_polling(at(7)), Reading::Missing);
    assert_eq!(step, PollStep::SleepThenRead);
}

#[test]
fn unknown_time_counts_as_the_last_reading() {
    let (changed, _) = observe(start_polling(at(7)), Reading::At(at(8)));
    let (_, step) = observe(changed, Reading::Unknown);
    assert_eq!(step, PollStep::Archive);
    let (next, step) = observe(start_polling(at(7)), Reading::Unknown);
    assert_eq!(step, PollStep::SleepThenRead);
    assert!(!next.changed);
}

fn run(readings: &[Reading]) -> (Vec<SaveAction>, usize) {
    let mut stage = begin();
    let mut actions = Vec::new();
    let mut used = 0;
    loop {
        let action = next_action(stage);
        actions.push(action);
        let event = match action {
            SaveAction::RecordTime => SaveEvent::TimeRecorded(at(7)),
            SaveAction::Wake => SaveEvent::Woken,
            SaveAction::ReadTime => {
                used += 1;
                SaveEvent::TimeRead(readings[(used - 1) % readings.len()])
            }
            SaveAction::Sleep => SaveEvent::Slept,
            SaveAction::Archive | SaveAction::GiveUp => return (actions, used),
        };
        stage = advance(stage, event);
    }
}

#[test]
fn request_records_the_time_before_it_wakes_the_capture_loop() {
    let (actions, _) = run(&[Reading::At(at(8))]);
    assert_eq!(
        actions,
        vec![
            SaveAction::RecordTime,
            SaveAction::Wake,
            SaveAction::ReadTime,
            SaveAction::Sleep,
            SaveAction::ReadTime,
            SaveAction::Archive,
        ]
    );
}

#[test]
fn request_without_a_change_reads_forty_times_and_archives() {
    let (actions, used) = run(&[Reading::At(at(7))]);
    assert_eq!(used, 40);
    assert_eq!(actions.len(), 2 + 2 * 40 + 1);
    assert_eq!(actions[actions.len() - 2], SaveAction::Sleep);
    assert_eq!(actions.iter().filter(|a| **a == SaveAction::Sleep).count(), 40);
    assert_eq!(actions.iter().filter(|a| **a == SaveAction::Wake).count(), 1);
}

#[test]
fn request_with_a_late_change_archives_once_it_settles() {
    let mut readings = vec![Reading::At(at(7)); 10];
    readings.push(Reading::At(at(9)));
    readings.push(Reading::At(at(9)));
    let (actions, used) = run(&readings);
    assert_eq!(used, 12);
    assert_eq!(actions.last(), Some(&SaveAction::Archive));
    assert_eq!(actions[actions.len() - 2], SaveAction::ReadTime);
}

#[test]
fn event_that_was_not_asked_for_changes_nothing() {
    assert_eq!(advance(begin(), SaveEvent::Woken), Stage::Submitted);
    assert_eq!(advance(begin(), SaveEvent::Slept), Stage::Submitted);
    assert_eq!(advance(Stage::Recorded(at(7)), SaveEvent::TimeRecorded(at(9))), Stage::Recorded(at(7)));
    assert_eq!(advance(Stage::Settled, SaveEvent::Slept), Stage::Settled);
    assert_eq!(advance(Stage::LastRest, SaveEvent::TimeRead(Reading::Missing)), Stage::LastRest);
    assert_eq!(next_action(Stage::LastRest), SaveAction::Sleep);
    assert_eq!(advance(Stage::LastRest, SaveEvent::Slept), Stage::Settled);
}

#[test]
fn request_is_given_up_where_the_snapshot_cannot_be_read() {
    let stage = advance(begin(), SaveEvent::TimeUnavailable);
    assert_eq!(stage, Stage::Abandoned);
    assert_eq!(next_action(stage), SaveAction::GiveUp);
    assert_eq!(advance(stage, SaveEvent::Woken), Stage::Abandoned);
    assert_eq!(advance(stage, SaveEvent::TimeRecorded(at(7))), Stage::Abandoned);
    assert_eq!(advance(Stage::Recorded(at(7)), SaveEvent::TimeUnavailable), Stage::Recorded(at(7)));
}
