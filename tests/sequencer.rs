use tweet_deleter::request::{classify_status, DeleteOutcome};
use tweet_deleter::sequencer::{RunSummary, Sequencer, Step, PAUSE_MILLIS};

fn ids(list: &[&str]) -> Vec<String> {
    list.iter().map(|s| s.to_string()).collect()
}

fn expect_delete(run: &mut Sequencer, position: usize, total: usize, id: &str) {
    assert_eq!(run.next_step(), Step::Delete { position, total, id: id.to_string() });
}

#[test]
fn forbidden_then_ok_completes_normally() {
    let mut run = Sequencer::new(ids(&["2", "1"]));
    expect_delete(&mut run, 0, 2, "2");
    run.record(classify_status(403));
    assert_eq!(run.next_step(), Step::Pause { millis: PAUSE_MILLIS });
    expect_delete(&mut run, 1, 2, "1");
    run.record(classify_status(200));
    let summary = RunSummary { attempted: 2, succeeded: 1, failed: 1 };
    assert_eq!(run.next_step(), Step::Finished { summary });
    assert_eq!(run.summary(), summary);
}

#[test]
fn empty_list_makes_no_request() {
    let mut run = Sequencer::new(Vec::new());
    let summary = RunSummary { attempted: 0, succeeded: 0, failed: 0 };
    assert_eq!(run.next_step(), Step::Finished { summary });
    assert_eq!(run.next_step(), Step::Finished { summary });
}

#[test]
fn every_id_once_in_order_with_pauses_between() {
    let list = ids(&["a", "b", "a", ""]);
    let mut run = Sequencer::new(list.clone());
    let mut requested = Vec::new();
    let mut pauses = 0;
    loop {
        match run.next_step() {
            Step::Delete { id, .. } => {
                requested.push(id);
                run.record(DeleteOutcome::TransportFailed);
            }
            Step::Pause { millis } => {
                assert_eq!(millis, 500);
                pauses += 1;
            }
            Step::Finished { summary } => {
                assert_eq!(summary, RunSummary { attempted: 4, succeeded: 0, failed: 4 });
                break;
            }
        }
    }
    assert_eq!(requested, list);
    assert_eq!(pauses, 3);
}

#[test]
fn transport_failure_does_not_stop_next_item() {
    let mut run = Sequencer::new(ids(&["x", "y"]));
    expect_delete(&mut run, 0, 2, "x");
    run.record(DeleteOutcome::TransportFailed);
    assert_eq!(run.next_step(), Step::Pause { millis: 500 });
    expect_delete(&mut run, 1, 2, "y");
    run.record(DeleteOutcome::Deleted { status: 200 });
    assert_eq!(
        run.next_step(),
        Step::Finished { summary: RunSummary { attempted: 2, succeeded: 1, failed: 1 } }
    );
}

#[test]
fn cancel_stops_before_next_request() {
    let mut run = Sequencer::new(ids(&["1", "2", "3"]));
    expect_delete(&mut run, 0, 3, "1");
    run.cancel();
    run.record(DeleteOutcome::Deleted { status: 200 });
    assert_eq!(
        run.next_step(),
        Step::Finished { summary: RunSummary { attempted: 1, succeeded: 1, failed: 0 } }
    );
}
