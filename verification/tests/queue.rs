use rjq::client::{classify_result, status_of_load, LoadError, ResultError};
use rjq::codec::{decode_job, encode_job};
use rjq::worker::{
    after_persist, claim_decision, load_decision, next_on_claim, poll_step, reclassify_lost,
    ClaimDecision, LoadDecision, LoopControl, WorkerConfig,
};
use rjq::{Job, Queue, Status};

fn strings(items: &[&str]) -> Vec<String> {
    items.iter().map(|s| s.to_string()).collect()
}

#[test]
fn keys_follow_the_store_layout() {
    let q = Queue::new("redis://localhost/", "rjq");
    assert_eq!(q.ids_key(), "rjq:ids");
    assert_eq!(q.record_key("0b0b"), "rjq:0b0b");
}

#[test]
fn encoding_is_the_documented_format() {
    let job = Job::new(Some("a".to_string()), vec![]);
    assert_eq!(encode_job(&job), "a;Qe");

    let job = Job::new(Some("a;b\\".to_string()), strings(&["x", "y;"]));
    assert_eq!(encode_job(&job), "a\\;b\\\\;Qax;ay\\;;e");
}

#[test]
fn round_trip_queued() {
    let job = Job::new(Some("id-1".to_string()), strings(&["one", "two"]));
    assert_eq!(decode_job(&encode_job(&job)), Some(job));
}

#[test]
fn round_trip_every_status() {
    let variants = vec![
        Status::QUEUED,
        Status::RUNNING(None),
        Status::RUNNING(Some("half".to_string())),
        Status::LOST,
        Status::FINISHED(None),
        Status::FINISHED(Some("done;\\done".to_string())),
        Status::FAILED {
            message: "boom".to_string(),
            backtrace: "a;b\\c".to_string(),
        },
    ];
    for status in variants {
        let job = Job {
            id: "j".to_string(),
            status,
            args: strings(&["", ";", "\\", "plain"]),
        };
        assert_eq!(decode_job(&encode_job(&job)), Some(job));
    }
}

#[test]
fn round_trip_keeps_every_character() {
    let job = Job::new(
        Some("caf\u{e9}-\u{2192}".to_string()),
        strings(&["h\u{e9}llo", "\u{4e16}\u{754c};\\"]),
    );
    assert_eq!(decode_job(&encode_job(&job)), Some(job));
}

#[test]
fn terminal_states_are_told_apart() {
    assert!(!Status::QUEUED.is_terminal());
    assert!(!Status::RUNNING(None).is_terminal());
    assert!(Status::RUNNING(None).is_running());
    assert!(Status::LOST.is_terminal());
    assert!(Status::FINISHED(None).is_terminal());
    let failed = Status::FAILED {
        message: "m".to_string(),
        backtrace: "b".to_string(),
    };
    assert!(failed.is_terminal());
    assert!(!failed.is_running());
}

#[test]
fn decode_rejects_garbage() {
    assert_eq!(decode_job(""), None);
    assert_eq!(decode_job("no terminator"), None);
    assert_eq!(decode_job("id;Ze"), None);
    assert_eq!(decode_job("id;Q"), None);
    assert_eq!(decode_job("id;Qetrailing"), None);
    assert_eq!(decode_job("id;Rx;e"), None);
}

#[test]
fn enqueue_plan_writes_a_queued_record() {
    let q = Queue::new("redis://localhost/", "rjq");
    let plan = q.enqueue_plan(Some("job-7".to_string()), strings(&["a", "b"]));
    assert_eq!(plan.record_key, "rjq:job-7");
    assert_eq!(plan.ids_key, "rjq:ids");
    let stored = decode_job(&plan.record_value).expect("the stored value is a record");
    assert_eq!(stored.id, "job-7");
    assert_eq!(stored.status, Status::QUEUED);
    assert_eq!(stored.args, strings(&["a", "b"]));
}

#[test]
fn enqueue_plan_generates_an_id() {
    let q = Queue::new("redis://localhost/", "rjq");
    let plan = q.enqueue_plan(None, vec![]);
    assert_eq!(plan.job.id.chars().count(), 36);
    assert_eq!(plan.record_key, format!("rjq:{}", plan.job.id));
}

#[test]
fn status_comes_from_the_stored_record() {
    let q = Queue::new("redis://localhost/", "rjq");
    let plan = q.enqueue_plan(Some("s-1".to_string()), vec![]);
    assert_eq!(status_of_load(Some(plan.record_value)), Ok(Status::QUEUED));
    assert_eq!(status_of_load(None), Err(LoadError::NotFound));
    assert_eq!(
        status_of_load(Some("gibberish".to_string())),
        Err(LoadError::BadRecord)
    );
}

#[test]
fn status_reads_are_idempotent() {
    let q = Queue::new("redis://localhost/", "rjq");
    let plan = q.enqueue_plan(Some("same".to_string()), vec![]);
    let first = decode_job(&plan.record_value).unwrap().status;
    let second = decode_job(&plan.record_value).unwrap().status;
    assert_eq!(first, second);
    assert_eq!(first, Status::QUEUED);
}

#[test]
fn config_defaults() {
    let cfg = WorkerConfig::new(None, None, None, None, None, None);
    assert_eq!(cfg.wait, 10);
    assert_eq!(cfg.timeout, 30);
    assert_eq!(cfg.freq, 1);
    assert_eq!(cfg.expire, 30);
    assert!(cfg.fall);
    assert!(cfg.infinite);
    assert_eq!(cfg.budget(), 30);
    assert_eq!(cfg.claim_ttl(), 60);
}

#[test]
fn supervision_budget_counts_polls() {
    let cfg = WorkerConfig::new(None, Some(1), Some(10), None, Some(false), None);
    assert_eq!(cfg.budget(), 10);
    assert_eq!(cfg.claim_ttl(), 31);
}

#[test]
fn claims_come_in_order() {
    assert_eq!(
        claim_decision(Some("A".to_string()), true),
        ClaimDecision::Run("A".to_string())
    );
    assert_eq!(
        claim_decision(Some("B".to_string()), false),
        ClaimDecision::Run("B".to_string())
    );
    assert_eq!(claim_decision(None, true), ClaimDecision::Retry);
    assert_eq!(claim_decision(None, false), ClaimDecision::Stop);
}

#[test]
fn loading_a_missing_or_broken_record() {
    assert_eq!(load_decision(None), LoadDecision::Missed);
    assert_eq!(load_decision(Some("not a record".to_string())), LoadDecision::Fail);
    let job = Job::new(Some("ok".to_string()), vec![]);
    assert_eq!(load_decision(Some(encode_job(&job))), LoadDecision::Run(job));
}

#[test]
fn immediate_success_finishes_the_job() {
    let mut job = Job::new(Some("fast".to_string()), vec![]);
    next_on_claim(&mut job);
    assert_eq!(job.status, Status::RUNNING(None));

    let done = poll_step(&mut job, Some(Status::FINISHED(Some("hi".to_string()))));
    assert!(done);
    reclassify_lost(&mut job);
    assert_eq!(job.status, Status::FINISHED(Some("hi".to_string())));
    assert_eq!(classify_result(job.status), Ok(Some("hi".to_string())));
}

#[test]
fn a_handler_error_fails_the_job() {
    let mut job = Job::new(Some("bad".to_string()), vec![]);
    next_on_claim(&mut job);
    let done = poll_step(
        &mut job,
        Some(Status::FAILED {
            message: "boom".to_string(),
            backtrace: "trace".to_string(),
        }),
    );
    assert!(done);
    reclassify_lost(&mut job);
    assert_eq!(
        classify_result(job.status),
        Err(ResultError::JobFailed {
            message: "boom".to_string(),
            backtrace: "trace".to_string(),
        })
    );
}

#[test]
fn a_silent_handler_is_lost() {
    let mut job = Job::new(Some("hang".to_string()), vec![]);
    next_on_claim(&mut job);
    let cfg = WorkerConfig::new(None, Some(1), Some(10), None, Some(false), None);
    for _ in 0..cfg.budget() {
        let done = poll_step(&mut job, None);
        assert!(!done);
        assert_eq!(job.status, Status::RUNNING(None));
    }
    reclassify_lost(&mut job);
    assert_eq!(job.status, Status::LOST);
    assert_eq!(classify_result(job.status.clone()), Err(ResultError::JobLost));

    // With fatalOnLost off, the loop proceeds to the next claim.
    assert_eq!(after_persist(&job, false, true), LoopControl::Continue);
    assert_eq!(after_persist(&job, true, true), LoopControl::FatalLost);
}

#[test]
fn loop_control_after_a_normal_outcome() {
    let job = Job {
        id: "done".to_string(),
        status: Status::FINISHED(None),
        args: vec![],
    };
    assert_eq!(after_persist(&job, true, true), LoopControl::Continue);
    assert_eq!(after_persist(&job, true, false), LoopControl::Stop);
}

#[test]
fn results_before_finishing_are_errors() {
    assert_eq!(classify_result(Status::QUEUED), Err(ResultError::JobQueued));
    assert_eq!(
        classify_result(Status::RUNNING(Some("part".to_string()))),
        Err(ResultError::JobRunning)
    );
    assert_eq!(classify_result(Status::LOST), Err(ResultError::JobLost));
    assert_eq!(classify_result(Status::FINISHED(None)), Ok(None));
}
