use std::sync::{Arc, Mutex};
use undermoon::coordinator::error::{CoordinateError, MetaDataBrokerError, RedisClientError};
use undermoon::coordinator::handler::{
    FailureHandler, HandleFailure, HandleReply, HandleRequest, ProxyFailure,
    ProxyFailureHandler, ProxyFailureRetriever, SeqFailureHandler, HANDLER_BATCH_SIZE,
};
use undermoon::coordinator::pass::Progress;

struct Failures {
    entries: Mutex<Vec<Result<ProxyFailure, CoordinateError>>>,
}

impl Failures {
    fn of(n: usize) -> Failures {
        Failures { entries: Mutex::new((0..n).map(|i| Ok(format!("proxy{}", i))).collect()) }
    }

    fn with(entries: Vec<Result<ProxyFailure, CoordinateError>>) -> Failures {
        Failures { entries: Mutex::new(entries) }
    }
}

impl ProxyFailureRetriever for Failures {
    fn retrieve_proxy_failures(&self) -> Vec<Result<ProxyFailure, CoordinateError>> {
        std::mem::take(&mut *self.entries.lock().unwrap())
    }
}

struct Recovery {
    failing: Vec<String>,
    handled: Arc<Mutex<Vec<String>>>,
}

impl ProxyFailureHandler for Recovery {
    fn handle_proxy_failure(&self, proxy_failure: ProxyFailure) -> Result<(), CoordinateError> {
        self.handled.lock().unwrap().push(proxy_failure.clone());
        if self.failing.contains(&proxy_failure) {
            Err(CoordinateError::Redis(RedisClientError { message: proxy_failure }))
        } else {
            Ok(())
        }
    }
}

fn recovery(failing: &[&str]) -> (Recovery, Arc<Mutex<Vec<String>>>) {
    let handled = Arc::new(Mutex::new(Vec::new()));
    let recovery = Recovery {
        failing: failing.iter().map(|s| s.to_string()).collect(),
        handled: handled.clone(),
    };
    (recovery, handled)
}

fn names(n: usize) -> Vec<String> {
    (0..n).map(|i| format!("proxy{}", i)).collect()
}

#[test]
fn handling_begins_with_the_recovery() {
    match HandleFailure::begin("a:1".to_string()) {
        Progress::Call(HandleFailure::Handling, HandleRequest::Handle(failure)) => {
            assert_eq!(failure, "a:1")
        }
        _ => panic!("handling starts with the recovery"),
    }
}

#[test]
fn failed_recovery_does_not_fail_the_failure() {
    let err = CoordinateError::Redis(RedisClientError { message: "no".to_string() });
    let next = HandleFailure::Handling.resume(HandleReply::Handled(Err(err)));
    assert!(matches!(next, Progress::Done(Ok(()))));
    let next = HandleFailure::Handling.resume(HandleReply::Handled(Ok(())));
    assert!(matches!(next, Progress::Done(Ok(()))));
}

#[test]
fn every_failure_is_handled() {
    let (recovery, handled) = recovery(&[]);
    let handler = SeqFailureHandler::new(Failures::of(3), recovery);
    let results = handler.run();
    assert_eq!(results.len(), 1);
    assert!(results[0].is_ok());
    assert_eq!(*handled.lock().unwrap(), names(3));
}

#[test]
fn failing_recoveries_leave_the_pass_successful() {
    let (recovery, handled) = recovery(&["proxy0", "proxy2"]);
    let handler = SeqFailureHandler::new(Failures::of(4), recovery);
    let results = handler.run();
    assert_eq!(results.len(), 1);
    assert!(results[0].is_ok());
    assert_eq!(*handled.lock().unwrap(), names(4));
}

#[test]
fn failed_retrieval_fails_the_pass() {
    let entries = vec![
        Ok("proxy0".to_string()),
        Err(CoordinateError::MetaData(MetaDataBrokerError { message: "first".to_string() })),
        Err(CoordinateError::MetaData(MetaDataBrokerError { message: "second".to_string() })),
        Ok("proxy3".to_string()),
    ];
    let (recovery, handled) = recovery(&[]);
    let handler = SeqFailureHandler::new(Failures::with(entries), recovery);
    let mut results = handler.run();
    assert_eq!(results.len(), 1);
    match results.remove(0) {
        Err(CoordinateError::MetaData(err)) => assert_eq!(err.message, "first"),
        _ => panic!("the first failed retrieval is the result"),
    }
    assert_eq!(*handled.lock().unwrap(), vec!["proxy0".to_string(), "proxy3".to_string()]);
}

#[test]
fn more_failures_than_a_batch_are_all_handled() {
    let n = 3 * HANDLER_BATCH_SIZE + 1;
    let (recovery, handled) = recovery(&["proxy11"]);
    let handler = SeqFailureHandler::new(Failures::of(n), recovery);
    let results = handler.run();
    assert!(results[0].is_ok());
    assert_eq!(*handled.lock().unwrap(), names(n));
}

#[test]
fn no_failures_is_a_successful_pass() {
    let (recovery, handled) = recovery(&[]);
    let handler = SeqFailureHandler::new(Failures::of(0), recovery);
    let results = handler.run();
    assert_eq!(results.len(), 1);
    assert!(results[0].is_ok());
    assert!(handled.lock().unwrap().is_empty());
}

#[test]
fn handler_run_with_takes_what_was_retrieved() {
    let (recovery, handled) = recovery(&["a"]);
    let handler = SeqFailureHandler::new(Failures::of(0), recovery);
    let r = handler.run_with(vec![Ok("a".to_string()), Err(CoordinateError::InvalidReply)]);
    assert!(matches!(r, Err(CoordinateError::InvalidReply)));
    assert_eq!(*handled.lock().unwrap(), vec!["a".to_string()]);
}

#[test]
fn handler_batch_size() {
    assert_eq!(HANDLER_BATCH_SIZE, 10);
}
