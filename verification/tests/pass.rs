use std::sync::Mutex;
use undermoon::coordinator::error::{CoordinateError, RedisClientError};
use undermoon::coordinator::pass::{fold_results, run_batch, run_pass};

fn redis(message: &str) -> CoordinateError {
    CoordinateError::Redis(RedisClientError { message: message.to_string() })
}

fn redis_message(result: &Result<(), CoordinateError>) -> Option<String> {
    match result {
        Err(CoordinateError::Redis(err)) => Some(err.message.clone()),
        _ => None,
    }
}

#[test]
fn fold_keeps_success_over_successes() {
    let r = fold_results(Ok(()), vec![Ok(()), Ok(()), Ok(())]);
    assert!(r.is_ok());
}

#[test]
fn fold_of_no_results_is_what_came_before() {
    assert!(fold_results(Ok(()), vec![]).is_ok());
    let r = fold_results(Err(redis("before")), vec![]);
    assert_eq!(redis_message(&r), Some("before".to_string()));
}

#[test]
fn fold_takes_the_first_failure_of_the_batch() {
    let r = fold_results(Ok(()), vec![Ok(()), Err(redis("one")), Err(redis("two"))]);
    assert_eq!(redis_message(&r), Some("one".to_string()));
}

#[test]
fn fold_keeps_an_earlier_failure() {
    let r = fold_results(Err(redis("earlier")), vec![Err(redis("later")), Ok(())]);
    assert_eq!(redis_message(&r), Some("earlier".to_string()));
}

#[test]
fn batch_gives_one_result_per_entry() {
    let seen: Mutex<Vec<String>> = Mutex::new(Vec::new());
    let work = |address: String| -> Result<(), CoordinateError> {
        let failing = address == "b";
        seen.lock().unwrap().push(address);
        if failing {
            Err(CoordinateError::InvalidReply)
        } else {
            Ok(())
        }
    };
    let batch = vec![Ok("a".to_string()), Err(redis("lost")), Ok("b".to_string()), Ok("c".to_string())];
    let results = run_batch(batch, &work);
    assert_eq!(results.len(), 4);
    assert!(results[0].is_ok());
    assert_eq!(redis_message(&results[1]), Some("lost".to_string()));
    assert!(matches!(results[2], Err(CoordinateError::InvalidReply)));
    assert!(results[3].is_ok());
    assert_eq!(*seen.lock().unwrap(), vec!["a".to_string(), "b".to_string(), "c".to_string()]);
}

#[test]
fn pass_works_off_every_address_in_order() {
    let seen: Mutex<Vec<String>> = Mutex::new(Vec::new());
    let work = |address: String| -> Result<(), CoordinateError> {
        seen.lock().unwrap().push(address);
        Ok(())
    };
    let entries: Vec<Result<String, CoordinateError>> =
        (0..25).map(|i| Ok(format!("proxy{}", i))).collect();
    let r = run_pass(entries, 10, &work);
    assert!(r.is_ok());
    let expected: Vec<String> = (0..25).map(|i| format!("proxy{}", i)).collect();
    assert_eq!(*seen.lock().unwrap(), expected);
}

#[test]
fn pass_goes_on_after_a_failure_and_returns_the_first() {
    let seen: Mutex<Vec<String>> = Mutex::new(Vec::new());
    let work = |address: String| -> Result<(), CoordinateError> {
        let r = if address == "proxy2" {
            Err(redis("two"))
        } else if address == "proxy12" {
            Err(redis("twelve"))
        } else {
            Ok(())
        };
        seen.lock().unwrap().push(address);
        r
    };
    let entries: Vec<Result<String, CoordinateError>> =
        (0..15).map(|i| Ok(format!("proxy{}", i))).collect();
    let r = run_pass(entries, 10, &work);
    assert_eq!(redis_message(&r), Some("two".to_string()));
    assert_eq!(seen.lock().unwrap().len(), 15);
}

#[test]
fn pass_counts_an_entry_that_could_not_be_retrieved() {
    let work = |_address: String| -> Result<(), CoordinateError> { Ok(()) };
    let entries = vec![Ok("a".to_string()), Err(redis("lost")), Ok("b".to_string())];
    let r = run_pass(entries, 10, &work);
    assert_eq!(redis_message(&r), Some("lost".to_string()));
}

#[test]
fn pass_orders_failures_by_entry() {
    let work = |_address: String| -> Result<(), CoordinateError> { Err(redis("work")) };
    let entries = vec![Err(redis("lost")), Ok("a".to_string())];
    let r = run_pass(entries, 10, &work);
    assert_eq!(redis_message(&r), Some("lost".to_string()));
    let entries = vec![Ok("a".to_string()), Err(redis("lost"))];
    let r = run_pass(entries, 10, &work);
    assert_eq!(redis_message(&r), Some("work".to_string()));
}

#[test]
fn pass_over_nothing_succeeds() {
    let work = |_address: String| -> Result<(), CoordinateError> { Err(CoordinateError::InvalidReply) };
    let r = run_pass(vec![], 10, &work);
    assert!(r.is_ok());
}
