use std::io;
use std::sync::Mutex;
use undermoon::coordinator::detector::{
    CheckAndReport, DetectReply, DetectRequest, FailureChecker, FailureDetector, FailureReporter,
    SeqFailureDetector, DETECTOR_BATCH_SIZE,
};
use undermoon::coordinator::error::{CoordinateError, MetaDataBrokerError, RedisClientError};
use undermoon::coordinator::pass::{run_pass, Progress, ProxiesRetriever};

struct DummyChecker {}

impl FailureChecker for DummyChecker {
    fn check(&self, _address: String) -> Result<Option<String>, CoordinateError> {
        Ok(None)
    }
}

fn check<C: FailureChecker>(checker: C) {
    let res = checker.check("".to_string());
    assert!(res.is_ok());
}

#[test]
fn test_reporter() {
    let checker = DummyChecker {};
    check(checker);
}

struct Fleet {
    entries: Mutex<Vec<Result<String, CoordinateError>>>,
}

impl Fleet {
    fn of(n: usize) -> Fleet {
        Fleet { entries: Mutex::new((0..n).map(|i| Ok(format!("proxy{}", i))).collect()) }
    }

    fn with(entries: Vec<Result<String, CoordinateError>>) -> Fleet {
        Fleet { entries: Mutex::new(entries) }
    }
}

impl ProxiesRetriever for Fleet {
    fn retrieve_proxies(&self) -> Vec<Result<String, CoordinateError>> {
        std::mem::take(&mut *self.entries.lock().unwrap())
    }
}

struct Probe {
    unhealthy: Vec<String>,
    broken: Vec<String>,
    checked: Mutex<Vec<String>>,
}

impl Probe {
    fn new(unhealthy: &[&str], broken: &[&str]) -> Probe {
        Probe {
            unhealthy: unhealthy.iter().map(|s| s.to_string()).collect(),
            broken: broken.iter().map(|s| s.to_string()).collect(),
            checked: Mutex::new(Vec::new()),
        }
    }
}

impl FailureChecker for Probe {
    fn check(&self, address: String) -> Result<Option<String>, CoordinateError> {
        self.checked.lock().unwrap().push(address.clone());
        if self.broken.contains(&address) {
            Err(CoordinateError::Io(io::Error::new(io::ErrorKind::BrokenPipe, address)))
        } else if self.unhealthy.contains(&address) {
            Ok(Some(address))
        } else {
            Ok(None)
        }
    }
}

struct Reports {
    refused: Vec<String>,
    reported: Mutex<Vec<String>>,
}

impl Reports {
    fn new(refused: &[&str]) -> Reports {
        Reports {
            refused: refused.iter().map(|s| s.to_string()).collect(),
            reported: Mutex::new(Vec::new()),
        }
    }
}

impl FailureReporter for Reports {
    fn report(&self, address: String) -> Result<(), CoordinateError> {
        self.reported.lock().unwrap().push(address.clone());
        if self.refused.contains(&address) {
            Err(CoordinateError::Redis(RedisClientError { message: address }))
        } else {
            Ok(())
        }
    }
}

struct ProbeRef(std::sync::Arc<Probe>);

impl FailureChecker for ProbeRef {
    fn check(&self, address: String) -> Result<Option<String>, CoordinateError> {
        self.0.check(address)
    }
}

struct ReportsRef(std::sync::Arc<Reports>);

impl FailureReporter for ReportsRef {
    fn report(&self, address: String) -> Result<(), CoordinateError> {
        self.0.report(address)
    }
}

fn detector(
    fleet: Fleet,
    probe: Probe,
    reports: Reports,
) -> (
    SeqFailureDetector<Fleet, ProbeRef, ReportsRef>,
    std::sync::Arc<Probe>,
    std::sync::Arc<Reports>,
) {
    let probe = std::sync::Arc::new(probe);
    let reports = std::sync::Arc::new(reports);
    let detector =
        SeqFailureDetector::new(fleet, ProbeRef(probe.clone()), ReportsRef(reports.clone()));
    (detector, probe, reports)
}

fn names(range: std::ops::Range<usize>) -> Vec<String> {
    range.map(|i| format!("proxy{}", i)).collect()
}

#[test]
fn begin_asks_for_the_probe() {
    match CheckAndReport::begin("a:1".to_string()) {
        Progress::Call(CheckAndReport::Checking, DetectRequest::Check(address)) => {
            assert_eq!(address, "a:1")
        }
        _ => panic!("the check starts with the probe"),
    }
}

#[test]
fn healthy_proxy_needs_no_report() {
    let next = CheckAndReport::Checking.resume(DetectReply::Checked(Ok(None)));
    assert!(matches!(next, Progress::Done(Ok(()))));
}

#[test]
fn unhealthy_proxy_is_reported_under_the_address_given() {
    let next = CheckAndReport::Checking.resume(DetectReply::Checked(Ok(Some("b:2".to_string()))));
    match next {
        Progress::Call(CheckAndReport::Reporting, DetectRequest::Report(address)) => {
            assert_eq!(address, "b:2")
        }
        _ => panic!("an unhealthy proxy is reported"),
    }
}

#[test]
fn failed_probe_is_the_result() {
    let err = CoordinateError::MetaData(MetaDataBrokerError { message: "down".to_string() });
    let next = CheckAndReport::Checking.resume(DetectReply::Checked(Err(err)));
    match next {
        Progress::Done(Err(CoordinateError::MetaData(err))) => assert_eq!(err.message, "down"),
        _ => panic!("a failed probe ends the check"),
    }
}

#[test]
fn report_result_is_the_result() {
    let next = CheckAndReport::Reporting.resume(DetectReply::Reported(Ok(())));
    assert!(matches!(next, Progress::Done(Ok(()))));
    let err = CoordinateError::Redis(RedisClientError { message: "no".to_string() });
    let next = CheckAndReport::Reporting.resume(DetectReply::Reported(Err(err)));
    match next {
        Progress::Done(Err(CoordinateError::Redis(err))) => assert_eq!(err.message, "no"),
        _ => panic!("a failed report ends the check"),
    }
}

#[test]
fn answer_out_of_turn_is_an_invalid_reply() {
    let next = CheckAndReport::Checking.resume(DetectReply::Reported(Ok(())));
    assert!(matches!(next, Progress::Done(Err(CoordinateError::InvalidReply))));
    let next = CheckAndReport::Reporting.resume(DetectReply::Checked(Ok(None)));
    assert!(matches!(next, Progress::Done(Err(CoordinateError::InvalidReply))));
}

#[test]
fn exactly_the_unhealthy_are_reported() {
    let (detector, probe, reports) =
        detector(Fleet::of(6), Probe::new(&["proxy1", "proxy4"], &[]), Reports::new(&[]));
    let r = detector.run();
    assert!(r.is_ok());
    assert_eq!(*probe.checked.lock().unwrap(), names(0..6));
    assert_eq!(*reports.reported.lock().unwrap(), vec!["proxy1".to_string(), "proxy4".to_string()]);
}

#[test]
fn refused_report_does_not_keep_others_from_being_reported() {
    let (detector, probe, reports) = detector(
        Fleet::of(5),
        Probe::new(&["proxy0", "proxy2", "proxy4"], &[]),
        Reports::new(&["proxy0"]),
    );
    let r = detector.run();
    match r {
        Err(CoordinateError::Redis(err)) => assert_eq!(err.message, "proxy0"),
        _ => panic!("the refused report fails the pass"),
    }
    assert_eq!(probe.checked.lock().unwrap().len(), 5);
    assert_eq!(
        *reports.reported.lock().unwrap(),
        vec!["proxy0".to_string(), "proxy2".to_string(), "proxy4".to_string()]
    );
}

#[test]
fn failed_probe_does_not_keep_others_from_being_checked() {
    let (detector, probe, reports) =
        detector(Fleet::of(4), Probe::new(&["proxy3"], &["proxy1"]), Reports::new(&[]));
    let r = detector.run();
    match r {
        Err(CoordinateError::Io(err)) => assert_eq!(err.kind(), io::ErrorKind::BrokenPipe),
        _ => panic!("the failed probe fails the pass"),
    }
    assert_eq!(*probe.checked.lock().unwrap(), names(0..4));
    assert_eq!(*reports.reported.lock().unwrap(), vec!["proxy3".to_string()]);
}

#[test]
fn pass_returns_the_first_failure_met() {
    let (detector, _probe, _reports) = detector(
        Fleet::of(4),
        Probe::new(&["proxy1"], &["proxy2"]),
        Reports::new(&["proxy1"]),
    );
    match detector.run() {
        Err(CoordinateError::Redis(err)) => assert_eq!(err.message, "proxy1"),
        _ => panic!("the earlier failure is the result"),
    }
}

#[test]
fn entry_that_could_not_be_retrieved_fails_the_pass_but_not_the_others() {
    let entries = vec![
        Ok("proxy0".to_string()),
        Err(CoordinateError::MetaData(MetaDataBrokerError { message: "lost".to_string() })),
        Ok("proxy2".to_string()),
    ];
    let (detector, probe, reports) =
        detector(Fleet::with(entries), Probe::new(&["proxy2"], &[]), Reports::new(&[]));
    match detector.run() {
        Err(CoordinateError::MetaData(err)) => assert_eq!(err.message, "lost"),
        _ => panic!("the lost entry fails the pass"),
    }
    assert_eq!(
        *probe.checked.lock().unwrap(),
        vec!["proxy0".to_string(), "proxy2".to_string()]
    );
    assert_eq!(*reports.reported.lock().unwrap(), vec!["proxy2".to_string()]);
}

#[test]
fn empty_fleet_is_a_successful_pass() {
    let (detector, probe, reports) =
        detector(Fleet::of(0), Probe::new(&[], &[]), Reports::new(&[]));
    assert!(detector.run().is_ok());
    assert!(probe.checked.lock().unwrap().is_empty());
    assert!(reports.reported.lock().unwrap().is_empty());
}

#[test]
fn fleet_larger_than_a_batch_is_checked_whole() {
    let n = 2 * DETECTOR_BATCH_SIZE + 5;
    let (detector, probe, reports) =
        detector(Fleet::of(n), Probe::new(&["proxy64"], &[]), Reports::new(&[]));
    assert!(detector.run().is_ok());
    assert_eq!(*probe.checked.lock().unwrap(), names(0..n));
    assert_eq!(*reports.reported.lock().unwrap(), vec!["proxy64".to_string()]);
}

#[test]
fn twenty_five_proxies_in_batches_of_ten() {
    let (detector, probe, reports) = detector(
        Fleet::of(0),
        Probe::new(&["proxy3", "proxy17"], &[]),
        Reports::new(&["proxy17"]),
    );
    let entries: Vec<Result<String, CoordinateError>> =
        names(0..25).into_iter().map(Ok).collect();
    let work = |address: String| detector.check_and_report(address);
    let r = run_pass(entries, 10, &work);
    match r {
        Err(CoordinateError::Redis(err)) => assert_eq!(err.message, "proxy17"),
        _ => panic!("the refused report fails the pass"),
    }
    assert_eq!(*probe.checked.lock().unwrap(), names(0..25));
    assert_eq!(
        *reports.reported.lock().unwrap(),
        vec!["proxy3".to_string(), "proxy17".to_string()]
    );
}

#[test]
fn twenty_five_proxies_through_the_detector() {
    let (detector, probe, reports) = detector(
        Fleet::of(25),
        Probe::new(&["proxy3", "proxy17"], &[]),
        Reports::new(&["proxy17"]),
    );
    assert!(detector.run().is_err());
    assert_eq!(probe.checked.lock().unwrap().len(), 25);
    assert_eq!(reports.reported.lock().unwrap().len(), 2);
}

#[test]
fn run_with_takes_what_was_retrieved() {
    let (detector, probe, reports) =
        detector(Fleet::of(0), Probe::new(&["b"], &[]), Reports::new(&[]));
    let r = detector.run_with(vec![Ok("a".to_string()), Ok("b".to_string())]);
    assert!(r.is_ok());
    assert_eq!(*probe.checked.lock().unwrap(), vec!["a".to_string(), "b".to_string()]);
    assert_eq!(*reports.reported.lock().unwrap(), vec!["b".to_string()]);
}

#[test]
fn design_batch_size() {
    assert_eq!(DETECTOR_BATCH_SIZE, 30);
}
