use std::sync::{Arc, Mutex};
use undermoon::common::cluster::Host;
use undermoon::coordinator::error::{
    CoordinateError, MetaDataBrokerError, MetaManipulationBrokerError, RedisClientError,
};
use undermoon::coordinator::host_meta::{
    HostMetaRespSynchronizer, HostMetaRetriever, HostMetaSender, HostMetaSynchronizer, MetaReply,
    MetaRequest, RetrieveAndSendMeta, HOST_META_BATCH_SIZE,
};
use undermoon::coordinator::pass::{Progress, ProxiesRetriever};

fn host(address: &str, epoch: u64) -> Host {
    Host { address: address.to_string(), epoch, nodes: Vec::new() }
}

struct Fleet {
    entries: Mutex<Vec<Result<String, CoordinateError>>>,
}

impl Fleet {
    fn of(n: usize) -> Fleet {
        Fleet { entries: Mutex::new((0..n).map(|i| Ok(format!("proxy{}", i))).collect()) }
    }
}

impl ProxiesRetriever for Fleet {
    fn retrieve_proxies(&self) -> Vec<Result<String, CoordinateError>> {
        std::mem::take(&mut *self.entries.lock().unwrap())
    }
}

struct Broker {
    unknown: Vec<String>,
    broken: Vec<String>,
    asked: Arc<Mutex<Vec<String>>>,
}

impl HostMetaRetriever for Broker {
    fn get_host_meta(&self, address: String) -> Result<Option<Host>, CoordinateError> {
        self.asked.lock().unwrap().push(address.clone());
        if self.broken.contains(&address) {
            Err(CoordinateError::MetaData(MetaDataBrokerError { message: address }))
        } else if self.unknown.contains(&address) {
            Ok(None)
        } else {
            Ok(Some(host(&address, 42)))
        }
    }
}

struct Wire {
    refusing: Vec<String>,
    sent: Arc<Mutex<Vec<(String, u64)>>>,
}

impl HostMetaSender for Wire {
    fn send_meta(&self, host: Host) -> Result<(), CoordinateError> {
        self.sent.lock().unwrap().push((host.address.clone(), host.epoch));
        if self.refusing.contains(&host.address) {
            Err(CoordinateError::Redis(RedisClientError { message: host.address }))
        } else {
            Ok(())
        }
    }
}

fn strings(names: &[&str]) -> Vec<String> {
    names.iter().map(|s| s.to_string()).collect()
}

fn synchronizer(
    n: usize,
    unknown: &[&str],
    broken: &[&str],
    refusing: &[&str],
) -> (
    HostMetaRespSynchronizer<Fleet, Broker, Wire>,
    Arc<Mutex<Vec<String>>>,
    Arc<Mutex<Vec<(String, u64)>>>,
) {
    let asked = Arc::new(Mutex::new(Vec::new()));
    let sent = Arc::new(Mutex::new(Vec::new()));
    let broker = Broker { unknown: strings(unknown), broken: strings(broken), asked: asked.clone() };
    let wire = Wire { refusing: strings(refusing), sent: sent.clone() };
    (HostMetaRespSynchronizer::new(Fleet::of(n), broker, wire), asked, sent)
}

fn sent_to(sent: &Arc<Mutex<Vec<(String, u64)>>>) -> Vec<String> {
    sent.lock().unwrap().iter().map(|(address, _)| address.clone()).collect()
}

#[test]
fn synchronisation_begins_with_the_lookup() {
    match RetrieveAndSendMeta::begin("a:1".to_string()) {
        Progress::Call(RetrieveAndSendMeta::Retrieving, MetaRequest::GetHostMeta(address)) => {
            assert_eq!(address, "a:1")
        }
        _ => panic!("synchronisation starts with the lookup"),
    }
}

#[test]
fn found_metadata_is_sent_as_it_is() {
    let next = RetrieveAndSendMeta::Retrieving.resume(MetaReply::HostMeta(Ok(Some(host("a:1", 9)))));
    match next {
        Progress::Call(RetrieveAndSendMeta::Sending, MetaRequest::SendMeta(host)) => {
            assert_eq!(host.address, "a:1");
            assert_eq!(host.epoch, 9);
            assert!(host.nodes.is_empty());
        }
        _ => panic!("found metadata is sent"),
    }
}

#[test]
fn unknown_proxy_needs_nothing() {
    let next = RetrieveAndSendMeta::Retrieving.resume(MetaReply::HostMeta(Ok(None)));
    assert!(matches!(next, Progress::Done(Ok(()))));
}

#[test]
fn failed_lookup_is_the_result() {
    let err = CoordinateError::MetaData(MetaDataBrokerError { message: "down".to_string() });
    let next = RetrieveAndSendMeta::Retrieving.resume(MetaReply::HostMeta(Err(err)));
    match next {
        Progress::Done(Err(CoordinateError::MetaData(err))) => assert_eq!(err.message, "down"),
        _ => panic!("a failed lookup ends the synchronisation"),
    }
}

#[test]
fn result_of_sending_is_the_result() {
    let next = RetrieveAndSendMeta::Sending.resume(MetaReply::Sent(Ok(())));
    assert!(matches!(next, Progress::Done(Ok(()))));
    let err = CoordinateError::MetaMani(MetaManipulationBrokerError { message: "ro".to_string() });
    let next = RetrieveAndSendMeta::Sending.resume(MetaReply::Sent(Err(err)));
    match next {
        Progress::Done(Err(CoordinateError::MetaMani(err))) => assert_eq!(err.message, "ro"),
        _ => panic!("a failed send ends the synchronisation"),
    }
}

#[test]
fn meta_answer_out_of_turn_is_an_invalid_reply() {
    let next = RetrieveAndSendMeta::Retrieving.resume(MetaReply::Sent(Ok(())));
    assert!(matches!(next, Progress::Done(Err(CoordinateError::InvalidReply))));
    let next = RetrieveAndSendMeta::Sending.resume(MetaReply::HostMeta(Ok(None)));
    assert!(matches!(next, Progress::Done(Err(CoordinateError::InvalidReply))));
}

#[test]
fn every_known_proxy_gets_its_metadata() {
    let (synchronizer, asked, sent) = synchronizer(3, &[], &[], &[]);
    let results = synchronizer.run();
    assert_eq!(results.len(), 1);
    assert!(results[0].is_ok());
    assert_eq!(*asked.lock().unwrap(), strings(&["proxy0", "proxy1", "proxy2"]));
    assert_eq!(
        *sent.lock().unwrap(),
        vec![("proxy0".to_string(), 42), ("proxy1".to_string(), 42), ("proxy2".to_string(), 42)]
    );
}

#[test]
fn proxy_without_metadata_is_sent_nothing() {
    let (synchronizer, asked, sent) = synchronizer(3, &["proxy1"], &[], &[]);
    let results = synchronizer.run();
    assert!(results[0].is_ok());
    assert_eq!(asked.lock().unwrap().len(), 3);
    assert_eq!(sent_to(&sent), strings(&["proxy0", "proxy2"]));
}

#[test]
fn refused_metadata_counts_but_does_not_block_the_others() {
    let (synchronizer, asked, sent) = synchronizer(4, &[], &[], &["proxy1"]);
    let mut results = synchronizer.run();
    assert_eq!(results.len(), 1);
    match results.remove(0) {
        Err(CoordinateError::Redis(err)) => assert_eq!(err.message, "proxy1"),
        _ => panic!("the refused metadata fails the pass"),
    }
    assert_eq!(asked.lock().unwrap().len(), 4);
    assert_eq!(sent_to(&sent), strings(&["proxy0", "proxy1", "proxy2", "proxy3"]));
}

#[test]
fn failed_lookup_counts_but_does_not_block_the_others() {
    let (synchronizer, asked, sent) = synchronizer(3, &[], &["proxy0"], &["proxy2"]);
    let mut results = synchronizer.run();
    match results.remove(0) {
        Err(CoordinateError::MetaData(err)) => assert_eq!(err.message, "proxy0"),
        _ => panic!("the first failure is the result"),
    }
    assert_eq!(asked.lock().unwrap().len(), 3);
    assert_eq!(sent_to(&sent), strings(&["proxy1", "proxy2"]));
}

#[test]
fn more_proxies_than_a_batch_are_all_served() {
    let n = 2 * HOST_META_BATCH_SIZE + 5;
    let (synchronizer, asked, sent) = synchronizer(n, &["proxy7"], &[], &[]);
    let results = synchronizer.run();
    assert!(results[0].is_ok());
    assert_eq!(asked.lock().unwrap().len(), n);
    assert_eq!(sent.lock().unwrap().len(), n - 1);
}

#[test]
fn one_address_at_a_time() {
    let (synchronizer, asked, sent) = synchronizer(0, &["gone"], &[], &[]);
    assert!(synchronizer.retrieve_and_send_meta("here".to_string()).is_ok());
    assert!(synchronizer.retrieve_and_send_meta("gone".to_string()).is_ok());
    assert_eq!(*asked.lock().unwrap(), strings(&["here", "gone"]));
    assert_eq!(sent_to(&sent), strings(&["here"]));
}

#[test]
fn host_meta_batch_size() {
    assert_eq!(HOST_META_BATCH_SIZE, 10);
}
