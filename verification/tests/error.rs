use std::io;
use undermoon::coordinator::error::{
    CoordinateError, MetaDataBrokerError, MetaManipulationBrokerError, RedisClientError,
};

#[test]
fn io_error_is_its_own_cause() {
    let err = CoordinateError::Io(io::Error::new(io::ErrorKind::TimedOut, "late"));
    let cause = err.cause().expect("an I/O failure has a cause");
    assert_eq!(cause.kind(), io::ErrorKind::TimedOut);
    assert_eq!(cause.to_string(), "late");
}

#[test]
fn other_errors_have_no_cause() {
    let errors = vec![
        CoordinateError::MetaMani(MetaManipulationBrokerError { message: "w".to_string() }),
        CoordinateError::MetaData(MetaDataBrokerError { message: "r".to_string() }),
        CoordinateError::Redis(RedisClientError { message: "c".to_string() }),
        CoordinateError::InvalidReply,
    ];
    for err in errors.iter() {
        assert!(err.cause().is_none());
    }
}

#[test]
fn description_is_fixed() {
    assert_eq!(CoordinateError::InvalidReply.description(), "coordinate error");
    let err = CoordinateError::Io(io::Error::new(io::ErrorKind::Other, "x"));
    assert_eq!(err.description(), "coordinate error");
}

#[test]
fn errors_can_be_printed_for_a_log() {
    let err = CoordinateError::Redis(RedisClientError { message: "gone".to_string() });
    let text = format!("{:?}", err);
    assert!(text.contains("Redis"));
    assert!(text.contains("gone"));
    assert_eq!(format!("{:?}", CoordinateError::InvalidReply), "InvalidReply");
}
