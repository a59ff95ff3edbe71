use mirakc::error::Error;
use mirakc::tuner::AllocationError;

#[test]
fn test_status_codes() {
    assert_eq!(Error::ChannelNotFound.status_code(), 404);
    assert_eq!(Error::ServiceNotFound.status_code(), 404);
    assert_eq!(Error::ProgramNotFound.status_code(), 404);
    assert_eq!(Error::InvalidRequest.status_code(), 400);
    assert_eq!(Error::ServiceUnavailable.status_code(), 503);
    assert_eq!(Error::SpawnFailed { stage: 2 }.status_code(), 500);
    assert_eq!(Error::TunerDisconnected.status_code(), 500);
    assert_eq!(Error::CollectorParseError.status_code(), 500);
    assert_eq!(Error::IoError.status_code(), 500);
}

#[test]
fn test_from_allocation_error() {
    assert_eq!(
        Error::from_allocation_error(AllocationError::ChannelNotFound),
        Error::ChannelNotFound
    );
    assert_eq!(
        Error::from_allocation_error(AllocationError::ServiceUnavailable),
        Error::ServiceUnavailable
    );
}
