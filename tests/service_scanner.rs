use mirakc::epg::{EpgChannel, EpgService, TsService};
use mirakc::models::{ChannelType, ServiceId};
use mirakc::service_scanner::{output_has_data, ScanOutcome, ServiceScanner};
use mirakc::tuner::TunerUserInfo;

fn epg_channel(name: &str) -> EpgChannel {
    EpgChannel {
        name: name.to_string(),
        channel_type: ChannelType::GR,
        channel: name.to_string(),
        services: vec![ServiceId(1)],
        excluded_services: vec![ServiceId(100)],
    }
}

fn ts_service(sid: u16, name: &str) -> TsService {
    TsService {
        nid: 1,
        tsid: 2,
        sid,
        service_type: 1,
        logo_id: -1,
        remote_control_key_id: 3,
        name: name.to_string(),
    }
}

#[test]
fn test_scanner_new() {
    let scanner = ServiceScanner::new("scan".to_string(), vec![epg_channel("a")]);
    assert_eq!(scanner.command(), "scan");
    assert_eq!(scanner.current_channel().unwrap().name, "a");
    assert!(!scanner.is_done());
}

#[test]
fn test_scanner_tuner_user() {
    let user = ServiceScanner::tuner_user();
    assert_eq!(user.priority, -1);
    assert_eq!(user.info, TunerUserInfo::Job { name: "service-scanner".to_string() });
}

#[test]
fn test_output_has_data() {
    assert!(!output_has_data(&vec![]));
    assert!(!output_has_data(&b" \n\t\r\n".to_vec()));
    assert!(output_has_data(&b"[]".to_vec()));
    assert!(output_has_data(&b"\n x".to_vec()));
}

#[test]
fn test_empty_output_yields_no_records_and_moves_on() {
    let mut scanner =
        ServiceScanner::new("scan".to_string(), vec![epg_channel("a"), epg_channel("b")]);
    assert!(!output_has_data(&vec![]));
    scanner.record_outcome(ScanOutcome::Records(vec![]));
    assert_eq!(scanner.current_channel().unwrap().name, "b");
    assert!(scanner.failed_channels().is_empty());
    scanner.record_outcome(ScanOutcome::Records(vec![ts_service(5, "five")]));
    assert!(scanner.is_done());
    assert!(scanner.current_channel().is_none());
    let services = scanner.into_services();
    assert_eq!(services.len(), 1);
    assert_eq!(services[0].sid, 5);
    assert_eq!(services[0].channel.name, "b");
}

#[test]
fn test_failures_are_isolated() {
    let mut scanner = ServiceScanner::new(
        "scan".to_string(),
        vec![epg_channel("a"), epg_channel("b"), epg_channel("c")],
    );
    scanner.record_outcome(ScanOutcome::Records(vec![ts_service(1, "one"), ts_service(2, "two")]));
    scanner.record_outcome(ScanOutcome::NotStarted);
    scanner.record_outcome(ScanOutcome::Malformed);
    assert!(scanner.is_done());
    assert_eq!(scanner.failed_channels(), &vec![1, 2]);
    let services = scanner.into_services();
    assert_eq!(services.len(), 2);
    assert_eq!(services[1].name, "two");
    assert_eq!(services[1].channel, epg_channel("a"));
}

#[test]
fn test_service_from_ts_service() {
    let channel = epg_channel("x");
    let sv = ts_service(9, "nine");
    let s = EpgService::from_ts_service(&channel, &sv);
    assert_eq!(
        s,
        EpgService {
            nid: 1,
            tsid: 2,
            sid: 9,
            service_type: 1,
            logo_id: -1,
            remote_control_key_id: 3,
            name: "nine".to_string(),
            channel: epg_channel("x"),
        }
    );
    assert_eq!(channel.duplicate(), channel);
}
