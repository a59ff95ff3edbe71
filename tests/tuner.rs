use mirakc::config::{ChannelConfig, TunerConfig};
use mirakc::models::ChannelType;
use mirakc::tuner::{
    AllocationError, Grant, TunerManager, TunerState, TunerUser, TunerUserInfo, UserRecord,
};

fn tuner(name: &str, types: Vec<ChannelType>, disabled: bool) -> TunerConfig {
    TunerConfig {
        name: name.to_string(),
        channel_types: types,
        command: "cat".to_string(),
        disabled,
    }
}

fn channel(channel_type: ChannelType, channel: &str, disabled: bool) -> ChannelConfig {
    ChannelConfig {
        name: channel.to_string(),
        channel_type,
        channel: channel.to_string(),
        services: vec![],
        excluded_services: vec![],
        disabled,
    }
}

fn user(priority: i32) -> TunerUser {
    TunerUser {
        info: TunerUserInfo::Web { id: 0, agent: None },
        priority,
    }
}

fn users_of(manager: &TunerManager, i: usize) -> Vec<UserRecord> {
    match &manager.devices()[i].state {
        TunerState::Idle => vec![],
        TunerState::Tuned { users, .. } => users.clone(),
    }
}

fn gr_manager(n_tuners: usize) -> TunerManager {
    let tuners = (0..n_tuners)
        .map(|i| tuner(&format!("t{}", i), vec![ChannelType::GR], false))
        .collect();
    TunerManager::new(
        &tuners,
        vec![
            channel(ChannelType::GR, "ch", false),
            channel(ChannelType::GR, "ch2", false),
            channel(ChannelType::GR, "off", true),
        ],
    )
}

#[test]
fn test_new_devices_are_idle() {
    let manager = gr_manager(2);
    assert_eq!(manager.devices().len(), 2);
    for (i, d) in manager.devices().iter().enumerate() {
        assert_eq!(d.index, i);
        assert!(matches!(d.state, TunerState::Idle));
        assert_eq!(d.num_users(), 0);
    }
}

#[test]
fn test_same_channel_is_shared() {
    let mut manager = gr_manager(1);
    let a = manager.allocate(ChannelType::GR, "ch", &user(1)).unwrap();
    let b = manager.allocate(ChannelType::GR, "ch", &user(1)).unwrap();
    assert_eq!(a.grant, Grant::Tuned);
    assert_eq!(b.grant, Grant::Shared);
    assert_eq!(a.device, 0);
    assert_eq!(b.device, 0);
    assert_ne!(a.user_id, b.user_id);
    assert_eq!(manager.devices()[0].num_users(), 2);
    assert!(manager.devices()[0].is_tuned_to(ChannelType::GR, &"ch".to_string()));
}

#[test]
fn test_higher_priority_preempts() {
    let mut manager = gr_manager(1);
    let low = manager.allocate(ChannelType::GR, "ch", &user(1)).unwrap();
    let high = manager.allocate(ChannelType::GR, "ch2", &user(2)).unwrap();
    assert_eq!(high.grant, Grant::Preempted);
    assert_eq!(high.device, 0);
    assert_eq!(high.evicted, vec![UserRecord { id: low.user_id, priority: 1 }]);
    assert_eq!(
        users_of(&manager, 0),
        vec![UserRecord { id: high.user_id, priority: 2 }]
    );
    assert!(manager.devices()[0].is_tuned_to(ChannelType::GR, &"ch2".to_string()));
    // the displaced user is gone
    assert_eq!(manager.release(low.user_id), None);
}

#[test]
fn test_equal_priority_is_unavailable() {
    let mut manager = gr_manager(1);
    manager.allocate(ChannelType::GR, "ch", &user(1)).unwrap();
    let r = manager.allocate(ChannelType::GR, "ch2", &user(1));
    assert_eq!(r.unwrap_err(), AllocationError::ServiceUnavailable);
    assert_eq!(manager.devices()[0].num_users(), 1);
}

#[test]
fn test_lower_priority_is_unavailable() {
    let mut manager = gr_manager(1);
    manager.allocate(ChannelType::GR, "ch", &user(5)).unwrap();
    let r = manager.allocate(ChannelType::GR, "ch2", &user(4));
    assert_eq!(r.unwrap_err(), AllocationError::ServiceUnavailable);
}

#[test]
fn test_negative_priority_never_preempts() {
    let mut manager = gr_manager(1);
    manager.allocate(ChannelType::GR, "ch", &user(-5)).unwrap();
    let r = manager.allocate(ChannelType::GR, "ch2", &user(-1));
    assert_eq!(r.unwrap_err(), AllocationError::ServiceUnavailable);
}

#[test]
fn test_job_is_preempted_by_viewer() {
    let mut manager = gr_manager(1);
    let job = manager.allocate(ChannelType::GR, "ch", &user(-1)).unwrap();
    let viewer = manager.allocate(ChannelType::GR, "ch2", &user(0)).unwrap();
    assert_eq!(viewer.grant, Grant::Preempted);
    assert_eq!(viewer.evicted, vec![UserRecord { id: job.user_id, priority: -1 }]);
}

#[test]
fn test_weakest_device_is_preempted() {
    let mut manager = gr_manager(2);
    let _a = manager.allocate(ChannelType::GR, "ch", &user(3)).unwrap();
    let b = manager.allocate(ChannelType::GR, "ch2", &user(1)).unwrap();
    assert_eq!(b.device, 1);
    let c = manager.allocate(ChannelType::GR, "ch", &user(0));
    // "ch" is tuned on device 0: join it rather than preempt
    assert_eq!(c.unwrap().grant, Grant::Shared);
    manager.release(b.user_id);
    let d = manager.allocate(ChannelType::GR, "ch2", &user(1)).unwrap();
    assert_eq!(d.grant, Grant::Tuned);
    assert_eq!(d.device, 1);
}

#[test]
fn test_preempts_lowest_minimum_first_on_tie() {
    let tuners = vec![
        tuner("a", vec![ChannelType::GR], false),
        tuner("b", vec![ChannelType::GR], false),
    ];
    let mut manager = TunerManager::new(
        &tuners,
        vec![
            channel(ChannelType::GR, "x", false),
            channel(ChannelType::GR, "y", false),
            channel(ChannelType::GR, "z", false),
        ],
    );
    manager.allocate(ChannelType::GR, "x", &user(1)).unwrap();
    manager.allocate(ChannelType::GR, "y", &user(1)).unwrap();
    let r = manager.allocate(ChannelType::GR, "z", &user(2)).unwrap();
    assert_eq!(r.grant, Grant::Preempted);
    assert_eq!(r.device, 0);
}

#[test]
fn test_release_last_user_makes_idle() {
    let mut manager = gr_manager(1);
    let a = manager.allocate(ChannelType::GR, "ch", &user(1)).unwrap();
    let b = manager.allocate(ChannelType::GR, "ch", &user(1)).unwrap();
    assert_eq!(manager.release(a.user_id), Some(0));
    assert_eq!(manager.devices()[0].num_users(), 1);
    assert!(!manager.devices()[0].is_idle_now());
    assert_eq!(manager.release(b.user_id), Some(0));
    assert!(manager.devices()[0].is_idle_now());
    let c = manager.allocate(ChannelType::GR, "ch2", &user(0)).unwrap();
    assert_eq!(c.grant, Grant::Tuned);
    assert_eq!(c.device, 0);
}

#[test]
fn test_release_unknown_user() {
    let mut manager = gr_manager(1);
    assert_eq!(manager.release(42), None);
    let a = manager.allocate(ChannelType::GR, "ch", &user(1)).unwrap();
    assert_eq!(manager.release(a.user_id + 100), None);
    assert_eq!(manager.devices()[0].num_users(), 1);
}

#[test]
fn test_disabled_tuner_is_never_used() {
    let tuners = vec![
        tuner("off", vec![ChannelType::GR], true),
        tuner("on", vec![ChannelType::GR], false),
    ];
    let mut manager = TunerManager::new(&tuners, vec![channel(ChannelType::GR, "ch", false)]);
    let a = manager.allocate(ChannelType::GR, "ch", &user(1)).unwrap();
    assert_eq!(a.device, 1);
    manager.release(a.user_id);

    let only_disabled = vec![tuner("off", vec![ChannelType::GR], true)];
    let mut manager =
        TunerManager::new(&only_disabled, vec![channel(ChannelType::GR, "ch", false)]);
    assert_eq!(
        manager.allocate(ChannelType::GR, "ch", &user(1)).unwrap_err(),
        AllocationError::ChannelNotFound
    );
}

#[test]
fn test_disabled_channel_is_not_found() {
    let mut manager = gr_manager(1);
    assert_eq!(
        manager.allocate(ChannelType::GR, "off", &user(1)).unwrap_err(),
        AllocationError::ChannelNotFound
    );
    assert!(manager.devices()[0].is_idle_now());
}

#[test]
fn test_unknown_channel_or_type_is_not_found() {
    let mut manager = gr_manager(1);
    assert_eq!(
        manager.allocate(ChannelType::GR, "nowhere", &user(1)).unwrap_err(),
        AllocationError::ChannelNotFound
    );
    let tuners = vec![tuner("t", vec![ChannelType::BS], false)];
    let mut manager = TunerManager::new(&tuners, vec![channel(ChannelType::GR, "ch", false)]);
    assert_eq!(
        manager.allocate(ChannelType::GR, "ch", &user(1)).unwrap_err(),
        AllocationError::ChannelNotFound
    );
}

#[test]
fn test_device_type_support() {
    let tuners = vec![tuner("t", vec![ChannelType::BS, ChannelType::CS], false)];
    let manager = TunerManager::new(&tuners, vec![]);
    let d = &manager.devices()[0];
    assert!(d.supports_type(ChannelType::CS));
    assert!(!d.supports_type(ChannelType::GR));
    assert!(d.is_usable_for(ChannelType::BS));
    assert_eq!(d.lowest_priority(), i32::MAX);
}

#[test]
fn test_lowest_priority_of_users() {
    let mut manager = gr_manager(1);
    manager.allocate(ChannelType::GR, "ch", &user(7)).unwrap();
    manager.allocate(ChannelType::GR, "ch", &user(-3)).unwrap();
    manager.allocate(ChannelType::GR, "ch", &user(2)).unwrap();
    assert_eq!(manager.devices()[0].lowest_priority(), -3);
}
