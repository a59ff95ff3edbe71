use mirakc::config::{
    default_program_filter, default_scan_services_job, default_server_address,
    default_server_port, default_server_workers, default_service_filter,
    default_sync_clocks_job, default_update_schedules_job, Config, EpgConfig, FiltersConfig,
    JobConfig, JobsConfig, ServerConfig,
};

#[test]
fn test_epg_config() {
}

#[test]
fn test_default_epg_config() {
    assert_eq!(EpgConfig::default(), EpgConfig { cache_dir: None });
}

#[test]
fn test_default_server_config() {
    let config = ServerConfig::default();
    assert_eq!(config.address, "localhost".to_string());
    assert_eq!(config.port, 40772);
    assert!(config.workers >= 1);
    assert_eq!(default_server_address(), "localhost".to_string());
    assert_eq!(default_server_port(), 40772);
    assert!(default_server_workers() >= 1);
    assert_eq!(
        config,
        ServerConfig {
            address: default_server_address(),
            port: default_server_port(),
            workers: default_server_workers(),
        }
    );
}

#[test]
fn test_default_filters_config() {
    assert_eq!(
        FiltersConfig::default(),
        FiltersConfig {
            pre_filter: String::new(),
            service_filter: default_service_filter(),
            program_filter: default_program_filter(),
            post_filter: String::new(),
        }
    );
    assert_eq!(
        default_service_filter(),
        "mirakc-arib filter-service --sid={{sid}}".to_string()
    );
    assert_eq!(
        default_program_filter(),
        "mirakc-arib filter-program --sid={{sid}} --eid={{eid}} \
         --clock-pcr={{clock_pcr}} --clock-time={{clock_time}} \
         --start-margin=5000 --end-margin=5000 --pre-streaming"
            .to_string()
    );
}

#[test]
fn test_default_jobs_config() {
    assert_eq!(
        default_scan_services_job(),
        JobConfig {
            command: "mirakc-arib scan-services".to_string(),
            schedule: "0 31 5 * * * *".to_string(),
        }
    );
    assert_eq!(
        default_sync_clocks_job(),
        JobConfig {
            command: "mirakc-arib sync-clocks".to_string(),
            schedule: "0 3 12 * * * *".to_string(),
        }
    );
    assert_eq!(
        default_update_schedules_job(),
        JobConfig {
            command: "mirakc-arib collect-eits".to_string(),
            schedule: "0 7,37 * * * * *".to_string(),
        }
    );
    assert_eq!(
        JobsConfig::default(),
        JobsConfig {
            scan_services: default_scan_services_job(),
            sync_clocks: default_sync_clocks_job(),
            update_schedules: default_update_schedules_job(),
        }
    );
}

#[test]
fn test_default_config() {
    let config = Config::default();
    assert_eq!(
        config,
        Config {
            epg: EpgConfig { cache_dir: None },
            server: ServerConfig::default(),
            channels: vec![],
            tuners: vec![],
            filters: FiltersConfig::default(),
            jobs: JobsConfig::default(),
        }
    );
}
