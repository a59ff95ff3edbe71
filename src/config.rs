//! The server's static configuration and its documented defaults.
use vstd::prelude::*;
use vstd::string::StringExecFns;

use crate::models::{ChannelType, ServiceId};

verus! {

/// The whole configuration.  Every section has a default.
#[derive(Clone, Debug, PartialEq)]
pub struct Config {
    pub epg: EpgConfig,
    pub server: ServerConfig,
    pub channels: Vec<ChannelConfig>,
    pub tuners: Vec<TunerConfig>,
    pub filters: FiltersConfig,
    pub jobs: JobsConfig,
}

#[derive(Clone, Debug, PartialEq)]
pub struct EpgConfig {
    pub cache_dir: Option<String>,
}

#[derive(Clone, Debug, PartialEq)]
pub struct ServerConfig {
    pub address: String,
    pub port: u16,
    pub workers: usize,
}

#[derive(Clone, Debug, PartialEq)]
pub struct ChannelConfig {
    pub name: String,
    pub channel_type: ChannelType,
    pub channel: String,
    pub services: Vec<ServiceId>,
    pub excluded_services: Vec<ServiceId>,
    pub disabled: bool,
}

#[derive(Clone, Debug, PartialEq)]
pub struct TunerConfig {
    pub name: String,
    pub channel_types: Vec<ChannelType>,
    pub command: String,
    pub disabled: bool,
}

/// Command templates of the filters.  An empty template is an identity stage.
#[derive(Clone, Debug, PartialEq)]
pub struct FiltersConfig {
    pub pre_filter: String,
    pub service_filter: String,
    pub program_filter: String,
    pub post_filter: String,
}

#[derive(Clone, Debug, PartialEq)]
pub struct JobsConfig {
    pub scan_services: JobConfig,
    pub sync_clocks: JobConfig,
    pub update_schedules: JobConfig,
}

/// A background job: the collector command and its cron-like schedule.
#[derive(Clone, Debug, PartialEq)]
pub struct JobConfig {
    pub command: String,
    pub schedule: String,
}

pub open spec fn spec_default_server_port() -> u16 {
    40772
}

pub open spec fn spec_default_service_filter() -> Seq<char> {
    "mirakc-arib filter-service --sid={{sid}}"@
}

pub open spec fn spec_default_program_filter() -> Seq<char> {
    "mirakc-arib filter-program --sid={{sid}} --eid={{eid}} \
     --clock-pcr={{clock_pcr}} --clock-time={{clock_time}} \
     --start-margin=5000 --end-margin=5000 --pre-streaming"@
}

/// The server settings that apply when the file gives none.
pub open spec fn is_default_server(c: ServerConfig) -> bool {
    &&& c.address@ == "localhost"@
    &&& c.port == spec_default_server_port()
    &&& c.workers >= 1
}

/// The filter settings that apply when the file gives none.
pub open spec fn is_default_filters(c: FiltersConfig) -> bool {
    &&& c.pre_filter@.len() == 0
    &&& c.service_filter@ == spec_default_service_filter()
    &&& c.program_filter@ == spec_default_program_filter()
    &&& c.post_filter@.len() == 0
}

pub open spec fn is_job(c: JobConfig, command: Seq<char>, schedule: Seq<char>) -> bool {
    c.command@ == command && c.schedule@ == schedule
}

/// The job settings that apply when the file gives none.
pub open spec fn is_default_jobs(c: JobsConfig) -> bool {
    &&& is_job(c.scan_services, "mirakc-arib scan-services"@, "0 31 5 * * * *"@)
    &&& is_job(c.sync_clocks, "mirakc-arib sync-clocks"@, "0 3 12 * * * *"@)
    &&& is_job(c.update_schedules, "mirakc-arib collect-eits"@, "0 7,37 * * * * *"@)
}

/// Relies on num_cpus::get: the number of logical CPUs available to this
/// process, documented to be at least one.
#[verifier::external_body]
fn available_cpus() -> (r: usize)
    ensures
        r >= 1,
{
    num_cpus::get()
}

pub fn default_server_address() -> (r: String)
    ensures
        r@ == "localhost"@,
{
    String::from_str("localhost")
}

pub fn default_server_port() -> (r: u16)
    ensures
        r == spec_default_server_port(),
{
    40772
}

/// As many workers as there are CPUs available to the process.
pub fn default_server_workers() -> (r: usize)
    ensures
        r >= 1,
{
    available_cpus()
}

impl Default for EpgConfig {
    fn default() -> (r: Self)
        ensures
            r.cache_dir is None,
    {
        EpgConfig { cache_dir: None }
    }
}

impl Default for ServerConfig {
    fn default() -> (r: Self)
        ensures
            is_default_server(r),
    {
        ServerConfig {
            address: default_server_address(),
            port: default_server_port(),
            workers: default_server_workers(),
        }
    }
}

pub fn default_service_filter() -> (r: String)
    ensures
        r@ == "mirakc-arib filter-service --sid={{sid}}"@,
{
    String::from_str("mirakc-arib filter-service --sid={{sid}}")
}

/// The program filter streams PSI/SI packets before the programme starts
/// (`--pre-streaming`), so that clients receive a decodable stream at once.
pub fn default_program_filter() -> (r: String)
    ensures
        r@ == spec_default_program_filter(),
{
    String::from_str(
        "mirakc-arib filter-program --sid={{sid}} --eid={{eid}} \
         --clock-pcr={{clock_pcr}} --clock-time={{clock_time}} \
         --start-margin=5000 --end-margin=5000 --pre-streaming",
    )
}

impl Default for FiltersConfig {
    fn default() -> (r: Self)
        ensures
            is_default_filters(r),
    {
        FiltersConfig {
            pre_filter: String::new(),
            service_filter: default_service_filter(),
            program_filter: default_program_filter(),
            post_filter: String::new(),
        }
    }
}

pub fn default_scan_services_job() -> (r: JobConfig)
    ensures
        r.command@ == "mirakc-arib scan-services"@,
        r.schedule@ == "0 31 5 * * * *"@,
{
    JobConfig {
        command: String::from_str("mirakc-arib scan-services"),
        schedule: String::from_str("0 31 5 * * * *"),
    }
}

pub fn default_sync_clocks_job() -> (r: JobConfig)
    ensures
        r.command@ == "mirakc-arib sync-clocks"@,
        r.schedule@ == "0 3 12 * * * *"@,
{
    JobConfig {
        command: String::from_str("mirakc-arib sync-clocks"),
        schedule: String::from_str("0 3 12 * * * *"),
    }
}

pub fn default_update_schedules_job() -> (r: JobConfig)
    ensures
        r.command@ == "mirakc-arib collect-eits"@,
        r.schedule@ == "0 7,37 * * * * *"@,
{
    JobConfig {
        command: String::from_str("mirakc-arib collect-eits"),
        schedule: String::from_str("0 7,37 * * * * *"),
    }
}

impl Default for JobsConfig {
    fn default() -> (r: Self)
        ensures
            is_default_jobs(r),
    {
        JobsConfig {
            scan_services: default_scan_services_job(),
            sync_clocks: default_sync_clocks_job(),
            update_schedules: default_update_schedules_job(),
        }
    }
}

impl Default for Config {
    fn default() -> (r: Self)
        ensures
            r.epg.cache_dir is None,
            is_default_server(r.server),
            r.channels@.len() == 0,
            r.tuners@.len() == 0,
            is_default_filters(r.filters),
            is_default_jobs(r.jobs),
    {
        Config {
            epg: EpgConfig::default(),
            server: ServerConfig::default(),
            channels: Vec::new(),
            tuners: Vec::new(),
            filters: FiltersConfig::default(),
            jobs: JobsConfig::default(),
        }
    }
}

} // verus!
