//! Settings of the per-job resource monitor.

use vstd::prelude::*;

verus! {

/// How much the monitor records.
#[derive(Debug, Clone, Copy, PartialEq, Eq, Structural)]
pub enum MonitorGranularity {
    /// Peaks and averages per job.
    Summary,
    /// Every sample, in a database.
    TimeSeries,
}

/// Whether and how jobs' resource use is monitored.
#[derive(Debug, Clone, Copy, PartialEq, Eq, Structural)]
pub struct ResourceMonitorConfig {
    pub enabled: bool,
    pub granularity: MonitorGranularity,
    pub sample_interval_seconds: i32,
    pub generate_plots: bool,
}

impl Default for ResourceMonitorConfig {
    /// Monitoring off; when turned on, summaries from a sample every five
    /// seconds, without plots.
    fn default() -> (r: Self)
        ensures
            !r.enabled,
            r.granularity == MonitorGranularity::Summary,
            r.sample_interval_seconds == 5,
            !r.generate_plots,
    {
        ResourceMonitorConfig {
            enabled: false,
            granularity: MonitorGranularity::Summary,
            sample_interval_seconds: 5,
            generate_plots: false,
        }
    }
}

} // verus!
