//! Resource readout arithmetic. The host samples the machine; this module
//! turns the raw numbers into readouts and owns the log-throttling state,
//! so no global state is needed anywhere.
use vstd::prelude::*;

verus! {

/// How many seconds lie between two statistics log lines.
pub const STATS_LOG_PERIOD_SECS: u64 = 60;

/// Turns raw samples into readouts and throttles their logging.
pub struct SystemMonitor {
    last_log_time: Option<u64>,
}

impl SystemMonitor {
    /// When statistics were last logged, if ever.
    pub closed spec fn last_log_view(self) -> Option<u64> {
        self.last_log_time
    }

    pub fn new() -> (r: SystemMonitor)
        ensures
            r.last_log_view() is None,
    {
        SystemMonitor { last_log_time: None }
    }

    /// Memory use in tenths of a percent, zero when no memory is reported.
    /// No machine reports more used than total memory.
    pub fn calculate_memory_usage(&self, total_memory: u64, used_memory: u64) -> (r: u64)
        requires
            used_memory <= total_memory,
        ensures
            total_memory == 0 ==> r == 0,
            total_memory > 0 ==> r as int == (used_memory as int) * 1000 / (total_memory as int),
    {
        if total_memory == 0 {
            0
        } else {
            let wide: u128 = (used_memory as u128) * 1000 / (total_memory as u128);
            proof {
                let u = used_memory as int;
                let t = total_memory as int;
                assert(u * 1000 / t <= 1000) by (nonlinear_arith)
                    requires
                        t >= 1,
                        0 <= u <= t,
                ;
            }
            wide as u64
        }
    }

    /// The simulated network counters: a deterministic function of the
    /// clock, as bytes received and transmitted.
    pub fn simulate_network_usage(&self, timestamp: u64) -> (r: (u64, u64))
        ensures
            r.0 == (timestamp % 1000) * 1048576,
            r.1 == (timestamp % 500) * 1048576,
    {
        ((timestamp % 1000) * 1048576, (timestamp % 500) * 1048576)
    }

    /// The full readout from one sample: memory in tenths of a percent, the
    /// processor figure passed through, and the simulated network pair.
    pub fn get_system_stats(
        &self,
        total_memory: u64,
        used_memory: u64,
        cpu_usage_tenths: u64,
        timestamp: u64,
    ) -> (r: (u64, u64, (u64, u64)))
        requires
            used_memory <= total_memory,
        ensures
            total_memory == 0 ==> r.0 == 0,
            total_memory > 0 ==> r.0 as int == (used_memory as int) * 1000 / (
            total_memory as int),
            r.1 == cpu_usage_tenths,
            r.2.0 == (timestamp % 1000) * 1048576,
            r.2.1 == (timestamp % 500) * 1048576,
    {
        let memory = self.calculate_memory_usage(total_memory, used_memory);
        let network = self.simulate_network_usage(timestamp);
        (memory, cpu_usage_tenths, network)
    }

    /// Whether statistics are due to be logged now: the first call only
    /// arms the throttle, later calls say yes once a full period has
    /// passed, and saying yes re-arms it.
    pub fn should_log_stats(&mut self, now: u64) -> (r: bool)
        ensures
            (match old(self).last_log_view() {
                Option::None => r == false && final(self).last_log_view() == Option::Some(now),
                Option::Some(t) => if now >= t + STATS_LOG_PERIOD_SECS {
                    r == true && final(self).last_log_view() == Option::Some(now)
                } else {
                    r == false && final(self).last_log_view() == Option::Some(t)
                },
            }),
    {
        match self.last_log_time {
            None => {
                self.last_log_time = Some(now);
                false
            },
            Some(t) => {
                if now >= t && now - t >= STATS_LOG_PERIOD_SECS {
                    self.last_log_time = Some(now);
                    true
                } else {
                    false
                }
            },
        }
    }
}

} // verus!
