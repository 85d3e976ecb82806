//! The settings of a speed test.
use crate::single::Single;
use vstd::prelude::*;

verus! {

/// A bound on delays.
#[derive(Clone, Copy, Debug, PartialEq, Eq, Structural)]
pub struct DelayBound {
    /// The bound in whole milliseconds, as it is shown.
    pub millis: u128,
    /// The same number of milliseconds, as delays are compared with it.
    pub number: Single,
}

/// The settings that the decisions of the library depend on.
#[derive(Debug)]
pub struct Args {
    /// The port that addresses are tested on.
    pub tcp_port: u16,
    /// The least delay of a result that is kept.
    pub min_delay: DelayBound,
    /// The greatest delay of a result that is kept.
    pub max_delay: DelayBound,
    /// The greatest loss rate of a result that is kept.
    pub max_loss_rate: Single,
    /// How often each address is pinged.
    pub ping_times: u16,
    /// How many good addresses are enough, if a limit is set.
    pub target_num: Option<usize>,
    /// The URL of an HTTP ping.
    pub httping: Option<String>,
    /// The data centers that are wanted, separated by commas.
    pub httping_cf_colo: String,
    /// The status codes that are wanted, separated by commas.
    pub httping_code: String,
    /// How many results the download test looks for.
    pub test_count: usize,
    /// The least download speed of a result that is kept, in bytes per second.
    pub min_speed: Single,
    /// How long one download is measured, in nanoseconds.
    pub timeout_nanos: Option<u128>,
}

} // verus!
