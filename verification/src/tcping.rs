//! Pinging by opening a TCP connection.
use crate::addr::SocketAddr;
use crate::args::Args;
use crate::common::{create_base_ping, print_speed_test_info, Ping, PingData};
use crate::ping_loop::{LoopAction, LoopEvent, LoopView, PingLoop};
use crate::single::Single;
use std::sync::atomic::AtomicBool;
use std::sync::Arc;
use vstd::prelude::*;

verus! {

/// The wait after each answer, in milliseconds.
pub const WAIT_MS: u64 = 200;

/// How long a connection is waited for, in milliseconds.
pub const CONNECT_TIMEOUT_MS: u64 = 1000;

/// What the tasks of a TCP test share: the network interface that is used.
pub struct TcpingFactoryData<I> {
    pub interface_config: Arc<I>,
}

impl<I> Clone for TcpingFactoryData<I> {
    fn clone(&self) -> (r: Self)
        ensures
            r == *self,
    {
        TcpingFactoryData { interface_config: self.interface_config.clone() }
    }
}

impl<I> TcpingFactoryData<I> {
    /// Begins the pings of one address.
    pub fn series(&self, args: &Args) -> (r: PingLoop)
        ensures
            r@ == LoopView::start(args.ping_times, WAIT_MS),
            r@.sound(),
    {
        PingLoop::new(args.ping_times, WAIT_MS)
    }

    /// The result of the pings of `addr`, given the average of their delays; no data center is
    /// found out.
    pub fn conclude(&self, series: &PingLoop, addr: SocketAddr, average: Single) -> (r: Option<
        PingData,
    >)
        requires
            series@.sound(),
        ensures
            crate::common::opt_ping(r) == series@.result(addr@, average, None),
    {
        series.conclude(addr, average, None)
    }
}

/// Announces a TCP test; `loss` is the greatest loss rate that is kept, as it is shown.
pub fn announcement(args: &Args, loss: &str) -> (r: String)
    ensures
        r@ == crate::common::speed_test_info("Tcping"@, *args, loss@),
{
    print_speed_test_info("Tcping", args, loss)
}

/// Prepares a TCP test of `total_expected` addresses.
pub fn new<I>(
    args: Arc<Args>,
    interface_config: Arc<I>,
    total_expected: usize,
    timeout_flag: Arc<AtomicBool>,
) -> (r: Ping<TcpingFactoryData<I>>)
    ensures
        crate::common::is_fresh(r.base, args, total_expected, timeout_flag),
        r.factory_data.interface_config == interface_config,
{
    let base = create_base_ping(args, total_expected, timeout_flag);
    Ping::new(base, TcpingFactoryData { interface_config })
}

/// Each answer to a TCP ping is followed by a wait of a fifth of a second.
pub proof fn tcp_pings_wait_after_an_answer(args: Args, delay: Single)
    requires
        args.ping_times > 0,
    ensures
        LoopView::start(args.ping_times, WAIT_MS).step(
            LoopEvent::Replied { delay: Some(delay) },
        ).action == (LoopAction::Sleep { millis: 200 }),
{
}

} // verus!
