//! Pinging by ICMP echo requests.
use crate::addr::{Family, SocketAddr};
use crate::args::Args;
use crate::common::{create_base_ping, print_speed_test_info, Ping, PingData};
use crate::ping_loop::{LoopAction, LoopEvent, LoopView, PingLoop};
use crate::single::Single;
use std::sync::atomic::AtomicBool;
use std::sync::Arc;
use vstd::prelude::*;

verus! {

/// The wait after each answer, in milliseconds.
pub const WAIT_MS: u64 = 0;

/// What the tasks of an ICMP test share: one client for each address family.
pub struct IcmpingFactoryData<C> {
    pub client_v4: Arc<C>,
    pub client_v6: Arc<C>,
}

impl<C> Clone for IcmpingFactoryData<C> {
    fn clone(&self) -> (r: Self)
        ensures
            r == *self,
    {
        IcmpingFactoryData { client_v4: self.client_v4.clone(), client_v6: self.client_v6.clone() }
    }
}

/// The client that pings addresses of a family.
pub open spec fn client_of<C>(data: IcmpingFactoryData<C>, family: Family) -> Arc<C> {
    match family {
        Family::V4 => data.client_v4,
        Family::V6 { .. } => data.client_v6,
    }
}

/// IPv4 addresses are pinged by the one client and IPv6 addresses by the other, whatever their
/// scope.
pub proof fn each_family_has_its_client<C>(data: IcmpingFactoryData<C>, scope_id: u32)
    ensures
        client_of(data, Family::V4) == data.client_v4,
        client_of(data, Family::V6 { scope_id }) == data.client_v6,
{
}

impl<C> IcmpingFactoryData<C> {
    /// The client for the family of an address.
    pub fn client_for(&self, addr: &SocketAddr) -> (r: Arc<C>)
        ensures
            r == client_of(*self, addr@.family),
            r == (match addr@.family {
                Family::V4 => self.client_v4,
                Family::V6 { .. } => self.client_v6,
            }),
    {
        match addr.family {
            Family::V4 => self.client_v4.clone(),
            Family::V6 { .. } => self.client_v6.clone(),
        }
    }

    /// Begins the pings of one address.
    pub fn series(&self, args: &Args) -> (r: PingLoop)
        ensures
            r@ == LoopView::start(args.ping_times, WAIT_MS),
            r@.sound(),
    {
        PingLoop::new(args.ping_times, WAIT_MS)
    }

    /// The result of the pings of `addr`, given the average of their delays; no data center is
    /// found out.
    pub fn conclude(&self, series: &PingLoop, addr: SocketAddr, average: Single) -> (r: Option<
        PingData,
    >)
        requires
            series@.sound(),
        ensures
            crate::common::opt_ping(r) == series@.result(addr@, average, None),
    {
        series.conclude(addr, average, None)
    }
}

/// Announces an ICMP test; `loss` is the greatest loss rate that is kept, as it is shown.
pub fn announcement(args: &Args, loss: &str) -> (r: String)
    ensures
        r@ == crate::common::speed_test_info("ICMP-Ping"@, *args, loss@),
{
    print_speed_test_info("ICMP-Ping", args, loss)
}

/// Prepares an ICMP test of `total_expected` addresses, if both clients could be made.
pub fn new<C>(
    args: Arc<Args>,
    total_expected: usize,
    timeout_flag: Arc<AtomicBool>,
    client_v4: Option<C>,
    client_v6: Option<C>,
) -> (r: Option<Ping<IcmpingFactoryData<C>>>)
    ensures
        r is Some <==> client_v4 is Some && client_v6 is Some,
        r matches Some(ping) ==> {
            &&& crate::common::is_fresh(ping.base, args, total_expected, timeout_flag)
            &&& *ping.factory_data.client_v4 == client_v4->0
            &&& *ping.factory_data.client_v6 == client_v6->0
        },
{
    let base = create_base_ping(args, total_expected, timeout_flag);
    match (client_v4, client_v6) {
        (Some(v4), Some(v6)) => Some(
            Ping::new(
                base,
                IcmpingFactoryData { client_v4: Arc::new(v4), client_v6: Arc::new(v6) },
            ),
        ),
        _ => None,
    }
}

/// An answer to an ICMP ping is followed by no wait worth the name: its length is zero.
pub proof fn icmp_pings_do_not_wait(args: Args, delay: Single)
    requires
        args.ping_times > 0,
    ensures
        LoopView::start(args.ping_times, WAIT_MS).step(
            LoopEvent::Replied { delay: Some(delay) },
        ).action == (LoopAction::Sleep { millis: 0 }),
{
}

} // verus!
