//! The decisions of a Cloudflare edge speed test.
//!
//! A latency test pings many addresses, by TCP connections ([`tcping`]), ICMP echo requests
//! ([`icmp`]) or HTTP requests ([`httping`]), and keeps the good ones ([`ping_run`]). A download
//! test ([`download`]) then measures the download speed of the good ones ([`transfer`]) until
//! enough of them are fast enough.
//!
//! The library does no input or output. It says what has to be done next, is told what came of
//! it, and decides what follows.

pub mod addr;
pub mod args;
pub mod common;
pub mod download;
pub mod httping;
pub mod icmp;
pub mod outside;
pub mod ping_loop;
pub mod ping_run;
pub mod progress;
pub mod single;
pub mod sort;
pub mod speed;
pub mod tcping;
pub mod text;
pub mod transfer;
