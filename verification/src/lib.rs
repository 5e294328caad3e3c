//! A reachability probe for IPv4 hosts: one ICMP Echo Request is sent to each
//! target, replies are matched to requests by their source address, and a
//! target that has not replied within a second is reported as timed out.
//!
//! The library holds what such a probe decides and computes, verified with
//! Verus:
//!
//! - [`checksum`]: the Internet checksum of a message, and why a message that
//!   carries its own checksum validates;
//! - [`echo`]: the layout of an Echo message and its construction;
//! - [`datagram`]: the IPv4 datagram around an Echo Request, built with
//!   `pnet`, and the reading of the Echo header of a datagram that came in;
//! - [`clock`]: points in time and the milliseconds between them;
//! - [`ledger`]: the record of every probe, from pending to resolved or timed
//!   out;
//! - [`dispatch`]: the steps of a run, each from the ledger and an event to
//!   the changed ledger and what is to be sent or reported.
//!
//! Sockets, threads and the console are left to the program that uses the
//! library.

pub mod checksum;
pub mod clock;
pub mod datagram;
pub mod dispatch;
pub mod echo;
pub mod ledger;
