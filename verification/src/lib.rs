//! A low-level abstraction over tuners for the Japanese digital broadcasting
//! systems: ISDB-T, ISDB-S and ISDB-S3.
//!
//! Tuning is by broadcasting system, frequency and stream id; there is no
//! channel list. What the library does is stated in contracts and proved; the
//! transfers themselves, the clock and the sockets are left to the program.

use vstd::prelude::*;

pub mod align;
pub mod bda;
pub mod board;
pub mod bondriver;
pub mod browser;
pub mod cli;
pub mod client;
pub mod config;
pub mod cxd2856er;
pub mod cxd2858er;
pub mod daemon;
pub mod dvb;
pub mod error;
pub mod it930x;
pub mod ks;
pub mod listener;
pub mod lists;
pub mod mock;
pub mod models;
pub mod paths;
pub mod proto;
pub mod pt4k;
pub mod px4;
pub mod pxmlt;
pub mod r850;
pub mod registry;
pub mod rt710;
pub mod shadow;
pub mod single;
pub mod stream;
pub mod tc90522;
pub mod text;
pub mod traits;
pub mod types;
pub mod usb;

verus! {

} // verus!
