//! Startup configuration of the switch.
//!
//! Parsing the command line and turning address strings into socket
//! addresses is I/O-side work; the types here carry the chosen values,
//! and the getters read the fields the two roles share.

use vstd::prelude::*;

verus! {

/// Which role the process plays, with that role's settings.
#[derive(Debug, Clone)]
pub enum Mode {
    /// Hub role: accept spokes on `listen`.
    Server { listen: String, tun_name: String, mtu: usize },
    /// Spoke role: tunnel to the hub at `server`.
    Client { server: String, tun_name: String, mtu: usize },
}

/// The process configuration, consumed once at startup.
#[derive(Debug, Clone)]
pub struct Config {
    /// Log verbosity, as a level name.
    pub log_level: String,
    /// The selected role and its settings.
    pub mode: Mode,
}

/// The interface name a mode carries.
pub open spec fn spec_tun_name(m: Mode) -> Seq<char> {
    match m {
        Mode::Server { tun_name, .. } => tun_name@,
        Mode::Client { tun_name, .. } => tun_name@,
    }
}

/// The interface MTU a mode carries.
pub open spec fn spec_mtu(m: Mode) -> usize {
    match m {
        Mode::Server { mtu, .. } => mtu,
        Mode::Client { mtu, .. } => mtu,
    }
}

impl Config {
    /// The name of the local interface device to open.
    pub fn get_tun_name(&self) -> (r: &String)
        ensures
            r@ == spec_tun_name(self.mode),
    {
        match &self.mode {
            Mode::Server { tun_name, .. } => tun_name,
            Mode::Client { tun_name, .. } => tun_name,
        }
    }

    /// The MTU the local interface device is configured with.
    pub fn get_mtu(&self) -> (r: usize)
        ensures
            r == spec_mtu(self.mode),
    {
        match &self.mode {
            Mode::Server { mtu, .. } => *mtu,
            Mode::Client { mtu, .. } => *mtu,
        }
    }
}

} // verus!
