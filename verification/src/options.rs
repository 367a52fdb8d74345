//! Startup options handed in by the command-line collaborator, with
//! the defaults the service uses when a value is left out.

use vstd::prelude::*;

verus! {

/// The startup options: whether to host on all interfaces, an optional
/// port, and an optional maximum-view ceiling.
#[derive(Clone, Copy, Debug)]
pub struct Options {
    pub host_on_all_interfaces: bool,
    pub port: Option<u16>,
    pub max_views: Option<u64>,
}

impl Options {
    /// The configured maximum-view ceiling, defaulting to 10,400.
    pub fn max_views(&self) -> (r: u64)
        ensures
            r == match self.max_views {
                Some(v) => v,
                None => 10_400u64,
            },
    {
        match self.max_views {
            Some(v) => v,
            None => 10_400,
        }
    }

    /// The configured port, defaulting to 3030.
    pub fn port(&self) -> (r: u16)
        ensures
            r == match self.port {
                Some(p) => p,
                None => 3030u16,
            },
    {
        match self.port {
            Some(p) => p,
            None => 3030,
        }
    }
}

} // verus!
