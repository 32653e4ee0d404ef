//! Startup configuration.

use vstd::prelude::*;

verus! {

/// Why a configuration is refused.
#[derive(Clone, Copy, Debug, PartialEq, Eq, Structural)]
pub enum ConfigError {
    /// Both a virtual interface and a physical output interface were named.
    BothEgress,
    /// Neither was named.
    NoEgress,
}

/// The gateway's configuration: the capture interface, exactly one egress,
/// and the admitted VNIs (none given admits all).
pub struct Args {
    pub input: String,
    pub tap: Option<String>,
    pub output: Option<String>,
    pub vni: Vec<u32>,
}

impl Args {
    /// Accepts a configuration that names exactly one egress.
    pub fn validate(&self) -> (r: Result<(), ConfigError>)
        ensures
            self.tap.is_some() && self.output.is_some() <==> r == Err::<(), ConfigError>(
                ConfigError::BothEgress,
            ),
            self.tap.is_none() && self.output.is_none() <==> r == Err::<(), ConfigError>(
                ConfigError::NoEgress,
            ),
            self.tap.is_some() != self.output.is_some() <==> r is Ok,
    {
        match (&self.tap, &self.output) {
            (Some(_), Some(_)) => Err(ConfigError::BothEgress),
            (None, None) => Err(ConfigError::NoEgress),
            _ => Ok(()),
        }
    }
}

} // verus!
