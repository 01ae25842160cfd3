//! The platform layer for systems whose DNS configuration cannot be changed.
use vstd::prelude::*;
use crate::platform::{DnsSetting, DnsSnapshot, PlatformDns, PlatformError};

verus! {

/// Refuses every operation.
pub struct UnsupportedDns;

impl PlatformDns for UnsupportedDns {
    fn snapshot(&mut self) -> (r: Result<DnsSnapshot, PlatformError>)
        ensures
            r == Err::<DnsSnapshot, PlatformError>(PlatformError::Unsupported),
    {
        Err(PlatformError::Unsupported)
    }

    fn point_at_self(&mut self, services: &Vec<String>) -> (r: Result<(), PlatformError>)
        ensures
            r == Err::<(), PlatformError>(PlatformError::Unsupported),
    {
        Err(PlatformError::Unsupported)
    }

    fn restore(&mut self, snap: &DnsSnapshot) -> (r: Result<(), PlatformError>)
        ensures
            r == Err::<(), PlatformError>(PlatformError::Unsupported),
    {
        Err(PlatformError::Unsupported)
    }

    fn current_setting(&mut self, service: &str) -> (r: Result<DnsSetting, PlatformError>)
        ensures
            r == Err::<DnsSetting, PlatformError>(PlatformError::Unsupported),
    {
        Err(PlatformError::Unsupported)
    }
}

}
