//! Data providers that report nothing: the stand-ins used on platforms or
//! builds without battery, GPU or container support. They carry no state, so
//! every value of them is the same.

use vstd::prelude::*;

verus! {

/// A battery provider that reports no batteries.
pub struct NoopBatteryProvider;

impl NoopBatteryProvider {
    /// The provider (it has no state).
    pub fn new() -> (r: Self)
        ensures
            r == NoopBatteryProvider,
    {
        NoopBatteryProvider
    }
}

impl Default for NoopBatteryProvider {
    fn default() -> (r: Self)
        ensures
            r == NoopBatteryProvider,
    {
        NoopBatteryProvider
    }
}

/// A container provider that reports no containers.
pub struct NoopDockerProvider;

impl NoopDockerProvider {
    /// The provider (it has no state).
    pub fn new() -> (r: Self)
        ensures
            r == NoopDockerProvider,
    {
        NoopDockerProvider
    }
}

impl Default for NoopDockerProvider {
    fn default() -> (r: Self)
        ensures
            r == NoopDockerProvider,
    {
        NoopDockerProvider
    }
}

/// A GPU provider that reports no GPUs.
pub struct NoopGpuProvider;

impl NoopGpuProvider {
    /// The provider (it has no state).
    pub fn new() -> (r: Self)
        ensures
            r == NoopGpuProvider,
    {
        NoopGpuProvider
    }
}

impl Default for NoopGpuProvider {
    fn default() -> (r: Self)
        ensures
            r == NoopGpuProvider,
    {
        NoopGpuProvider
    }
}

} // verus!
