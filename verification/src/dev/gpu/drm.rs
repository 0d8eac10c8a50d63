//! The Direct Render Manager (DRM).
use crate::util::version::SemVer;
use vstd::prelude::*;

verus! {

/// Features a DRM driver supports; no feature is defined yet.
#[derive(Debug, Clone, Copy, PartialEq, Eq, Structural)]
pub struct DrmFeatures {
    bits: u32,
}

/// A DRM driver.
pub struct DrmDriver {
    features: DrmFeatures,
    /// The name of the driver.
    name: &'static str,
    /// The description of the driver.
    desc: &'static str,
    /// The version of the driver.
    ver: SemVer,
}

/// The base DRM device.
pub struct DrmDevice {}

pub struct DrmModeConfig {}

pub struct DrmPlane {}

pub struct DrmCrtc {}

pub struct DrmEncoder {}

pub struct DrmConnector {}

} // verus!
