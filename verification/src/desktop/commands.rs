//! The plain requests the desktop front end sends to the bridge.

use vstd::prelude::*;

verus! {

/// Where to connect: the bundled simulator at an `IP:port` address.
#[derive(Clone, Debug)]
pub enum EndpointDto {
    Simulator { address: String },
}

/// The access profile the user works under.
#[derive(Clone, Copy, Debug, PartialEq, Eq, Structural)]
pub enum AccessProfileId {
    Owner,
    Tuner,
    Observer,
}

/// A telemetry subscription asked for by the front end.
#[derive(Clone, Debug)]
pub struct TelemetrySubscriptionRequestDto {
    pub channel_ids: Vec<u32>,
    pub sample_rate_hz: u16,
}

} // verus!
