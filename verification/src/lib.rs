//! Bus arrival detection: GPS localization along a route and per-stop
//! arrival/departure detection, in fixed-point integer arithmetic.

pub mod model;
pub mod filters;
pub mod heading;
pub mod projection;
pub mod search;
pub mod hysteresis;
pub mod kalman;
pub mod state_machine;
pub mod corridor;
pub mod probability;
pub mod recovery;
pub mod detection;
pub mod localization;
pub mod nmea;
pub mod paths;
pub mod output;

use vstd::prelude::*;

verus! {

} // verus!
