//! Identifiers and timestamps of the recording console's domain.
//!
//! Identifiers are UUIDs, held as their 128-bit value; timestamps are microseconds since the Unix
//! epoch, in UTC.

use vstd::prelude::*;

verus! {

/// A mocap team.
#[derive(Debug, Clone, Copy, PartialEq, Eq, Structural, Hash)]
pub struct MocapTeamId(pub u128);

/// A mocap studio of a team.
#[derive(Debug, Clone, Copy, PartialEq, Eq, Structural, Hash)]
pub struct MocapStudioId(pub u128);

/// A camera of a studio.
#[derive(Debug, Clone, Copy, PartialEq, Eq, Structural, Hash)]
pub struct CameraId(pub u128);

/// A take recorded in a studio.
#[derive(Debug, Clone, Copy, PartialEq, Eq, Structural, Hash)]
pub struct TakeId(pub u128);

/// A video of a take.
#[derive(Debug, Clone, Copy, PartialEq, Eq, Structural, Hash)]
pub struct VideoId(pub u128);

/// An event in a studio's event log.
#[derive(Debug, Clone, Copy, PartialEq, Eq, Structural, Hash)]
pub struct StudioEventId(pub u128);

/// An entry of a studio's operator log.
#[derive(Debug, Clone, Copy, PartialEq, Eq, Structural, Hash)]
pub struct StudioLogId(pub u128);

/// The key of a user group in the external identity provider.
#[derive(Debug, Clone, PartialEq, Eq, Hash)]
pub struct ExternalGroupKey(pub String);

/// A point in time: microseconds since the Unix epoch, UTC.
#[derive(Debug, Clone, Copy, PartialEq, Eq, Structural, PartialOrd, Ord, Hash)]
pub struct Timestamp(pub i64);

} // verus!
