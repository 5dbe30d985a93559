//! Mocap teams and their studios, as stored.

use vstd::prelude::*;

use crate::ids::{ExternalGroupKey, MocapStudioId, MocapTeamId, Timestamp};

verus! {

/// A mocap team: a user group of the external identity provider that records here.
#[derive(Debug, Clone, PartialEq, Eq)]
pub struct MocapTeam {
    pub id: MocapTeamId,
    pub external_usergroup_key: ExternalGroupKey,
    pub created_at: Timestamp,
}

/// A studio of a team, as stored.
#[derive(Debug, Clone, PartialEq, Eq)]
pub struct MocapStudio {
    pub id: MocapStudioId,
    pub team_id: MocapTeamId,
    pub name: String,
    pub status: MocapStudioStatus,
    pub last_event_sequence_number: StudioEventSequenceNumber,
    pub created_at: Timestamp,
    pub updated_at: Timestamp,
}

/// The place of an event in a studio's event log.
#[derive(Debug, Clone, Copy, PartialEq, Eq, Structural, PartialOrd, Ord, Hash)]
pub struct StudioEventSequenceNumber(pub u64);

/// The changes to make to a studio; `None` leaves a field as it is.
#[derive(Debug, Clone, Copy, PartialEq, Eq, Structural)]
pub struct UpdateMocapStudioParams {
    pub status: Option<MocapStudioStatus>,
    pub last_event_sequence_number: Option<StudioEventSequenceNumber>,
}

impl Default for UpdateMocapStudioParams {
    fn default() -> (p: Self)
        ensures
            p.status is None,
            p.last_event_sequence_number is None,
    {
        UpdateMocapStudioParams { status: None, last_event_sequence_number: None }
    }
}

/// The changes to make to a team; `None` leaves a field as it is.
#[derive(Debug, Clone, PartialEq, Eq)]
pub struct UpdateMocapTeamParams {
    pub external_usergroup_key: Option<ExternalGroupKey>,
}

impl Default for UpdateMocapTeamParams {
    fn default() -> (p: Self)
        ensures
            p.external_usergroup_key is None,
    {
        UpdateMocapTeamParams { external_usergroup_key: None }
    }
}

/// What a studio is doing.
#[derive(Debug, Clone, Copy, PartialEq, Eq, Structural)]
pub enum MocapStudioStatus {
    Capturing,
    Idle,
    Closed,
}

} // verus!
