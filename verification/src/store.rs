//! Rows of the team store: reading teams and studios back from their stored text, and which
//! columns an update of a studio writes.

use vstd::prelude::*;

use crate::ids::{ExternalGroupKey, MocapStudioId, MocapTeamId, Timestamp};
use crate::team::{
    MocapStudio, MocapStudioStatus, MocapTeam, StudioEventSequenceNumber, UpdateMocapStudioParams,
};
use crate::text::{chars_of, str_equals, string_from_str, string_of};

verus! {

#[verifier::external_type_specification]
#[verifier::external_body]
pub struct ExUuidError(uuid::Error);

/// The 128-bit value of the UUID that `text` spells, if it spells one.
pub uninterp spec fn uuid_of_text(text: Seq<char>) -> Option<u128>;

/// Calls `uuid::Uuid::parse_str`, which accepts the simple, hyphenated, braced and URN forms of
/// a UUID, and takes the parsed UUID's value with `Uuid::as_u128`. Claims only that the result is
/// a function of the text.
#[verifier::external_body]
fn parse_uuid_text(text: &str) -> (r: Result<u128, uuid::Error>)
    ensures
        match r {
            Ok(v) => uuid_of_text(text@) == Some(v),
            Err(_) => uuid_of_text(text@) is None,
        },
{
    match uuid::Uuid::parse_str(text) {
        Ok(u) => Ok(u.as_u128()),
        Err(e) => Err(e),
    }
}

/// A team row as read from the store.
#[derive(Debug, Clone)]
pub struct TeamRow {
    pub id: String,
    pub external_usergroup_key: String,
    pub created_at: Timestamp,
}

/// A studio row as read from the store.
#[derive(Debug, Clone)]
pub struct StudioRow {
    pub id: String,
    pub team_id: String,
    pub name: String,
    pub status: String,
    pub last_event_sequence_number: i64,
    pub created_at: Timestamp,
    pub updated_at: Timestamp,
}

/// Why a stored row could not be read.
#[derive(Debug, Clone, PartialEq, Eq)]
pub enum RowError {
    /// A UUID column holds text that is no UUID.
    InvalidUuid(String),
    /// The status column holds no known status.
    InvalidStatus(String),
    /// The sequence number is negative.
    NegativeSequenceNumber,
}

/// The texts of [`RowError`]'s messages.
pub open spec fn row_error_text(e: RowError) -> Seq<char> {
    match e {
        RowError::InvalidUuid(v) => "invalid uuid value: "@ + v@,
        RowError::InvalidStatus(v) => "invalid mocap studio status: "@ + v@,
        RowError::NegativeSequenceNumber => "last_event_sequence_number must be non-negative"@,
    }
}

impl RowError {
    /// The error's message.
    pub fn message(&self) -> (m: String)
        ensures
            m@ == row_error_text(*self),
    {
        match self {
            RowError::InvalidUuid(v) => concat("invalid uuid value: ", v.as_str()),
            RowError::InvalidStatus(v) => concat("invalid mocap studio status: ", v.as_str()),
            RowError::NegativeSequenceNumber => string_from_str(
                "last_event_sequence_number must be non-negative",
            ),
        }
    }
}

/// `a` followed by `b`.
fn concat(a: &str, b: &str) -> (out: String)
    ensures
        out@ == a@ + b@,
{
    let mut chars = chars_of(a);
    let mut rest = chars_of(b);
    chars.append(&mut rest);
    string_of(&chars)
}

/// The status that a stored text names.
pub open spec fn status_named(value: Seq<char>) -> Option<MocapStudioStatus> {
    if value == "capturing"@ {
        Some(MocapStudioStatus::Capturing)
    } else if value == "idle"@ {
        Some(MocapStudioStatus::Idle)
    } else if value == "closed"@ {
        Some(MocapStudioStatus::Closed)
    } else {
        None
    }
}

/// The stored text of a status.
pub open spec fn status_text(status: MocapStudioStatus) -> Seq<char> {
    match status {
        MocapStudioStatus::Capturing => "capturing"@,
        MocapStudioStatus::Idle => "idle"@,
        MocapStudioStatus::Closed => "closed"@,
    }
}

/// Reads a stored status: `capturing`, `idle` or `closed`.
pub fn parse_mocap_studio_status(value: String) -> (r: Result<MocapStudioStatus, RowError>)
    ensures
        match status_named(value@) {
            Some(s) => r == Ok::<MocapStudioStatus, RowError>(s),
            None => r matches Err(RowError::InvalidStatus(v)) && v@ == value@,
        },
{
    if str_equals(value.as_str(), "capturing") {
        Ok(MocapStudioStatus::Capturing)
    } else if str_equals(value.as_str(), "idle") {
        Ok(MocapStudioStatus::Idle)
    } else if str_equals(value.as_str(), "closed") {
        Ok(MocapStudioStatus::Closed)
    } else {
        Err(RowError::InvalidStatus(value))
    }
}

/// The text a status is stored as.
pub fn mocap_studio_status_to_str(status: MocapStudioStatus) -> (s: &'static str)
    ensures
        s@ == status_text(status),
{
    match status {
        MocapStudioStatus::Capturing => "capturing",
        MocapStudioStatus::Idle => "idle",
        MocapStudioStatus::Closed => "closed",
    }
}

/// A stored status reads back as the status that was stored.
pub proof fn lemma_status_round_trip(status: MocapStudioStatus)
    ensures
        status_named(status_text(status)) == Some(status),
{
    reveal_strlit("capturing");
    reveal_strlit("idle");
    reveal_strlit("closed");
    assert("capturing"@.len() == 9);
    assert("idle"@.len() == 4);
    assert("closed"@.len() == 6);
    assert("idle"@[0] == 'i');
    assert("closed"@[0] == 'c');
}

/// A status is stored as its own name in lower case: `capturing`, `idle` and `closed` read as
/// `Capturing`, `Idle` and `Closed` and are the texts written for them; no other text reads as
/// a status, and distinct texts read as distinct statuses.
pub proof fn lemma_status_texts_name_statuses(value: Seq<char>, other: Seq<char>)
    ensures
        status_text(MocapStudioStatus::Capturing) == "capturing"@,
        status_text(MocapStudioStatus::Idle) == "idle"@,
        status_text(MocapStudioStatus::Closed) == "closed"@,
        status_named("capturing"@) == Some(MocapStudioStatus::Capturing),
        status_named("idle"@) == Some(MocapStudioStatus::Idle),
        status_named("closed"@) == Some(MocapStudioStatus::Closed),
        status_named(value) is Some <==> (value == "capturing"@ || value == "idle"@ || value
            == "closed"@),
        status_named(value) is Some && status_named(value) == status_named(other) ==> value
            == other,
{
    reveal_strlit("capturing");
    reveal_strlit("idle");
    reveal_strlit("closed");
    assert("capturing"@.len() == 9 && "idle"@.len() == 4 && "closed"@.len() == 6);
}

/// The team of a row whose `id` column parsed to `id` (`None`: it is no UUID).
pub fn mocap_team_from_row(row: TeamRow, id: Option<u128>) -> (r: Result<MocapTeam, RowError>)
    ensures
        match id {
            None => r == Err::<MocapTeam, RowError>(RowError::InvalidUuid(row.id)),
            Some(v) => r matches Ok(t) && t.id == MocapTeamId(v) && t.external_usergroup_key.0@
                == row.external_usergroup_key@ && t.created_at == row.created_at,
        },
{
    match id {
        None => Err(RowError::InvalidUuid(row.id)),
        Some(v) => Ok(
            MocapTeam {
                id: MocapTeamId(v),
                external_usergroup_key: ExternalGroupKey(row.external_usergroup_key),
                created_at: row.created_at,
            },
        ),
    }
}

/// Reads a team row.
pub fn row_to_mocap_team(row: TeamRow) -> (r: Result<MocapTeam, RowError>)
    ensures
        match uuid_of_text(row.id@) {
            None => r matches Err(RowError::InvalidUuid(v)) && v@ == row.id@,
            Some(v) => r matches Ok(t) && t.id == MocapTeamId(v) && t.external_usergroup_key.0@
                == row.external_usergroup_key@ && t.created_at == row.created_at,
        },
{
    let id = match parse_uuid_text(row.id.as_str()) {
        Ok(v) => Some(v),
        Err(_) => None,
    };
    mocap_team_from_row(row, id)
}

/// The studio of a row whose UUID columns parsed to `id` and `team_id` (`None`: no UUID). The
/// columns are read in order: `id`, `team_id`, `status`, then the sequence number.
pub fn mocap_studio_from_row(row: StudioRow, id: Option<u128>, team_id: Option<u128>) -> (r:
    Result<MocapStudio, RowError>)
    ensures
        id is None ==> r == Err::<MocapStudio, RowError>(RowError::InvalidUuid(row.id)),
        id is Some && team_id is None ==> r == Err::<MocapStudio, RowError>(
            RowError::InvalidUuid(row.team_id),
        ),
        id is Some && team_id is Some && status_named(row.status@) is None ==> (r matches Err(
            RowError::InvalidStatus(v),
        ) && v@ == row.status@),
        id is Some && team_id is Some && status_named(row.status@) is Some
            && row.last_event_sequence_number < 0 ==> r == Err::<MocapStudio, RowError>(
            RowError::NegativeSequenceNumber,
        ),
        id is Some && team_id is Some && status_named(row.status@) is Some
            && row.last_event_sequence_number >= 0 ==> (r matches Ok(s) && s.id == MocapStudioId(
            id->0,
        ) && s.team_id == MocapTeamId(team_id->0) && s.name@ == row.name@ && Some(s.status)
            == status_named(row.status@) && s.last_event_sequence_number.0
            == row.last_event_sequence_number && s.created_at == row.created_at && s.updated_at
            == row.updated_at),
{
    let StudioRow { id: id_text, team_id: team_text, name, status, last_event_sequence_number, created_at, updated_at } = row;
    let id = match id {
        None => {
            return Err(RowError::InvalidUuid(id_text));
        },
        Some(v) => v,
    };
    let team_id = match team_id {
        None => {
            return Err(RowError::InvalidUuid(team_text));
        },
        Some(v) => v,
    };
    let status = match parse_mocap_studio_status(status) {
        Ok(s) => s,
        Err(e) => {
            return Err(e);
        },
    };
    if last_event_sequence_number < 0 {
        return Err(RowError::NegativeSequenceNumber);
    }
    Ok(
        MocapStudio {
            id: MocapStudioId(id),
            team_id: MocapTeamId(team_id),
            name,
            status,
            last_event_sequence_number: StudioEventSequenceNumber(
                last_event_sequence_number as u64,
            ),
            created_at,
            updated_at,
        },
    )
}

/// Reads a studio row.
pub fn row_to_mocap_studio(row: StudioRow) -> (r: Result<MocapStudio, RowError>)
    ensures
        uuid_of_text(row.id@) is None ==> (r matches Err(RowError::InvalidUuid(v)) && v@
            == row.id@),
        uuid_of_text(row.id@) is Some && uuid_of_text(row.team_id@) is None ==> (r matches Err(
            RowError::InvalidUuid(v),
        ) && v@ == row.team_id@),
        uuid_of_text(row.id@) is Some && uuid_of_text(row.team_id@) is Some && status_named(
            row.status@,
        ) is None ==> (r matches Err(RowError::InvalidStatus(v)) && v@ == row.status@),
        uuid_of_text(row.id@) is Some && uuid_of_text(row.team_id@) is Some && status_named(
            row.status@,
        ) is Some && row.last_event_sequence_number < 0 ==> r == Err::<MocapStudio, RowError>(
            RowError::NegativeSequenceNumber,
        ),
        uuid_of_text(row.id@) is Some && uuid_of_text(row.team_id@) is Some && status_named(
            row.status@,
        ) is Some && row.last_event_sequence_number >= 0 ==> (r matches Ok(s) && s.id
            == MocapStudioId(uuid_of_text(row.id@)->0) && s.team_id == MocapTeamId(
            uuid_of_text(row.team_id@)->0,
        ) && s.name@ == row.name@ && Some(s.status) == status_named(row.status@)
            && s.last_event_sequence_number.0 == row.last_event_sequence_number && s.created_at
            == row.created_at && s.updated_at == row.updated_at),
{
    let id = match parse_uuid_text(row.id.as_str()) {
        Ok(v) => Some(v),
        Err(_) => None,
    };
    let team_id = match parse_uuid_text(row.team_id.as_str()) {
        Ok(v) => Some(v),
        Err(_) => None,
    };
    mocap_studio_from_row(row, id, team_id)
}

/// Which columns an update of a studio writes.
#[derive(Debug, Clone, Copy, PartialEq, Eq, Structural)]
pub enum StudioUpdate {
    /// Nothing changes; no statement runs.
    Nothing,
    /// The status.
    Status { status: MocapStudioStatus },
    /// The last event sequence number.
    SequenceNumber { sequence_number: u64 },
    /// Both.
    StatusAndSequenceNumber { status: MocapStudioStatus, sequence_number: u64 },
}

/// The columns that `params` changes; each update also stamps `updated_at`.
pub fn studio_update(params: &UpdateMocapStudioParams) -> (u: StudioUpdate)
    ensures
        u == match (params.status, params.last_event_sequence_number) {
            (None, None) => StudioUpdate::Nothing,
            (Some(s), None) => StudioUpdate::Status { status: s },
            (None, Some(n)) => StudioUpdate::SequenceNumber { sequence_number: n.0 },
            (Some(s), Some(n)) => StudioUpdate::StatusAndSequenceNumber {
                status: s,
                sequence_number: n.0,
            },
        },
{
    match (params.status, params.last_event_sequence_number) {
        (None, None) => StudioUpdate::Nothing,
        (Some(s), None) => StudioUpdate::Status { status: s },
        (None, Some(n)) => StudioUpdate::SequenceNumber { sequence_number: n.0 },
        (Some(s), Some(n)) => StudioUpdate::StatusAndSequenceNumber {
            status: s,
            sequence_number: n.0,
        },
    }
}

} // verus!
