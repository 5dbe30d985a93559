//! A mocap studio's events, the state they build, and its operator log.
//!
//! Events are stored in every version they were ever written in ([`MocapStudioEvent`]); before use
//! each is brought to its latest version ([`MocapStudioEventLatest`]) by [`upcast`].

use std::collections::HashMap;
use vstd::prelude::*;

use crate::ids::{CameraId, MocapStudioId, StudioEventId, StudioLogId, TakeId, Timestamp, VideoId};
use crate::team::StudioEventSequenceNumber;

verus! {

/// A camera was added to the studio (first version).
#[derive(Debug, Clone, PartialEq, Eq)]
pub struct CameraCreatedEventV0 {
    pub id: CameraId,
    pub name: String,
    pub rist_url: String,
}

/// A camera was removed from the studio (first version).
#[derive(Debug, Clone, Copy, PartialEq, Eq, Structural)]
pub struct CameraDeletedEventV0 {
    pub id: CameraId,
}

/// A take was completed (first version).
#[derive(Debug, Clone, Copy, PartialEq, Eq, Structural)]
pub struct TakeCompletedEventV0 {
    pub id: TakeId,
}

/// A take was started (first version), with the key of each camera's video.
#[derive(Debug, Clone, PartialEq, Eq)]
pub struct TakeStartedEventV0 {
    pub id: TakeId,
    pub video_keys: Vec<TakeStartedEventV0Video>,
}

/// The video a camera records for a started take.
#[derive(Debug, Clone, PartialEq, Eq)]
pub struct TakeStartedEventV0Video {
    pub id: VideoId,
    pub camera_id: CameraId,
    pub video_key: String,
}

/// The latest version of the camera-created event.
pub type CameraCreatedEventLatest = CameraCreatedEventV0;

/// The latest version of the camera-deleted event.
pub type CameraDeletedEventLatest = CameraDeletedEventV0;

/// The latest version of the take-started event.
pub type TakeStartedEventLatest = TakeStartedEventV0;

/// The latest version of the take-completed event.
pub type TakeCompletedEventLatest = TakeCompletedEventV0;

/// A camera-created event in any stored version.
#[derive(Debug, Clone, PartialEq, Eq)]
pub enum CameraCreatedEvent {
    V0(CameraCreatedEventV0),
}

/// A camera-deleted event in any stored version.
#[derive(Debug, Clone, PartialEq, Eq)]
pub enum CameraDeletedEvent {
    V0(CameraDeletedEventV0),
}

/// A take-started event in any stored version.
#[derive(Debug, Clone, PartialEq, Eq)]
pub enum TakeStartedEvent {
    V0(TakeStartedEventV0),
}

/// A take-completed event in any stored version.
#[derive(Debug, Clone, PartialEq, Eq)]
pub enum TakeCompletedEvent {
    V0(TakeCompletedEventV0),
}

/// A studio event as stored, in any version.
#[derive(Debug, Clone, PartialEq, Eq)]
pub enum MocapStudioEvent {
    CameraCreated(CameraCreatedEvent),
    CameraDeleted(CameraDeletedEvent),
    TakeStarted(TakeStartedEvent),
    TakeCompleted(TakeCompletedEvent),
}

/// A studio event in its latest version; the form the studio state is built from. It is never
/// stored.
#[derive(Debug, Clone, PartialEq, Eq)]
pub enum MocapStudioEventLatest {
    CameraCreated(CameraCreatedEventLatest),
    CameraDeleted(CameraDeletedEventLatest),
    TakeStarted(TakeStartedEventLatest),
    TakeCompleted(TakeCompletedEventLatest),
}

/// A stored studio event with its place in the studio's log.
#[derive(Debug, Clone, PartialEq, Eq)]
pub struct StudioEventRecord {
    pub id: StudioEventId,
    pub studio_id: MocapStudioId,
    pub sequence_number: StudioEventSequenceNumber,
    pub event: MocapStudioEvent,
    pub created_at: Timestamp,
}

/// The latest version of a camera-created event.
pub open spec fn camera_created_latest(event: CameraCreatedEvent) -> CameraCreatedEventLatest {
    match event {
        CameraCreatedEvent::V0(e) => e,
    }
}

/// The latest version of a camera-deleted event.
pub open spec fn camera_deleted_latest(event: CameraDeletedEvent) -> CameraDeletedEventLatest {
    match event {
        CameraDeletedEvent::V0(e) => e,
    }
}

/// The latest version of a take-started event.
pub open spec fn take_started_latest(event: TakeStartedEvent) -> TakeStartedEventLatest {
    match event {
        TakeStartedEvent::V0(e) => e,
    }
}

/// The latest version of a take-completed event.
pub open spec fn take_completed_latest(event: TakeCompletedEvent) -> TakeCompletedEventLatest {
    match event {
        TakeCompletedEvent::V0(e) => e,
    }
}

/// The latest version of a stored event: same kind, same content.
pub open spec fn latest(event: MocapStudioEvent) -> MocapStudioEventLatest {
    match event {
        MocapStudioEvent::CameraCreated(e) => MocapStudioEventLatest::CameraCreated(
            camera_created_latest(e),
        ),
        MocapStudioEvent::CameraDeleted(e) => MocapStudioEventLatest::CameraDeleted(
            camera_deleted_latest(e),
        ),
        MocapStudioEvent::TakeStarted(e) => MocapStudioEventLatest::TakeStarted(
            take_started_latest(e),
        ),
        MocapStudioEvent::TakeCompleted(e) => MocapStudioEventLatest::TakeCompleted(
            take_completed_latest(e),
        ),
    }
}

/// The stored form of a latest-version event (its newest version).
pub open spec fn stored(event: MocapStudioEventLatest) -> MocapStudioEvent {
    match event {
        MocapStudioEventLatest::CameraCreated(e) => MocapStudioEvent::CameraCreated(
            CameraCreatedEvent::V0(e),
        ),
        MocapStudioEventLatest::CameraDeleted(e) => MocapStudioEvent::CameraDeleted(
            CameraDeletedEvent::V0(e),
        ),
        MocapStudioEventLatest::TakeStarted(e) => MocapStudioEvent::TakeStarted(
            TakeStartedEvent::V0(e),
        ),
        MocapStudioEventLatest::TakeCompleted(e) => MocapStudioEvent::TakeCompleted(
            TakeCompletedEvent::V0(e),
        ),
    }
}

/// Brings a stored event to its latest version.
pub fn upcast(event: MocapStudioEvent) -> (latest_event: MocapStudioEventLatest)
    ensures
        latest_event == latest(event),
{
    match event {
        MocapStudioEvent::CameraCreated(e) => MocapStudioEventLatest::CameraCreated(
            upcast_camera_created_event(e),
        ),
        MocapStudioEvent::CameraDeleted(e) => MocapStudioEventLatest::CameraDeleted(
            upcast_camera_deleted_event(e),
        ),
        MocapStudioEvent::TakeStarted(e) => MocapStudioEventLatest::TakeStarted(
            upcast_take_started_event(e),
        ),
        MocapStudioEvent::TakeCompleted(e) => MocapStudioEventLatest::TakeCompleted(
            upcast_take_completed_event(e),
        ),
    }
}

/// Brings a camera-created event to its latest version.
pub fn upcast_camera_created_event(event: CameraCreatedEvent) -> (e: CameraCreatedEventLatest)
    ensures
        e == camera_created_latest(event),
{
    match event {
        CameraCreatedEvent::V0(event_v0) => event_v0,
    }
}

/// Brings a camera-deleted event to its latest version.
pub fn upcast_camera_deleted_event(event: CameraDeletedEvent) -> (e: CameraDeletedEventLatest)
    ensures
        e == camera_deleted_latest(event),
{
    match event {
        CameraDeletedEvent::V0(event_v0) => event_v0,
    }
}

/// Brings a take-started event to its latest version.
pub fn upcast_take_started_event(event: TakeStartedEvent) -> (e: TakeStartedEventLatest)
    ensures
        e == take_started_latest(event),
{
    match event {
        TakeStartedEvent::V0(event_v0) => event_v0,
    }
}

/// Brings a take-completed event to its latest version.
pub fn upcast_take_completed_event(event: TakeCompletedEvent) -> (e: TakeCompletedEventLatest)
    ensures
        e == take_completed_latest(event),
{
    match event {
        TakeCompletedEvent::V0(event_v0) => event_v0,
    }
}

/// An event stored in its newest version comes back unchanged from upcasting.
pub proof fn lemma_upcast_stored(event: MocapStudioEventLatest)
    ensures
        latest(stored(event)) == event,
{
}

/// Upcasting keeps the kind of an event.
pub proof fn lemma_upcast_keeps_kind(event: MocapStudioEvent)
    ensures
        (event is CameraCreated) == (latest(event) is CameraCreated),
        (event is CameraDeleted) == (latest(event) is CameraDeleted),
        (event is TakeStarted) == (latest(event) is TakeStarted),
        (event is TakeCompleted) == (latest(event) is TakeCompleted),
{
}

/// The number of a take within a studio.
#[derive(Debug, Clone, Copy, PartialEq, Eq, Structural, PartialOrd, Ord, Hash)]
pub struct TakeNumber(pub u64);

/// A camera of a studio, as the studio state knows it.
#[derive(Debug, Clone, Copy, PartialEq, Eq, Structural)]
pub struct Camera {}

/// A take, as the studio state knows it.
#[derive(Debug, Clone, Copy, PartialEq, Eq, Structural)]
pub struct Take {}

/// A video of a take, as the studio state knows it.
#[derive(Debug, Clone, Copy, PartialEq, Eq, Structural)]
pub struct Video {}

/// The state of a studio, built from its events.
#[derive(Debug, Clone)]
pub struct MocapStudio {
    pub cameras: HashMap<CameraId, Camera>,
    pub completed_takes: HashMap<TakeId, Take>,
    pub ongoing_take: Option<(TakeId, Take)>,
}

/// The severity of an operator log entry.
#[derive(Debug, Clone, Copy, PartialEq, Eq, Structural)]
pub enum LogLevel {
    Error,
    Warn,
    Info,
    Debug,
    Trace,
}

/// What an operator log entry says.
#[derive(Debug, Clone, PartialEq, Eq)]
pub enum LogMessage {
    StudioCreated,
    StudioClosed,
    CameraCreated { name: String },
    CameraDeleted { name: String },
    TakeStarted { take_number: TakeNumber },
    TakeCompleted { take_number: TakeNumber },
    CaptureStarted { camera_name: String },
    CaptureStopped { camera_name: String },
    CaptureFailed { camera_name: String },
    StorageUnavailable,
}

/// An operator log entry: a severity and a message.
#[derive(Debug, Clone, PartialEq, Eq)]
pub struct LogEntry {
    pub level: LogLevel,
    pub message: LogMessage,
}

/// A stored operator log entry of a studio.
#[derive(Debug, Clone, PartialEq, Eq)]
pub struct StudioLog {
    pub id: StudioLogId,
    pub studio_id: MocapStudioId,
    pub entry: LogEntry,
    pub created_at: Timestamp,
}

/// A run of a studio's log: `length` entries from index `top_index` on.
#[derive(Debug, Clone, PartialEq, Eq)]
pub struct LogSegment {
    pub top_index: usize,
    pub length: usize,
    pub logs: Vec<StudioLog>,
}

} // verus!
