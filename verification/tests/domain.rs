use kinugasa::auth::{
    bearer_token, require_user, AuthApiError, AuthenticatedExternalUser, ExternalUserCredential,
    ExternalUserId, MockExternalUserAuthenticator,
};
use kinugasa::ids::{CameraId, ExternalGroupKey, MocapStudioId, MocapTeamId, TakeId, Timestamp};
use kinugasa::store::{
    mocap_studio_from_row, mocap_studio_status_to_str, parse_mocap_studio_status,
    row_to_mocap_studio, row_to_mocap_team, studio_update, RowError, StudioRow, StudioUpdate,
    TeamRow,
};
use kinugasa::studio::{
    upcast, CameraCreatedEvent, CameraCreatedEventV0, CameraDeletedEvent, CameraDeletedEventV0,
    MocapStudioEvent, MocapStudioEventLatest, TakeCompletedEvent, TakeCompletedEventV0,
};
use kinugasa::team::{MocapStudioStatus, MocapTeam, StudioEventSequenceNumber, UpdateMocapStudioParams};
use kinugasa::team_api::{
    create_team_next, create_team_start, ensure_user_belongs_to_group, team_or_not_found,
    validate_external_usergroup_key, CreateTeamEvent, CreateTeamStep, ListMocapTeamsResponse,
    MocapTeamApiError, MocapTeamApiState, MocapTeamResponse,
};

fn user(groups: &[&str]) -> AuthenticatedExternalUser {
    AuthenticatedExternalUser {
        id: ExternalUserId("u".to_owned()),
        display_name: "U".to_owned(),
        groups: groups.iter().map(|g| ExternalGroupKey(g.to_string())).collect(),
    }
}

#[test]
fn upcast_keeps_kind_and_content() {
    let created = CameraCreatedEventV0 { id: CameraId(1), name: "cam".to_owned(), rist_url: "rist://x".to_owned() };
    assert_eq!(
        upcast(MocapStudioEvent::CameraCreated(CameraCreatedEvent::V0(created.clone()))),
        MocapStudioEventLatest::CameraCreated(created)
    );
    assert_eq!(
        upcast(MocapStudioEvent::CameraDeleted(CameraDeletedEvent::V0(CameraDeletedEventV0 { id: CameraId(2) }))),
        MocapStudioEventLatest::CameraDeleted(CameraDeletedEventV0 { id: CameraId(2) })
    );
    assert_eq!(
        upcast(MocapStudioEvent::TakeCompleted(TakeCompletedEvent::V0(TakeCompletedEventV0 { id: TakeId(3) }))),
        MocapStudioEventLatest::TakeCompleted(TakeCompletedEventV0 { id: TakeId(3) })
    );
}

fn header(bytes: &[u8]) -> Option<&[u8]> {
    Some(bytes)
}

#[test]
fn bearer_tokens() {
    assert_eq!(bearer_token(None), Err(AuthApiError::Unauthorized));
    assert_eq!(
        bearer_token(header(b"Bearer abc")),
        Ok(ExternalUserCredential::BearerToken("abc".to_owned()))
    );
    assert_eq!(bearer_token(header(b"Basic abc")), Err(AuthApiError::InvalidAuthorizationHeader));
    assert_eq!(bearer_token(header(b"Bearer   ")), Err(AuthApiError::InvalidAuthorizationHeader));
    assert_eq!(bearer_token(header(b"Bearer \xff")), Err(AuthApiError::InvalidAuthorizationHeader));
    assert_eq!(bearer_token(header(b"bearer abc")), Err(AuthApiError::InvalidAuthorizationHeader));
}

#[test]
fn auth_replies() {
    let r = AuthApiError::Unauthorized.reply();
    assert_eq!((r.status, r.www_authenticate_bearer), (401, true));
    assert_eq!((r.body.code(), r.body.message()), ("unauthorized", "authentication is required"));
    let r = AuthApiError::InvalidAuthorizationHeader.reply();
    assert_eq!(r.body.code(), "invalid_authorization_header");
    let r = AuthApiError::Internal("db down".to_owned()).reply();
    assert_eq!((r.status, r.www_authenticate_bearer, r.body.message()), (500, false, "db down"));
}

#[test]
fn mock_authenticator() {
    let a = MockExternalUserAuthenticator::dev("dev-token".to_owned());
    let u = a.authenticate(&ExternalUserCredential::BearerToken("dev-token".to_owned())).unwrap();
    assert_eq!(u.id, ExternalUserId("mock-user".to_owned()));
    assert_eq!(u.display_name, "Mock User");
    assert_eq!(u.groups, vec![ExternalGroupKey("mock-group".to_owned())]);
    assert!(a.authenticate(&ExternalUserCredential::BearerToken("other".to_owned())).is_none());
    assert_eq!(require_user(None), Err(AuthApiError::Unauthorized));
}

#[test]
fn team_api_checks() {
    assert_eq!(
        validate_external_usergroup_key(ExternalGroupKey("  ".to_owned()), "externalUsergroupKey"),
        Err(MocapTeamApiError::Validation("externalUsergroupKey must not be empty".to_owned()))
    );
    assert!(validate_external_usergroup_key(ExternalGroupKey("g".to_owned()), "k").is_ok());
    let u = user(&["a", "b"]);
    assert!(ensure_user_belongs_to_group(&u, &ExternalGroupKey("b".to_owned())).is_ok());
    assert_eq!(
        ensure_user_belongs_to_group(&u, &ExternalGroupKey("c".to_owned())),
        Err(MocapTeamApiError::Forbidden("authenticated user does not belong to the external user group".to_owned()))
    );
    let r = MocapTeamApiError::Conflict("x".to_owned()).reply();
    assert_eq!((r.status, r.body.code(), r.body.message()), (409, "conflict", "x"));
    assert_eq!(MocapTeamApiError::Validation("v".to_owned()).reply().status, 422);
    assert_eq!(MocapTeamApiError::NotFound("n".to_owned()).reply().status, 404);
    assert_eq!(MocapTeamApiError::Forbidden("f".to_owned()).reply().status, 403);
    assert_eq!(MocapTeamApiError::Internal("i".to_owned()).reply().body.code(), "internal_server_error");
}

fn team(id: u128, key: &str) -> MocapTeam {
    MocapTeam { id: MocapTeamId(id), external_usergroup_key: ExternalGroupKey(key.to_owned()), created_at: Timestamp(10) }
}

#[test]
fn creating_a_team_step_by_step() {
    let u = user(&["g"]);
    let step = create_team_start(&u, "g".to_owned());
    assert!(matches!(&step, CreateTeamStep::StartUnitOfWork { key } if key.0 == "g"));
    let step = create_team_next(step, CreateTeamEvent::UnitOfWorkStarted);
    assert!(matches!(&step, CreateTeamStep::FindExisting { .. }));
    let conflict = create_team_next(step.clone(), CreateTeamEvent::Looked { exists: true });
    assert!(matches!(conflict, CreateTeamStep::Failed(MocapTeamApiError::Conflict(_))));
    let step = create_team_next(step, CreateTeamEvent::Looked { exists: false });
    assert!(matches!(&step, CreateTeamStep::AddTeam { .. }));
    let step = create_team_next(step, CreateTeamEvent::Added(MocapTeamId(5)));
    let step = create_team_next(step, CreateTeamEvent::Committed);
    assert!(matches!(&step, CreateTeamStep::Fetch { id } if *id == MocapTeamId(5)));
    let missing = create_team_next(step.clone(), CreateTeamEvent::Fetched(None));
    assert!(matches!(missing, CreateTeamStep::Failed(MocapTeamApiError::NotFound(m)) if m == "created mocap team was not found"));
    match create_team_next(step, CreateTeamEvent::Fetched(Some(team(5, "g")))) {
        CreateTeamStep::Created(r) => {
            assert_eq!(r.id(), 5);
            assert_eq!(r.external_usergroup_key(), "g");
        }
        other => panic!("unexpected step: {other:?}"),
    }
    assert!(matches!(create_team_start(&u, " ".to_owned()), CreateTeamStep::Failed(MocapTeamApiError::Validation(_))));
    assert!(matches!(create_team_start(&u, "h".to_owned()), CreateTeamStep::Failed(MocapTeamApiError::Forbidden(_))));
    let failed = create_team_next(CreateTeamStep::Commit { id: MocapTeamId(1) }, CreateTeamEvent::StoreFailed("boom".to_owned()));
    assert!(matches!(failed, CreateTeamStep::Failed(MocapTeamApiError::Internal(m)) if m == "boom"));
}

#[test]
fn team_responses() {
    let list = ListMocapTeamsResponse::from_teams(vec![team(1, "a"), team(2, "b")]);
    assert_eq!(list.items().len(), 2);
    assert_eq!(list.items()[1].external_usergroup_key(), "b");
    assert_eq!(MocapTeamResponse::from_team(team(3, "c")).created_at(), Timestamp(10));
    assert!(team_or_not_found(None).is_err());
    let state = MocapTeamApiState::new(1u8, 2u16);
    assert_eq!((*state.repository(), *state.unit_of_work_provider()), (1, 2));
}

#[test]
fn cloned_state_keeps_store_and_provider() {
    let state = MocapTeamApiState::new(String::from("store"), 7u32);
    let copy = state.clone();
    assert_eq!(copy.repository(), state.repository());
    assert_eq!(*copy.unit_of_work_provider(), 7);
    assert_eq!(copy.repository(), "store");
}

#[test]
fn studio_status_texts() {
    for s in [MocapStudioStatus::Capturing, MocapStudioStatus::Idle, MocapStudioStatus::Closed] {
        assert_eq!(parse_mocap_studio_status(mocap_studio_status_to_str(s).to_owned()), Ok(s));
    }
    assert_eq!(parse_mocap_studio_status("busy".to_owned()), Err(RowError::InvalidStatus("busy".to_owned())));
}

#[test]
fn team_rows() {
    let t = row_to_mocap_team(TeamRow {
        id: "67e55044-10b1-426f-9247-bb680e5fe0c8".to_owned(),
        external_usergroup_key: "g".to_owned(),
        created_at: Timestamp(1),
    })
    .unwrap();
    assert_eq!(t.id, MocapTeamId(0x67e5504410b1426f9247bb680e5fe0c8));
    let e = row_to_mocap_team(TeamRow { id: "nope".to_owned(), external_usergroup_key: "g".to_owned(), created_at: Timestamp(1) });
    assert_eq!(e, Err(RowError::InvalidUuid("nope".to_owned())));
    assert_eq!(RowError::InvalidUuid("nope".to_owned()).message(), "invalid uuid value: nope");
}

fn studio_row(status: &str, seq: i64) -> StudioRow {
    StudioRow {
        id: "00000000-0000-0000-0000-000000000001".to_owned(),
        team_id: "00000000-0000-0000-0000-000000000002".to_owned(),
        name: "A".to_owned(),
        status: status.to_owned(),
        last_event_sequence_number: seq,
        created_at: Timestamp(1),
        updated_at: Timestamp(2),
    }
}

#[test]
fn studio_rows() {
    let s = row_to_mocap_studio(studio_row("idle", 4)).unwrap();
    assert_eq!(s.id, MocapStudioId(1));
    assert_eq!(s.team_id, MocapTeamId(2));
    assert_eq!(s.status, MocapStudioStatus::Idle);
    assert_eq!(s.last_event_sequence_number, StudioEventSequenceNumber(4));
    assert_eq!(row_to_mocap_studio(studio_row("idle", -1)), Err(RowError::NegativeSequenceNumber));
    assert_eq!(row_to_mocap_studio(studio_row("x", 1)), Err(RowError::InvalidStatus("x".to_owned())));
    assert_eq!(
        mocap_studio_from_row(studio_row("idle", 1), Some(1), None),
        Err(RowError::InvalidUuid("00000000-0000-0000-0000-000000000002".to_owned()))
    );
}

#[test]
fn studio_updates() {
    assert_eq!(studio_update(&UpdateMocapStudioParams::default()), StudioUpdate::Nothing);
    assert_eq!(
        studio_update(&UpdateMocapStudioParams { status: Some(MocapStudioStatus::Closed), last_event_sequence_number: None }),
        StudioUpdate::Status { status: MocapStudioStatus::Closed }
    );
    assert_eq!(
        studio_update(&UpdateMocapStudioParams { status: None, last_event_sequence_number: Some(StudioEventSequenceNumber(9)) }),
        StudioUpdate::SequenceNumber { sequence_number: 9 }
    );
    assert_eq!(
        studio_update(&UpdateMocapStudioParams { status: Some(MocapStudioStatus::Idle), last_event_sequence_number: Some(StudioEventSequenceNumber(9)) }),
        StudioUpdate::StatusAndSequenceNumber { status: MocapStudioStatus::Idle, sequence_number: 9 }
    );
}
