//! The mocap-team API: its errors and how they are answered, the checks on a request, the
//! responses, and the steps of creating a team.

use vstd::prelude::*;

use crate::auth::AuthenticatedExternalUser;
use crate::ids::{ExternalGroupKey, MocapTeamId, Timestamp};
use crate::team::MocapTeam;
use crate::text::{chars_of, is_blank, str_equals, string_from_str, string_of, trim, trim_str};

verus! {

/// Why a mocap-team request failed, with a message for the client.
#[derive(Debug, Clone, PartialEq, Eq)]
pub enum MocapTeamApiError {
    Conflict(String),
    Forbidden(String),
    /// The store failed; the text says why.
    Internal(String),
    NotFound(String),
    Validation(String),
}

/// The body of an error answer: a code and a message.
#[derive(Debug, Clone, PartialEq, Eq)]
pub struct ErrorResponse {
    code: &'static str,
    message: String,
}

impl ErrorResponse {
    /// The code of the answer.
    pub closed spec fn code_spec(&self) -> Seq<char> {
        self.code@
    }

    /// The message of the answer.
    pub closed spec fn message_spec(&self) -> Seq<char> {
        self.message@
    }

    /// A body with `code` and `message`.
    pub fn new(code: &'static str, message: String) -> (r: Self)
        ensures
            r.code_spec() == code@,
            r.message_spec() == message@,
    {
        ErrorResponse { code, message }
    }

    /// The code of the answer.
    pub fn code(&self) -> (c: &'static str)
        ensures
            c@ == self.code_spec(),
    {
        self.code
    }

    /// The message of the answer.
    pub fn message(&self) -> (m: &str)
        ensures
            m@ == self.message_spec(),
    {
        self.message.as_str()
    }
}

/// An error answer: an HTTP status and a body.
#[derive(Debug, Clone)]
pub struct ApiErrorReply {
    pub status: u16,
    pub body: ErrorResponse,
}

/// The status, code and message that answer `e`.
pub open spec fn api_reply_spec(e: MocapTeamApiError) -> (u16, Seq<char>, Seq<char>) {
    match e {
        MocapTeamApiError::Conflict(m) => (409, "conflict"@, m@),
        MocapTeamApiError::Forbidden(m) => (403, "forbidden"@, m@),
        MocapTeamApiError::Internal(m) => (500, "internal_server_error"@, m@),
        MocapTeamApiError::NotFound(m) => (404, "not_found"@, m@),
        MocapTeamApiError::Validation(m) => (422, "validation_error"@, m@),
    }
}

impl MocapTeamApiError {
    /// How the error is answered: conflict 409, forbidden 403, internal 500, not found 404,
    /// validation 422, each with its code and the error's message.
    pub fn reply(self) -> (r: ApiErrorReply)
        ensures
            (r.status, r.body.code_spec(), r.body.message_spec()) == api_reply_spec(self),
    {
        match self {
            MocapTeamApiError::Conflict(m) => ApiErrorReply {
                status: 409,
                body: ErrorResponse::new("conflict", m),
            },
            MocapTeamApiError::Forbidden(m) => ApiErrorReply {
                status: 403,
                body: ErrorResponse::new("forbidden", m),
            },
            MocapTeamApiError::Internal(m) => ApiErrorReply {
                status: 500,
                body: ErrorResponse::new("internal_server_error", m),
            },
            MocapTeamApiError::NotFound(m) => ApiErrorReply {
                status: 404,
                body: ErrorResponse::new("not_found", m),
            },
            MocapTeamApiError::Validation(m) => ApiErrorReply {
                status: 422,
                body: ErrorResponse::new("validation_error", m),
            },
        }
    }
}

/// Checks that an external user-group key given as the request field `field_name` is not blank.
pub fn validate_external_usergroup_key(
    external_usergroup_key: ExternalGroupKey,
    field_name: &'static str,
) -> (r: Result<ExternalGroupKey, MocapTeamApiError>)
    ensures
        is_blank(external_usergroup_key.0@) ==> (r matches Err(MocapTeamApiError::Validation(m))
            && m@ == field_name@ + " must not be empty"@),
        !is_blank(external_usergroup_key.0@) ==> r == Ok::<ExternalGroupKey, MocapTeamApiError>(
            external_usergroup_key,
        ),
{
    let trimmed = trim_str(external_usergroup_key.0.as_str());
    if trimmed.as_str().unicode_len() == 0 {
        let mut text = chars_of(field_name);
        let mut rest = chars_of(" must not be empty");
        text.append(&mut rest);
        return Err(MocapTeamApiError::Validation(string_of(&text)));
    }
    Ok(external_usergroup_key)
}

/// Whether `user` belongs to the group `key`.
pub open spec fn belongs_to(user: AuthenticatedExternalUser, key: Seq<char>) -> bool {
    exists|i: int| 0 <= i < user.groups@.len() && (#[trigger] user.groups@[i]).0@ == key
}

/// Checks that the authenticated user belongs to the group `external_usergroup_key`.
pub fn ensure_user_belongs_to_group(
    user: &AuthenticatedExternalUser,
    external_usergroup_key: &ExternalGroupKey,
) -> (r: Result<(), MocapTeamApiError>)
    ensures
        belongs_to(*user, external_usergroup_key.0@) ==> r is Ok,
        !belongs_to(*user, external_usergroup_key.0@) ==> (r matches Err(
            MocapTeamApiError::Forbidden(m),
        ) && m@ == "authenticated user does not belong to the external user group"@),
{
    let mut i: usize = 0;
    while i < user.groups.len()
        invariant
            i <= user.groups.len(),
            forall|j: int| 0 <= j < i ==> (#[trigger] user.groups@[j]).0@ != external_usergroup_key.0@,
        decreases user.groups.len() - i,
    {
        if str_equals(user.groups[i].0.as_str(), external_usergroup_key.0.as_str()) {
            assert(user.groups@[i as int].0@ == external_usergroup_key.0@);
            return Ok(());
        }
        i = i + 1;
    }
    Err(
        MocapTeamApiError::Forbidden(
            string_from_str("authenticated user does not belong to the external user group"),
        ),
    )
}

/// A team as the API shows it.
#[derive(Debug, Clone, PartialEq, Eq)]
pub struct MocapTeamResponse {
    id: u128,
    external_usergroup_key: String,
    created_at: Timestamp,
}

impl MocapTeamResponse {
    /// The team's ID.
    pub closed spec fn id_spec(&self) -> u128 {
        self.id
    }

    /// The team's external user-group key.
    pub closed spec fn key_spec(&self) -> Seq<char> {
        self.external_usergroup_key@
    }

    /// When the team was created.
    pub closed spec fn created_at_spec(&self) -> Timestamp {
        self.created_at
    }

    /// The team as the API shows it.
    pub fn from_team(team: MocapTeam) -> (r: Self)
        ensures
            r.id_spec() == team.id.0,
            r.key_spec() == team.external_usergroup_key.0@,
            r.created_at_spec() == team.created_at,
    {
        MocapTeamResponse {
            id: team.id.0,
            external_usergroup_key: team.external_usergroup_key.0,
            created_at: team.created_at,
        }
    }

    /// The team's ID.
    pub fn id(&self) -> (v: u128)
        ensures
            v == self.id_spec(),
    {
        self.id
    }

    /// The team's external user-group key.
    pub fn external_usergroup_key(&self) -> (k: &str)
        ensures
            k@ == self.key_spec(),
    {
        self.external_usergroup_key.as_str()
    }

    /// When the team was created.
    pub fn created_at(&self) -> (t: Timestamp)
        ensures
            t == self.created_at_spec(),
    {
        self.created_at
    }
}

/// Whether `r` shows `team`.
pub open spec fn shows(r: MocapTeamResponse, team: MocapTeam) -> bool {
    &&& r.id_spec() == team.id.0
    &&& r.key_spec() == team.external_usergroup_key.0@
    &&& r.created_at_spec() == team.created_at
}

/// The list of teams as the API shows it.
#[derive(Debug, Clone)]
pub struct ListMocapTeamsResponse {
    items: Vec<MocapTeamResponse>,
}

impl ListMocapTeamsResponse {
    /// The teams shown.
    pub closed spec fn items_spec(&self) -> Seq<MocapTeamResponse> {
        self.items@
    }

    /// The teams as the API shows them, in the given order.
    pub fn from_teams(teams: Vec<MocapTeam>) -> (r: Self)
        ensures
            r.items_spec().len() == teams@.len(),
            forall|i: int| 0 <= i < teams@.len() ==> shows(#[trigger] r.items_spec()[i], teams@[i]),
    {
        let mut items: Vec<MocapTeamResponse> = Vec::new();
        let mut rest = teams;
        let ghost all = rest@;
        while rest.len() > 0
            invariant
                items@.len() + rest@.len() == all.len(),
                rest@ == all.skip(items@.len() as int),
                forall|i: int| 0 <= i < items@.len() ==> shows(#[trigger] items@[i], all[i]),
            decreases rest.len(),
        {
            let ghost k = items@.len();
            let team = rest.remove(0);
            assert(team == all[k as int]);
            items.push(MocapTeamResponse::from_team(team));
            assert(rest@ =~= all.skip(items@.len() as int));
        }
        ListMocapTeamsResponse { items }
    }

    /// The teams shown.
    pub fn items(&self) -> (s: &Vec<MocapTeamResponse>)
        ensures
            s@ == self.items_spec(),
    {
        &self.items
    }
}

/// The answer to a request for one team: the team, or not found.
pub fn team_or_not_found(found: Option<MocapTeam>) -> (r: Result<
    MocapTeamResponse,
    MocapTeamApiError,
>)
    ensures
        match found {
            Some(t) => r matches Ok(resp) && shows(resp, t),
            None => r matches Err(MocapTeamApiError::NotFound(m)) && m@
                == "mocap team was not found"@,
        },
{
    match found {
        Some(t) => Ok(MocapTeamResponse::from_team(t)),
        None => Err(MocapTeamApiError::NotFound(string_from_str("mocap team was not found"))),
    }
}

/// What the API handlers work with: the team store and the source of units of work.
#[derive(Debug)]
pub struct MocapTeamApiState<R, U> {
    repository: R,
    unit_of_work_provider: U,
}

impl<R: Clone, U: Clone> Clone for MocapTeamApiState<R, U> {
    /// A state whose store and source of units of work are clones of this one's.
    fn clone(&self) -> (c: Self)
        ensures
            cloned(self.repository_spec(), c.repository_spec()),
            cloned(self.provider_spec(), c.provider_spec()),
    {
        MocapTeamApiState {
            repository: self.repository.clone(),
            unit_of_work_provider: self.unit_of_work_provider.clone(),
        }
    }
}

impl<R, U> MocapTeamApiState<R, U> {
    /// The team store.
    pub closed spec fn repository_spec(&self) -> R {
        self.repository
    }

    /// The source of units of work.
    pub closed spec fn provider_spec(&self) -> U {
        self.unit_of_work_provider
    }

    /// A state with `repository` and `unit_of_work_provider`.
    pub fn new(repository: R, unit_of_work_provider: U) -> (s: Self)
        ensures
            s.repository_spec() == repository,
            s.provider_spec() == unit_of_work_provider,
    {
        MocapTeamApiState { repository, unit_of_work_provider }
    }

    /// The team store.
    pub fn repository(&self) -> (r: &R)
        ensures
            *r == self.repository_spec(),
    {
        &self.repository
    }

    /// The source of units of work.
    pub fn unit_of_work_provider(&self) -> (u: &U)
        ensures
            *u == self.provider_spec(),
    {
        &self.unit_of_work_provider
    }
}

/// Where the creation of a team stands: the next thing to do, or how it ended.
#[derive(Debug, Clone)]
pub enum CreateTeamStep {
    /// Start a unit of work.
    StartUnitOfWork { key: ExternalGroupKey },
    /// Look for a team with the key.
    FindExisting { key: ExternalGroupKey },
    /// Add a team with the key in the unit of work.
    AddTeam { key: ExternalGroupKey },
    /// Commit the unit of work that added the team `id`.
    Commit { id: MocapTeamId },
    /// Read back the team `id`.
    Fetch { id: MocapTeamId },
    /// The team was created; answer 201 with it.
    Created(MocapTeamResponse),
    /// The creation failed.
    Failed(MocapTeamApiError),
}

/// What came of the last thing done.
#[derive(Debug, Clone)]
pub enum CreateTeamEvent {
    UnitOfWorkStarted,
    /// The lookup ran: whether a team with the key exists.
    Looked { exists: bool },
    Added(MocapTeamId),
    Committed,
    Fetched(Option<MocapTeam>),
    /// The store failed; the text says why.
    StoreFailed(String),
}

/// Whether `event` answers `step`.
pub open spec fn answers(step: CreateTeamStep, event: CreateTeamEvent) -> bool {
    match event {
        CreateTeamEvent::StoreFailed(_) => !(step is Created || step is Failed),
        CreateTeamEvent::UnitOfWorkStarted => step is StartUnitOfWork,
        CreateTeamEvent::Looked { .. } => step is FindExisting,
        CreateTeamEvent::Added(_) => step is AddTeam,
        CreateTeamEvent::Committed => step is Commit,
        CreateTeamEvent::Fetched(_) => step is Fetch,
    }
}

/// The first step of creating a team for the group named in the request path: the key must not be
/// blank and the user must belong to the group.
pub fn create_team_start(user: &AuthenticatedExternalUser, external_usergroup_key: String) -> (s:
    CreateTeamStep)
    ensures
        is_blank(external_usergroup_key@) ==> (s matches CreateTeamStep::Failed(
            MocapTeamApiError::Validation(m),
        ) && m@ == "externalUsergroupKey must not be empty"@),
        !is_blank(external_usergroup_key@) && !belongs_to(*user, external_usergroup_key@) ==> (
        s matches CreateTeamStep::Failed(MocapTeamApiError::Forbidden(m)) && m@
            == "authenticated user does not belong to the external user group"@),
        !is_blank(external_usergroup_key@) && belongs_to(*user, external_usergroup_key@) ==> (
        s matches CreateTeamStep::StartUnitOfWork { key } && key.0@ == external_usergroup_key@),
{
    proof {
        reveal_strlit("externalUsergroupKey");
        reveal_strlit(" must not be empty");
        reveal_strlit("externalUsergroupKey must not be empty");
    }
    let key = match validate_external_usergroup_key(
        ExternalGroupKey(external_usergroup_key),
        "externalUsergroupKey",
    ) {
        Ok(k) => k,
        Err(e) => {
            assert("externalUsergroupKey"@ + " must not be empty"@
                =~= "externalUsergroupKey must not be empty"@);
            return CreateTeamStep::Failed(e);
        },
    };
    match ensure_user_belongs_to_group(user, &key) {
        Ok(()) => CreateTeamStep::StartUnitOfWork { key },
        Err(e) => CreateTeamStep::Failed(e),
    }
}

/// The next step of creating a team, once `event` answers `step`: a store failure is an internal
/// error; an existing team is a conflict; a team that cannot be read back after the commit is not
/// found; otherwise the steps run in order. An event that does not answer the step leaves it as
/// it is.
pub fn create_team_next(step: CreateTeamStep, event: CreateTeamEvent) -> (s: CreateTeamStep)
    ensures
        !answers(step, event) ==> s == step,
        answers(step, event) ==> match event {
            CreateTeamEvent::StoreFailed(m) => s matches CreateTeamStep::Failed(
                MocapTeamApiError::Internal(x),
            ) && x@ == m@,
            CreateTeamEvent::UnitOfWorkStarted => s matches CreateTeamStep::FindExisting { key }
                && key == step->StartUnitOfWork_key,
            CreateTeamEvent::Looked { exists } => if exists {
                s matches CreateTeamStep::Failed(MocapTeamApiError::Conflict(m)) && m@
                    == "mocap team with the external_usergroup_key already exists"@
            } else {
                s matches CreateTeamStep::AddTeam { key } && key == step->FindExisting_key
            },
            CreateTeamEvent::Added(id) => s matches CreateTeamStep::Commit { id: i } && i == id,
            CreateTeamEvent::Committed => s matches CreateTeamStep::Fetch { id } && id
                == step->Commit_id,
            CreateTeamEvent::Fetched(found) => match found {
                Some(t) => s matches CreateTeamStep::Created(r) && shows(r, t),
                None => s matches CreateTeamStep::Failed(MocapTeamApiError::NotFound(m)) && m@
                    == "created mocap team was not found"@,
            },
        },
{
    match event {
        CreateTeamEvent::StoreFailed(m) => match step {
            CreateTeamStep::Created(_) | CreateTeamStep::Failed(_) => step,
            _ => CreateTeamStep::Failed(MocapTeamApiError::Internal(m)),
        },
        CreateTeamEvent::UnitOfWorkStarted => match step {
            CreateTeamStep::StartUnitOfWork { key } => CreateTeamStep::FindExisting { key },
            _ => step,
        },
        CreateTeamEvent::Looked { exists } => match step {
            CreateTeamStep::FindExisting { key } => if exists {
                CreateTeamStep::Failed(
                    MocapTeamApiError::Conflict(
                        string_from_str("mocap team with the external_usergroup_key already exists"),
                    ),
                )
            } else {
                CreateTeamStep::AddTeam { key }
            },
            _ => step,
        },
        CreateTeamEvent::Added(id) => match step {
            CreateTeamStep::AddTeam { .. } => CreateTeamStep::Commit { id },
            _ => step,
        },
        CreateTeamEvent::Committed => match step {
            CreateTeamStep::Commit { id } => CreateTeamStep::Fetch { id },
            _ => step,
        },
        CreateTeamEvent::Fetched(found) => match step {
            CreateTeamStep::Fetch { .. } => match found {
                Some(t) => CreateTeamStep::Created(MocapTeamResponse::from_team(t)),
                None => CreateTeamStep::Failed(
                    MocapTeamApiError::NotFound(string_from_str("created mocap team was not found")),
                ),
            },
            _ => step,
        },
    }
}

} // verus!
