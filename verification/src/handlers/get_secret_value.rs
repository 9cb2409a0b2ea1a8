use vstd::prelude::*;

use crate::database::secrets::{DbCall, DbQuery, DbReply, DbWrite, Step, VersionStage};
use crate::handlers::error::AwsErrorKind;
use crate::handlers::{found_secret, is_done, spec_found_secret, succeeded};

verus! {

// https://docs.aws.amazon.com/secretsmanager/latest/apireference/API_GetSecretValue.html
pub struct GetSecretValueHandler;

pub struct GetSecretValueRequest {
    pub secret_id: String,
    pub version_id: Option<String>,
    pub version_stage: Option<String>,
}

pub struct GetSecretValueResponse {
    pub arn: String,
    pub created_date: i64,
    pub name: String,
    pub secret_string: Option<String>,
    pub secret_binary: Option<String>,
    pub version_id: String,
    pub version_stages: Vec<String>,
}

/// Where a GetSecretValue request stands.
pub enum GetSecretValueState {
    /// Waiting for the lookup; whether the request named a version.
    Lookup { by_version_id: bool },
    /// Waiting for the version's last access to be recorded.
    Touching { response: GetSecretValueResponse },
}

/// The lookup a request asks for: by version id and stage, by version id, by
/// stage, or the current version when it names neither.
pub open spec fn spec_lookup(secret_id: String, version_id: Option<String>, stage: Option<VersionStage>) -> DbQuery {
    match (version_id, stage) {
        (None, None) => DbQuery::LatestVersion { secret_id },
        (Some(v), Some(s)) => DbQuery::ByVersionStageAndId { secret_id, version_id: v, version_stage: s },
        (Some(v), None) => DbQuery::ByVersionId { secret_id, version_id: v },
        (None, Some(s)) => DbQuery::ByVersionStage { secret_id, version_stage: s },
    }
}

/// What `GetSecretValueHandler::start` answers to a request.
pub open spec fn get_start_post(request: GetSecretValueRequest, r: Step<GetSecretValueState, GetSecretValueResponse>) -> bool {
    match request.version_stage {
        Some(label) => if label@ == "AWSCURRENT"@ || label@ == "AWSPREVIOUS"@ {
            exists|stage: VersionStage|
                stage.spec_label() == label@ && r == Step::<GetSecretValueState, GetSecretValueResponse>::Run(
                    GetSecretValueState::Lookup { by_version_id: request.version_id is Some },
                    DbCall::Query(spec_lookup(request.secret_id, request.version_id, Some(stage))),
                )
        } else {
            r == Step::<GetSecretValueState, GetSecretValueResponse>::Finish(
                Err(AwsErrorKind::InvalidRequestException),
            )
        },
        None => r == Step::<GetSecretValueState, GetSecretValueResponse>::Run(
            GetSecretValueState::Lookup { by_version_id: request.version_id is Some },
            DbCall::Query(spec_lookup(request.secret_id, request.version_id, None)),
        ),
    }
}

/// The lookup follows each field of the request: with neither a version id nor
/// a stage it reads the current version; a version id alone selects that id;
/// a known stage alone selects the version carrying that stage; both together
/// select by both; an unknown stage is refused before any lookup.
pub proof fn lemma_get_lookup_follows_request(
    request: GetSecretValueRequest,
    r: Step<GetSecretValueState, GetSecretValueResponse>,
)
    requires
        get_start_post(request, r),
    ensures
        request.version_id is None && request.version_stage is None ==> r
            == Step::<GetSecretValueState, GetSecretValueResponse>::Run(
            GetSecretValueState::Lookup { by_version_id: false },
            DbCall::Query(DbQuery::LatestVersion { secret_id: request.secret_id }),
        ),
        forall|v: String|
            request.version_id == Some(v) && request.version_stage is None ==> r
                == Step::<GetSecretValueState, GetSecretValueResponse>::Run(
                GetSecretValueState::Lookup { by_version_id: true },
                DbCall::Query(DbQuery::ByVersionId { secret_id: request.secret_id, version_id: v }),
            ),
        forall|l: String|
            request.version_id is None && request.version_stage == Some(l) && (l@ == "AWSCURRENT"@ || l@
                == "AWSPREVIOUS"@) ==> (r matches Step::Run(
                GetSecretValueState::Lookup { by_version_id },
                DbCall::Query(DbQuery::ByVersionStage { secret_id, version_stage }),
            ) && !by_version_id && secret_id == request.secret_id && version_stage.spec_label() == l@),
        forall|v: String, l: String|
            request.version_id == Some(v) && request.version_stage == Some(l) && (l@ == "AWSCURRENT"@ || l@
                == "AWSPREVIOUS"@) ==> (r matches Step::Run(
                GetSecretValueState::Lookup { by_version_id },
                DbCall::Query(DbQuery::ByVersionStageAndId { secret_id, version_id, version_stage }),
            ) && by_version_id && secret_id == request.secret_id && version_id == v
                && version_stage.spec_label() == l@),
        forall|l: String|
            request.version_stage == Some(l) && !(l@ == "AWSCURRENT"@ || l@ == "AWSPREVIOUS"@) ==> r
                == Step::<GetSecretValueState, GetSecretValueResponse>::Finish(
                Err(AwsErrorKind::InvalidRequestException),
            ),
{
}

impl GetSecretValueHandler {
    /// A request naming an unknown stage is invalid; otherwise it starts with
    /// the lookup it asks for.
    pub fn start(request: GetSecretValueRequest) -> (r: Step<GetSecretValueState, GetSecretValueResponse>)
        ensures
            get_start_post(request, r),
    {
        let stage = match &request.version_stage {
            Some(label) => match VersionStage::try_from_str(label.as_str()) {
                Some(stage) => Some(stage),
                None => {
                    return Step::Finish(Err(AwsErrorKind::InvalidRequestException));
                },
            },
            None => None,
        };
        let by_version_id = request.version_id.is_some();
        let secret_id = request.secret_id;
        let query = match (request.version_id, stage) {
            (None, None) => DbQuery::LatestVersion { secret_id },
            (Some(v), Some(s)) => DbQuery::ByVersionStageAndId { secret_id, version_id: v, version_stage: s },
            (Some(v), None) => DbQuery::ByVersionId { secret_id, version_id: v },
            (None, Some(s)) => DbQuery::ByVersionStage { secret_id, version_stage: s },
        };
        Step::Run(GetSecretValueState::Lookup { by_version_id }, DbCall::Query(query))
    }

    /// A found version of a secret that is not scheduled for deletion has its
    /// last access recorded and is answered with its value; the date given is
    /// that of the version when the request named one, else that of the secret.
    /// A secret scheduled for deletion is an invalid request.
    pub fn resume(state: GetSecretValueState, reply: DbReply) -> (r: Step<GetSecretValueState, GetSecretValueResponse>)
        ensures
            match state {
                GetSecretValueState::Lookup { by_version_id } => match spec_found_secret(reply) {
                    Ok(s) => if s.scheduled_delete_at is Some {
                        r == Step::<GetSecretValueState, GetSecretValueResponse>::Finish(
                            Err(AwsErrorKind::InvalidRequestException),
                        )
                    } else {
                        r == Step::<GetSecretValueState, GetSecretValueResponse>::Run(
                            GetSecretValueState::Touching {
                                response: GetSecretValueResponse {
                                    arn: s.arn,
                                    created_date: if by_version_id {
                                        s.version_created_at.seconds
                                    } else {
                                        s.created_at.seconds
                                    },
                                    name: s.name,
                                    secret_string: s.secret_string,
                                    secret_binary: s.secret_binary,
                                    version_id: s.version_id,
                                    version_stages: s.version_stages,
                                },
                            },
                            DbCall::Write(DbWrite::UpdateLastAccessed { secret_arn: s.arn, version_id: s.version_id }),
                        )
                    },
                    Err(e) => r == Step::<GetSecretValueState, GetSecretValueResponse>::Finish(Err(e)),
                },
                GetSecretValueState::Touching { response } => if is_done(reply) {
                    r == Step::<GetSecretValueState, GetSecretValueResponse>::Finish(Ok(response))
                } else {
                    r == Step::<GetSecretValueState, GetSecretValueResponse>::Finish(Err(AwsErrorKind::InternalServiceError))
                },
            },
    {
        match state {
            GetSecretValueState::Lookup { by_version_id } => match found_secret(reply) {
                Ok(s) => {
                    // Secret is scheduled for deletion
                    if s.scheduled_delete_at.is_some() {
                        return Step::Finish(Err(AwsErrorKind::InvalidRequestException));
                    }
                    let secret_arn = s.arn.clone();
                    let version_id = s.version_id.clone();
                    let created_date = if by_version_id {
                        s.version_created_at.seconds
                    } else {
                        s.created_at.seconds
                    };
                    Step::Run(
                        GetSecretValueState::Touching {
                            response: GetSecretValueResponse {
                                arn: s.arn,
                                created_date,
                                name: s.name,
                                secret_string: s.secret_string,
                                secret_binary: s.secret_binary,
                                version_id: s.version_id,
                                version_stages: s.version_stages,
                            },
                        },
                        DbCall::Write(DbWrite::UpdateLastAccessed { secret_arn, version_id }),
                    )
                },
                Err(e) => Step::Finish(Err(e)),
            },
            GetSecretValueState::Touching { response } => if succeeded(&reply) {
                Step::Finish(Ok(response))
            } else {
                Step::Finish(Err(AwsErrorKind::InternalServiceError))
            },
        }
    }
}

} // verus!
