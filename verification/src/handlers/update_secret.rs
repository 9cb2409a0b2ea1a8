use vstd::prelude::*;

use crate::database::secrets::{CreateSecretVersion, DbCall, DbFailure, DbQuery, DbReply, DbWrite, Step, VersionStage};
use crate::handlers::error::AwsErrorKind;
use crate::handlers::models::{is_hyphenated_uuid_text, new_uuid_text};
use crate::handlers::{found_secret, is_done, spec_found_secret, succeeded};

verus! {

// https://docs.aws.amazon.com/secretsmanager/latest/apireference/API_UpdateSecret.html
pub struct UpdateSecretHandler;

pub struct UpdateSecretRequest {
    pub client_request_token: Option<String>,
    pub description: Option<String>,
    pub secret_id: String,
    pub secret_string: Option<String>,
    pub secret_binary: Option<String>,
}

pub struct UpdateSecretResponse {
    pub arn: String,
    pub name: String,
    pub version_id: Option<String>,
}

/// The version an UpdateSecret request adds.
pub struct NewVersion {
    pub version_id: String,
    pub secret_string: Option<String>,
    pub secret_binary: Option<String>,
}

/// What an UpdateSecret request changes once its secret is found.
pub struct UpdatePlan {
    pub arn: String,
    pub name: String,
    pub description: Option<String>,
    pub version: Option<NewVersion>,
}

/// Where an UpdateSecret request stands.
pub enum UpdateSecretState {
    /// Waiting for the lookup of the secret.
    Lookup { request: UpdateSecretRequest },
    /// Waiting for the transaction to begin.
    Beginning { plan: UpdatePlan },
    /// Waiting for the description to be updated.
    Describing { plan: UpdatePlan },
    /// Waiting for the earlier versions to be marked as previous.
    Marking { plan: UpdatePlan },
    /// Waiting for the new version to be stored.
    Creating { plan: UpdatePlan },
    /// Waiting for the new version to be made current.
    Staging { plan: UpdatePlan },
    /// Waiting for the transaction to commit.
    Committing { plan: UpdatePlan },
}

/// After the description: store the new version, if any, or commit.
pub open spec fn after_description(plan: UpdatePlan) -> Step<UpdateSecretState, UpdateSecretResponse> {
    match plan.version {
        Some(_) => Step::Run(
            UpdateSecretState::Marking { plan },
            DbCall::Write(DbWrite::MarkVersionsPrevious { secret_arn: plan.arn }),
        ),
        None => Step::Run(UpdateSecretState::Committing { plan }, DbCall::Commit),
    }
}

fn after_description_exec(plan: UpdatePlan) -> (r: Step<UpdateSecretState, UpdateSecretResponse>)
    ensures
        r == after_description(plan),
{
    if plan.version.is_some() {
        let secret_arn = plan.arn.clone();
        Step::Run(UpdateSecretState::Marking { plan }, DbCall::Write(DbWrite::MarkVersionsPrevious { secret_arn }))
    } else {
        Step::Run(UpdateSecretState::Committing { plan }, DbCall::Commit)
    }
}

/// The version id of the request's token, or a fresh one.
fn version_id_or_new(token: Option<String>) -> (v: String)
    ensures
        match token {
            Some(t) => v == t,
            None => is_hyphenated_uuid_text(v@),
        },
{
    match token {
        Some(t) => t,
        None => new_uuid_text(),
    }
}

impl UpdateSecretHandler {
    /// An UpdateSecret request starts with the lookup of the secret it names.
    pub fn start(request: UpdateSecretRequest) -> (r: Step<UpdateSecretState, UpdateSecretResponse>)
        ensures
            r == Step::<UpdateSecretState, UpdateSecretResponse>::Run(
                UpdateSecretState::Lookup { request },
                DbCall::Query(DbQuery::LatestVersion { secret_id: request.secret_id }),
            ),
    {
        let secret_id = request.secret_id.clone();
        Step::Run(UpdateSecretState::Lookup { request }, DbCall::Query(DbQuery::LatestVersion { secret_id }))
    }

    /// In one transaction: the description is replaced when the request gives
    /// one; when it gives a value, the earlier versions are marked as previous
    /// and a new current version is stored under the request's token (or a
    /// fresh id). The answer names the new version, or none when no value was
    /// given or another request already stored that version.
    pub fn resume(state: UpdateSecretState, reply: DbReply) -> (r: Step<UpdateSecretState, UpdateSecretResponse>)
        requires
            !(state is Lookup && reply is Failed),
        ensures
            match state {
                UpdateSecretState::Lookup { request } => match spec_found_secret(reply) {
                    Ok(s) => r matches Step::Run(UpdateSecretState::Beginning { plan }, DbCall::Begin) && {
                        &&& plan.arn == s.arn
                        &&& plan.name == s.name
                        &&& plan.description == request.description
                        &&& if request.secret_string is Some || request.secret_binary is Some {
                            plan.version matches Some(v) && {
                                &&& v.secret_string == request.secret_string
                                &&& v.secret_binary == request.secret_binary
                                &&& match request.client_request_token {
                                    Some(t) => v.version_id == t,
                                    None => is_hyphenated_uuid_text(v.version_id@),
                                }
                            }
                        } else {
                            plan.version is None
                        }
                    },
                    Err(e) => r == Step::<UpdateSecretState, UpdateSecretResponse>::Finish(Err(e)),
                },
                UpdateSecretState::Beginning { plan } => if !is_done(reply) {
                    r == Step::<UpdateSecretState, UpdateSecretResponse>::Finish(Err(AwsErrorKind::InternalServiceError))
                } else {
                    match plan.description {
                        Some(d) => r == Step::<UpdateSecretState, UpdateSecretResponse>::Run(
                            UpdateSecretState::Describing { plan },
                            DbCall::Write(DbWrite::UpdateDescription { secret_arn: plan.arn, description: d }),
                        ),
                        None => r == after_description(plan),
                    }
                },
                UpdateSecretState::Describing { plan } => if !is_done(reply) {
                    r == Step::<UpdateSecretState, UpdateSecretResponse>::Finish(Err(AwsErrorKind::InternalServiceError))
                } else {
                    r == after_description(plan)
                },
                UpdateSecretState::Marking { plan } => if !is_done(reply) || plan.version is None {
                    r == Step::<UpdateSecretState, UpdateSecretResponse>::Finish(Err(AwsErrorKind::InternalServiceError))
                } else {
                    let v = plan.version->0;
                    r == Step::<UpdateSecretState, UpdateSecretResponse>::Run(
                        UpdateSecretState::Creating { plan },
                        DbCall::Write(DbWrite::CreateSecretVersion(CreateSecretVersion {
                            secret_arn: plan.arn,
                            version_id: v.version_id,
                            secret_string: v.secret_string,
                            secret_binary: v.secret_binary,
                        })),
                    )
                },
                UpdateSecretState::Creating { plan } => if reply == DbReply::Failed(DbFailure::UniqueViolation) {
                    r == Step::<UpdateSecretState, UpdateSecretResponse>::Finish(
                        Ok(UpdateSecretResponse { arn: plan.arn, name: plan.name, version_id: None }),
                    )
                } else if !is_done(reply) || plan.version is None {
                    r == Step::<UpdateSecretState, UpdateSecretResponse>::Finish(Err(AwsErrorKind::InternalServiceError))
                } else {
                    r matches Step::Run(
                        UpdateSecretState::Staging { plan: p },
                        DbCall::Write(DbWrite::AddVersionStage { secret_arn, version_id, version_stage }),
                    ) && p == plan && secret_arn == plan.arn && version_id == plan.version->0.version_id
                        && version_stage@ == VersionStage::Current.spec_label()
                },
                UpdateSecretState::Staging { plan } => if !is_done(reply) {
                    r == Step::<UpdateSecretState, UpdateSecretResponse>::Finish(Err(AwsErrorKind::InternalServiceError))
                } else {
                    r == Step::<UpdateSecretState, UpdateSecretResponse>::Run(UpdateSecretState::Committing { plan }, DbCall::Commit)
                },
                UpdateSecretState::Committing { plan } => if !is_done(reply) {
                    r == Step::<UpdateSecretState, UpdateSecretResponse>::Finish(Err(AwsErrorKind::InternalServiceError))
                } else {
                    r == Step::<UpdateSecretState, UpdateSecretResponse>::Finish(
                        Ok(UpdateSecretResponse {
                            arn: plan.arn,
                            name: plan.name,
                            version_id: match plan.version {
                                Some(v) => Some(v.version_id),
                                None => None,
                            },
                        }),
                    )
                },
            },
    {
        match state {
            UpdateSecretState::Lookup { request } => match found_secret(reply) {
                Ok(s) => {
                    let version = if request.secret_string.is_some() || request.secret_binary.is_some() {
                        // Generate a new version ID if none was provided
                        let version_id = version_id_or_new(request.client_request_token);
                        Some(NewVersion {
                            version_id,
                            secret_string: request.secret_string,
                            secret_binary: request.secret_binary,
                        })
                    } else {
                        None
                    };
                    Step::Run(
                        UpdateSecretState::Beginning {
                            plan: UpdatePlan { arn: s.arn, name: s.name, description: request.description, version },
                        },
                        DbCall::Begin,
                    )
                },
                Err(e) => Step::Finish(Err(e)),
            },
            UpdateSecretState::Beginning { plan } => {
                if !succeeded(&reply) {
                    return Step::Finish(Err(AwsErrorKind::InternalServiceError));
                }
                match &plan.description {
                    Some(d) => {
                        let description = d.clone();
                        let secret_arn = plan.arn.clone();
                        Step::Run(
                            UpdateSecretState::Describing { plan },
                            DbCall::Write(DbWrite::UpdateDescription { secret_arn, description }),
                        )
                    },
                    None => after_description_exec(plan),
                }
            },
            UpdateSecretState::Describing { plan } => {
                if !succeeded(&reply) {
                    return Step::Finish(Err(AwsErrorKind::InternalServiceError));
                }
                after_description_exec(plan)
            },
            UpdateSecretState::Marking { plan } => {
                if !succeeded(&reply) {
                    return Step::Finish(Err(AwsErrorKind::InternalServiceError));
                }
                match &plan.version {
                    Some(v) => {
                        let create = CreateSecretVersion {
                            secret_arn: plan.arn.clone(),
                            version_id: v.version_id.clone(),
                            secret_string: v.secret_string.clone(),
                            secret_binary: v.secret_binary.clone(),
                        };
                        Step::Run(UpdateSecretState::Creating { plan }, DbCall::Write(DbWrite::CreateSecretVersion(create)))
                    },
                    None => Step::Finish(Err(AwsErrorKind::InternalServiceError)),
                }
            },
            UpdateSecretState::Creating { plan } => {
                if let DbReply::Failed(DbFailure::UniqueViolation) = reply {
                    // Another request already created this version
                    return Step::Finish(Ok(UpdateSecretResponse { arn: plan.arn, name: plan.name, version_id: None }));
                }
                if !succeeded(&reply) {
                    return Step::Finish(Err(AwsErrorKind::InternalServiceError));
                }
                match &plan.version {
                    Some(v) => {
                        let secret_arn = plan.arn.clone();
                        let version_id = v.version_id.clone();
                        let version_stage = VersionStage::Current.to_string();
                        Step::Run(
                            UpdateSecretState::Staging { plan },
                            DbCall::Write(DbWrite::AddVersionStage { secret_arn, version_id, version_stage }),
                        )
                    },
                    None => Step::Finish(Err(AwsErrorKind::InternalServiceError)),
                }
            },
            UpdateSecretState::Staging { plan } => {
                if !succeeded(&reply) {
                    return Step::Finish(Err(AwsErrorKind::InternalServiceError));
                }
                Step::Run(UpdateSecretState::Committing { plan }, DbCall::Commit)
            },
            UpdateSecretState::Committing { plan } => {
                if !succeeded(&reply) {
                    return Step::Finish(Err(AwsErrorKind::InternalServiceError));
                }
                let version_id = match plan.version {
                    Some(v) => Some(v.version_id),
                    None => None,
                };
                Step::Finish(Ok(UpdateSecretResponse { arn: plan.arn, name: plan.name, version_id }))
            },
        }
    }
}

} // verus!
