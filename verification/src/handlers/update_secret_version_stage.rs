use vstd::prelude::*;

use crate::database::secrets::{DbCall, DbFailure, DbQuery, DbReply, DbWrite, Step};
use crate::handlers::error::AwsErrorKind;
use crate::handlers::models::{check_length, length_within, SecretId, VersionId};
use crate::handlers::{found_secret, is_done, spec_found_secret, succeeded};
use crate::utils::text::{owned, str_eq};

verus! {

// https://docs.aws.amazon.com/secretsmanager/latest/apireference/API_UpdateSecretVersionStage.html
pub struct UpdateSecretVersionStageHandler;

pub struct UpdateSecretVersionStageRequest {
    pub move_to_version_id: Option<VersionId>,
    pub remove_from_version_id: Option<VersionId>,
    pub secret_id: SecretId,
    pub version_stage: String,
}

pub struct UpdateSecretVersionStageResponse {
    pub arn: String,
    pub name: String,
}

impl UpdateSecretVersionStageRequest {
    /// A valid secret id, valid version ids wherever given, and a stage of 1 to
    /// 256 bytes.
    pub open spec fn spec_valid(&self) -> bool {
        &&& self.secret_id.spec_valid()
        &&& (self.move_to_version_id matches Some(v) ==> v.spec_valid())
        &&& (self.remove_from_version_id matches Some(v) ==> v.spec_valid())
        &&& length_within(self.version_stage@, 1, 256)
    }

    pub fn validate(&self) -> (r: bool)
        ensures
            r == self.spec_valid(),
    {
        if !self.secret_id.validate() {
            return false;
        }
        if let Some(v) = &self.move_to_version_id {
            if !v.validate() {
                return false;
            }
        }
        if let Some(v) = &self.remove_from_version_id {
            if !v.validate() {
                return false;
            }
        }
        check_length(&self.version_stage, 1, 256)
    }
}

/// What an UpdateSecretVersionStage request changes once its secret is found.
pub struct StagePlan {
    pub arn: String,
    pub name: String,
    /// The version that was current when the secret was found.
    pub current_version_id: String,
    pub version_stage: String,
    pub move_to: Option<String>,
    pub remove_from: Option<String>,
}

/// Where an UpdateSecretVersionStage request stands.
pub enum UpdateSecretVersionStageState {
    /// Waiting for the lookup of the secret.
    Lookup { version_stage: String, move_to: Option<String>, remove_from: Option<String> },
    /// Waiting for the transaction to begin.
    Beginning { plan: StagePlan },
    /// Waiting for the stage to be removed from the source version.
    Removing { plan: StagePlan },
    /// Waiting for `AWSPREVIOUS` to be removed from every version.
    ClearingPrevious { plan: StagePlan },
    /// Waiting for the version that was current to be given `AWSPREVIOUS`.
    Demoting { plan: StagePlan },
    /// Waiting for the stage to be added to the destination version.
    Moving { plan: StagePlan },
    /// Waiting for the transaction to commit.
    Committing { plan: StagePlan },
}

/// Once the stage is off the source version: move `AWSPREVIOUS` along when
/// `AWSCURRENT` moves, then move the stage.
pub open spec fn is_after_removal(
    plan: StagePlan,
    r: Step<UpdateSecretVersionStageState, UpdateSecretVersionStageResponse>,
) -> bool {
    if plan.version_stage@ == "AWSCURRENT"@ && plan.move_to is Some {
        r matches Step::Run(
            UpdateSecretVersionStageState::ClearingPrevious { plan: p },
            DbCall::Write(DbWrite::RemoveVersionStageAny { secret_arn, version_stage }),
        ) && p == plan && secret_arn == plan.arn && version_stage@ == "AWSPREVIOUS"@
    } else {
        r == moving(plan)
    }
}

fn after_removal_exec(plan: StagePlan) -> (r: Step<UpdateSecretVersionStageState, UpdateSecretVersionStageResponse>)
    ensures
        is_after_removal(plan, r),
{
    // If we are re-assigning AWSCURRENT ensure that the previous secret is given AWSPREVIOUS
    if str_eq(plan.version_stage.as_str(), "AWSCURRENT") && plan.move_to.is_some() {
        // Ensure nobody else has the AWSPREVIOUS stage
        let secret_arn = plan.arn.clone();
        let version_stage = owned("AWSPREVIOUS");
        Step::Run(
            UpdateSecretVersionStageState::ClearingPrevious { plan },
            DbCall::Write(DbWrite::RemoveVersionStageAny { secret_arn, version_stage }),
        )
    } else {
        moving_exec(plan)
    }
}

/// Add the stage to the destination version, if any, or commit.
pub open spec fn moving(plan: StagePlan) -> Step<UpdateSecretVersionStageState, UpdateSecretVersionStageResponse> {
    match plan.move_to {
        Some(dest) => Step::Run(
            UpdateSecretVersionStageState::Moving { plan },
            DbCall::Write(DbWrite::AddVersionStage { secret_arn: plan.arn, version_id: dest, version_stage: plan.version_stage }),
        ),
        None => Step::Run(UpdateSecretVersionStageState::Committing { plan }, DbCall::Commit),
    }
}

fn moving_exec(plan: StagePlan) -> (r: Step<UpdateSecretVersionStageState, UpdateSecretVersionStageResponse>)
    ensures
        r == moving(plan),
{
    match &plan.move_to {
        Some(dest) => {
            let secret_arn = plan.arn.clone();
            let version_id = dest.clone();
            let version_stage = plan.version_stage.clone();
            Step::Run(
                UpdateSecretVersionStageState::Moving { plan },
                DbCall::Write(DbWrite::AddVersionStage { secret_arn, version_id, version_stage }),
            )
        },
        None => Step::Run(UpdateSecretVersionStageState::Committing { plan }, DbCall::Commit),
    }
}

impl UpdateSecretVersionStageHandler {
    /// An invalid request is refused; a valid one starts with the lookup of the
    /// secret it names.
    pub fn start(request: UpdateSecretVersionStageRequest) -> (r: Step<
        UpdateSecretVersionStageState,
        UpdateSecretVersionStageResponse,
    >)
        ensures
            request.spec_valid() ==> r == Step::<UpdateSecretVersionStageState, UpdateSecretVersionStageResponse>::Run(
                UpdateSecretVersionStageState::Lookup {
                    version_stage: request.version_stage,
                    move_to: match request.move_to_version_id {
                        Some(v) => Some(v.0),
                        None => None::<String>,
                    },
                    remove_from: match request.remove_from_version_id {
                        Some(v) => Some(v.0),
                        None => None::<String>,
                    },
                },
                DbCall::Query(DbQuery::LatestVersion { secret_id: request.secret_id.0 }),
            ),
            !request.spec_valid() ==> r == Step::<UpdateSecretVersionStageState, UpdateSecretVersionStageResponse>::Finish(
                Err(AwsErrorKind::InvalidParameterException),
            ),
    {
        if !request.validate() {
            return Step::Finish(Err(AwsErrorKind::InvalidParameterException));
        }
        let move_to = match request.move_to_version_id {
            Some(v) => Some(v.into_inner()),
            None => None,
        };
        let remove_from = match request.remove_from_version_id {
            Some(v) => Some(v.into_inner()),
            None => None,
        };
        Step::Run(
            UpdateSecretVersionStageState::Lookup { version_stage: request.version_stage, move_to, remove_from },
            DbCall::Query(DbQuery::LatestVersion { secret_id: request.secret_id.into_inner() }),
        )
    }

    /// In one transaction: the stage is removed from the source version, if
    /// any (a source without the stage is `InvalidRequestException`); when
    /// `AWSCURRENT` moves to another version, `AWSPREVIOUS` is taken from every
    /// version and given to the version that was current; the stage is added to
    /// the destination version, if any (one already held elsewhere is
    /// `InvalidRequestException`). Any other failure is an internal error.
    pub fn resume(state: UpdateSecretVersionStageState, reply: DbReply) -> (r: Step<
        UpdateSecretVersionStageState,
        UpdateSecretVersionStageResponse,
    >)
        ensures
            match state {
                UpdateSecretVersionStageState::Lookup { version_stage, move_to, remove_from } => match spec_found_secret(reply) {
                    Ok(s) => r == Step::<UpdateSecretVersionStageState, UpdateSecretVersionStageResponse>::Run(
                        UpdateSecretVersionStageState::Beginning {
                            plan: StagePlan {
                                arn: s.arn,
                                name: s.name,
                                current_version_id: s.version_id,
                                version_stage,
                                move_to,
                                remove_from,
                            },
                        },
                        DbCall::Begin,
                    ),
                    Err(e) => r == Step::<UpdateSecretVersionStageState, UpdateSecretVersionStageResponse>::Finish(Err(e)),
                },
                UpdateSecretVersionStageState::Beginning { plan } => if !is_done(reply) {
                    r == Step::<UpdateSecretVersionStageState, UpdateSecretVersionStageResponse>::Finish(
                        Err(AwsErrorKind::InternalServiceError),
                    )
                } else {
                    match plan.remove_from {
                        Some(source) => r == Step::<UpdateSecretVersionStageState, UpdateSecretVersionStageResponse>::Run(
                            UpdateSecretVersionStageState::Removing { plan },
                            DbCall::Write(DbWrite::RemoveVersionStage {
                                secret_arn: plan.arn,
                                version_id: source,
                                version_stage: plan.version_stage,
                            }),
                        ),
                        None => is_after_removal(plan, r),
                    }
                },
                UpdateSecretVersionStageState::Removing { plan } => if reply == DbReply::Rows(0) {
                    // Secret version didn't have the stage attached
                    r == Step::<UpdateSecretVersionStageState, UpdateSecretVersionStageResponse>::Finish(
                        Err(AwsErrorKind::InvalidRequestException),
                    )
                } else if is_done(reply) {
                    is_after_removal(plan, r)
                } else {
                    r == Step::<UpdateSecretVersionStageState, UpdateSecretVersionStageResponse>::Finish(
                        Err(AwsErrorKind::InternalServiceError),
                    )
                },
                UpdateSecretVersionStageState::ClearingPrevious { plan } => if is_done(reply) {
                    r matches Step::Run(
                        UpdateSecretVersionStageState::Demoting { plan: p },
                        DbCall::Write(DbWrite::AddVersionStage { secret_arn, version_id, version_stage }),
                    ) && p == plan && secret_arn == plan.arn && version_id == plan.current_version_id
                        && version_stage@ == "AWSPREVIOUS"@
                } else {
                    r == Step::<UpdateSecretVersionStageState, UpdateSecretVersionStageResponse>::Finish(
                        Err(AwsErrorKind::InternalServiceError),
                    )
                },
                UpdateSecretVersionStageState::Demoting { plan } => if is_done(reply) {
                    r == moving(plan)
                } else {
                    r == Step::<UpdateSecretVersionStageState, UpdateSecretVersionStageResponse>::Finish(
                        Err(AwsErrorKind::InternalServiceError),
                    )
                },
                UpdateSecretVersionStageState::Moving { plan } => if reply == DbReply::Failed(DbFailure::UniqueViolation) {
                    // Version stage is already attached to another version
                    r == Step::<UpdateSecretVersionStageState, UpdateSecretVersionStageResponse>::Finish(
                        Err(AwsErrorKind::InvalidRequestException),
                    )
                } else if is_done(reply) {
                    r == Step::<UpdateSecretVersionStageState, UpdateSecretVersionStageResponse>::Run(
                        UpdateSecretVersionStageState::Committing { plan },
                        DbCall::Commit,
                    )
                } else {
                    r == Step::<UpdateSecretVersionStageState, UpdateSecretVersionStageResponse>::Finish(
                        Err(AwsErrorKind::InternalServiceError),
                    )
                },
                UpdateSecretVersionStageState::Committing { plan } => if is_done(reply) {
                    r == Step::<UpdateSecretVersionStageState, UpdateSecretVersionStageResponse>::Finish(
                        Ok(UpdateSecretVersionStageResponse { arn: plan.arn, name: plan.name }),
                    )
                } else {
                    r == Step::<UpdateSecretVersionStageState, UpdateSecretVersionStageResponse>::Finish(
                        Err(AwsErrorKind::InternalServiceError),
                    )
                },
            },
    {
        match state {
            UpdateSecretVersionStageState::Lookup { version_stage, move_to, remove_from } => match found_secret(reply) {
                Ok(s) => Step::Run(
                    UpdateSecretVersionStageState::Beginning {
                        plan: StagePlan {
                            arn: s.arn,
                            name: s.name,
                            current_version_id: s.version_id,
                            version_stage,
                            move_to,
                            remove_from,
                        },
                    },
                    DbCall::Begin,
                ),
                Err(e) => Step::Finish(Err(e)),
            },
            UpdateSecretVersionStageState::Beginning { plan } => {
                if !succeeded(&reply) {
                    return Step::Finish(Err(AwsErrorKind::InternalServiceError));
                }
                // Handle removing from a version
                match &plan.remove_from {
                    Some(source) => {
                        let secret_arn = plan.arn.clone();
                        let version_id = source.clone();
                        let version_stage = plan.version_stage.clone();
                        Step::Run(
                            UpdateSecretVersionStageState::Removing { plan },
                            DbCall::Write(DbWrite::RemoveVersionStage { secret_arn, version_id, version_stage }),
                        )
                    },
                    None => after_removal_exec(plan),
                }
            },
            UpdateSecretVersionStageState::Removing { plan } => {
                if let DbReply::Rows(n) = reply {
                    if n < 1 {
                        return Step::Finish(Err(AwsErrorKind::InvalidRequestException));
                    }
                }
                if !succeeded(&reply) {
                    return Step::Finish(Err(AwsErrorKind::InternalServiceError));
                }
                after_removal_exec(plan)
            },
            UpdateSecretVersionStageState::ClearingPrevious { plan } => {
                if !succeeded(&reply) {
                    return Step::Finish(Err(AwsErrorKind::InternalServiceError));
                }
                // Add the AWSPREVIOUS stage to the old current
                let secret_arn = plan.arn.clone();
                let version_id = plan.current_version_id.clone();
                let version_stage = owned("AWSPREVIOUS");
                Step::Run(
                    UpdateSecretVersionStageState::Demoting { plan },
                    DbCall::Write(DbWrite::AddVersionStage { secret_arn, version_id, version_stage }),
                )
            },
            UpdateSecretVersionStageState::Demoting { plan } => {
                if !succeeded(&reply) {
                    return Step::Finish(Err(AwsErrorKind::InternalServiceError));
                }
                moving_exec(plan)
            },
            UpdateSecretVersionStageState::Moving { plan } => {
                if let DbReply::Failed(DbFailure::UniqueViolation) = reply {
                    return Step::Finish(Err(AwsErrorKind::InvalidRequestException));
                }
                if !succeeded(&reply) {
                    return Step::Finish(Err(AwsErrorKind::InternalServiceError));
                }
                Step::Run(UpdateSecretVersionStageState::Committing { plan }, DbCall::Commit)
            },
            UpdateSecretVersionStageState::Committing { plan } => {
                if !succeeded(&reply) {
                    return Step::Finish(Err(AwsErrorKind::InternalServiceError));
                }
                Step::Finish(Ok(UpdateSecretVersionStageResponse { arn: plan.arn, name: plan.name }))
            },
        }
    }
}

} // verus!
