use vstd::prelude::*;

use crate::database::secrets::{DbCall, DbQuery, DbReply, DbWrite, Step, Timestamp};
use crate::handlers::error::AwsErrorKind;
use crate::handlers::models::SecretId;
use crate::handlers::{found_secret, is_done, spec_found_secret, succeeded};

verus! {

/// https://docs.aws.amazon.com/secretsmanager/latest/apireference/API_DeleteSecret.html
pub struct DeleteSecretHandler;

pub struct DeleteSecretRequest {
    pub force_delete_without_recovery: bool,
    pub recovery_window_in_days: i32,
    pub secret_id: SecretId,
}

pub struct DeleteSecretResponse {
    pub arn: String,
    pub name: String,
    pub deletion_date: Timestamp,
}

/// The recovery window used when a request gives none.
pub fn default_recovery_window_days() -> (r: i32)
    ensures
        r == 30,
{
    30
}

impl DeleteSecretRequest {
    /// A recovery window of 7 to 30 days and a valid secret id.
    pub open spec fn spec_valid(&self) -> bool {
        7 <= self.recovery_window_in_days <= 30 && self.secret_id.spec_valid()
    }

    pub fn validate(&self) -> (r: bool)
        ensures
            r == self.spec_valid(),
    {
        7 <= self.recovery_window_in_days && self.recovery_window_in_days <= 30 && self.secret_id.validate()
    }
}

/// Where a DeleteSecret request stands.
pub enum DeleteSecretState {
    /// Waiting for the lookup of the secret.
    Lookup { force: bool, days: i32 },
    /// Waiting for the secret to be deleted at once.
    Deleting { arn: String, name: String },
    /// Waiting for the deletion to be scheduled.
    Scheduling { arn: String, name: String },
}

impl DeleteSecretHandler {
    /// An invalid request is refused; a valid one starts with the lookup of the
    /// secret it names.
    pub fn start(request: DeleteSecretRequest) -> (r: Step<DeleteSecretState, DeleteSecretResponse>)
        ensures
            request.spec_valid() ==> r == Step::<DeleteSecretState, DeleteSecretResponse>::Run(
                DeleteSecretState::Lookup {
                    force: request.force_delete_without_recovery,
                    days: request.recovery_window_in_days,
                },
                DbCall::Query(DbQuery::LatestVersion { secret_id: request.secret_id.0 }),
            ),
            !request.spec_valid() ==> r == Step::<DeleteSecretState, DeleteSecretResponse>::Finish(
                Err(AwsErrorKind::InvalidParameterException),
            ),
    {
        if !request.validate() {
            return Step::Finish(Err(AwsErrorKind::InvalidParameterException));
        }
        Step::Run(
            DeleteSecretState::Lookup {
                force: request.force_delete_without_recovery,
                days: request.recovery_window_in_days,
            },
            DbCall::Query(DbQuery::LatestVersion { secret_id: request.secret_id.0 }),
        )
    }

    /// A secret already scheduled for deletion is answered with its scheduled
    /// date and left as it is. Otherwise a forced deletion removes the secret at
    /// once and is answered with `now`, the time of the reply, and any other deletion is
    /// scheduled `days` days ahead and answered with the scheduled date.
    pub fn resume(state: DeleteSecretState, reply: DbReply, now: Timestamp) -> (r: Step<DeleteSecretState, DeleteSecretResponse>)
        ensures
            match state {
                DeleteSecretState::Lookup { force, days } => match spec_found_secret(reply) {
                    Ok(s) => match s.scheduled_delete_at {
                        Some(d) => r == Step::<DeleteSecretState, DeleteSecretResponse>::Finish(
                            Ok(DeleteSecretResponse { arn: s.arn, name: s.name, deletion_date: d }),
                        ),
                        None => if force {
                            r == Step::<DeleteSecretState, DeleteSecretResponse>::Run(
                                DeleteSecretState::Deleting { arn: s.arn, name: s.name },
                                DbCall::Write(DbWrite::DeleteSecret { secret_arn: s.arn }),
                            )
                        } else {
                            r == Step::<DeleteSecretState, DeleteSecretResponse>::Run(
                                DeleteSecretState::Scheduling { arn: s.arn, name: s.name },
                                DbCall::Write(DbWrite::ScheduleDelete { secret_arn: s.arn, days }),
                            )
                        },
                    },
                    Err(e) => r == Step::<DeleteSecretState, DeleteSecretResponse>::Finish(Err(e)),
                },
                DeleteSecretState::Deleting { arn, name } => if is_done(reply) {
                    r == Step::<DeleteSecretState, DeleteSecretResponse>::Finish(
                        Ok(DeleteSecretResponse { arn, name, deletion_date: now }),
                    )
                } else {
                    r == Step::<DeleteSecretState, DeleteSecretResponse>::Finish(Err(AwsErrorKind::InternalServiceError))
                },
                DeleteSecretState::Scheduling { arn, name } => match reply {
                    DbReply::Scheduled(d) => r == Step::<DeleteSecretState, DeleteSecretResponse>::Finish(
                        Ok(DeleteSecretResponse { arn, name, deletion_date: d }),
                    ),
                    _ => r == Step::<DeleteSecretState, DeleteSecretResponse>::Finish(Err(AwsErrorKind::InternalServiceError)),
                },
            },
    {
        match state {
            DeleteSecretState::Lookup { force, days } => match found_secret(reply) {
                Ok(s) => match s.scheduled_delete_at {
                    Some(d) => Step::Finish(Ok(DeleteSecretResponse { arn: s.arn, name: s.name, deletion_date: d })),
                    None => {
                        let secret_arn = s.arn.clone();
                        if force {
                            Step::Run(
                                DeleteSecretState::Deleting { arn: s.arn, name: s.name },
                                DbCall::Write(DbWrite::DeleteSecret { secret_arn }),
                            )
                        } else {
                            Step::Run(
                                DeleteSecretState::Scheduling { arn: s.arn, name: s.name },
                                DbCall::Write(DbWrite::ScheduleDelete { secret_arn, days }),
                            )
                        }
                    },
                },
                Err(e) => Step::Finish(Err(e)),
            },
            DeleteSecretState::Deleting { arn, name } => if succeeded(&reply) {
                // Secret has been deleted
                Step::Finish(Ok(DeleteSecretResponse { arn, name, deletion_date: now }))
            } else {
                Step::Finish(Err(AwsErrorKind::InternalServiceError))
            },
            DeleteSecretState::Scheduling { arn, name } => match reply {
                DbReply::Scheduled(d) => Step::Finish(Ok(DeleteSecretResponse { arn, name, deletion_date: d })),
                _ => Step::Finish(Err(AwsErrorKind::InternalServiceError)),
            },
        }
    }
}

} // verus!
