use vstd::prelude::*;

use crate::database::secrets::{DbCall, DbQuery, DbReply, DbWrite, Step};
use crate::handlers::error::AwsErrorKind;
use crate::handlers::{found_secret, spec_found_secret, is_done, succeeded};

verus! {

/// https://docs.aws.amazon.com/secretsmanager/latest/apireference/API_RestoreSecret.html
pub struct RestoreSecretHandler;

pub struct RestoreSecretRequest {
    pub secret_id: String,
}

pub struct RestoreSecretResponse {
    pub arn: String,
    pub name: String,
}

/// Where a RestoreSecret request stands.
pub enum RestoreSecretState {
    /// Waiting for the lookup of the secret.
    Lookup,
    /// Waiting for the scheduled deletion of the secret to be cancelled.
    Restoring { arn: String, name: String },
}

impl RestoreSecretHandler {
    /// A RestoreSecret request starts with the lookup of the secret it names.
    pub fn start(request: RestoreSecretRequest) -> (r: Step<RestoreSecretState, RestoreSecretResponse>)
        ensures
            r == Step::<RestoreSecretState, RestoreSecretResponse>::Run(
                RestoreSecretState::Lookup,
                DbCall::Query(DbQuery::LatestVersion { secret_id: request.secret_id }),
            ),
    {
        Step::Run(RestoreSecretState::Lookup, DbCall::Query(DbQuery::LatestVersion { secret_id: request.secret_id }))
    }

    /// A found secret has its scheduled deletion cancelled and the request is
    /// answered with its ARN and name; an unknown secret is not found and a
    /// failed call is an internal error.
    pub fn resume(state: RestoreSecretState, reply: DbReply) -> (r: Step<RestoreSecretState, RestoreSecretResponse>)
        ensures
            match state {
                RestoreSecretState::Lookup => match spec_found_secret(reply) {
                    Ok(s) => r == Step::<RestoreSecretState, RestoreSecretResponse>::Run(
                        RestoreSecretState::Restoring { arn: s.arn, name: s.name },
                        DbCall::Write(DbWrite::CancelDelete { secret_arn: s.arn }),
                    ),
                    Err(e) => r == Step::<RestoreSecretState, RestoreSecretResponse>::Finish(Err(e)),
                },
                RestoreSecretState::Restoring { arn, name } => if is_done(reply) {
                    r == Step::<RestoreSecretState, RestoreSecretResponse>::Finish(
                        Ok(RestoreSecretResponse { arn, name }),
                    )
                } else {
                    r == Step::<RestoreSecretState, RestoreSecretResponse>::Finish(Err(AwsErrorKind::InternalServiceError))
                },
            },
    {
        match state {
            RestoreSecretState::Lookup => match found_secret(reply) {
                Ok(s) => {
                    let secret_arn = s.arn.clone();
                    Step::Run(
                        RestoreSecretState::Restoring { arn: s.arn, name: s.name },
                        DbCall::Write(DbWrite::CancelDelete { secret_arn }),
                    )
                },
                Err(e) => Step::Finish(Err(e)),
            },
            RestoreSecretState::Restoring { arn, name } => if succeeded(&reply) {
                Step::Finish(Ok(RestoreSecretResponse { arn, name }))
            } else {
                Step::Finish(Err(AwsErrorKind::InternalServiceError))
            },
        }
    }
}

} // verus!
