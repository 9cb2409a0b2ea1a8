use vstd::prelude::*;

use crate::database::secrets::{DbCall, DbQuery, DbReply, DbWrite, Step};
use crate::handlers::error::AwsErrorKind;
use crate::handlers::models::{check_length, length_within, SecretId};
use crate::handlers::{found_secret, is_done, spec_found_secret, succeeded};

verus! {

/// https://docs.aws.amazon.com/secretsmanager/latest/apireference/API_UntagResource.html
pub struct UntagResourceHandler;

pub struct UntagResourceRequest {
    pub secret_id: SecretId,
    pub tag_keys: Vec<String>,
}

pub struct UntagResourceResponse {}

impl UntagResourceRequest {
    /// A valid secret id and tag keys of 1 to 128 bytes.
    pub open spec fn spec_valid(&self) -> bool {
        &&& self.secret_id.spec_valid()
        &&& forall|i: int| 0 <= i < self.tag_keys@.len() ==> length_within(#[trigger] self.tag_keys@[i]@, 1, 128)
    }

    pub fn validate(&self) -> (r: bool)
        ensures
            r == self.spec_valid(),
    {
        if !self.secret_id.validate() {
            return false;
        }
        let mut i: usize = 0;
        while i < self.tag_keys.len()
            invariant
                i <= self.tag_keys@.len(),
                forall|j: int| 0 <= j < i ==> length_within(#[trigger] self.tag_keys@[j]@, 1, 128),
            decreases self.tag_keys@.len() - i,
        {
            if !check_length(&self.tag_keys[i], 1, 128) {
                return false;
            }
            i = i + 1;
        }
        true
    }
}

/// Where an UntagResource request stands.
pub enum UntagResourceState {
    /// Waiting for the lookup of the secret.
    Lookup { keys: Vec<String> },
    /// Waiting for the transaction to begin.
    Beginning { arn: String, keys: Vec<String> },
    /// Waiting for the tag with the key at `index` to be removed.
    Untagging { arn: String, keys: Vec<String>, index: usize },
    /// Waiting for the transaction to roll back after a failure.
    RollingBack,
    /// Waiting for the transaction to commit.
    Committing,
}

/// After the tags before `index` are removed: remove the next one, or commit.
pub open spec fn untag_from(arn: String, keys: Vec<String>, index: int) -> Step<UntagResourceState, UntagResourceResponse> {
    if index < keys@.len() {
        Step::Run(
            UntagResourceState::Untagging { arn, keys, index: index as usize },
            DbCall::Write(DbWrite::RemoveTag { secret_arn: arn, key: keys@[index] }),
        )
    } else {
        Step::Run(UntagResourceState::Committing, DbCall::Commit)
    }
}

fn untag_from_exec(arn: String, keys: Vec<String>, index: usize) -> (r: Step<UntagResourceState, UntagResourceResponse>)
    ensures
        r == untag_from(arn, keys, index as int),
{
    if index < keys.len() {
        let secret_arn = arn.clone();
        let key = keys[index].clone();
        Step::Run(UntagResourceState::Untagging { arn, keys, index }, DbCall::Write(DbWrite::RemoveTag { secret_arn, key }))
    } else {
        Step::Run(UntagResourceState::Committing, DbCall::Commit)
    }
}

impl UntagResourceHandler {
    /// An invalid request is refused; a valid one starts with the lookup of the
    /// secret it names.
    pub fn start(request: UntagResourceRequest) -> (r: Step<UntagResourceState, UntagResourceResponse>)
        ensures
            request.spec_valid() ==> r == Step::<UntagResourceState, UntagResourceResponse>::Run(
                UntagResourceState::Lookup { keys: request.tag_keys },
                DbCall::Query(DbQuery::LatestVersion { secret_id: request.secret_id.0 }),
            ),
            !request.spec_valid() ==> r == Step::<UntagResourceState, UntagResourceResponse>::Finish(
                Err(AwsErrorKind::InvalidParameterException),
            ),
    {
        if !request.validate() {
            return Step::Finish(Err(AwsErrorKind::InvalidParameterException));
        }
        Step::Run(
            UntagResourceState::Lookup { keys: request.tag_keys },
            DbCall::Query(DbQuery::LatestVersion { secret_id: request.secret_id.0 }),
        )
    }

    /// Within one transaction every requested tag key is removed from the found
    /// secret, in order; the request succeeds once the transaction commits. A
    /// failed removal rolls the transaction back and is an internal error.
    pub fn resume(state: UntagResourceState, reply: DbReply) -> (r: Step<UntagResourceState, UntagResourceResponse>)
        ensures
            match state {
                UntagResourceState::Lookup { keys } => match spec_found_secret(reply) {
                    Ok(s) => r == Step::<UntagResourceState, UntagResourceResponse>::Run(
                        UntagResourceState::Beginning { arn: s.arn, keys },
                        DbCall::Begin,
                    ),
                    Err(e) => r == Step::<UntagResourceState, UntagResourceResponse>::Finish(Err(e)),
                },
                UntagResourceState::Beginning { arn, keys } => if is_done(reply) {
                    r == untag_from(arn, keys, 0)
                } else {
                    r == Step::<UntagResourceState, UntagResourceResponse>::Finish(Err(AwsErrorKind::InternalServiceError))
                },
                UntagResourceState::Untagging { arn, keys, index } => if is_done(reply) {
                    r == untag_from(arn, keys, index + 1)
                } else {
                    r == Step::<UntagResourceState, UntagResourceResponse>::Run(UntagResourceState::RollingBack, DbCall::Rollback)
                },
                UntagResourceState::RollingBack => r == Step::<UntagResourceState, UntagResourceResponse>::Finish(
                    Err(AwsErrorKind::InternalServiceError),
                ),
                UntagResourceState::Committing => if is_done(reply) {
                    r == Step::<UntagResourceState, UntagResourceResponse>::Finish(Ok(UntagResourceResponse {}))
                } else {
                    r == Step::<UntagResourceState, UntagResourceResponse>::Finish(Err(AwsErrorKind::InternalServiceError))
                },
            },
    {
        match state {
            UntagResourceState::Lookup { keys } => match found_secret(reply) {
                Ok(s) => Step::Run(UntagResourceState::Beginning { arn: s.arn, keys }, DbCall::Begin),
                Err(e) => Step::Finish(Err(e)),
            },
            UntagResourceState::Beginning { arn, keys } => if succeeded(&reply) {
                untag_from_exec(arn, keys, 0)
            } else {
                Step::Finish(Err(AwsErrorKind::InternalServiceError))
            },
            UntagResourceState::Untagging { arn, keys, index } => if succeeded(&reply) {
                if index < keys.len() {
                    untag_from_exec(arn, keys, index + 1)
                } else {
                    Step::Run(UntagResourceState::Committing, DbCall::Commit)
                }
            } else {
                Step::Run(UntagResourceState::RollingBack, DbCall::Rollback)
            },
            UntagResourceState::RollingBack => Step::Finish(Err(AwsErrorKind::InternalServiceError)),
            UntagResourceState::Committing => if succeeded(&reply) {
                Step::Finish(Ok(UntagResourceResponse {}))
            } else {
                Step::Finish(Err(AwsErrorKind::InternalServiceError))
            },
        }
    }
}

} // verus!
