use vstd::prelude::*;

use crate::database::secrets::{DbCall, DbQuery, DbReply, DbWrite, Step};
use crate::handlers::error::AwsErrorKind;
use crate::handlers::models::Tag;
use crate::handlers::{found_secret, is_done, spec_found_secret, succeeded};

verus! {

/// https://docs.aws.amazon.com/secretsmanager/latest/apireference/API_TagResource.html
pub struct TagResourceHandler;

pub struct TagResourceRequest {
    pub secret_id: String,
    pub tags: Vec<Tag>,
}

pub struct TagResourceResponse {}

/// Where a TagResource request stands.
pub enum TagResourceState {
    /// Waiting for the lookup of the secret.
    Lookup { tags: Vec<Tag> },
    /// Waiting for the transaction to begin.
    Beginning { arn: String, tags: Vec<Tag> },
    /// Waiting for the tag at `index` to be set.
    Tagging { arn: String, tags: Vec<Tag>, index: usize },
    /// Waiting for the transaction to commit.
    Committing,
}

/// After the tags before `index` are set: set the next one, or commit.
pub open spec fn tag_from(arn: String, tags: Vec<Tag>, index: int) -> Step<TagResourceState, TagResourceResponse> {
    if index < tags@.len() {
        Step::Run(
            TagResourceState::Tagging { arn, tags, index: index as usize },
            DbCall::Write(DbWrite::PutTag { secret_arn: arn, key: tags@[index].key, value: tags@[index].value }),
        )
    } else {
        Step::Run(TagResourceState::Committing, DbCall::Commit)
    }
}

fn tag_from_exec(arn: String, tags: Vec<Tag>, index: usize) -> (r: Step<TagResourceState, TagResourceResponse>)
    ensures
        r == tag_from(arn, tags, index as int),
{
    if index < tags.len() {
        let secret_arn = arn.clone();
        let key = tags[index].key.clone();
        let value = tags[index].value.clone();
        Step::Run(TagResourceState::Tagging { arn, tags, index }, DbCall::Write(DbWrite::PutTag { secret_arn, key, value }))
    } else {
        Step::Run(TagResourceState::Committing, DbCall::Commit)
    }
}

impl TagResourceHandler {
    /// A TagResource request starts with the lookup of the secret it names.
    pub fn start(request: TagResourceRequest) -> (r: Step<TagResourceState, TagResourceResponse>)
        ensures
            r == Step::<TagResourceState, TagResourceResponse>::Run(
                TagResourceState::Lookup { tags: request.tags },
                DbCall::Query(DbQuery::LatestVersion { secret_id: request.secret_id }),
            ),
    {
        Step::Run(
            TagResourceState::Lookup { tags: request.tags },
            DbCall::Query(DbQuery::LatestVersion { secret_id: request.secret_id }),
        )
    }

    /// Within one transaction every tag of the request is set on the found
    /// secret, in order; the request succeeds once the transaction commits.
    /// An unknown secret is not found; any failed call is an internal error.
    pub fn resume(state: TagResourceState, reply: DbReply) -> (r: Step<TagResourceState, TagResourceResponse>)
        ensures
            match state {
                TagResourceState::Lookup { tags } => match spec_found_secret(reply) {
                    Ok(s) => r == Step::<TagResourceState, TagResourceResponse>::Run(
                        TagResourceState::Beginning { arn: s.arn, tags },
                        DbCall::Begin,
                    ),
                    Err(e) => r == Step::<TagResourceState, TagResourceResponse>::Finish(Err(e)),
                },
                TagResourceState::Beginning { arn, tags } => if is_done(reply) {
                    r == tag_from(arn, tags, 0)
                } else {
                    r == Step::<TagResourceState, TagResourceResponse>::Finish(Err(AwsErrorKind::InternalServiceError))
                },
                TagResourceState::Tagging { arn, tags, index } => if is_done(reply) {
                    r == tag_from(arn, tags, index + 1)
                } else {
                    r == Step::<TagResourceState, TagResourceResponse>::Finish(Err(AwsErrorKind::InternalServiceError))
                },
                TagResourceState::Committing => if is_done(reply) {
                    r == Step::<TagResourceState, TagResourceResponse>::Finish(Ok(TagResourceResponse {}))
                } else {
                    r == Step::<TagResourceState, TagResourceResponse>::Finish(Err(AwsErrorKind::InternalServiceError))
                },
            },
    {
        match state {
            TagResourceState::Lookup { tags } => match found_secret(reply) {
                Ok(s) => Step::Run(TagResourceState::Beginning { arn: s.arn, tags }, DbCall::Begin),
                Err(e) => Step::Finish(Err(e)),
            },
            TagResourceState::Beginning { arn, tags } => if succeeded(&reply) {
                tag_from_exec(arn, tags, 0)
            } else {
                Step::Finish(Err(AwsErrorKind::InternalServiceError))
            },
            TagResourceState::Tagging { arn, tags, index } => if succeeded(&reply) {
                if index < tags.len() {
                    tag_from_exec(arn, tags, index + 1)
                } else {
                    Step::Run(TagResourceState::Committing, DbCall::Commit)
                }
            } else {
                Step::Finish(Err(AwsErrorKind::InternalServiceError))
            },
            TagResourceState::Committing => if succeeded(&reply) {
                Step::Finish(Ok(TagResourceResponse {}))
            } else {
                Step::Finish(Err(AwsErrorKind::InternalServiceError))
            },
        }
    }
}

} // verus!
