use vstd::prelude::*;

use crate::database::secrets::{CreateSecretVersion, DbCall, DbFailure, DbQuery, DbReply, DbWrite, Step, VersionStage};
use crate::handlers::error::AwsErrorKind;
use crate::handlers::models::{is_hyphenated_uuid_text, new_uuid_text};
use crate::handlers::{found_secret, is_done, spec_found_secret, succeeded};
use crate::utils::text::{opt_string_eq, opt_view};

verus! {

// https://docs.aws.amazon.com/secretsmanager/latest/apireference/API_PutSecretValue.html
pub struct PutSecretValueHandler;

pub struct PutSecretValueRequest {
    pub client_request_token: Option<String>,
    pub secret_id: String,
    pub secret_string: Option<String>,
    pub secret_binary: Option<String>,
    pub version_stages: Option<Vec<String>>,
}

pub struct PutSecretValueResponse {
    pub arn: String,
    pub name: String,
    pub version_id: String,
    pub version_stages: Vec<String>,
}

/// The stage of the first known label, or `AWSCURRENT` when no label is known.
pub open spec fn first_known_stage(labels: Seq<Seq<char>>) -> VersionStage
    decreases labels.len(),
{
    if labels.len() == 0 {
        VersionStage::Current
    } else if labels[0] == "AWSCURRENT"@ {
        VersionStage::Current
    } else if labels[0] == "AWSPREVIOUS"@ {
        VersionStage::Previous
    } else {
        first_known_stage(labels.drop_first())
    }
}

fn first_stage(labels: &Vec<String>) -> (r: VersionStage)
    ensures
        r == first_known_stage(crate::utils::filter::strings_view(labels@)),
{
    let ghost v = crate::utils::filter::strings_view(labels@);
    proof {
        assert(v.skip(0) =~= v);
    }
    let mut i: usize = 0;
    while i < labels.len()
        invariant
            i <= labels@.len(),
            v == crate::utils::filter::strings_view(labels@),
            first_known_stage(v) == first_known_stage(v.skip(i as int)),
        decreases labels@.len() - i,
    {
        proof {
            assert(v.skip(i as int).drop_first() =~= v.skip(i + 1));
            assert(v.skip(i as int)[0] == labels@[i as int]@);
            reveal_strlit("AWSCURRENT");
            reveal_strlit("AWSPREVIOUS");
            assert("AWSCURRENT"@.len() != "AWSPREVIOUS"@.len());
        }
        match VersionStage::try_from_str(labels[i].as_str()) {
            Some(stage) => {
                return stage;
            },
            None => {},
        }
        i = i + 1;
    }
    VersionStage::Current
}

/// What a PutSecretValue request stores once its secret is found.
pub struct PutPlan {
    pub arn: String,
    pub name: String,
    /// The version that was current when the secret was found.
    pub previous_version_id: String,
    pub version_id: String,
    pub version_stage: VersionStage,
    pub secret_string: Option<String>,
    pub secret_binary: Option<String>,
}

/// Where a PutSecretValue request stands.
pub enum PutSecretValueState {
    /// Waiting for the lookup of the secret.
    Lookup {
        version_id: String,
        version_stage: VersionStage,
        secret_string: Option<String>,
        secret_binary: Option<String>,
    },
    /// Waiting for the transaction to begin.
    Beginning { plan: PutPlan },
    /// Waiting for the version that was previous to be marked deprecated.
    Deprecating { plan: PutPlan },
    /// Waiting for the current version to be marked previous.
    Demoting { plan: PutPlan },
    /// Waiting for the new version to be stored.
    Creating { plan: PutPlan },
    /// Waiting for the new version to be given its stage.
    Staging { plan: PutPlan },
    /// Waiting for the transaction to commit.
    Committing { plan: PutPlan },
    /// Waiting for the transaction to roll back after the version id was found taken.
    RollingBack { plan: PutPlan },
    /// Waiting for the lookup of the version that holds the id.
    Rechecking { plan: PutPlan },
}

/// The new version is stored under the plan's id, without a stage.
pub open spec fn create_call(plan: PutPlan) -> DbCall {
    DbCall::Write(DbWrite::CreateSecretVersion(CreateSecretVersion {
        secret_arn: plan.arn,
        version_id: plan.version_id,
        secret_string: plan.secret_string,
        secret_binary: plan.secret_binary,
    }))
}

fn create_call_exec(plan: &PutPlan) -> (c: DbCall)
    ensures
        c == create_call(*plan),
{
    DbCall::Write(DbWrite::CreateSecretVersion(CreateSecretVersion {
        secret_arn: plan.arn.clone(),
        version_id: plan.version_id.clone(),
        secret_string: plan.secret_string.clone(),
        secret_binary: plan.secret_binary.clone(),
    }))
}

/// What `PutSecretValueHandler::resume` gives from a state and the store's reply to its call.
pub open spec fn put_resume_post(state: PutSecretValueState, reply: DbReply, r: Step<PutSecretValueState, PutSecretValueResponse>) -> bool {
    match state {
        PutSecretValueState::Lookup { version_id, version_stage, secret_string, secret_binary } => match spec_found_secret(reply) {
            Ok(s) => r == Step::<PutSecretValueState, PutSecretValueResponse>::Run(
                PutSecretValueState::Beginning {
                    plan: PutPlan {
                        arn: s.arn,
                        name: s.name,
                        previous_version_id: s.version_id,
                        version_id,
                        version_stage,
                        secret_string,
                        secret_binary,
                    },
                },
                DbCall::Begin,
            ),
            Err(e) => r == Step::<PutSecretValueState, PutSecretValueResponse>::Finish(Err(e)),
        },
        PutSecretValueState::Beginning { plan } => if is_done(reply) {
            r == Step::<PutSecretValueState, PutSecretValueResponse>::Run(
                PutSecretValueState::Deprecating { plan },
                DbCall::Write(DbWrite::MarkPreviousVersionsDeprecated { secret_arn: plan.arn }),
            )
        } else {
            r == Step::<PutSecretValueState, PutSecretValueResponse>::Finish(Err(AwsErrorKind::InternalServiceError))
        },
        PutSecretValueState::Deprecating { plan } => if !is_done(reply) {
            r == Step::<PutSecretValueState, PutSecretValueResponse>::Finish(Err(AwsErrorKind::InternalServiceError))
        } else if plan.version_stage == VersionStage::Current {
            r == Step::<PutSecretValueState, PutSecretValueResponse>::Run(
                PutSecretValueState::Demoting { plan },
                DbCall::Write(DbWrite::SetVersionStage {
                    secret_arn: plan.arn,
                    version_id: plan.previous_version_id,
                    version_stage: Some(VersionStage::Previous),
                }),
            )
        } else {
            r == Step::<PutSecretValueState, PutSecretValueResponse>::Run(
                PutSecretValueState::Creating { plan },
                create_call(plan),
            )
        },
        PutSecretValueState::Demoting { plan } => if is_done(reply) {
            r == Step::<PutSecretValueState, PutSecretValueResponse>::Run(
                PutSecretValueState::Creating { plan },
                create_call(plan),
            )
        } else {
            r == Step::<PutSecretValueState, PutSecretValueResponse>::Finish(Err(AwsErrorKind::InternalServiceError))
        },
        PutSecretValueState::Creating { plan } => if reply == DbReply::Failed(DbFailure::UniqueViolation) {
            r == Step::<PutSecretValueState, PutSecretValueResponse>::Run(
                PutSecretValueState::RollingBack { plan },
                DbCall::Rollback,
            )
        } else if is_done(reply) {
            r matches Step::Run(
                PutSecretValueState::Staging { plan: p },
                DbCall::Write(DbWrite::AddVersionStage { secret_arn, version_id, version_stage }),
            ) && p == plan && secret_arn == plan.arn && version_id == plan.version_id
                && version_stage@ == plan.version_stage.spec_label()
        } else {
            r == Step::<PutSecretValueState, PutSecretValueResponse>::Finish(Err(AwsErrorKind::InternalServiceError))
        },
        PutSecretValueState::Staging { plan } => if is_done(reply) {
            r == Step::<PutSecretValueState, PutSecretValueResponse>::Run(
                PutSecretValueState::Committing { plan },
                DbCall::Commit,
            )
        } else {
            r == Step::<PutSecretValueState, PutSecretValueResponse>::Finish(Err(AwsErrorKind::InternalServiceError))
        },
        PutSecretValueState::Committing { plan } => if is_done(reply) {
            r matches Step::Finish(Ok(resp)) && {
                &&& resp.arn == plan.arn
                &&& resp.name == plan.name
                &&& resp.version_id == plan.version_id
                &&& resp.version_stages@.len() == 1
                &&& resp.version_stages@[0]@ == plan.version_stage.spec_label()
            }
        } else {
            r == Step::<PutSecretValueState, PutSecretValueResponse>::Finish(Err(AwsErrorKind::InternalServiceError))
        },
        PutSecretValueState::RollingBack { plan } => r == Step::<PutSecretValueState, PutSecretValueResponse>::Run(
            PutSecretValueState::Rechecking { plan },
            DbCall::Query(DbQuery::ByVersionId { secret_id: plan.arn, version_id: plan.version_id }),
        ),
        PutSecretValueState::Rechecking { plan } => match reply {
            DbReply::Secret(Some(found)) => if opt_view(found.secret_string) != opt_view(plan.secret_string)
                || opt_view(found.secret_binary) != opt_view(plan.secret_binary) {
                r == Step::<PutSecretValueState, PutSecretValueResponse>::Finish(Err(AwsErrorKind::ResourceExistsException))
            } else {
                r == Step::<PutSecretValueState, PutSecretValueResponse>::Finish(
                    Ok(PutSecretValueResponse {
                        arn: found.arn,
                        name: found.name,
                        version_id: found.version_id,
                        version_stages: found.version_stages,
                    }),
                )
            },
            _ => r == Step::<PutSecretValueState, PutSecretValueResponse>::Finish(Err(AwsErrorKind::InternalServiceError)),
        },
    }
}

/// What `PutSecretValueHandler::start` gives for a request.
pub open spec fn put_start_post(request: PutSecretValueRequest, r: Step<PutSecretValueState, PutSecretValueResponse>) -> bool {
    if request.secret_string is Some == request.secret_binary is Some {
        r == Step::<PutSecretValueState, PutSecretValueResponse>::Finish(Err(AwsErrorKind::InvalidRequestException))
    } else {
        r matches Step::Run(
            PutSecretValueState::Lookup { version_id, version_stage, secret_string, secret_binary },
            DbCall::Query(DbQuery::LatestVersion { secret_id }),
        ) && {
            &&& secret_id == request.secret_id
            &&& secret_string == request.secret_string
            &&& secret_binary == request.secret_binary
            &&& version_stage == match request.version_stages {
                Some(labels) => first_known_stage(crate::utils::filter::strings_view(labels@)),
                None => VersionStage::Current,
            }
            &&& match request.client_request_token {
                Some(t) => version_id == t,
                None => is_hyphenated_uuid_text(version_id@),
            }
        }
    }
}

impl PutSecretValueHandler {
    /// A request that gives both a text and a binary value, or neither, is
    /// invalid. Otherwise it starts with the lookup of the secret; the new
    /// version gets the request's token as id (or a fresh one) and the first
    /// known stage among the requested ones (`AWSCURRENT` if none is known).
    pub fn start(request: PutSecretValueRequest) -> (r: Step<PutSecretValueState, PutSecretValueResponse>)
        ensures
            put_start_post(request, r),
    {
        // Must only specify one of the two, and at least one
        if request.secret_string.is_some() == request.secret_binary.is_some() {
            return Step::Finish(Err(AwsErrorKind::InvalidRequestException));
        }
        let version_stage = match &request.version_stages {
            Some(labels) => first_stage(labels),
            None => VersionStage::Current,
        };
        // Generate a new version ID if none was provided
        let version_id = match request.client_request_token {
            Some(t) => t,
            None => new_uuid_text(),
        };
        Step::Run(
            PutSecretValueState::Lookup {
                version_id,
                version_stage,
                secret_string: request.secret_string,
                secret_binary: request.secret_binary,
            },
            DbCall::Query(DbQuery::LatestVersion { secret_id: request.secret_id }),
        )
    }

    /// In one transaction: the version that was previous is marked deprecated;
    /// when the new version is to be current, the current one becomes previous;
    /// the new version is stored and given its stage. When the version id is
    /// already taken the transaction is rolled back and the stored version
    /// decides: the same value answers as if stored now, another value is
    /// `ResourceExistsException`.
    pub fn resume(state: PutSecretValueState, reply: DbReply) -> (r: Step<PutSecretValueState, PutSecretValueResponse>)
        ensures
            put_resume_post(state, reply, r),
    {
        match state {
            PutSecretValueState::Lookup { version_id, version_stage, secret_string, secret_binary } => match found_secret(reply) {
                Ok(s) => Step::Run(
                    PutSecretValueState::Beginning {
                        plan: PutPlan {
                            arn: s.arn,
                            name: s.name,
                            previous_version_id: s.version_id,
                            version_id,
                            version_stage,
                            secret_string,
                            secret_binary,
                        },
                    },
                    DbCall::Begin,
                ),
                Err(e) => Step::Finish(Err(e)),
            },
            PutSecretValueState::Beginning { plan } => {
                if !succeeded(&reply) {
                    return Step::Finish(Err(AwsErrorKind::InternalServiceError));
                }
                let secret_arn = plan.arn.clone();
                Step::Run(
                    PutSecretValueState::Deprecating { plan },
                    DbCall::Write(DbWrite::MarkPreviousVersionsDeprecated { secret_arn }),
                )
            },
            PutSecretValueState::Deprecating { plan } => {
                if !succeeded(&reply) {
                    return Step::Finish(Err(AwsErrorKind::InternalServiceError));
                }
                if plan.version_stage == VersionStage::Current {
                    // Mark current version as the previous version
                    let secret_arn = plan.arn.clone();
                    let version_id = plan.previous_version_id.clone();
                    Step::Run(
                        PutSecretValueState::Demoting { plan },
                        DbCall::Write(DbWrite::SetVersionStage {
                            secret_arn,
                            version_id,
                            version_stage: Some(VersionStage::Previous),
                        }),
                    )
                } else {
                    let call = create_call_exec(&plan);
                    Step::Run(PutSecretValueState::Creating { plan }, call)
                }
            },
            PutSecretValueState::Demoting { plan } => {
                if !succeeded(&reply) {
                    return Step::Finish(Err(AwsErrorKind::InternalServiceError));
                }
                let call = create_call_exec(&plan);
                Step::Run(PutSecretValueState::Creating { plan }, call)
            },
            PutSecretValueState::Creating { plan } => {
                if let DbReply::Failed(DbFailure::UniqueViolation) = reply {
                    // Must rollback the transaction before attempting to use the connection
                    return Step::Run(PutSecretValueState::RollingBack { plan }, DbCall::Rollback);
                }
                if !succeeded(&reply) {
                    return Step::Finish(Err(AwsErrorKind::InternalServiceError));
                }
                let secret_arn = plan.arn.clone();
                let version_id = plan.version_id.clone();
                let version_stage = plan.version_stage.to_string();
                Step::Run(
                    PutSecretValueState::Staging { plan },
                    DbCall::Write(DbWrite::AddVersionStage { secret_arn, version_id, version_stage }),
                )
            },
            PutSecretValueState::Staging { plan } => {
                if !succeeded(&reply) {
                    return Step::Finish(Err(AwsErrorKind::InternalServiceError));
                }
                Step::Run(PutSecretValueState::Committing { plan }, DbCall::Commit)
            },
            PutSecretValueState::Committing { plan } => {
                if !succeeded(&reply) {
                    return Step::Finish(Err(AwsErrorKind::InternalServiceError));
                }
                let mut version_stages: Vec<String> = Vec::new();
                version_stages.push(plan.version_stage.to_string());
                Step::Finish(Ok(PutSecretValueResponse {
                    arn: plan.arn,
                    name: plan.name,
                    version_id: plan.version_id,
                    version_stages,
                }))
            },
            PutSecretValueState::RollingBack { plan } => {
                // Check if the version has been created
                let secret_id = plan.arn.clone();
                let version_id = plan.version_id.clone();
                Step::Run(
                    PutSecretValueState::Rechecking { plan },
                    DbCall::Query(DbQuery::ByVersionId { secret_id, version_id }),
                )
            },
            PutSecretValueState::Rechecking { plan } => match reply {
                DbReply::Secret(Some(found)) => {
                    // If the stored version data doesn't match this is an error that
                    // the resource already exists
                    if !opt_string_eq(&found.secret_string, &plan.secret_string) || !opt_string_eq(
                        &found.secret_binary,
                        &plan.secret_binary,
                    ) {
                        return Step::Finish(Err(AwsErrorKind::ResourceExistsException));
                    }
                    // Another request already created this version
                    Step::Finish(Ok(PutSecretValueResponse {
                        arn: found.arn,
                        name: found.name,
                        version_id: found.version_id,
                        version_stages: found.version_stages,
                    }))
                },
                _ => Step::Finish(Err(AwsErrorKind::InternalServiceError)),
            },
        }
    }
}

/// A run of a PutSecretValue request: the first step is what `start` gives,
/// and each further step is what `resume` gives from the state of the step
/// before and the store's reply to that step's call.
pub open spec fn is_put_run(
    request: PutSecretValueRequest,
    steps: Seq<Step<PutSecretValueState, PutSecretValueResponse>>,
    replies: Seq<DbReply>,
) -> bool {
    &&& steps.len() == replies.len() + 1
    &&& put_start_post(request, steps[0])
    &&& forall|i: int|
        #![trigger replies[i]]
        0 <= i < replies.len() ==> match steps[i] {
            Step::Run(state, _) => put_resume_post(state, replies[i], steps[i + 1]),
            Step::Finish(_) => false,
        }
}

/// The plan a state past the lookup holds.
spec fn plan_of(state: PutSecretValueState) -> PutPlan {
    match state {
        PutSecretValueState::Lookup { .. } => arbitrary(),
        PutSecretValueState::Beginning { plan } => plan,
        PutSecretValueState::Deprecating { plan } => plan,
        PutSecretValueState::Demoting { plan } => plan,
        PutSecretValueState::Creating { plan } => plan,
        PutSecretValueState::Staging { plan } => plan,
        PutSecretValueState::Committing { plan } => plan,
        PutSecretValueState::RollingBack { plan } => plan,
        PutSecretValueState::Rechecking { plan } => plan,
    }
}

/// The version id that `start` chose for the run.
spec fn chosen_version_id(steps: Seq<Step<PutSecretValueState, PutSecretValueResponse>>) -> String {
    match steps[0] {
        Step::Run(PutSecretValueState::Lookup { version_id, .. }, _) => version_id,
        _ => arbitrary(),
    }
}

/// The ARN of the secret that the lookup found.
spec fn found_arn(replies: Seq<DbReply>) -> Option<String> {
    match spec_found_secret(replies[0]) {
        Ok(s) => Some(s.arn),
        Err(_) => None,
    }
}

/// The plan stores the request's value under the chosen id, for the found secret.
spec fn plan_follows(request: PutSecretValueRequest, vid: String, arn: Option<String>, plan: PutPlan) -> bool {
    &&& plan.secret_string == request.secret_string
    &&& plan.secret_binary == request.secret_binary
    &&& (request.client_request_token matches Some(t) ==> plan.version_id == t)
    &&& plan.version_id == vid
    &&& arn == Some(plan.arn)
}

/// Each step of a run holds the request's value, and only the step that
/// stores the new version writes one.
spec fn put_step_follows(
    request: PutSecretValueRequest,
    vid: String,
    arn: Option<String>,
    step: Step<PutSecretValueState, PutSecretValueResponse>,
) -> bool {
    match step {
        Step::Run(PutSecretValueState::Lookup { version_id, version_stage: _, secret_string, secret_binary }, call) => {
            &&& secret_string == request.secret_string
            &&& secret_binary == request.secret_binary
            &&& (request.client_request_token matches Some(t) ==> version_id == t)
            &&& version_id == vid
            &&& !(call matches DbCall::Write(DbWrite::CreateSecretVersion(_)))
        },
        Step::Run(PutSecretValueState::Creating { plan }, call) => plan_follows(request, vid, arn, plan) && call
            == create_call(plan),
        Step::Run(state, call) => plan_follows(request, vid, arn, plan_of(state)) && !(call matches DbCall::Write(
            DbWrite::CreateSecretVersion(_),
        )),
        Step::Finish(_) => true,
    }
}

proof fn lemma_put_run_follows(
    request: PutSecretValueRequest,
    steps: Seq<Step<PutSecretValueState, PutSecretValueResponse>>,
    replies: Seq<DbReply>,
    i: int,
)
    requires
        is_put_run(request, steps, replies),
        0 <= i < steps.len(),
    ensures
        put_step_follows(request, chosen_version_id(steps), found_arn(replies), steps[i]),
        i > 0 ==> !(steps[i] matches Step::Run(PutSecretValueState::Lookup { .. }, _)),
    decreases i,
{
    if i > 0 {
        lemma_put_run_follows(request, steps, replies, i - 1);
        let reply = replies[i - 1];
        assert(match steps[i - 1] {
            Step::Run(state, _) => put_resume_post(state, reply, steps[i]),
            Step::Finish(_) => false,
        });
    }
}

/// PutSecretValue stores what it was asked to: in every run, the one write of
/// a new version carries the request's text value as its text value and the
/// request's binary value as its binary value, under the version id that the
/// run chose at its start (the request's token when it gives one), for the
/// secret that the lookup found.
pub proof fn lemma_put_writes_requested_value(
    request: PutSecretValueRequest,
    steps: Seq<Step<PutSecretValueState, PutSecretValueResponse>>,
    replies: Seq<DbReply>,
    i: int,
)
    requires
        is_put_run(request, steps, replies),
        0 <= i < steps.len(),
    ensures
        steps[i] matches Step::Run(_, DbCall::Write(DbWrite::CreateSecretVersion(v))) ==> {
            &&& v.secret_string == request.secret_string
            &&& v.secret_binary == request.secret_binary
            &&& (request.client_request_token matches Some(t) ==> v.version_id == t)
            &&& (steps[0] matches Step::Run(PutSecretValueState::Lookup { version_id, .. }, _) && v.version_id
                == version_id)
            &&& (spec_found_secret(replies[0]) matches Ok(s) && v.secret_arn == s.arn)
        },
{
    lemma_put_run_follows(request, steps, replies, i);
    if i > 0 {
        let reply = replies[0];
        assert(match steps[0] {
            Step::Run(state, _) => put_resume_post(state, reply, steps[1]),
            Step::Finish(_) => false,
        });
    }
}

} // verus!
