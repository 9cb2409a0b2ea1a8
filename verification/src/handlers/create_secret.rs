use vstd::prelude::*;

use crate::database::secrets::{CreateSecret, CreateSecretVersion, DbCall, DbFailure, DbQuery, DbReply, DbWrite, Step, StoredSecret};
use crate::handlers::error::AwsErrorKind;
use crate::handlers::models::{
    check_length, is_ascii_alphanumeric, is_hyphenated_uuid_text, length_within, new_uuid_text, tags_valid,
    validate_tags, ClientRequestToken, SecretBinary, SecretName, SecretString, Tag,
};
use crate::handlers::{is_done, succeeded};
use crate::utils::text::{opt_string_eq, opt_view, owned, push_str};

verus! {

// https://docs.aws.amazon.com/secretsmanager/latest/apireference/API_CreateSecret.html
pub struct CreateSecretHandler;

pub struct CreateSecretRequest {
    pub name: SecretName,
    pub description: Option<String>,
    pub client_request_token: Option<ClientRequestToken>,
    pub secret_string: Option<SecretString>,
    pub secret_binary: Option<SecretBinary>,
    pub tags: Option<Vec<Tag>>,
}

pub struct CreateSecretResponse {
    pub arn: String,
    pub name: String,
    pub version_id: String,
}

impl CreateSecretRequest {
    /// A valid name, a description of at most 2048 bytes, and a valid token,
    /// value and tags wherever the request gives them.
    pub open spec fn spec_valid(&self) -> bool {
        &&& self.name.spec_valid()
        &&& (self.description matches Some(d) ==> length_within(d@, 0, 2048))
        &&& (self.client_request_token matches Some(t) ==> t.spec_valid())
        &&& (self.secret_string matches Some(s) ==> s.spec_valid())
        &&& (self.secret_binary matches Some(b) ==> b.spec_valid())
        &&& (self.tags matches Some(tags) ==> tags_valid(tags@))
    }

    pub fn validate(&self) -> (r: bool)
        ensures
            r == self.spec_valid(),
    {
        if !self.name.validate() {
            return false;
        }
        if let Some(d) = &self.description {
            if !check_length(d, 0, 2048) {
                return false;
            }
        }
        if let Some(t) = &self.client_request_token {
            if !t.validate() {
                return false;
            }
        }
        if let Some(s) = &self.secret_string {
            if !s.validate() {
                return false;
            }
        }
        if let Some(b) = &self.secret_binary {
            if !b.validate() {
                return false;
            }
        }
        if let Some(tags) = &self.tags {
            if !validate_tags(tags) {
                return false;
            }
        }
        true
    }
}

/// `Alphanumeric.sample_string(&mut rand::rng(), len)` of the `rand` crate:
/// `len` characters, each drawn at random from the ASCII letters and digits.
/// Which characters come out is left open.
#[verifier::external_body]
fn random_alphanumeric(len: usize) -> (s: String)
    ensures
        s@.len() == len,
        forall|i: int| 0 <= i < s@.len() ==> is_ascii_alphanumeric(#[trigger] s@[i]),
{
    rand::distr::SampleString::sample_string(&rand::distr::Alphanumeric, &mut rand::rng(), len)
}

/// The ARN of the secret `name` with the random `suffix`, under the fixed
/// prefix `arn:aws:secretsmanager:us-east-1:1:secret:`.
pub open spec fn arn_text(name: Seq<char>, suffix: Seq<char>) -> Seq<char> {
    "arn:aws:secretsmanager:us-east-1:1:secret:"@ + name + "-"@ + suffix
}

/// A suffix of a secret's ARN: six ASCII letters or digits.
pub open spec fn is_arn_suffix(suffix: Seq<char>) -> bool {
    suffix.len() == 6 && forall|i: int| 0 <= i < suffix.len() ==> is_ascii_alphanumeric(#[trigger] suffix[i])
}

/// A new ARN for the secret `name`: the fixed prefix, the name, a hyphen and
/// six random ASCII letters or digits.
pub fn create_secret_arn(name: &str) -> (arn: String)
    ensures
        exists|suffix: Seq<char>| is_arn_suffix(suffix) && arn@ == #[trigger] arn_text(name@, suffix),
{
    let random_suffix = random_alphanumeric(6);
    let mut arn = String::new();
    push_str(&mut arn, "arn:aws:secretsmanager:us-east-1:1:secret:");
    push_str(&mut arn, name);
    push_str(&mut arn, "-");
    push_str(&mut arn, random_suffix.as_str());
    proof {
        assert(arn@ =~= arn_text(name@, random_suffix@));
        assert(is_arn_suffix(random_suffix@));
    }
    arn
}

/// What a CreateSecret request stores.
pub struct CreatePlan {
    pub arn: String,
    pub name: String,
    pub description: Option<String>,
    pub version_id: String,
    pub secret_string: Option<String>,
    pub secret_binary: Option<String>,
    pub tags: Vec<Tag>,
}

/// Where a CreateSecret request stands.
pub enum CreateSecretState {
    /// Waiting for the transaction to begin.
    Beginning { plan: CreatePlan },
    /// Waiting for the secret to be stored.
    Creating { plan: CreatePlan },
    /// Waiting for the first version to be stored.
    Versioning { plan: CreatePlan },
    /// Waiting for the first version to be made current.
    Staging { plan: CreatePlan },
    /// Waiting for the tag at `index` to be set.
    Tagging { plan: CreatePlan, index: usize },
    /// Waiting for the transaction to commit.
    Committing { plan: CreatePlan },
    /// Waiting for the roll back after the name was found taken.
    NameTaken { plan: CreatePlan },
    /// Waiting for the lookup of the version by the secret's name.
    RecheckingName { plan: CreatePlan },
    /// Waiting for the roll back after the version id was found taken.
    VersionTaken { plan: CreatePlan },
    /// Waiting for the lookup of the version by the new ARN.
    RecheckingArn { plan: CreatePlan },
    /// Waiting for the roll back after a failure.
    RollingBack,
}

/// The answer naming the plan's secret and version.
pub open spec fn created(plan: CreatePlan) -> CreateSecretResponse {
    CreateSecretResponse { arn: plan.arn, name: plan.name, version_id: plan.version_id }
}

fn created_exec(plan: CreatePlan) -> (r: CreateSecretResponse)
    ensures
        r == created(plan),
{
    CreateSecretResponse { arn: plan.arn, name: plan.name, version_id: plan.version_id }
}

/// After the tags before `index` are set: set the next one, or commit.
pub open spec fn tag_from(plan: CreatePlan, index: int) -> Step<CreateSecretState, CreateSecretResponse> {
    if 0 <= index < plan.tags@.len() {
        Step::Run(
            CreateSecretState::Tagging { plan, index: index as usize },
            DbCall::Write(DbWrite::PutTag {
                secret_arn: plan.arn,
                key: plan.tags@[index].key,
                value: plan.tags@[index].value,
            }),
        )
    } else {
        Step::Run(CreateSecretState::Committing { plan }, DbCall::Commit)
    }
}

fn tag_from_exec(plan: CreatePlan, index: usize) -> (r: Step<CreateSecretState, CreateSecretResponse>)
    ensures
        r == tag_from(plan, index as int),
{
    if index < plan.tags.len() {
        let secret_arn = plan.arn.clone();
        let key = plan.tags[index].key.clone();
        let value = plan.tags[index].value.clone();
        Step::Run(CreateSecretState::Tagging { plan, index }, DbCall::Write(DbWrite::PutTag { secret_arn, key, value }))
    } else {
        Step::Run(CreateSecretState::Committing { plan }, DbCall::Commit)
    }
}

/// The stored version holds the plan's value.
pub open spec fn same_value(found_string: Option<String>, found_binary: Option<String>, plan: CreatePlan) -> bool {
    opt_view(found_string) == opt_view(plan.secret_string) && opt_view(found_binary) == opt_view(plan.secret_binary)
}

fn same_value_exec(found_string: &Option<String>, found_binary: &Option<String>, plan: &CreatePlan) -> (r: bool)
    ensures
        r == same_value(*found_string, *found_binary, *plan),
{
    opt_string_eq(found_string, &plan.secret_string) && opt_string_eq(found_binary, &plan.secret_binary)
}

/// What `start` gives for a request.
pub open spec fn start_post(request: CreateSecretRequest, r: Step<CreateSecretState, CreateSecretResponse>) -> bool {
    if !request.spec_valid() {
        r == Step::<CreateSecretState, CreateSecretResponse>::Finish(Err(AwsErrorKind::InvalidParameterException))
    } else if request.secret_string is Some == request.secret_binary is Some {
        r == Step::<CreateSecretState, CreateSecretResponse>::Finish(Err(AwsErrorKind::InvalidRequestException))
    } else {
        r matches Step::Run(CreateSecretState::Beginning { plan }, DbCall::Begin) && {
            &&& exists|suffix: Seq<char>| is_arn_suffix(suffix) && plan.arn@ == #[trigger] arn_text(request.name.0@, suffix)
            &&& plan.name == request.name.0
            &&& plan.description == request.description
            &&& match request.client_request_token {
                Some(t) => plan.version_id == t.0,
                None => is_hyphenated_uuid_text(plan.version_id@),
            }
            &&& plan.secret_string == match request.secret_string {
                Some(s) => Some(s.0),
                None => None::<String>,
            }
            &&& plan.secret_binary == match request.secret_binary {
                Some(b) => Some(b.0),
                None => None::<String>,
            }
            &&& plan.tags@ == match request.tags {
                Some(tags) => tags@,
                None => Seq::<Tag>::empty(),
            }
        }
    }
}

/// What `resume` gives from a state and the store's reply to its call.
pub open spec fn resume_post(
    state: CreateSecretState,
    reply: DbReply,
    r: Step<CreateSecretState, CreateSecretResponse>,
) -> bool {
    match state {
        CreateSecretState::Beginning { plan } => if is_done(reply) {
            r == Step::<CreateSecretState, CreateSecretResponse>::Run(
                CreateSecretState::Creating { plan },
                DbCall::Write(DbWrite::CreateSecret(CreateSecret {
                    arn: plan.arn,
                    name: plan.name,
                    description: plan.description,
                })),
            )
        } else {
            r == Step::<CreateSecretState, CreateSecretResponse>::Finish(Err(AwsErrorKind::InternalServiceError))
        },
        CreateSecretState::Creating { plan } => if reply == DbReply::Failed(DbFailure::UniqueViolation) {
            r == Step::<CreateSecretState, CreateSecretResponse>::Run(
                CreateSecretState::NameTaken { plan },
                DbCall::Rollback,
            )
        } else if is_done(reply) {
            r == Step::<CreateSecretState, CreateSecretResponse>::Run(
                CreateSecretState::Versioning { plan },
                DbCall::Write(DbWrite::CreateSecretVersion(CreateSecretVersion {
                    secret_arn: plan.arn,
                    version_id: plan.version_id,
                    secret_string: plan.secret_string,
                    secret_binary: plan.secret_binary,
                })),
            )
        } else {
            r == Step::<CreateSecretState, CreateSecretResponse>::Finish(Err(AwsErrorKind::InternalServiceError))
        },
        CreateSecretState::Versioning { plan } => if reply == DbReply::Failed(DbFailure::UniqueViolation) {
            r == Step::<CreateSecretState, CreateSecretResponse>::Run(
                CreateSecretState::VersionTaken { plan },
                DbCall::Rollback,
            )
        } else if is_done(reply) {
            r matches Step::Run(
                CreateSecretState::Staging { plan: p },
                DbCall::Write(DbWrite::AddVersionStage { secret_arn, version_id, version_stage }),
            ) && p == plan && secret_arn == plan.arn && version_id == plan.version_id
                && version_stage@ == "AWSCURRENT"@
        } else {
            r == Step::<CreateSecretState, CreateSecretResponse>::Run(CreateSecretState::RollingBack, DbCall::Rollback)
        },
        CreateSecretState::Staging { plan } => if is_done(reply) {
            r == tag_from(plan, 0)
        } else {
            r == Step::<CreateSecretState, CreateSecretResponse>::Run(CreateSecretState::RollingBack, DbCall::Rollback)
        },
        CreateSecretState::Tagging { plan, index } => if is_done(reply) {
            r == tag_from(plan, index + 1)
        } else {
            r == Step::<CreateSecretState, CreateSecretResponse>::Run(CreateSecretState::RollingBack, DbCall::Rollback)
        },
        CreateSecretState::Committing { plan } => if is_done(reply) {
            r == Step::<CreateSecretState, CreateSecretResponse>::Finish(Ok(created(plan)))
        } else {
            r == Step::<CreateSecretState, CreateSecretResponse>::Finish(Err(AwsErrorKind::InternalServiceError))
        },
        CreateSecretState::NameTaken { plan } => r == Step::<CreateSecretState, CreateSecretResponse>::Run(
            CreateSecretState::RecheckingName { plan },
            DbCall::Query(DbQuery::ByVersionId { secret_id: plan.name, version_id: plan.version_id }),
        ),
        CreateSecretState::RecheckingName { plan } => match reply {
            DbReply::Secret(Some(found)) => if same_value(found.secret_string, found.secret_binary, plan) {
                r == Step::<CreateSecretState, CreateSecretResponse>::Finish(
                    Ok(CreateSecretResponse { arn: found.arn, name: plan.name, version_id: plan.version_id }),
                )
            } else {
                r == Step::<CreateSecretState, CreateSecretResponse>::Finish(Err(AwsErrorKind::ResourceExistsException))
            },
            DbReply::Secret(None) => r == Step::<CreateSecretState, CreateSecretResponse>::Finish(
                Err(AwsErrorKind::ResourceExistsException),
            ),
            _ => r == Step::<CreateSecretState, CreateSecretResponse>::Finish(Err(AwsErrorKind::InternalServiceError)),
        },
        CreateSecretState::VersionTaken { plan } => r == Step::<CreateSecretState, CreateSecretResponse>::Run(
            CreateSecretState::RecheckingArn { plan },
            DbCall::Query(DbQuery::ByVersionId { secret_id: plan.arn, version_id: plan.version_id }),
        ),
        CreateSecretState::RecheckingArn { plan } => match reply {
            DbReply::Secret(Some(found)) => if same_value(found.secret_string, found.secret_binary, plan) {
                r == Step::<CreateSecretState, CreateSecretResponse>::Finish(Ok(created(plan)))
            } else {
                r == Step::<CreateSecretState, CreateSecretResponse>::Finish(Err(AwsErrorKind::ResourceExistsException))
            },
            _ => r == Step::<CreateSecretState, CreateSecretResponse>::Finish(Err(AwsErrorKind::InternalServiceError)),
        },
        CreateSecretState::RollingBack => r == Step::<CreateSecretState, CreateSecretResponse>::Finish(
            Err(AwsErrorKind::InternalServiceError),
        ),
    }
}

impl CreateSecretHandler {
    /// An invalid request is refused with `InvalidParameterException`, and one
    /// that gives both a text and a binary value, or neither, with
    /// `InvalidRequestException`. Otherwise the transaction begins for a new
    /// secret under a fresh ARN, whose first version gets the request's token
    /// as id (or a fresh one) and whose tags are those of the request.
    pub fn start(request: CreateSecretRequest) -> (r: Step<CreateSecretState, CreateSecretResponse>)
        ensures
            start_post(request, r),
    {
        if !request.validate() {
            return Step::Finish(Err(AwsErrorKind::InvalidParameterException));
        }
        let name = request.name.into_inner();
        let version_id = match request.client_request_token {
            Some(t) => t.into_inner(),
            None => new_uuid_text(),
        };
        let arn = create_secret_arn(name.as_str());
        let tags = match request.tags {
            Some(tags) => tags,
            None => Vec::new(),
        };
        let secret_string = match request.secret_string {
            Some(s) => Some(s.into_inner()),
            None => None,
        };
        let secret_binary = match request.secret_binary {
            Some(b) => Some(b.into_inner()),
            None => None,
        };
        // Must only specify one of the two
        if secret_string.is_some() && secret_binary.is_some() {
            return Step::Finish(Err(AwsErrorKind::InvalidRequestException));
        }
        // Must specify at least one
        if secret_string.is_none() && secret_binary.is_none() {
            return Step::Finish(Err(AwsErrorKind::InvalidRequestException));
        }
        Step::Run(
            CreateSecretState::Beginning {
                plan: CreatePlan {
                    arn,
                    name,
                    description: request.description,
                    version_id,
                    secret_string,
                    secret_binary,
                    tags,
                },
            },
            DbCall::Begin,
        )
    }

    /// In one transaction: the secret is stored, then its first version, which
    /// is made current, then each tag in order. When the name is already taken
    /// the transaction is rolled back and the version stored under that name
    /// with the same id decides: one with the same value answers as if created
    /// now (with the stored ARN), anything else is `ResourceExistsException`.
    /// When the version id is taken, a stored version with another value is
    /// `ResourceExistsException` and one with the same value answers as if
    /// created now. Any other failure is an internal error.
    pub fn resume(state: CreateSecretState, reply: DbReply) -> (r: Step<CreateSecretState, CreateSecretResponse>)
        ensures
            resume_post(state, reply, r),
    {
        match state {
            CreateSecretState::Beginning { plan } => {
                if !succeeded(&reply) {
                    return Step::Finish(Err(AwsErrorKind::InternalServiceError));
                }
                let secret = CreateSecret {
                    arn: plan.arn.clone(),
                    name: plan.name.clone(),
                    description: plan.description.clone(),
                };
                Step::Run(CreateSecretState::Creating { plan }, DbCall::Write(DbWrite::CreateSecret(secret)))
            },
            CreateSecretState::Creating { plan } => {
                if let DbReply::Failed(DbFailure::UniqueViolation) = reply {
                    // Must rollback the transaction before attempting to use the connection
                    return Step::Run(CreateSecretState::NameTaken { plan }, DbCall::Rollback);
                }
                if !succeeded(&reply) {
                    return Step::Finish(Err(AwsErrorKind::InternalServiceError));
                }
                let version = CreateSecretVersion {
                    secret_arn: plan.arn.clone(),
                    version_id: plan.version_id.clone(),
                    secret_string: plan.secret_string.clone(),
                    secret_binary: plan.secret_binary.clone(),
                };
                Step::Run(CreateSecretState::Versioning { plan }, DbCall::Write(DbWrite::CreateSecretVersion(version)))
            },
            CreateSecretState::Versioning { plan } => {
                if let DbReply::Failed(DbFailure::UniqueViolation) = reply {
                    return Step::Run(CreateSecretState::VersionTaken { plan }, DbCall::Rollback);
                }
                if !succeeded(&reply) {
                    return Step::Run(CreateSecretState::RollingBack, DbCall::Rollback);
                }
                let secret_arn = plan.arn.clone();
                let version_id = plan.version_id.clone();
                let version_stage = owned("AWSCURRENT");
                Step::Run(
                    CreateSecretState::Staging { plan },
                    DbCall::Write(DbWrite::AddVersionStage { secret_arn, version_id, version_stage }),
                )
            },
            CreateSecretState::Staging { plan } => {
                if !succeeded(&reply) {
                    return Step::Run(CreateSecretState::RollingBack, DbCall::Rollback);
                }
                tag_from_exec(plan, 0)
            },
            CreateSecretState::Tagging { plan, index } => {
                if !succeeded(&reply) {
                    return Step::Run(CreateSecretState::RollingBack, DbCall::Rollback);
                }
                if index < plan.tags.len() {
                    tag_from_exec(plan, index + 1)
                } else {
                    Step::Run(CreateSecretState::Committing { plan }, DbCall::Commit)
                }
            },
            CreateSecretState::Committing { plan } => {
                if !succeeded(&reply) {
                    return Step::Finish(Err(AwsErrorKind::InternalServiceError));
                }
                Step::Finish(Ok(created_exec(plan)))
            },
            CreateSecretState::NameTaken { plan } => {
                // Check if the secret has been created
                let secret_id = plan.name.clone();
                let version_id = plan.version_id.clone();
                Step::Run(
                    CreateSecretState::RecheckingName { plan },
                    DbCall::Query(DbQuery::ByVersionId { secret_id, version_id }),
                )
            },
            CreateSecretState::RecheckingName { plan } => match reply {
                DbReply::Secret(Some(found)) => {
                    // If the stored version data doesn't match this is an error that
                    // the resource already exists
                    if !same_value_exec(&found.secret_string, &found.secret_binary, &plan) {
                        return Step::Finish(Err(AwsErrorKind::ResourceExistsException));
                    }
                    // Request has already been fulfilled
                    Step::Finish(Ok(CreateSecretResponse { arn: found.arn, name: plan.name, version_id: plan.version_id }))
                },
                // This version we tried to store was not created so this is an already exists error
                DbReply::Secret(None) => Step::Finish(Err(AwsErrorKind::ResourceExistsException)),
                _ => Step::Finish(Err(AwsErrorKind::InternalServiceError)),
            },
            CreateSecretState::VersionTaken { plan } => {
                let secret_id = plan.arn.clone();
                let version_id = plan.version_id.clone();
                Step::Run(
                    CreateSecretState::RecheckingArn { plan },
                    DbCall::Query(DbQuery::ByVersionId { secret_id, version_id }),
                )
            },
            CreateSecretState::RecheckingArn { plan } => match reply {
                DbReply::Secret(Some(found)) => {
                    if !same_value_exec(&found.secret_string, &found.secret_binary, &plan) {
                        return Step::Finish(Err(AwsErrorKind::ResourceExistsException));
                    }
                    Step::Finish(Ok(created_exec(plan)))
                },
                // Shouldn't be possible if we hit the unique violation
                _ => Step::Finish(Err(AwsErrorKind::InternalServiceError)),
            },
            CreateSecretState::RollingBack => Step::Finish(Err(AwsErrorKind::InternalServiceError)),
        }
    }
}

/// A run of a CreateSecret request: the first step is what `start` gives, and
/// each further step is what `resume` gives from the state of the step before
/// and the store's reply to that step's call.
pub open spec fn is_create_run(
    request: CreateSecretRequest,
    steps: Seq<Step<CreateSecretState, CreateSecretResponse>>,
    replies: Seq<DbReply>,
) -> bool {
    &&& steps.len() == replies.len() + 1
    &&& start_post(request, steps[0])
    &&& forall|i: int|
        #![trigger replies[i]]
        0 <= i < replies.len() ==> match steps[i] {
            Step::Run(state, _) => resume_post(state, replies[i], steps[i + 1]),
            Step::Finish(_) => false,
        }
}

/// The value a request stores.
pub open spec fn requested_value(request: CreateSecretRequest) -> (Option<Seq<char>>, Option<Seq<char>>) {
    (
        match request.secret_string {
            Some(s) => Some(s.0@),
            None => None,
        },
        match request.secret_binary {
            Some(b) => Some(b.0@),
            None => None,
        },
    )
}

/// A retried CreateSecret is safe. Once a request with a token has created
/// its secret, the same request again finds the name taken: it begins a
/// transaction, its write of the secret is refused, it rolls the transaction
/// back and looks the version up by name and token. When the store finds that
/// version with the same value, the retry answers with the stored secret's ARN,
/// the request's name and the token as version id, and it commits nothing: the
/// only write it made was in the transaction it rolled back.
pub proof fn lemma_create_retry_is_safe(
    request: CreateSecretRequest,
    steps: Seq<Step<CreateSecretState, CreateSecretResponse>>,
    replies: Seq<DbReply>,
    found: StoredSecret,
)
    requires
        request.spec_valid(),
        request.secret_string is Some != request.secret_binary is Some,
        request.client_request_token is Some,
        is_create_run(request, steps, replies),
        replies.len() == 4,
        replies[0] == DbReply::Done,
        replies[1] == DbReply::Failed(DbFailure::UniqueViolation),
        replies[3] == DbReply::Secret(Some(found)),
        (opt_view(found.secret_string), opt_view(found.secret_binary)) == requested_value(request),
    ensures
        steps[4] matches Step::Finish(Ok(resp)) && resp.arn == found.arn && resp.name == request.name.0
            && (request.client_request_token matches Some(t) && resp.version_id == t.0),
        steps[0] matches Step::Run(_, DbCall::Begin),
        steps[1] matches Step::Run(_, DbCall::Write(DbWrite::CreateSecret(_))),
        steps[2] matches Step::Run(_, DbCall::Rollback),
        steps[3] matches Step::Run(
            _,
            DbCall::Query(DbQuery::ByVersionId { secret_id, version_id }),
        ) && secret_id == request.name.0 && (request.client_request_token matches Some(t) && version_id == t.0),
{
    let plan = match steps[0] {
        Step::Run(CreateSecretState::Beginning { plan }, _) => plan,
        _ => arbitrary(),
    };
    assert(steps[0] matches Step::Run(CreateSecretState::Beginning { .. }, DbCall::Begin));
    assert(resume_post(CreateSecretState::Beginning { plan }, replies[0], steps[1]));
    assert(steps[1] == Step::<CreateSecretState, CreateSecretResponse>::Run(
        CreateSecretState::Creating { plan },
        DbCall::Write(DbWrite::CreateSecret(CreateSecret { arn: plan.arn, name: plan.name, description: plan.description })),
    ));
    assert(resume_post(CreateSecretState::Creating { plan }, replies[1], steps[2]));
    assert(steps[2] == Step::<CreateSecretState, CreateSecretResponse>::Run(
        CreateSecretState::NameTaken { plan },
        DbCall::Rollback,
    ));
    assert(resume_post(CreateSecretState::NameTaken { plan }, replies[2], steps[3]));
    assert(resume_post(CreateSecretState::RecheckingName { plan }, replies[3], steps[4]));
    assert(same_value(found.secret_string, found.secret_binary, plan));
}

/// The tags a request gives, none when it gives no list.
pub open spec fn requested_tags(request: CreateSecretRequest) -> Seq<Tag> {
    match request.tags {
        Some(tags) => tags@,
        None => Seq::<Tag>::empty(),
    }
}

/// The step writes the tag `tag` on the secret `arn`.
pub open spec fn writes_tag(step: Step<CreateSecretState, CreateSecretResponse>, arn: String, tag: Tag) -> bool {
    step matches Step::Run(_, DbCall::Write(DbWrite::PutTag { secret_arn, key, value })) && secret_arn == arn
        && key == tag.key && value == tag.value
}

/// The ARN that `start` gave the new secret.
spec fn new_arn(steps: Seq<Step<CreateSecretState, CreateSecretResponse>>) -> String {
    match steps[0] {
        Step::Run(CreateSecretState::Beginning { plan }, _) => plan.arn,
        _ => arbitrary(),
    }
}

/// The plan a state holds, for the states that hold one.
spec fn create_plan_of(state: CreateSecretState) -> CreatePlan {
    match state {
        CreateSecretState::Beginning { plan } => plan,
        CreateSecretState::Creating { plan } => plan,
        CreateSecretState::Versioning { plan } => plan,
        CreateSecretState::Staging { plan } => plan,
        CreateSecretState::Tagging { plan, .. } => plan,
        CreateSecretState::Committing { plan } => plan,
        CreateSecretState::NameTaken { plan } => plan,
        CreateSecretState::RecheckingName { plan } => plan,
        CreateSecretState::VersionTaken { plan } => plan,
        CreateSecretState::RecheckingArn { plan } => plan,
        CreateSecretState::RollingBack => arbitrary(),
    }
}

/// Step `i` of a run keeps the request's tags; a step that sets a tag comes
/// right after those that set each tag before it, in order, and so does the
/// commit after all of them.
spec fn tags_written_before(
    tags: Seq<Tag>,
    arn: String,
    steps: Seq<Step<CreateSecretState, CreateSecretResponse>>,
    i: int,
) -> bool {
    match steps[i] {
        Step::Run(CreateSecretState::Tagging { plan, index }, call) => {
            &&& plan.tags@ == tags
            &&& plan.arn == arn
            &&& call != DbCall::Commit
            &&& index < tags.len()
            &&& index <= i
            &&& forall|j: int| 0 <= j <= index ==> writes_tag(#[trigger] steps[i - index + j], arn, tags[j])
        },
        Step::Run(CreateSecretState::Committing { plan }, call) => {
            &&& plan.tags@ == tags
            &&& plan.arn == arn
            &&& call == DbCall::Commit
            &&& tags.len() <= i
            &&& forall|j: int| 0 <= j < tags.len() ==> writes_tag(#[trigger] steps[i - tags.len() + j], arn, tags[j])
        },
        Step::Run(CreateSecretState::RollingBack, call) => call != DbCall::Commit,
        Step::Run(state, call) => create_plan_of(state).tags@ == tags && create_plan_of(state).arn == arn && call != DbCall::Commit,
        Step::Finish(_) => true,
    }
}

proof fn lemma_create_run_tags(
    request: CreateSecretRequest,
    steps: Seq<Step<CreateSecretState, CreateSecretResponse>>,
    replies: Seq<DbReply>,
    i: int,
)
    requires
        is_create_run(request, steps, replies),
        0 <= i < steps.len(),
    ensures
        tags_written_before(requested_tags(request), new_arn(steps), steps, i),
    decreases i,
{
    let tags = requested_tags(request);
    let arn = new_arn(steps);
    if i > 0 {
        lemma_create_run_tags(request, steps, replies, i - 1);
        let reply = replies[i - 1];
        assert(match steps[i - 1] {
            Step::Run(state, _) => resume_post(state, reply, steps[i]),
            Step::Finish(_) => false,
        });
        match steps[i - 1] {
            Step::Run(CreateSecretState::Tagging { plan, index }, _) => {
                assert(plan.tags@.len() == plan.tags.len());
                if is_done(replies[i - 1]) {
                    if index + 1 < tags.len() {
                        assert forall|j: int| 0 <= j <= index + 1 implies writes_tag(
                            #[trigger] steps[i - (index + 1) + j],
                            arn,
                            tags[j],
                        ) by {
                            if j <= index {
                                assert(writes_tag(steps[(i - 1) - index + j], arn, tags[j]));
                            }
                        }
                    } else {
                        assert forall|j: int| 0 <= j < tags.len() implies writes_tag(
                            #[trigger] steps[i - tags.len() + j],
                            arn,
                            tags[j],
                        ) by {
                            assert(writes_tag(steps[(i - 1) - index + j], arn, tags[j]));
                        }
                    }
                }
            },
            Step::Run(CreateSecretState::Staging { plan }, _) => {
                if is_done(replies[i - 1]) && 0 < tags.len() {
                    assert(writes_tag(steps[i], arn, tags[0]));
                    assert forall|j: int| 0 <= j <= 0 implies writes_tag(#[trigger] steps[i - 0 + j], arn, tags[j]) by {
                        assert(j == 0);
                    }
                }
            },
            _ => {},
        }
    }
}

/// A CreateSecret run sets every tag of the request on the new secret, each in
/// its order, before it commits: the steps just before the commit write the
/// request's tags one by one, the first tag first and the last tag last.
pub proof fn lemma_create_commits_every_tag(
    request: CreateSecretRequest,
    steps: Seq<Step<CreateSecretState, CreateSecretResponse>>,
    replies: Seq<DbReply>,
    i: int,
)
    requires
        is_create_run(request, steps, replies),
        0 <= i < steps.len(),
        steps[i] matches Step::Run(_, DbCall::Commit),
    ensures
        requested_tags(request).len() <= i,
        steps[0] matches Step::Run(CreateSecretState::Beginning { plan }, _) && forall|j: int|
            0 <= j < requested_tags(request).len() ==> writes_tag(
                #[trigger] steps[i - requested_tags(request).len() + j],
                plan.arn,
                requested_tags(request)[j],
            ),
{
    lemma_create_run_tags(request, steps, replies, i);
    let reply = replies[0];
    assert(match steps[0] {
        Step::Run(state, _) => resume_post(state, reply, steps[1]),
        Step::Finish(_) => false,
    });
}

} // verus!
