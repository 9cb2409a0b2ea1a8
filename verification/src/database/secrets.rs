use vstd::prelude::*;

use crate::handlers::models::Filter;
use crate::utils::text::str_eq;

verus! {

/// An instant in UTC: whole seconds since the Unix epoch and the milliseconds
/// within that second.
#[derive(Clone, Copy, Debug, PartialEq, Eq, Structural)]
pub struct Timestamp {
    pub seconds: i64,
    pub millis: u32,
}

/// The stages a version may be given by name.
#[derive(Clone, Copy, Debug, PartialEq, Eq, Structural)]
pub enum VersionStage {
    Current,
    Previous,
}

impl VersionStage {
    /// The label of the stage.
    pub open spec fn spec_label(self) -> Seq<char> {
        match self {
            VersionStage::Current => "AWSCURRENT"@,
            VersionStage::Previous => "AWSPREVIOUS"@,
        }
    }

    /// Each stage has its own label, so a stage is read back from its label.
    pub proof fn lemma_label_injective(a: VersionStage, b: VersionStage)
        requires
            a.spec_label() == b.spec_label(),
        ensures
            a == b,
    {
        reveal_strlit("AWSCURRENT");
        reveal_strlit("AWSPREVIOUS");
        assert("AWSCURRENT"@.len() != "AWSPREVIOUS"@.len());
    }

    /// The label of the stage: `AWSCURRENT` or `AWSPREVIOUS`.
    pub fn as_str(&self) -> (s: &'static str)
        ensures
            s@ == self.spec_label(),
    {
        match self {
            VersionStage::Current => "AWSCURRENT",
            VersionStage::Previous => "AWSPREVIOUS",
        }
    }

    /// The label of the stage as an owned string.
    pub fn to_string(&self) -> (s: String)
        ensures
            s@ == self.spec_label(),
    {
        self.as_str().to_owned()
    }

    /// The stage with the given label, if there is one.
    pub fn try_from_str(s: &str) -> (r: Option<VersionStage>)
        ensures
            r matches Some(v) ==> v.spec_label() == s@,
            r is None ==> s@ != "AWSCURRENT"@ && s@ != "AWSPREVIOUS"@,
    {
        if str_eq(s, "AWSCURRENT") {
            Some(VersionStage::Current)
        } else if str_eq(s, "AWSPREVIOUS") {
            Some(VersionStage::Previous)
        } else {
            None
        }
    }
}

/// A new secret, without versions.
pub struct CreateSecret {
    pub arn: String,
    pub name: String,
    pub description: Option<String>,
}

/// A new version of a secret.
pub struct CreateSecretVersion {
    pub secret_arn: String,
    pub version_id: String,
    pub secret_string: Option<String>,
    pub secret_binary: Option<String>,
}

/// A tag as stored.
pub struct StoredVersionTags {
    pub key: String,
    pub value: String,
    pub created_at: Timestamp,
    pub updated_at: Option<Timestamp>,
}

/// A secret together with one of its versions, as a lookup returns it.
pub struct StoredSecret {
    pub arn: String,
    pub name: String,
    pub created_at: Timestamp,
    pub updated_at: Option<Timestamp>,
    pub deleted_at: Option<Timestamp>,
    pub scheduled_delete_at: Option<Timestamp>,
    pub version_id: String,
    pub version_stages: Vec<String>,
    pub description: Option<String>,
    pub secret_string: Option<String>,
    pub secret_binary: Option<String>,
    pub version_created_at: Timestamp,
    pub version_last_accessed_at: Option<Timestamp>,
    pub version_tags: Vec<StoredVersionTags>,
}

/// A version of a secret as stored.
pub struct SecretVersion {
    pub secret_arn: String,
    pub version_id: String,
    pub version_stages: Vec<String>,
    pub secret_string: Option<String>,
    pub secret_binary: Option<String>,
    pub created_at: Timestamp,
    pub last_accessed_at: Option<Timestamp>,
}

/// A secret with all its versions and tags, as a listing returns it.
pub struct ListedSecret {
    pub arn: String,
    pub name: String,
    pub description: Option<String>,
    pub created_at: Timestamp,
    pub updated_at: Option<Timestamp>,
    pub deleted_at: Option<Timestamp>,
    pub versions: Vec<SecretVersion>,
    pub version_tags: Vec<StoredVersionTags>,
}

/// A change to the stored secrets.
pub enum DbWrite {
    CreateSecret(CreateSecret),
    CreateSecretVersion(CreateSecretVersion),
    AddVersionStage { secret_arn: String, version_id: String, version_stage: String },
    RemoveVersionStage { secret_arn: String, version_id: String, version_stage: String },
    RemoveVersionStageAny { secret_arn: String, version_stage: String },
    PutTag { secret_arn: String, key: String, value: String },
    RemoveTag { secret_arn: String, key: String },
    UpdateDescription { secret_arn: String, description: String },
    MarkVersionsPrevious { secret_arn: String },
    MarkPreviousVersionsDeprecated { secret_arn: String },
    SetVersionStage { secret_arn: String, version_id: String, version_stage: Option<VersionStage> },
    DeleteSecret { secret_arn: String },
    ScheduleDelete { secret_arn: String, days: i32 },
    CancelDelete { secret_arn: String },
    UpdateLastAccessed { secret_arn: String, version_id: String },
}

/// A read of the stored secrets. A secret is found by its name or its ARN.
pub enum DbQuery {
    LatestVersion { secret_id: String },
    ByVersionId { secret_id: String, version_id: String },
    ByVersionStage { secret_id: String, version_stage: VersionStage },
    ByVersionStageAndId { secret_id: String, version_id: String, version_stage: VersionStage },
    SecretsByFilter {
        filters: Vec<Filter>,
        include_planned_deletion: bool,
        limit: i64,
        offset: i64,
        asc: bool,
    },
    SecretsCountByFilter { filters: Vec<Filter>, include_planned_deletion: bool },
    /// The current version of each secret that matches the filters and is not
    /// scheduled for deletion, a page at a time.
    SecretValuesByFilter { filters: Vec<Filter>, limit: i64, offset: i64, asc: bool },
    VersionsPage { secret_arn: String, limit: i64, offset: i64, include_deprecated: bool },
    VersionsCount { secret_arn: String, include_deprecated: bool },
    /// Every version of the secret, newest first.
    SecretVersions { secret_arn: String },
}

/// One step of work against the database. Writes after `Begin` and before
/// `Commit` or `Rollback` belong to one transaction; a transaction left open
/// when a request is answered is rolled back.
pub enum DbCall {
    Begin,
    Commit,
    Rollback,
    Write(DbWrite),
    Query(DbQuery),
}

/// How a database call failed.
#[derive(Clone, Copy, Debug, PartialEq, Eq, Structural)]
pub enum DbFailure {
    /// A uniqueness constraint refused the write.
    UniqueViolation,
    /// Any other failure.
    Other,
}

/// The outcome of a database call.
pub enum DbReply {
    /// A write, `Begin`, `Commit` or `Rollback` succeeded.
    Done,
    /// A write succeeded and changed this many rows.
    Rows(u64),
    /// The date a secret is now scheduled to be deleted at.
    Scheduled(Timestamp),
    /// The secret a lookup found, if any.
    Secret(Option<StoredSecret>),
    /// The secrets a listing found.
    Secrets(Vec<ListedSecret>),
    /// The versions a listing found.
    Versions(Vec<SecretVersion>),
    /// The secrets, each with its current version, a listing found.
    SecretValues(Vec<StoredSecret>),
    /// The number of rows a count found.
    Count(i64),
    /// The call failed.
    Failed(DbFailure),
}

/// What a request handler does next: run a database call and resume with its
/// reply in the given state, or answer the request.
pub enum Step<S, R> {
    Run(S, DbCall),
    Finish(Result<R, crate::handlers::error::AwsErrorKind>),
}

} // verus!
