use vstd::prelude::*;

use crate::database::secrets::{DbCall, DbQuery, DbReply, ListedSecret, SecretVersion, Step, StoredSecret, Timestamp};
use crate::handlers::error::AwsErrorKind;
use crate::handlers::list_secrets::{is_last_accessed, is_last_changed, secret_entry};
use crate::handlers::models::{SecretId, Tag};
use crate::handlers::{found_secret, spec_found_secret};
use crate::database::secrets::StoredVersionTags;

verus! {

// https://docs.aws.amazon.com/secretsmanager/latest/apireference/API_DescribeSecret.html
pub struct DescribeSecretHandler;

pub struct DescribeSecretRequest {
    pub secret_id: SecretId,
}

/// The details of a secret. The service neither rotates secrets nor knows KMS
/// keys, regions or owning services, so those fields are always empty and
/// rotation is off.
pub struct DescribeSecretResponse {
    pub arn: String,
    pub created_date: Timestamp,
    pub deleted_date: Option<Timestamp>,
    pub description: Option<String>,
    pub kms_key_id: Option<String>,
    pub last_accessed_date: Option<Timestamp>,
    pub last_changed_date: Option<Timestamp>,
    pub last_rotated_date: Option<Timestamp>,
    pub name: String,
    pub next_rotation_date: Option<Timestamp>,
    pub owning_service: Option<String>,
    pub primary_region: Option<String>,
    pub rotation_enabled: Option<bool>,
    pub rotation_lambda_arn: Option<String>,
    pub tags: Vec<Tag>,
    /// Each version's id with its stages, in the order of the versions.
    pub version_ids_to_stages: Vec<(String, Vec<String>)>,
}

/// Where a DescribeSecret request stands.
pub enum DescribeSecretState {
    /// Waiting for the lookup of the secret.
    Lookup,
    /// Waiting for the versions of the found secret.
    Versions { secret: StoredSecret },
}

/// The secret found by the lookup, with all its versions.
pub open spec fn listed_of(s: StoredSecret, versions: Vec<SecretVersion>) -> ListedSecret {
    ListedSecret {
        arn: s.arn,
        name: s.name,
        description: s.description,
        created_at: s.created_at,
        updated_at: s.updated_at,
        deleted_at: s.deleted_at,
        versions,
        version_tags: s.version_tags,
    }
}

/// The answer `r` describes the secret `s`: its ARN, name, description, dates
/// of creation and of scheduled deletion, the last access of any version and
/// the last change of the secret, its tags and each version's stages.
pub open spec fn describes(s: ListedSecret, r: DescribeSecretResponse) -> bool {
    &&& r.arn == s.arn
    &&& r.name == s.name
    &&& r.description == s.description
    &&& r.created_date == s.created_at
    &&& r.deleted_date == s.deleted_at
    &&& is_last_accessed(s.versions@, r.last_accessed_date)
    &&& is_last_changed(s, r.last_changed_date)
    &&& r.version_ids_to_stages@ == s.versions@.map_values(|v: SecretVersion| (v.version_id, v.version_stages))
    &&& r.tags@ == s.version_tags@.map_values(|t: StoredVersionTags| Tag { key: t.key, value: t.value })
    &&& r.kms_key_id is None
    &&& r.last_rotated_date is None
    &&& r.next_rotation_date is None
    &&& r.owning_service is None
    &&& r.primary_region is None
    &&& r.rotation_enabled == Some(false)
    &&& r.rotation_lambda_arn is None
}

impl DescribeSecretHandler {
    /// An invalid secret id is refused; a valid request starts with the lookup
    /// of the secret it names.
    pub fn start(request: DescribeSecretRequest) -> (r: Step<DescribeSecretState, DescribeSecretResponse>)
        ensures
            request.secret_id.spec_valid() ==> r == Step::<DescribeSecretState, DescribeSecretResponse>::Run(
                DescribeSecretState::Lookup,
                DbCall::Query(DbQuery::LatestVersion { secret_id: request.secret_id.0 }),
            ),
            !request.secret_id.spec_valid() ==> r == Step::<DescribeSecretState, DescribeSecretResponse>::Finish(
                Err(AwsErrorKind::InvalidParameterException),
            ),
    {
        if !request.secret_id.validate() {
            return Step::Finish(Err(AwsErrorKind::InvalidParameterException));
        }
        Step::Run(
            DescribeSecretState::Lookup,
            DbCall::Query(DbQuery::LatestVersion { secret_id: request.secret_id.into_inner() }),
        )
    }

    /// A found secret is described from its stored details and all its
    /// versions; an unknown secret is not found and a failed call is an
    /// internal error.
    pub fn resume(state: DescribeSecretState, reply: DbReply) -> (r: Step<DescribeSecretState, DescribeSecretResponse>)
        ensures
            match state {
                DescribeSecretState::Lookup => match spec_found_secret(reply) {
                    Ok(s) => r == Step::<DescribeSecretState, DescribeSecretResponse>::Run(
                        DescribeSecretState::Versions { secret: s },
                        DbCall::Query(DbQuery::SecretVersions { secret_arn: s.arn }),
                    ),
                    Err(e) => r == Step::<DescribeSecretState, DescribeSecretResponse>::Finish(Err(e)),
                },
                DescribeSecretState::Versions { secret } => match reply {
                    DbReply::Versions(versions) => r matches Step::Finish(Ok(resp)) && describes(
                        listed_of(secret, versions),
                        resp,
                    ),
                    _ => r == Step::<DescribeSecretState, DescribeSecretResponse>::Finish(
                        Err(AwsErrorKind::InternalServiceError),
                    ),
                },
            },
    {
        match state {
            DescribeSecretState::Lookup => match found_secret(reply) {
                Ok(s) => {
                    let secret_arn = s.arn.clone();
                    Step::Run(
                        DescribeSecretState::Versions { secret: s },
                        DbCall::Query(DbQuery::SecretVersions { secret_arn }),
                    )
                },
                Err(e) => Step::Finish(Err(e)),
            },
            DescribeSecretState::Versions { secret } => match reply {
                DbReply::Versions(versions) => {
                    let listed = ListedSecret {
                        arn: secret.arn,
                        name: secret.name,
                        description: secret.description,
                        created_at: secret.created_at,
                        updated_at: secret.updated_at,
                        deleted_at: secret.deleted_at,
                        versions,
                        version_tags: secret.version_tags,
                    };
                    let e = secret_entry(listed);
                    Step::Finish(
                        Ok(DescribeSecretResponse {
                            arn: e.arn,
                            created_date: e.created_date,
                            deleted_date: e.deleted_date,
                            description: e.description,
                            kms_key_id: None,
                            last_accessed_date: e.last_accessed_date,
                            last_changed_date: e.last_changed_date,
                            last_rotated_date: None,
                            name: e.name,
                            next_rotation_date: None,
                            owning_service: None,
                            primary_region: None,
                            rotation_enabled: Some(false),
                            rotation_lambda_arn: None,
                            tags: e.tags,
                            version_ids_to_stages: e.secret_versions_to_stages,
                        }),
                    )
                },
                _ => Step::Finish(Err(AwsErrorKind::InternalServiceError)),
            },
        }
    }
}

} // verus!
