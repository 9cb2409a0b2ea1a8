use loker::database::secrets::{
    DbCall, DbFailure, DbQuery, DbReply, DbWrite, ListedSecret, SecretVersion, Step, StoredSecret, StoredVersionTags,
    Timestamp, VersionStage,
};
use loker::handlers::batch_get_secret_value::{
    BatchGetSecretValueHandler, BatchGetSecretValueRequest, BatchGetSecretValueState,
};
use loker::handlers::create_secret::{create_secret_arn, CreateSecretHandler, CreateSecretRequest, CreateSecretState};
use loker::handlers::error::AwsErrorKind;
use loker::handlers::list_secret_version_ids::{
    ListSecretVersionIdsHandler, ListSecretVersionIdsRequest, ListSecretVersionIdsState,
};
use loker::handlers::list_secrets::{last_accessed, last_changed, secret_entry, ListSecretsHandler, ListSecretsRequest};
use loker::handlers::models::{
    ClientRequestToken, Filter, PaginationToken, SecretBinary, SecretId, SecretName, SecretString, Tag, VersionId,
};
use loker::handlers::put_secret_value::{PutSecretValueHandler, PutSecretValueRequest, PutSecretValueState};
use loker::handlers::update_secret_version_stage::{
    UpdateSecretVersionStageHandler, UpdateSecretVersionStageRequest, UpdateSecretVersionStageState,
};
use loker::handlers::{create_handlers, route, Operation};

fn ts(seconds: i64) -> Timestamp {
    Timestamp { seconds, millis: 0 }
}

fn stored(arn: &str, name: &str, version_id: &str, value: Option<&str>) -> StoredSecret {
    StoredSecret {
        arn: arn.to_string(),
        name: name.to_string(),
        created_at: ts(10),
        updated_at: None,
        deleted_at: None,
        scheduled_delete_at: None,
        version_id: version_id.to_string(),
        version_stages: vec!["AWSCURRENT".to_string()],
        description: None,
        secret_string: value.map(|v| v.to_string()),
        secret_binary: None,
        version_created_at: ts(20),
        version_last_accessed_at: None,
        version_tags: vec![],
    }
}

fn create_request(name: &str, value: Option<&str>, binary: Option<&str>) -> CreateSecretRequest {
    CreateSecretRequest {
        name: SecretName(name.to_string()),
        description: None,
        client_request_token: Some(ClientRequestToken("0123456789abcdef0123456789abcdef".to_string())),
        secret_string: value.map(|v| SecretString(v.to_string())),
        secret_binary: binary.map(|v| SecretBinary(v.to_string())),
        tags: Some(vec![Tag { key: "team".to_string(), value: "core".to_string() }]),
    }
}

#[test]
fn test_create_secret_arn_shape() {
    let arn = create_secret_arn("my-secret");
    let prefix = "arn:aws:secretsmanager:us-east-1:1:secret:my-secret-";
    assert!(arn.starts_with(prefix));
    let suffix = &arn[prefix.len()..];
    assert_eq!(suffix.len(), 6);
    assert!(suffix.chars().all(|c| c.is_ascii_alphanumeric()));
}

#[test]
fn test_create_secret_refuses_bad_requests() {
    match CreateSecretHandler::start(create_request("bad name", Some("v"), None)) {
        Step::Finish(Err(e)) => assert_eq!(e, AwsErrorKind::InvalidParameterException),
        _ => panic!("expected a refusal"),
    }
    match CreateSecretHandler::start(create_request("good", Some("v"), Some("YmluYXJ5"))) {
        Step::Finish(Err(e)) => assert_eq!(e, AwsErrorKind::InvalidRequestException),
        _ => panic!("expected a refusal"),
    }
    match CreateSecretHandler::start(create_request("good", None, None)) {
        Step::Finish(Err(e)) => assert_eq!(e, AwsErrorKind::InvalidRequestException),
        _ => panic!("expected a refusal"),
    }
}

#[test]
fn test_create_secret_full_run() {
    let (mut state, call) = match CreateSecretHandler::start(create_request("app/db", Some("hunter2"), None)) {
        Step::Run(s, c) => (s, c),
        Step::Finish(_) => panic!("expected a run"),
    };
    assert!(matches!(call, DbCall::Begin));
    let mut calls = vec![];
    loop {
        match CreateSecretHandler::resume(state, DbReply::Done) {
            Step::Run(s, c) => {
                calls.push(c);
                state = s;
            }
            Step::Finish(r) => {
                let resp = r.ok().unwrap();
                assert_eq!(resp.name, "app/db");
                assert_eq!(resp.version_id, "0123456789abcdef0123456789abcdef");
                assert!(resp.arn.starts_with("arn:aws:secretsmanager:us-east-1:1:secret:app/db-"));
                break;
            }
        }
    }
    assert_eq!(calls.len(), 5);
    match &calls[0] {
        DbCall::Write(DbWrite::CreateSecret(c)) => assert_eq!(c.name, "app/db"),
        _ => panic!("expected the secret"),
    }
    match &calls[1] {
        DbCall::Write(DbWrite::CreateSecretVersion(v)) => {
            assert_eq!(v.secret_string.as_deref(), Some("hunter2"));
            assert_eq!(v.version_id, "0123456789abcdef0123456789abcdef");
        }
        _ => panic!("expected the version"),
    }
    match &calls[2] {
        DbCall::Write(DbWrite::AddVersionStage { version_stage, .. }) => assert_eq!(version_stage, "AWSCURRENT"),
        _ => panic!("expected the stage"),
    }
    match &calls[3] {
        DbCall::Write(DbWrite::PutTag { key, value, .. }) => {
            assert_eq!(key, "team");
            assert_eq!(value, "core");
        }
        _ => panic!("expected the tag"),
    }
    assert!(matches!(calls[4], DbCall::Commit));
}

#[test]
fn test_create_secret_name_taken_retry_is_idempotent() {
    let state = match CreateSecretHandler::start(create_request("app/db", Some("hunter2"), None)) {
        Step::Run(s, _) => s,
        Step::Finish(_) => panic!("expected a run"),
    };
    let state = match CreateSecretHandler::resume(state, DbReply::Done) {
        Step::Run(s, _) => s,
        Step::Finish(_) => panic!("expected a run"),
    };
    let state = match CreateSecretHandler::resume(state, DbReply::Failed(DbFailure::UniqueViolation)) {
        Step::Run(s @ CreateSecretState::NameTaken { .. }, DbCall::Rollback) => s,
        _ => panic!("expected a roll back"),
    };
    let state = match CreateSecretHandler::resume(state, DbReply::Done) {
        Step::Run(s, DbCall::Query(DbQuery::ByVersionId { secret_id, version_id })) => {
            assert_eq!(secret_id, "app/db");
            assert_eq!(version_id, "0123456789abcdef0123456789abcdef");
            s
        }
        _ => panic!("expected a lookup"),
    };
    let found = stored("arn:existing", "app/db", "0123456789abcdef0123456789abcdef", Some("hunter2"));
    match CreateSecretHandler::resume(state, DbReply::Secret(Some(found))) {
        Step::Finish(Ok(resp)) => assert_eq!(resp.arn, "arn:existing"),
        _ => panic!("expected the stored secret"),
    }
}

#[test]
fn test_create_secret_name_taken_with_other_value() {
    let state = match CreateSecretHandler::start(create_request("app/db", Some("hunter2"), None)) {
        Step::Run(s, _) => s,
        Step::Finish(_) => panic!("expected a run"),
    };
    let state = match CreateSecretHandler::resume(state, DbReply::Done) {
        Step::Run(s, _) => s,
        Step::Finish(_) => panic!("expected a run"),
    };
    let state = match CreateSecretHandler::resume(state, DbReply::Failed(DbFailure::UniqueViolation)) {
        Step::Run(s, _) => s,
        Step::Finish(_) => panic!("expected a run"),
    };
    let state = match CreateSecretHandler::resume(state, DbReply::Done) {
        Step::Run(s, _) => s,
        Step::Finish(_) => panic!("expected a run"),
    };
    let found = stored("arn:existing", "app/db", "0123456789abcdef0123456789abcdef", Some("other"));
    match CreateSecretHandler::resume(state, DbReply::Secret(Some(found))) {
        Step::Finish(Err(e)) => assert_eq!(e, AwsErrorKind::ResourceExistsException),
        _ => panic!("expected a conflict"),
    }
}

#[test]
fn test_put_secret_value_picks_first_known_stage() {
    let request = PutSecretValueRequest {
        client_request_token: Some("token-token-token-token-token-token".to_string()),
        secret_id: "app/db".to_string(),
        secret_string: Some("v2".to_string()),
        secret_binary: None,
        version_stages: Some(vec!["custom".to_string(), "AWSPREVIOUS".to_string(), "AWSCURRENT".to_string()]),
    };
    match PutSecretValueHandler::start(request) {
        Step::Run(PutSecretValueState::Lookup { version_stage, version_id, .. }, DbCall::Query(DbQuery::LatestVersion { secret_id })) => {
            assert_eq!(version_stage, VersionStage::Previous);
            assert_eq!(version_id, "token-token-token-token-token-token");
            assert_eq!(secret_id, "app/db");
        }
        _ => panic!("expected the lookup"),
    }
    let neither = PutSecretValueRequest {
        client_request_token: None,
        secret_id: "app/db".to_string(),
        secret_string: None,
        secret_binary: None,
        version_stages: None,
    };
    match PutSecretValueHandler::start(neither) {
        Step::Finish(Err(e)) => assert_eq!(e, AwsErrorKind::InvalidRequestException),
        _ => panic!("expected a refusal"),
    }
}

#[test]
fn test_list_secret_version_ids_paging() {
    let request = ListSecretVersionIdsRequest {
        include_deprecated: false,
        max_results: 2,
        next_token: PaginationToken { page_size: 100, page_index: 1 },
        secret_id: SecretId("app/db".to_string()),
    };
    let state = match ListSecretVersionIdsHandler::start(request) {
        Step::Run(s, _) => s,
        Step::Finish(_) => panic!("expected a lookup"),
    };
    let state = match ListSecretVersionIdsHandler::resume(state, DbReply::Secret(Some(stored("arn:1", "app/db", "v", None)))) {
        Step::Run(s, DbCall::Query(DbQuery::VersionsPage { limit, offset, include_deprecated, .. })) => {
            assert_eq!(limit, 2);
            assert_eq!(offset, 2);
            assert!(!include_deprecated);
            s
        }
        _ => panic!("expected the page"),
    };
    let versions = vec![SecretVersion {
        secret_arn: "arn:1".to_string(),
        version_id: "v3".to_string(),
        version_stages: vec![],
        secret_string: None,
        secret_binary: None,
        created_at: ts(30),
        last_accessed_at: None,
    }];
    let state = match ListSecretVersionIdsHandler::resume(state, DbReply::Versions(versions)) {
        Step::Run(s @ ListSecretVersionIdsState::Counting { .. }, _) => s,
        _ => panic!("expected the count"),
    };
    match ListSecretVersionIdsHandler::resume(state, DbReply::Count(5)) {
        Step::Finish(Ok(resp)) => {
            assert_eq!(resp.next_token.as_deref(), Some("2:2"));
            assert_eq!(resp.versions.len(), 1);
            assert_eq!(resp.versions[0].version_id, "v3");
            assert_eq!(resp.versions[0].created_date, ts(30));
        }
        _ => panic!("expected the answer"),
    }
}

#[test]
fn test_list_secret_version_ids_last_page_has_no_token() {
    let state = ListSecretVersionIdsState::Counting {
        arn: "arn:1".to_string(),
        name: "n".to_string(),
        token: PaginationToken { page_size: 2, page_index: 1 },
        versions: vec![],
    };
    match ListSecretVersionIdsHandler::resume(state, DbReply::Count(4)) {
        Step::Finish(Ok(resp)) => assert_eq!(resp.next_token, None),
        _ => panic!("expected the answer"),
    }
}

#[test]
fn test_list_secrets_validation_and_overflow() {
    let bad_order = ListSecretsRequest {
        filters: vec![],
        include_planned_deletion: false,
        max_results: 10,
        next_token: PaginationToken { page_size: 100, page_index: 0 },
        sort_order: "sideways".to_string(),
    };
    match ListSecretsHandler::start(bad_order) {
        Step::Finish(Err(e)) => assert_eq!(e, AwsErrorKind::InvalidParameterException),
        _ => panic!("expected a refusal"),
    }
    let huge_page = ListSecretsRequest {
        filters: vec![Filter { key: "name".to_string(), values: vec!["app".to_string()] }],
        include_planned_deletion: false,
        max_results: 100,
        next_token: PaginationToken { page_size: 100, page_index: i64::MAX },
        sort_order: "asc".to_string(),
    };
    match ListSecretsHandler::start(huge_page) {
        Step::Finish(Err(e)) => assert_eq!(e, AwsErrorKind::InvalidRequestException),
        _ => panic!("expected a refusal"),
    }
    let ok = ListSecretsRequest {
        filters: vec![Filter { key: "tag-key".to_string(), values: vec!["!team".to_string()] }],
        include_planned_deletion: true,
        max_results: 5,
        next_token: PaginationToken { page_size: 100, page_index: 3 },
        sort_order: "asc".to_string(),
    };
    match ListSecretsHandler::start(ok) {
        Step::Run(_, DbCall::Query(DbQuery::SecretsByFilter { filters, include_planned_deletion, limit, offset, asc })) => {
            assert_eq!(filters.len(), 1);
            assert_eq!(filters[0].values, vec!["!team".to_string()]);
            assert!(include_planned_deletion);
            assert_eq!((limit, offset), (5, 15));
            assert!(asc);
        }
        _ => panic!("expected the page"),
    }
}

fn listed() -> ListedSecret {
    ListedSecret {
        arn: "arn:1".to_string(),
        name: "app/db".to_string(),
        description: Some("d".to_string()),
        created_at: ts(1),
        updated_at: Some(ts(50)),
        deleted_at: None,
        versions: vec![
            SecretVersion {
                secret_arn: "arn:1".to_string(),
                version_id: "v1".to_string(),
                version_stages: vec!["AWSPREVIOUS".to_string()],
                secret_string: None,
                secret_binary: None,
                created_at: ts(10),
                last_accessed_at: Some(Timestamp { seconds: 70, millis: 5 }),
            },
            SecretVersion {
                secret_arn: "arn:1".to_string(),
                version_id: "v2".to_string(),
                version_stages: vec!["AWSCURRENT".to_string()],
                secret_string: None,
                secret_binary: None,
                created_at: ts(60),
                last_accessed_at: Some(Timestamp { seconds: 70, millis: 1 }),
            },
        ],
        version_tags: vec![StoredVersionTags {
            key: "team".to_string(),
            value: "core".to_string(),
            created_at: ts(2),
            updated_at: Some(Timestamp { seconds: 60, millis: 500 }),
        }],
    }
}

#[test]
fn test_list_secrets_entry_dates() {
    let secret = listed();
    assert_eq!(last_accessed(&secret.versions), Some(Timestamp { seconds: 70, millis: 5 }));
    assert_eq!(last_changed(&secret), Some(Timestamp { seconds: 60, millis: 500 }));
    let entry = secret_entry(secret);
    assert_eq!(entry.arn, "arn:1");
    assert_eq!(entry.secret_versions_to_stages.len(), 2);
    assert_eq!(entry.secret_versions_to_stages[1].0, "v2");
    assert_eq!(entry.secret_versions_to_stages[1].1, vec!["AWSCURRENT".to_string()]);
    assert_eq!(entry.tags.len(), 1);
    assert_eq!(entry.tags[0].key, "team");
    assert!(!entry.rotation_enabled);
    assert_eq!(entry.kms_key_id, None);
}

#[test]
fn test_list_secrets_dates_of_an_untouched_secret() {
    let mut secret = listed();
    secret.versions.clear();
    secret.updated_at = None;
    secret.version_tags[0].updated_at = None;
    assert_eq!(last_accessed(&secret.versions), None);
    assert_eq!(last_changed(&secret), None);
}

#[test]
fn test_batch_get_secret_value_requests() {
    let both = BatchGetSecretValueRequest {
        filters: Some(vec![]),
        max_results: None,
        next_token: None,
        secret_id_list: Some(vec![]),
    };
    match BatchGetSecretValueHandler::start(both) {
        Step::Finish(Err(e)) => assert_eq!(e, AwsErrorKind::InvalidRequestException),
        _ => panic!("expected a refusal"),
    }
    let bad_token = BatchGetSecretValueRequest {
        filters: Some(vec![]),
        max_results: None,
        next_token: Some("nope".to_string()),
        secret_id_list: None,
    };
    match BatchGetSecretValueHandler::start(bad_token) {
        Step::Finish(Err(e)) => assert_eq!(e, AwsErrorKind::InvalidRequestException),
        _ => panic!("expected a refusal"),
    }
    let default_page = BatchGetSecretValueRequest {
        filters: Some(vec![]),
        max_results: None,
        next_token: Some("7:3".to_string()),
        secret_id_list: None,
    };
    match BatchGetSecretValueHandler::start(default_page) {
        Step::Run(_, DbCall::Query(DbQuery::SecretValuesByFilter { limit, offset, asc, .. })) => {
            assert_eq!((limit, offset), (20, 60));
            assert!(!asc);
        }
        _ => panic!("expected the page"),
    }
}

#[test]
fn test_batch_get_secret_value_by_ids() {
    let request = BatchGetSecretValueRequest {
        filters: None,
        max_results: None,
        next_token: None,
        secret_id_list: Some(vec!["missing".to_string(), "app/db".to_string()]),
    };
    let state = match BatchGetSecretValueHandler::start(request) {
        Step::Run(s, DbCall::Query(DbQuery::LatestVersion { secret_id })) => {
            assert_eq!(secret_id, "missing");
            s
        }
        _ => panic!("expected a lookup"),
    };
    let state = match BatchGetSecretValueHandler::resume(state, DbReply::Secret(None)) {
        Step::Run(s, DbCall::Query(DbQuery::LatestVersion { secret_id })) => {
            assert_eq!(secret_id, "app/db");
            s
        }
        _ => panic!("expected a lookup"),
    };
    let state = match BatchGetSecretValueHandler::resume(state, DbReply::Secret(Some(stored("arn:2", "app/db", "v9", Some("x"))))) {
        Step::Run(s @ BatchGetSecretValueState::Touching { .. }, DbCall::Write(DbWrite::UpdateLastAccessed { secret_arn, version_id })) => {
            assert_eq!(secret_arn, "arn:2");
            assert_eq!(version_id, "v9");
            s
        }
        _ => panic!("expected the access mark"),
    };
    match BatchGetSecretValueHandler::resume(state, DbReply::Done) {
        Step::Finish(Ok(resp)) => {
            assert_eq!(resp.errors.len(), 1);
            assert_eq!(resp.errors[0].error_code.as_deref(), Some("ResourceNotFoundException"));
            assert_eq!(resp.errors[0].secret_id.as_deref(), Some("missing"));
            assert_eq!(resp.secret_values.len(), 1);
            assert_eq!(resp.secret_values[0].secret_string.as_deref(), Some("x"));
            assert_eq!(resp.next_token, None);
        }
        _ => panic!("expected the answer"),
    }
}

#[test]
fn test_update_secret_version_stage_moves_current() {
    let request = UpdateSecretVersionStageRequest {
        move_to_version_id: Some(VersionId("0123456789abcdef0123456789abcdef".to_string())),
        remove_from_version_id: Some(VersionId("fedcba9876543210fedcba9876543210".to_string())),
        secret_id: SecretId("app/db".to_string()),
        version_stage: "AWSCURRENT".to_string(),
    };
    let state = match UpdateSecretVersionStageHandler::start(request) {
        Step::Run(s, _) => s,
        _ => panic!("expected a lookup"),
    };
    let state = match UpdateSecretVersionStageHandler::resume(state, DbReply::Secret(Some(stored("arn:1", "app/db", "old", None)))) {
        Step::Run(s, DbCall::Begin) => s,
        _ => panic!("expected a transaction"),
    };
    let state = match UpdateSecretVersionStageHandler::resume(state, DbReply::Done) {
        Step::Run(s, DbCall::Write(DbWrite::RemoveVersionStage { version_id, version_stage, .. })) => {
            assert_eq!(version_id, "fedcba9876543210fedcba9876543210");
            assert_eq!(version_stage, "AWSCURRENT");
            s
        }
        _ => panic!("expected the removal"),
    };
    let state = match UpdateSecretVersionStageHandler::resume(state, DbReply::Rows(1)) {
        Step::Run(s, DbCall::Write(DbWrite::RemoveVersionStageAny { version_stage, .. })) => {
            assert_eq!(version_stage, "AWSPREVIOUS");
            s
        }
        _ => panic!("expected AWSPREVIOUS to be cleared"),
    };
    let state = match UpdateSecretVersionStageHandler::resume(state, DbReply::Rows(1)) {
        Step::Run(s, DbCall::Write(DbWrite::AddVersionStage { version_id, version_stage, .. })) => {
            assert_eq!(version_id, "old");
            assert_eq!(version_stage, "AWSPREVIOUS");
            s
        }
        _ => panic!("expected the old current to become previous"),
    };
    let state = match UpdateSecretVersionStageHandler::resume(state, DbReply::Done) {
        Step::Run(s @ UpdateSecretVersionStageState::Moving { .. }, _) => s,
        _ => panic!("expected the move"),
    };
    match UpdateSecretVersionStageHandler::resume(state, DbReply::Failed(DbFailure::UniqueViolation)) {
        Step::Finish(Err(e)) => assert_eq!(e, AwsErrorKind::InvalidRequestException),
        _ => panic!("expected a refusal"),
    }
}

#[test]
fn test_update_secret_version_stage_source_without_stage() {
    let request = UpdateSecretVersionStageRequest {
        move_to_version_id: None,
        remove_from_version_id: Some(VersionId("fedcba9876543210fedcba9876543210".to_string())),
        secret_id: SecretId("app/db".to_string()),
        version_stage: "custom".to_string(),
    };
    let state = match UpdateSecretVersionStageHandler::start(request) {
        Step::Run(s, _) => s,
        _ => panic!("expected a lookup"),
    };
    let state = match UpdateSecretVersionStageHandler::resume(state, DbReply::Secret(Some(stored("arn:1", "app/db", "old", None)))) {
        Step::Run(s, _) => s,
        _ => panic!("expected a transaction"),
    };
    let state = match UpdateSecretVersionStageHandler::resume(state, DbReply::Done) {
        Step::Run(s, _) => s,
        _ => panic!("expected the removal"),
    };
    match UpdateSecretVersionStageHandler::resume(state, DbReply::Rows(0)) {
        Step::Finish(Err(e)) => assert_eq!(e, AwsErrorKind::InvalidRequestException),
        _ => panic!("expected a refusal"),
    }
}

#[test]
fn test_router_targets() {
    let router = create_handlers();
    assert_eq!(router.get_handler("secretsmanager.CreateSecret"), Some(Operation::CreateSecret));
    assert_eq!(
        router.get_handler("secretsmanager.BatchGetSecretValue"),
        Some(Operation::BatchGetSecretValue)
    );
    assert_eq!(router.get_handler("secretsmanager.RotateSecret"), None);
    assert_eq!(route(&router, None), Err(AwsErrorKind::InvalidRequestException));
    assert_eq!(route(&router, Some("secretsmanager.RotateSecret")), Err(AwsErrorKind::NotImplemented));
    assert_eq!(route(&router, Some("secretsmanager.TagResource")), Ok(Operation::TagResource));
}

#[test]
fn test_router_later_handler_replaces_earlier() {
    let router = loker::handlers::HandlerRouter::new()
        .add_handler("x", Operation::ListSecrets)
        .add_handler("y", Operation::TagResource)
        .add_handler("x", Operation::UntagResource);
    assert_eq!(router.get_handler("x"), Some(Operation::UntagResource));
    assert_eq!(router.get_handler("y"), Some(Operation::TagResource));
}
