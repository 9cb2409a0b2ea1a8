use loker::database::secrets::{
    DbCall, DbFailure, DbQuery, DbReply, DbWrite, SecretVersion, Step, StoredSecret, StoredVersionTags, Timestamp,
    VersionStage,
};
use loker::handlers::delete_secret::{DeleteSecretHandler, DeleteSecretRequest};
use loker::handlers::describe_secret::{DescribeSecretHandler, DescribeSecretRequest};
use loker::handlers::error::AwsErrorKind;
use loker::handlers::get_random_password::{
    get_random_password, GetRandomPasswordHandler, GetRandomPasswordRequest, PasswordOptions, LOWERCASE, NUMBERS,
    PUNCTUATION, UPPERCASE,
};
use loker::handlers::get_secret_value::{GetSecretValueHandler, GetSecretValueRequest};
use loker::handlers::models::{SecretId, Tag};
use loker::handlers::restore_secret::{RestoreSecretHandler, RestoreSecretRequest};
use loker::handlers::tag_resource::{TagResourceHandler, TagResourceRequest};
use loker::handlers::untag_resource::{UntagResourceHandler, UntagResourceRequest};
use loker::handlers::update_secret::{UpdateSecretHandler, UpdateSecretRequest};
use loker::utils::aws_sig_v4::{create_canonical_request, RequestHead};

fn secret(scheduled: Option<Timestamp>) -> StoredSecret {
    StoredSecret {
        arn: "arn:1".to_string(),
        name: "app/db".to_string(),
        created_at: Timestamp { seconds: 100, millis: 0 },
        updated_at: None,
        deleted_at: None,
        scheduled_delete_at: scheduled,
        version_id: "v1".to_string(),
        version_stages: vec!["AWSCURRENT".to_string()],
        description: None,
        secret_string: Some("s".to_string()),
        secret_binary: None,
        version_created_at: Timestamp { seconds: 200, millis: 0 },
        version_last_accessed_at: None,
        version_tags: vec![],
    }
}

#[test]
fn test_get_secret_value_by_stage_and_id() {
    let request = GetSecretValueRequest {
        secret_id: "app/db".to_string(),
        version_id: Some("v1".to_string()),
        version_stage: Some("AWSCURRENT".to_string()),
    };
    let state = match GetSecretValueHandler::start(request) {
        Step::Run(s, DbCall::Query(DbQuery::ByVersionStageAndId { version_id, version_stage, .. })) => {
            assert_eq!(version_id, "v1");
            assert_eq!(version_stage, VersionStage::Current);
            s
        }
        _ => panic!("expected the lookup"),
    };
    let state = match GetSecretValueHandler::resume(state, DbReply::Secret(Some(secret(None)))) {
        Step::Run(s, DbCall::Write(DbWrite::UpdateLastAccessed { secret_arn, version_id })) => {
            assert_eq!((secret_arn.as_str(), version_id.as_str()), ("arn:1", "v1"));
            s
        }
        _ => panic!("expected the access mark"),
    };
    match GetSecretValueHandler::resume(state, DbReply::Done) {
        Step::Finish(Ok(resp)) => {
            // A request naming a version gets the version's date
            assert_eq!(resp.created_date, 200);
            assert_eq!(resp.secret_string.as_deref(), Some("s"));
        }
        _ => panic!("expected the value"),
    }
}

#[test]
fn test_get_secret_value_errors() {
    let unknown_stage = GetSecretValueRequest {
        secret_id: "app/db".to_string(),
        version_id: None,
        version_stage: Some("AWSPENDING".to_string()),
    };
    match GetSecretValueHandler::start(unknown_stage) {
        Step::Finish(Err(e)) => assert_eq!(e, AwsErrorKind::InvalidRequestException),
        _ => panic!("expected a refusal"),
    }
    let latest = GetSecretValueRequest { secret_id: "app/db".to_string(), version_id: None, version_stage: None };
    let state = match GetSecretValueHandler::start(latest) {
        Step::Run(s, DbCall::Query(DbQuery::LatestVersion { .. })) => s,
        _ => panic!("expected the lookup"),
    };
    match GetSecretValueHandler::resume(state, DbReply::Secret(None)) {
        Step::Finish(Err(e)) => assert_eq!(e, AwsErrorKind::ResourceNotFoundException),
        _ => panic!("expected not found"),
    }
    let latest = GetSecretValueRequest { secret_id: "app/db".to_string(), version_id: None, version_stage: None };
    let state = match GetSecretValueHandler::start(latest) {
        Step::Run(s, _) => s,
        _ => panic!("expected the lookup"),
    };
    match GetSecretValueHandler::resume(state, DbReply::Secret(Some(secret(Some(Timestamp { seconds: 1, millis: 0 }))))) {
        Step::Finish(Err(e)) => assert_eq!(e, AwsErrorKind::InvalidRequestException),
        _ => panic!("expected a refusal of a deleted secret"),
    }
    let latest = GetSecretValueRequest { secret_id: "app/db".to_string(), version_id: None, version_stage: None };
    let state = match GetSecretValueHandler::start(latest) {
        Step::Run(s, _) => s,
        _ => panic!("expected the lookup"),
    };
    match GetSecretValueHandler::resume(state, DbReply::Failed(DbFailure::Other)) {
        Step::Finish(Err(e)) => assert_eq!(e, AwsErrorKind::InternalServiceError),
        _ => panic!("expected an internal error"),
    }
}

#[test]
fn test_delete_secret_schedules_and_forces() {
    let invalid = DeleteSecretRequest {
        force_delete_without_recovery: false,
        recovery_window_in_days: 3,
        secret_id: SecretId("app/db".to_string()),
    };
    match DeleteSecretHandler::start(invalid) {
        Step::Finish(Err(e)) => assert_eq!(e, AwsErrorKind::InvalidParameterException),
        _ => panic!("expected a refusal"),
    }
    let scheduled = DeleteSecretRequest {
        force_delete_without_recovery: false,
        recovery_window_in_days: 7,
        secret_id: SecretId("app/db".to_string()),
    };
    let state = match DeleteSecretHandler::start(scheduled) {
        Step::Run(s, _) => s,
        _ => panic!("expected the lookup"),
    };
    let state = match DeleteSecretHandler::resume(state, DbReply::Secret(Some(secret(None))), Timestamp { seconds: 0, millis: 0 }) {
        Step::Run(s, DbCall::Write(DbWrite::ScheduleDelete { days, .. })) => {
            assert_eq!(days, 7);
            s
        }
        _ => panic!("expected the schedule"),
    };
    let date = Timestamp { seconds: 5000, millis: 1 };
    match DeleteSecretHandler::resume(state, DbReply::Scheduled(date), Timestamp { seconds: 0, millis: 0 }) {
        Step::Finish(Ok(resp)) => assert_eq!(resp.deletion_date, date),
        _ => panic!("expected the date"),
    }
    let forced = DeleteSecretRequest {
        force_delete_without_recovery: true,
        recovery_window_in_days: 30,
        secret_id: SecretId("app/db".to_string()),
    };
    let state = match DeleteSecretHandler::start(forced) {
        Step::Run(s, _) => s,
        _ => panic!("expected the lookup"),
    };
    let state = match DeleteSecretHandler::resume(state, DbReply::Secret(Some(secret(None))), Timestamp { seconds: 0, millis: 0 }) {
        Step::Run(s, DbCall::Write(DbWrite::DeleteSecret { .. })) => s,
        _ => panic!("expected the deletion"),
    };
    let now = Timestamp { seconds: 1_700_000_000, millis: 250 };
    match DeleteSecretHandler::resume(state, DbReply::Done, now) {
        // Answered with the time of the reply
        Step::Finish(Ok(resp)) => assert_eq!(resp.deletion_date, now),
        _ => panic!("expected the answer"),
    }
}

#[test]
fn test_delete_secret_already_scheduled() {
    let request = DeleteSecretRequest {
        force_delete_without_recovery: true,
        recovery_window_in_days: 30,
        secret_id: SecretId("app/db".to_string()),
    };
    let state = match DeleteSecretHandler::start(request) {
        Step::Run(s, _) => s,
        _ => panic!("expected the lookup"),
    };
    let date = Timestamp { seconds: 42, millis: 0 };
    match DeleteSecretHandler::resume(state, DbReply::Secret(Some(secret(Some(date)))), Timestamp { seconds: 0, millis: 0 }) {
        Step::Finish(Ok(resp)) => assert_eq!(resp.deletion_date, date),
        _ => panic!("expected the scheduled date"),
    }
}

#[test]
fn test_restore_secret() {
    let state = match RestoreSecretHandler::start(RestoreSecretRequest { secret_id: "app/db".to_string() }) {
        Step::Run(s, _) => s,
        _ => panic!("expected the lookup"),
    };
    let state = match RestoreSecretHandler::resume(state, DbReply::Secret(Some(secret(None)))) {
        Step::Run(s, DbCall::Write(DbWrite::CancelDelete { secret_arn })) => {
            assert_eq!(secret_arn, "arn:1");
            s
        }
        _ => panic!("expected the cancellation"),
    };
    match RestoreSecretHandler::resume(state, DbReply::Done) {
        Step::Finish(Ok(resp)) => assert_eq!(resp.name, "app/db"),
        _ => panic!("expected the answer"),
    }
}

#[test]
fn test_tag_and_untag_resource() {
    let request = TagResourceRequest {
        secret_id: "app/db".to_string(),
        tags: vec![
            Tag { key: "a".to_string(), value: "1".to_string() },
            Tag { key: "b".to_string(), value: "2".to_string() },
        ],
    };
    let mut step = TagResourceHandler::start(request);
    let mut replies = vec![DbReply::Secret(Some(secret(None))), DbReply::Done, DbReply::Done, DbReply::Done, DbReply::Done].into_iter();
    let mut tagged = vec![];
    loop {
        match step {
            Step::Run(s, call) => {
                if let DbCall::Write(DbWrite::PutTag { key, .. }) = &call {
                    tagged.push(key.clone());
                }
                step = TagResourceHandler::resume(s, replies.next().unwrap());
            }
            Step::Finish(r) => {
                assert!(r.is_ok());
                break;
            }
        }
    }
    assert_eq!(tagged, vec!["a".to_string(), "b".to_string()]);

    let bad = UntagResourceRequest { secret_id: SecretId("app/db".to_string()), tag_keys: vec!["".to_string()] };
    match UntagResourceHandler::start(bad) {
        Step::Finish(Err(e)) => assert_eq!(e, AwsErrorKind::InvalidParameterException),
        _ => panic!("expected a refusal"),
    }
    let request = UntagResourceRequest { secret_id: SecretId("app/db".to_string()), tag_keys: vec!["a".to_string()] };
    let state = match UntagResourceHandler::start(request) {
        Step::Run(s, _) => s,
        _ => panic!("expected the lookup"),
    };
    let state = match UntagResourceHandler::resume(state, DbReply::Secret(Some(secret(None)))) {
        Step::Run(s, DbCall::Begin) => s,
        _ => panic!("expected a transaction"),
    };
    let state = match UntagResourceHandler::resume(state, DbReply::Done) {
        Step::Run(s, DbCall::Write(DbWrite::RemoveTag { key, .. })) => {
            assert_eq!(key, "a");
            s
        }
        _ => panic!("expected the removal"),
    };
    let state = match UntagResourceHandler::resume(state, DbReply::Failed(DbFailure::Other)) {
        Step::Run(s, DbCall::Rollback) => s,
        _ => panic!("expected a roll back"),
    };
    match UntagResourceHandler::resume(state, DbReply::Done) {
        Step::Finish(Err(e)) => assert_eq!(e, AwsErrorKind::InternalServiceError),
        _ => panic!("expected an internal error"),
    }
}

#[test]
fn test_update_secret_new_version() {
    let request = UpdateSecretRequest {
        client_request_token: None,
        description: Some("new".to_string()),
        secret_id: "app/db".to_string(),
        secret_string: Some("v2".to_string()),
        secret_binary: None,
    };
    let mut step = UpdateSecretHandler::start(request);
    let mut calls = vec![];
    let mut first = true;
    let response = loop {
        match step {
            Step::Run(s, call) => {
                let reply = if first { DbReply::Secret(Some(secret(None))) } else { DbReply::Done };
                first = false;
                calls.push(call);
                step = UpdateSecretHandler::resume(s, reply);
            }
            Step::Finish(r) => break r.ok().unwrap(),
        }
    };
    let version_id = response.version_id.unwrap();
    assert_eq!(version_id.len(), 36);
    assert!(matches!(calls[1], DbCall::Begin));
    assert!(matches!(&calls[2], DbCall::Write(DbWrite::UpdateDescription { description, .. }) if description == "new"));
    assert!(matches!(calls[3], DbCall::Write(DbWrite::MarkVersionsPrevious { .. })));
    assert!(matches!(&calls[4], DbCall::Write(DbWrite::CreateSecretVersion(v)) if v.version_id == version_id));
    assert!(matches!(&calls[5], DbCall::Write(DbWrite::AddVersionStage { version_stage, .. }) if version_stage == "AWSCURRENT"));
    assert!(matches!(calls[6], DbCall::Commit));
}

#[test]
fn test_describe_secret_success() {
    let mut stored = secret(None);
    stored.description = Some("test description".to_string());
    stored.version_tags = vec![StoredVersionTags {
        key: "test-tag".to_string(),
        value: "test-value".to_string(),
        created_at: Timestamp { seconds: 100, millis: 0 },
        updated_at: None,
    }];
    let state = match DescribeSecretHandler::start(DescribeSecretRequest { secret_id: SecretId("test".to_string()) }) {
        Step::Run(s, DbCall::Query(DbQuery::LatestVersion { secret_id })) => {
            assert_eq!(secret_id, "test");
            s
        }
        _ => panic!("expected the lookup"),
    };
    let state = match DescribeSecretHandler::resume(state, DbReply::Secret(Some(stored))) {
        Step::Run(s, DbCall::Query(DbQuery::SecretVersions { secret_arn })) => {
            assert_eq!(secret_arn, "arn:1");
            s
        }
        _ => panic!("expected the versions"),
    };
    let versions = vec![SecretVersion {
        secret_arn: "arn:1".to_string(),
        version_id: "v1".to_string(),
        version_stages: vec!["AWSCURRENT".to_string()],
        secret_string: Some("s".to_string()),
        secret_binary: None,
        created_at: Timestamp { seconds: 200, millis: 0 },
        last_accessed_at: None,
    }];
    match DescribeSecretHandler::resume(state, DbReply::Versions(versions)) {
        Step::Finish(Ok(r)) => {
            assert_eq!(r.arn, "arn:1");
            assert_eq!(r.name, "app/db");
            assert_eq!(r.description.as_deref(), Some("test description"));
            assert!(r.created_date.seconds > 0);
            assert_eq!(r.last_changed_date, Some(Timestamp { seconds: 200, millis: 0 }));
            assert_eq!(r.deleted_date, None);
            assert_eq!(r.last_accessed_date, None);
            assert_eq!(r.kms_key_id, None);
            assert_eq!(r.last_rotated_date, None);
            assert_eq!(r.next_rotation_date, None);
            assert_eq!(r.owning_service, None);
            assert_eq!(r.primary_region, None);
            assert_eq!(r.rotation_enabled, Some(false));
            assert_eq!(r.rotation_lambda_arn, None);
            assert_eq!(r.tags.len(), 1);
            assert_eq!((r.tags[0].key.as_str(), r.tags[0].value.as_str()), ("test-tag", "test-value"));
            assert_eq!(r.version_ids_to_stages, vec![("v1".to_string(), vec!["AWSCURRENT".to_string()])]);
        }
        _ => panic!("expected the description"),
    }
}

#[test]
fn test_describe_secret_errors() {
    match DescribeSecretHandler::start(DescribeSecretRequest { secret_id: SecretId("".to_string()) }) {
        Step::Finish(Err(e)) => assert_eq!(e, AwsErrorKind::InvalidParameterException),
        _ => panic!("expected a refusal"),
    }
    let state = match DescribeSecretHandler::start(DescribeSecretRequest { secret_id: SecretId("missing".to_string()) }) {
        Step::Run(s, _) => s,
        _ => panic!("expected the lookup"),
    };
    match DescribeSecretHandler::resume(state, DbReply::Secret(None)) {
        Step::Finish(Err(e)) => assert_eq!(e, AwsErrorKind::ResourceNotFoundException),
        _ => panic!("expected not found"),
    }
}

#[test]
fn test_random_password_handler_defaults() {
    let request = GetRandomPasswordRequest {
        exclude_characters: None,
        exclude_lowercase: None,
        exclude_numbers: Some(true),
        exclude_punctuation: None,
        exclude_uppercase: None,
        include_space: Some(true),
        password_length: None,
        require_each_included_type: Some(true),
    };
    let password = GetRandomPasswordHandler::handle(request).ok().unwrap().random_password;
    assert_eq!(password.len(), 32);
    assert!(!password.chars().any(|c| NUMBERS.contains(c)));
    let impossible = GetRandomPasswordRequest {
        exclude_characters: Some(format!("{LOWERCASE}{UPPERCASE}{NUMBERS}{PUNCTUATION}")),
        exclude_lowercase: None,
        exclude_numbers: None,
        exclude_punctuation: None,
        exclude_uppercase: None,
        include_space: None,
        password_length: Some(8),
        require_each_included_type: None,
    };
    assert!(matches!(
        GetRandomPasswordHandler::handle(impossible),
        Err(AwsErrorKind::InvalidRequestException)
    ));
}

#[test]
fn test_required_types_are_all_present() {
    for _ in 0..20 {
        let options = PasswordOptions {
            exclude_characters: "".to_string(),
            exclude_lowercase: false,
            exclude_numbers: false,
            exclude_punctuation: false,
            exclude_uppercase: false,
            include_space: false,
            password_length: 4,
            require_each_included_type: true,
        };
        let value = get_random_password(options).unwrap();
        assert_eq!(value.len(), 4);
        assert!(value.chars().any(|c| LOWERCASE.contains(c)));
        assert!(value.chars().any(|c| UPPERCASE.contains(c)));
        assert!(value.chars().any(|c| NUMBERS.contains(c)));
        assert!(value.chars().any(|c| PUNCTUATION.contains(c)));
    }
}

#[test]
fn test_canonical_headers_are_trimmed_and_lowercased() {
    let head = RequestHead {
        method: "POST".to_string(),
        path: "/a b".to_string(),
        query: None,
        headers: vec![
            ("X-Amz-Date".to_string(), Some("  20240101T000000Z \t".to_string())),
            ("Host".to_string(), Some("localhost".to_string())),
            ("Host".to_string(), Some("second".to_string())),
            ("Unsigned".to_string(), Some("x".to_string())),
        ],
    };
    let signed = vec!["host".to_string(), "x-amz-date".to_string()];
    let canonical = create_canonical_request(&signed, &head, b"{}");
    assert_eq!(
        canonical,
        "POST\n/a%20b\n\nhost:second\nx-amz-date:20240101T000000Z\n\nhost;x-amz-date\n44136fa355b3678a1146ad16f7e8649e94fb4fc21fe77e8310c060f61caaff8a"
    );
}
