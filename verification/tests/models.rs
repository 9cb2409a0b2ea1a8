use loker::background::scheduler::{
    create_scheduled_event, get_nth_interval_seconds, SchedulerEventStream, SchedulerQueueEvent, SchedulerStep,
};
use loker::background::{background_events, background_task, BackgroundEvent, BackgroundTask};
use loker::database::secrets::{Timestamp, VersionStage};
use loker::handlers::delete_secret::default_recovery_window_days;
use loker::handlers::error::AwsErrorKind;
use loker::handlers::list_secrets::default_sort_order;
use loker::handlers::models::{
    is_valid_filter_key, is_valid_filter_value, is_valid_secret_name, ClientRequestToken, Filter, PaginationToken,
    SecretName, Tag,
};
use loker::utils::number::{i64_chars, parse_i64};
use loker::utils::order::stable_sort_by_key;
use loker::utils::string::join_iter_string;

#[test]
fn test_pagination_token_round_trip() {
    let token = PaginationToken { page_size: 25, page_index: -3 };
    let text = token.to_string();
    assert_eq!(text, "25:-3");
    let back = PaginationToken::from_str(&text).ok().unwrap();
    assert_eq!((back.page_size, back.page_index), (25, -3));
    let extreme = PaginationToken { page_size: i64::MIN, page_index: i64::MAX };
    let back = PaginationToken::from_str(&extreme.to_string()).ok().unwrap();
    assert_eq!((back.page_size, back.page_index), (i64::MIN, i64::MAX));
}

#[test]
fn test_pagination_token_invalid_text() {
    for text in ["", "12", "a:1", "1:b", ":1", "1:", "1:2:3", "1 :2", "99999999999999999999:1", "+-1:2"] {
        assert!(PaginationToken::from_str(text).is_err(), "{text} should be refused");
    }
    let plus = PaginationToken::from_str("+4:0").ok().unwrap();
    assert_eq!(plus.page_size, 4);
}

#[test]
fn test_pagination_query_parts_and_next_page() {
    let token = PaginationToken { page_size: 10, page_index: 2 };
    assert_eq!(token.as_query_parts(), Some((10, 20)));
    assert!(PaginationToken { page_size: 2, page_index: i64::MAX }.as_query_parts().is_none());
    let next = token.get_next_page(31).unwrap();
    assert_eq!((next.page_size, next.page_index), (10, 3));
    assert!(token.get_next_page(30).is_none());
    assert!(PaginationToken { page_size: 1, page_index: i64::MAX }.get_next_page(i64::MAX).is_none());
    let resized = token.page_size(50);
    assert_eq!((resized.page_size, resized.page_index), (50, 2));
}

#[test]
fn test_secret_name_validation() {
    assert!(SecretName("my/secret_name+=.@-1".to_string()).validate());
    assert!(!SecretName("".to_string()).validate());
    assert!(!SecretName("has space".to_string()).validate());
    assert!(!SecretName("x".repeat(513)).validate());
    assert!(SecretName("x".repeat(512)).validate());
    assert!(is_valid_secret_name(""));
    assert!(!is_valid_secret_name("é"));
}

#[test]
fn test_filter_validation() {
    assert!(is_valid_filter_key("tag-value"));
    assert!(!is_valid_filter_key("tag"));
    assert!(is_valid_filter_value("!prod:db_1@x/y+z=w.v-u"));
    assert!(is_valid_filter_value("!a!b"));
    assert!(!is_valid_filter_value("a#b"));
    let ok = Filter { key: "name".to_string(), values: vec!["app".to_string()] };
    assert!(ok.validate());
    let no_values = Filter { key: "name".to_string(), values: vec![] };
    assert!(!no_values.validate());
    let too_many = Filter { key: "name".to_string(), values: vec!["a".to_string(); 11] };
    assert!(!too_many.validate());
    let empty_value = Filter { key: "name".to_string(), values: vec!["".to_string()] };
    assert!(!empty_value.validate());
}

#[test]
fn test_tag_and_token_validation() {
    assert!(Tag { key: "k".to_string(), value: "v".to_string() }.validate());
    assert!(!Tag { key: "".to_string(), value: "v".to_string() }.validate());
    assert!(!Tag { key: "k".to_string(), value: "v".repeat(257) }.validate());
    assert!(!ClientRequestToken("short".to_string()).validate());
    let fresh = ClientRequestToken::default();
    assert_eq!(fresh.0.len(), 36);
    assert!(fresh.validate());
    assert!(fresh.0.chars().all(|c| c == '-' || c.is_ascii_digit() || ('a'..='f').contains(&c)));
}

#[test]
fn test_error_kinds() {
    assert_eq!(AwsErrorKind::InvalidClientTokenId.status_code(), 403);
    assert_eq!(AwsErrorKind::SignatureDoesNotMatch.status_code(), 403);
    assert_eq!(AwsErrorKind::MissingAuthenticationToken.status_code(), 400);
    assert_eq!(AwsErrorKind::ResourceNotFoundException.error_type(), "ResourceNotFoundException");
    assert_eq!(AwsErrorKind::NotImplemented.error_type(), "ResourceExistsException");
    assert_eq!(AwsErrorKind::NotImplemented.message(), "This operation is not implemented in this server");
}

#[test]
fn test_version_stage_labels() {
    assert_eq!(VersionStage::Current.as_str(), "AWSCURRENT");
    assert_eq!(VersionStage::Previous.to_string(), "AWSPREVIOUS");
    assert_eq!(VersionStage::try_from_str("AWSPREVIOUS"), Some(VersionStage::Previous));
    assert_eq!(VersionStage::try_from_str(VersionStage::Current.as_str()), Some(VersionStage::Current));
    assert_eq!(VersionStage::try_from_str("AWSPENDING"), None);
}

#[test]
fn test_defaults() {
    assert_eq!(default_recovery_window_days(), 30);
    assert_eq!(default_sort_order(), "desc");
    let t = loker::handlers::list_secrets::default_next_token();
    assert_eq!((t.page_size, t.page_index), (100, 0));
    assert_eq!(loker::handlers::list_secret_version_ids::default_max_results(), 100);
}

#[test]
fn test_join_iter_string() {
    let items = vec!["a".to_string(), "bc".to_string(), "".to_string()];
    assert_eq!(join_iter_string(&items, ", "), "a, bc, ");
    assert_eq!(join_iter_string(&[], ", "), "");
    assert_eq!(join_iter_string(&["x".to_string()], "-"), "x");
}

#[test]
fn test_stable_sort_by_key() {
    let input = vec![
        ("b".to_string(), "1".to_string()),
        ("a".to_string(), "2".to_string()),
        ("b".to_string(), "3".to_string()),
        ("B".to_string(), "4".to_string()),
        ("a".to_string(), "5".to_string()),
    ];
    let sorted = stable_sort_by_key(input);
    let keys: Vec<(&str, &str)> = sorted.iter().map(|(k, v)| (k.as_str(), v.as_str())).collect();
    assert_eq!(keys, vec![("B", "4"), ("a", "2"), ("a", "5"), ("b", "1"), ("b", "3")]);
}

#[test]
fn test_number_text() {
    let parse = |s: &str| parse_i64(&s.chars().collect::<Vec<char>>());
    assert_eq!(parse("42"), Some(42));
    assert_eq!(parse("-9223372036854775808"), Some(i64::MIN));
    assert_eq!(parse("9223372036854775808"), None);
    assert_eq!(parse("-"), None);
    assert_eq!(parse("1_0"), None);
    assert_eq!(i64_chars(-120).into_iter().collect::<String>(), "-120");
    assert_eq!(i64_chars(0).into_iter().collect::<String>(), "0");
}

#[test]
fn test_interval_boundaries() {
    assert_eq!(get_nth_interval_seconds(3601, 3600, 1), 7200);
    assert_eq!(get_nth_interval_seconds(3600, 3600, 1), 7200);
    assert_eq!(get_nth_interval_seconds(3599, 3600, 2), 7200);
    assert_eq!(get_nth_interval_seconds(0, 1, 5), 5);
    let e = create_scheduled_event("x", 60, 125);
    assert_eq!((e.interval, e.next_run), (60, 180));
}

#[test]
fn test_scheduler_fires_due_events_in_order() {
    let events = vec![
        SchedulerQueueEvent { event: "hourly", interval: 3600 },
        SchedulerQueueEvent { event: "minutely", interval: 60 },
    ];
    let mut stream = SchedulerEventStream::new(events, 1000);
    // Nothing is due before the first minute boundary.
    match stream.poll_next(1000) {
        SchedulerStep::SleepUntil(t) => assert_eq!(t, 1020),
        _ => panic!("expected a sleep"),
    }
    // Once past it, the minutely event fires and is rescheduled.
    match stream.poll_next(1021) {
        SchedulerStep::Fire(e) => assert_eq!(e, "minutely"),
        _ => panic!("expected the minutely event"),
    }
    match stream.poll_next(1021) {
        SchedulerStep::SleepUntil(t) => assert_eq!(t, 1080),
        _ => panic!("expected a sleep"),
    }
    // Far in the future both are due: the earliest first.
    match stream.poll_next(4000) {
        SchedulerStep::Fire(e) => assert_eq!(e, "minutely"),
        _ => panic!("expected the minutely event"),
    }
    match stream.poll_next(4000) {
        SchedulerStep::Fire(e) => assert_eq!(e, "hourly"),
        _ => panic!("expected the hourly event"),
    }
    assert_eq!(stream.reschedule_current_event(4000), Some("minutely"));
    let mut empty: SchedulerEventStream<&str> = SchedulerEventStream::new(vec![], 0);
    assert!(matches!(empty.poll_next(5), SchedulerStep::Idle));
    assert_eq!(empty.reschedule_current_event(5), None);
}

#[test]
fn test_background_events() {
    let events = background_events();
    assert_eq!(events.len(), 2);
    assert_eq!(events[0].event, BackgroundEvent::PurgeDeletedSecrets);
    assert_eq!(events[1].interval, 3600);
    let now = Timestamp { seconds: 99, millis: 1 };
    assert_eq!(
        background_task(BackgroundEvent::PurgeDeletedSecrets, now),
        BackgroundTask::DeleteScheduledSecrets { now }
    );
    assert_eq!(
        background_task(BackgroundEvent::PurgeExcessSecrets, now),
        BackgroundTask::DeleteExcessSecretVersions
    );
}

#[test]
fn test_polled_stream_fires_once_per_boundary() {
    let created = 1_000u64;
    let mut stream = SchedulerEventStream::new(vec![SchedulerQueueEvent { event: 7u8, interval: 60 }], created);
    let mut fired = 0;
    let mut now = created;
    while now < created + 600 {
        now += 37;
        if let SchedulerStep::Fire(e) = stream.poll_next(now) {
            assert_eq!(e, 7);
            fired += 1;
        }
    }
    // Boundaries 1020, 1080, ..., 1620 lie before the last poll at 1629
    assert_eq!(now, 1629);
    assert_eq!(fired, 11);
}
