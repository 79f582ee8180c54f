use appkit::postkit::cli::{
    build_providers as cli_build_providers, daemon_api_key, daemon_url, expand_tilde, resolve_targets,
    schedule_time, schedule_time_from, schedule_url, unknown_account_message, AccountConfig as CliAccount, CliProvider, Config,
};
use appkit::postkit::daemon::{
    accounts_changed, authorize, cancel_outcome, get_outcome, provider_label, retry_outcome,
    schedule_request, update_outcome, update_request, worker_sleep_secs, ScheduleAction,
};
use appkit::postkit::model::ProviderKind;
use appkit::postkit::queue::{parse_member_ids, MemoryQueue};
use appkit::postkit::setup::{
    build_providers, config_candidates, default_max_attempts, default_poll, default_retry_delay,
    make_accounts_repo, make_apps_repo, stored_token, stored_token_now, AccountConfig, AccountPlan, AppConfig,
    BuildError, FileAccountsRepository, FileAppsRepository, SourceConfig,
};
use appkit::postkit::store::{
    attempt_or_fail, attempt_or_fail_now, list_query, next_status, sqlite_url, AttemptOutcome, Bind, Change, ListFilters, PostStatus,
};

const NOW: i64 = 1_700_000_000;

fn past() -> i64 {
    NOW - 60
}

fn future() -> i64 {
    NOW + 3600
}

// ── queue ───────────────────────────────────────────────────────────────────

#[test]
fn push_and_pop_due_past() {
    let mut q = MemoryQueue::new();
    q.push(1, past());
    assert_eq!(q.pop_due_at(NOW, 10), vec![1]);
}

#[test]
fn pop_due_skips_future() {
    let mut q = MemoryQueue::new();
    q.push(1, future());
    assert!(q.pop_due_at(NOW, 10).is_empty());
}

#[test]
fn pop_due_removes_from_queue() {
    let mut q = MemoryQueue::new();
    q.push(1, past());
    q.pop_due_at(NOW, 10);
    assert!(q.pop_due_at(NOW, 10).is_empty());
}

#[test]
fn remove_prevents_pop() {
    let mut q = MemoryQueue::new();
    q.push(1, past());
    q.remove(1);
    assert!(q.pop_due_at(NOW, 10).is_empty());
}

#[test]
fn push_deduplicates_same_id() {
    let mut q = MemoryQueue::new();
    q.push(1, future());
    q.push(1, past());
    assert_eq!(q.pop_due_at(NOW, 10), vec![1]);
    assert_eq!(q.len(), 0);
}

#[test]
fn pop_due_respects_limit() {
    let mut q = MemoryQueue::new();
    for id in 1i64..=5 {
        q.push(id, past() - id);
    }
    let ids = q.pop_due_at(NOW, 3);
    assert_eq!(ids.len(), 3);
    assert_eq!(ids, vec![5, 4, 3]);
    assert_eq!(q.pop_due_at(NOW, 10).len(), 2);
}

#[test]
fn pop_due_orders_same_time_by_id() {
    let mut q = MemoryQueue::new();
    q.push(9, past());
    q.push(2, past());
    q.push(5, past() - 1);
    assert_eq!(q.pop_due_at(NOW, 10), vec![5, 2, 9]);
}

#[test]
fn pop_due_with_clock() {
    let mut q = MemoryQueue::new();
    q.push(1, 0);
    assert_eq!(q.pop_due(10), vec![1]);
}

#[test]
fn next_due_in_secs_empty_queue() {
    assert!(MemoryQueue::new().next_due_in_secs_at(NOW).is_none());
}

#[test]
fn next_due_in_secs_future_item() {
    let mut q = MemoryQueue::new();
    q.push(1, NOW + 100);
    assert_eq!(q.next_due_in_secs_at(NOW), Some(100));
}

#[test]
fn next_due_in_secs_past_item_returns_zero() {
    let mut q = MemoryQueue::new();
    q.push(1, past());
    assert_eq!(q.next_due_in_secs_at(NOW), Some(0));
}

#[test]
fn next_due_in_secs_with_clock() {
    let mut q = MemoryQueue::new();
    assert!(q.next_due_in_secs().is_none());
    q.push(1, chrono::Utc::now().timestamp() + 100);
    let secs = q.next_due_in_secs().unwrap();
    assert!(secs <= 100 && secs >= 95);
    q.push(2, 0);
    assert_eq!(q.next_due_in_secs(), Some(0));
}

// ── store ───────────────────────────────────────────────────────────────────

#[test]
fn attempt_or_fail_reschedules_when_under_max() {
    assert_eq!(attempt_or_fail(0, 3, 60, NOW), AttemptOutcome::Retry { attempts: 1, retry_at: NOW + 60 });
    assert_eq!(attempt_or_fail(1, 3, 60, NOW), AttemptOutcome::Retry { attempts: 2, retry_at: NOW + 120 });
}

#[test]
fn attempt_or_fail_marks_failed_after_max_attempts() {
    assert_eq!(attempt_or_fail(2, 3, 60, NOW), AttemptOutcome::Failed { attempts: 3 });
    assert_eq!(attempt_or_fail(0, 1, 60, NOW), AttemptOutcome::Failed { attempts: 1 });
}

#[test]
fn backoff_saturates() {
    assert_eq!(
        attempt_or_fail(62, 100, u64::MAX / 2, -1),
        AttemptOutcome::Retry { attempts: 63, retry_at: -2 }
    );
}

#[test]
fn list_query_without_filters() {
    let (sql, binds) = list_query(&ListFilters::default());
    assert_eq!(
        sql,
        "SELECT id, account_id, provider, source_post, scheduled_at, status, attempts, published_at, post_url, error, created_at FROM scheduled_posts WHERE 1=1 ORDER BY scheduled_at ASC"
    );
    assert!(binds.is_empty());
}

#[test]
fn list_query_with_filters() {
    let f = ListFilters {
        account_id: Some("a".into()),
        provider: None,
        status: Some("pending".into()),
        from: Some(10),
        to: None,
        limit: Some(5),
        offset: Some(2),
    };
    let (sql, binds) = list_query(&f);
    assert!(sql.ends_with(
        "WHERE 1=1 AND account_id = ? AND status = ? AND scheduled_at >= ? ORDER BY scheduled_at ASC LIMIT ? OFFSET ?"
    ));
    assert_eq!(
        binds,
        vec![Bind::Text("a".into()), Bind::Text("pending".into()), Bind::Int(10), Bind::Int(5), Bind::Int(2)]
    );
}

#[test]
fn sqlite_urls() {
    assert_eq!(sqlite_url(":memory:"), "sqlite::memory:");
    assert_eq!(sqlite_url("/var/lib/postkit.db"), "sqlite:/var/lib/postkit.db?mode=rwc");
}

// ── daemon settings and accounts ────────────────────────────────────────────

#[test]
fn setting_defaults() {
    assert_eq!(default_poll(), 30);
    assert_eq!(default_max_attempts(), 3);
    assert_eq!(default_retry_delay(), 60);
}

#[test]
fn stored_tokens_by_expiry() {
    assert_eq!(stored_token("t".into(), Some(NOW), NOW), None);
    assert_eq!(stored_token("t".into(), Some(NOW + 10), NOW), Some(("t".into(), false)));
    assert_eq!(stored_token("t".into(), Some(NOW + 604_801), NOW), Some(("t".into(), true)));
    assert_eq!(stored_token("t".into(), None, NOW), Some(("t".into(), false)));
}

fn apps() -> Vec<(String, AppConfig)> {
    vec![
        ("xapp".into(), AppConfig::X { api_key: "k".into(), api_secret: "s".into() }),
        ("meta".into(), AppConfig::Meta { app_id: Some("id".into()), app_secret: Some("sec".into()) }),
        ("meta2".into(), AppConfig::Meta { app_id: Some("id".into()), app_secret: None }),
    ]
}

#[test]
fn providers_built_for_every_account() {
    let accounts = vec![
        ("b".into(), AccountConfig::Bluesky { handle: "h".into(), app_password: "p".into() }),
        ("x".into(), AccountConfig::X { app: "xapp".into(), access_token: "t".into(), access_token_secret: "ts".into() }),
        ("fb".into(), AccountConfig::FacebookPage { app: "meta".into(), page_id: "1".into(), page_access_token: "cfg".into() }),
        ("ig".into(), AccountConfig::Instagram { app: "meta2".into(), ig_user_id: "2".into(), access_token: "cfg".into() }),
    ];
    let stored = vec![None, None, Some(("stored".into(), true)), None];
    let plans = build_providers(&apps(), accounts, &stored).unwrap();
    assert_eq!(plans.len(), 4);
    match &plans[1].1 {
        AccountPlan::X(x) => {
            assert_eq!(x.api_key, "k");
            assert_eq!(x.access_token, "t");
        }
        _ => panic!(),
    }
    match &plans[2].1 {
        AccountPlan::Facebook { page, app_credentials, refresh } => {
            assert_eq!(page.page_access_token, "stored");
            assert_eq!(app_credentials.as_ref().unwrap().0, "id");
            assert!(!refresh);
        }
        _ => panic!(),
    }
    match &plans[3].1 {
        AccountPlan::Instagram { account, app_credentials, refresh } => {
            assert_eq!(account.access_token, "cfg");
            assert!(app_credentials.is_none());
            assert!(!refresh);
        }
        _ => panic!(),
    }
}

#[test]
fn stale_meta_token_is_refreshed() {
    let accounts = vec![(
        "fb".into(),
        AccountConfig::FacebookPage { app: "meta".into(), page_id: "1".into(), page_access_token: "cfg".into() },
    )];
    let plans = build_providers(&apps(), accounts, &vec![None]).unwrap();
    assert!(matches!(plans[0].1, AccountPlan::Facebook { refresh: true, .. }));
}

#[test]
fn x_account_needs_an_x_app() {
    let missing = vec![("x".into(), AccountConfig::X { app: "nope".into(), access_token: "t".into(), access_token_secret: "s".into() })];
    let err = build_providers(&apps(), missing, &vec![None]).unwrap_err();
    assert_eq!(err, BuildError::AppNotFound { app: "nope".into() });
    assert_eq!(err.message(), "app 'nope' not found");
    let wrong = vec![("x".into(), AccountConfig::X { app: "meta".into(), access_token: "t".into(), access_token_secret: "s".into() })];
    let err = build_providers(&apps(), wrong, &vec![None]).unwrap_err();
    assert_eq!(err.message(), "app 'meta' is not of type x");
}

#[test]
fn repositories_notice_changes() {
    let mut r = FileAppsRepository::new("/etc/accounts.toml".into());
    assert_eq!(r.file(), "/etc/accounts.toml");
    assert!(!r.has_changed(None));
    assert!(r.has_changed(Some((5, 0))));
    assert!(!r.has_changed(Some((5, 0))));
    let src = SourceConfig::File { path: "a.toml".into() };
    assert_eq!(make_apps_repo(&src).file(), "a.toml");
    assert_eq!(make_accounts_repo(&src).file(), "a.toml");
    let _ = FileAccountsRepository::new("b".into());
}

#[test]
fn watcher_checks_accounts_only_when_apps_unchanged() {
    let mut apps = FileAppsRepository::new("a".into());
    let mut accounts = FileAccountsRepository::new("b".into());
    assert!(accounts_changed(&mut apps, &mut accounts, Some((1, 0)), Some((2, 0))));
    assert!(accounts.has_changed(Some((2, 0))));
    assert!(!accounts_changed(&mut apps, &mut accounts, Some((1, 0)), Some((2, 0))));
}

#[test]
fn config_file_candidates() {
    assert_eq!(
        config_candidates(Some("/xdg".into()), Some("/home/u".into()), None),
        vec!["/xdg/postkit/daemon.toml".to_string(), "/etc/xdg/postkit/daemon.toml".to_string()]
    );
    assert_eq!(
        config_candidates(None, Some("/home/u".into()), Some("/a:/b/".into())),
        vec![
            "/home/u/.config/postkit/daemon.toml".to_string(),
            "/a/postkit/daemon.toml".to_string(),
            "/b/postkit/daemon.toml".to_string()
        ]
    );
    assert_eq!(config_candidates(None, None, Some(String::new())), vec!["postkit/daemon.toml".to_string()]);
}

// ── API ─────────────────────────────────────────────────────────────────────

#[test]
fn auth_rejects_missing_key() {
    let err = authorize(&Some("secret".into()), None).unwrap_err();
    assert_eq!(err.status, 401);
    assert_eq!(err.message, "invalid or missing API key");
}

#[test]
fn auth_rejects_wrong_key() {
    assert!(authorize(&Some("secret".into()), Some("nope")).is_err());
}

#[test]
fn auth_accepts_correct_key() {
    assert!(authorize(&Some("secret".into()), Some("secret")).is_ok());
    assert!(authorize(&None, None).is_ok());
}

#[test]
fn schedule_unknown_account_returns_bad_request() {
    let err = schedule_request(&vec![], "ghost", Some(NOW)).unwrap_err();
    assert_eq!(err.status, 400);
    assert_eq!(err.message, "unknown account: ghost");
}

#[test]
fn schedule_creates_post_returns_id() {
    let providers = vec![("test".to_string(), ProviderKind::Bluesky)];
    assert_eq!(
        schedule_request(&providers, "test", Some(NOW)).unwrap(),
        ScheduleAction::Schedule { provider: "bluesky".into(), at: NOW }
    );
}

#[test]
fn schedule_without_date_creates_draft() {
    let providers = vec![("test".to_string(), ProviderKind::MetaPage)];
    assert_eq!(
        schedule_request(&providers, "test", None).unwrap(),
        ScheduleAction::Draft { provider: "metapage".into() }
    );
    assert_eq!(provider_label(ProviderKind::MetaInstagram), "metainstagram");
}

#[test]
fn get_scheduled_not_found() {
    let err = get_outcome(999, false).unwrap_err();
    assert_eq!((err.status, err.message.as_str()), (404, "post 999 not found"));
}

#[test]
fn cancel_not_found() {
    let err = cancel_outcome(999, false).unwrap_err();
    assert_eq!(err.status, 404);
    assert_eq!(err.message, "post 999 not found or not in pending state");
    assert_eq!(cancel_outcome(1, true), Ok(204));
}

#[test]
fn retry_not_found() {
    let err = retry_outcome(-3, false).unwrap_err();
    assert_eq!(err.message, "post -3 not found or not in failed state");
    assert_eq!(retry_outcome(1, true), Ok(204));
}

#[test]
fn update_not_found() {
    assert_eq!(update_outcome(999, false).unwrap_err().status, 404);
    assert_eq!(update_outcome(1, true), Ok(204));
}

#[test]
fn update_empty_body_returns_unprocessable() {
    let err = update_request(false, false).unwrap_err();
    assert_eq!((err.status, err.message.as_str()), (422, "nothing to update"));
    assert!(update_request(true, false).is_ok());
    assert!(update_request(false, true).is_ok());
}

#[test]
fn worker_sleeps_until_next_post_or_poll() {
    assert_eq!(worker_sleep_secs(Some(5), 30), 5);
    assert_eq!(worker_sleep_secs(Some(50), 30), 30);
    assert_eq!(worker_sleep_secs(None, 30), 30);
}

// ── command line ────────────────────────────────────────────────────────────

#[test]
fn tilde_expansion() {
    assert_eq!(expand_tilde("~/.config/postkit/config.toml", Some("/home/u".into())), "/home/u/.config/postkit/config.toml");
    assert_eq!(expand_tilde("~/x", None), "~/x");
    assert_eq!(expand_tilde("/etc/x", Some("/home/u".into())), "/etc/x");
}

#[test]
fn cli_providers_and_targets() {
    let cfg = Config {
        accounts: vec![
            ("b".into(), CliAccount::Bluesky { handle: "h".into(), app_password: "p".into() }),
            ("fb".into(), CliAccount::FacebookPage { page_id: "1".into(), page_access_token: "t".into() }),
            ("x".into(), CliAccount::X { api_key: "k".into(), api_secret: "s".into(), access_token: "t".into(), access_token_secret: "ts".into() }),
        ],
        daemon_url: None,
        daemon_api_key: Some("key".into()),
    };
    let providers = cli_build_providers(&cfg);
    let ids: Vec<String> = providers.iter().map(|p| p.0.clone()).collect();
    assert_eq!(ids, vec!["b".to_string(), "x".to_string()]);
    assert!(matches!(providers[1].1, CliProvider::X(_)));
    assert_eq!(resolve_targets(&ids, &vec![]).unwrap(), ids);
    assert_eq!(resolve_targets(&ids, &vec!["x".into()]).unwrap(), vec!["x".to_string()]);
    assert_eq!(resolve_targets(&ids, &vec!["x".into(), "zz".into(), "yy".into()]).unwrap_err(), "zz");
    assert_eq!(unknown_account_message("zz"), "unknown account: zz");
    assert_eq!(daemon_url(None, &cfg.daemon_url), "http://localhost:8080");
    assert_eq!(daemon_url(Some("http://h:1".into()), &cfg.daemon_url), "http://h:1");
    assert_eq!(daemon_api_key(None, &cfg.daemon_api_key).as_deref(), Some("key"));
    assert_eq!(schedule_url("http://h:1"), "http://h:1/schedule");
}

#[test]
fn shared_queue_members_parse_as_ids() {
    let members: Vec<String> = ["12", "-3", "x", "+4", "-+1", "9223372036854775808", "-9223372036854775808", ""]
        .iter()
        .map(|s| s.to_string())
        .collect();
    assert_eq!(parse_member_ids(&members), vec![12, -3, 4, i64::MIN]);
}

#[test]
fn post_status_names_round_trip() {
    let all = [
        PostStatus::Draft,
        PostStatus::Pending,
        PostStatus::Running,
        PostStatus::Published,
        PostStatus::Failed,
        PostStatus::Cancelled,
    ];
    let names: Vec<&str> = all.iter().map(|s| s.as_str()).collect();
    assert_eq!(names, vec!["draft", "pending", "running", "published", "failed", "cancelled"]);
    for s in all {
        assert_eq!(PostStatus::parse(s.as_str()), Some(s));
    }
    assert_eq!(PostStatus::parse("Pending"), None);
    assert_eq!(PostStatus::parse(""), None);
}

#[test]
fn lifecycle_follows_the_documented_arrows() {
    assert_eq!(next_status(Change::Claim, PostStatus::Pending), Some(PostStatus::Running));
    assert_eq!(next_status(Change::Claim, PostStatus::Draft), None);
    assert_eq!(next_status(Change::Publish, PostStatus::Running), Some(PostStatus::Published));
    assert_eq!(next_status(Change::Publish, PostStatus::Pending), Some(PostStatus::Published));
    assert_eq!(next_status(Change::AttemptFailed { retry: false }, PostStatus::Pending), Some(PostStatus::Failed));
    assert_eq!(next_status(Change::AttemptFailed { retry: true }, PostStatus::Running), Some(PostStatus::Pending));
    assert_eq!(next_status(Change::AttemptFailed { retry: false }, PostStatus::Running), Some(PostStatus::Failed));
    assert_eq!(next_status(Change::Retry, PostStatus::Failed), Some(PostStatus::Pending));
    assert_eq!(next_status(Change::Retry, PostStatus::Pending), None);
    assert_eq!(next_status(Change::Cancel, PostStatus::Pending), Some(PostStatus::Cancelled));
    assert_eq!(next_status(Change::Cancel, PostStatus::Published), None);
    assert_eq!(next_status(Change::Update { rescheduled: true }, PostStatus::Draft), Some(PostStatus::Pending));
    assert_eq!(next_status(Change::Update { rescheduled: false }, PostStatus::Draft), Some(PostStatus::Draft));
    assert_eq!(next_status(Change::Update { rescheduled: false }, PostStatus::Pending), Some(PostStatus::Pending));
    assert_eq!(next_status(Change::Update { rescheduled: true }, PostStatus::Failed), None);
    let changes = [
        Change::Claim,
        Change::Retry,
        Change::Cancel,
        Change::Update { rescheduled: true },
        Change::Update { rescheduled: false },
    ];
    for c in changes {
        assert_eq!(next_status(c, PostStatus::Published), None);
        assert_eq!(next_status(c, PostStatus::Cancelled), None);
    }
}

#[test]
fn schedule_time_reads_rfc3339() {
    assert_eq!(schedule_time("2026-04-21T10:00:00Z"), Ok((1_776_765_600, 0)));
    assert_eq!(schedule_time("2026-04-21T12:00:00+02:00"), Ok((1_776_765_600, 0)));
    assert_eq!(schedule_time("2026-04-21T10:00:00.5Z"), Ok((1_776_765_600, 500_000_000)));
    assert_eq!(schedule_time("tomorrow"), Err("invalid date: tomorrow".to_string()));
    assert_eq!(schedule_time_from("x", Some((5, 1))), Ok((5, 1)));
    assert_eq!(schedule_time_from("x", None), Err("invalid date: x".to_string()));
}

#[test]
fn attempt_or_fail_now_uses_the_clock() {
    assert_eq!(attempt_or_fail_now(0, 1, 60), AttemptOutcome::Failed { attempts: 1 });
    let before = chrono::Utc::now().timestamp();
    match attempt_or_fail_now(1, 3, 60) {
        AttemptOutcome::Retry { attempts, retry_at } => {
            assert_eq!(attempts, 2);
            let after = chrono::Utc::now().timestamp();
            assert!(retry_at >= before + 120 && retry_at <= after + 120);
        }
        other => panic!("expected a retry, got {other:?}"),
    }
}

#[test]
fn stored_token_now_uses_the_clock() {
    let now = chrono::Utc::now().timestamp();
    assert_eq!(stored_token_now("t".into(), Some(now - 10)), None);
    assert_eq!(stored_token_now("t".into(), Some(now + 30 * 24 * 3600)), Some(("t".to_string(), true)));
    assert_eq!(stored_token_now("t".into(), Some(now + 3600)), Some(("t".to_string(), false)));
    assert_eq!(stored_token_now("t".into(), None), Some(("t".to_string(), false)));
    assert_eq!(stored_token_now("t".into(), Some(i64::MAX)), Some(("t".to_string(), true)));
}
