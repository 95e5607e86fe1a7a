use lantern::api::{
    bearer_token, check_ntfy_alert_request, copy_task, group_tasks_by_account,
    invite_creation_error, logs_page, map_database_insert_error, normalize_account_payload,
    require_owner, require_row_affected, tasks_for_account, ApiError, InviteRow, NtfyAlertRow,
    Registration, RegistrationAction, RegistrationEvent, RegistrationStage, TaskLogRow, TaskRow,
};
use lantern::auth::verify_password;
use lantern::models::{
    AccountConfig, HoyoverseConfig, RegisterRequest, Service, TaskResponse, UpsertAccountRequest,
};

fn task(id: i64, account_id: i64) -> TaskResponse {
    TaskResponse {
        id,
        account_id,
        account_name: format!("acc{}", account_id),
        task_type: "hoyoverse_daily_checkin".to_string(),
        enabled: true,
        next_run_at: "2024-01-01T00:00:00Z".to_string(),
        last_run_at: None,
    }
}

#[test]
fn error_status_codes_and_messages() {
    let cases = [
        (ApiError::BadRequest("bad".to_string()), 400, "bad"),
        (ApiError::Conflict("clash".to_string()), 409, "clash"),
        (ApiError::NotFound, 404, "not found"),
        (ApiError::Unauthorized, 401, "unauthorized"),
        (ApiError::Internal("db down".to_string()), 500, "internal server error"),
    ];
    for (err, code, msg) in cases {
        assert_eq!(err.status_code(), code);
        assert_eq!(err.message(), msg);
    }
}

#[test]
fn bearer_tokens() {
    assert_eq!(bearer_token(Some("Bearer abc")), Some("abc".to_string()));
    assert_eq!(bearer_token(Some("Bearer ")), Some("".to_string()));
    assert_eq!(bearer_token(Some("bearer abc")), None);
    assert_eq!(bearer_token(Some("Basic abc")), None);
    assert_eq!(bearer_token(None), None);
}

#[test]
fn insert_errors() {
    match map_database_insert_error(
        Some("UNIQUE constraint failed: users.username"),
        "x".to_string(),
    ) {
        ApiError::Conflict(m) => assert_eq!(m, "username is already registered"),
        other => panic!("unexpected {:?}", other),
    }
    assert!(matches!(
        map_database_insert_error(Some("disk I/O error"), "x".to_string()),
        ApiError::Internal(t) if t == "x"
    ));
    assert!(matches!(map_database_insert_error(None, "y".to_string()), ApiError::Internal(_)));
    assert!(matches!(
        invite_creation_error("a user can have at most 5 unredeemed invite codes".to_string()),
        ApiError::Conflict(_)
    ));
    assert!(matches!(invite_creation_error("boom".to_string()), ApiError::Internal(_)));
}

#[test]
fn rows_and_owners() {
    assert!(matches!(require_row_affected(0), Err(ApiError::NotFound)));
    assert!(require_row_affected(2).is_ok());
    assert!(require_owner(Some(7), 7).is_ok());
    assert!(matches!(require_owner(Some(8), 7), Err(ApiError::NotFound)));
    assert!(matches!(require_owner(None, 7), Err(ApiError::NotFound)));
}

#[test]
fn log_paging() {
    let p = logs_page(None, None);
    assert_eq!((p.page, p.page_size, p.offset, p.limit), (1, 20, 0, 20));
    let p = logs_page(Some(0), Some(0));
    assert_eq!((p.page, p.page_size, p.offset, p.limit), (1, 1, 0, 1));
    let p = logs_page(Some(3), Some(500));
    assert_eq!((p.page, p.page_size, p.offset, p.limit), (3, 100, 200, 100));
    let p = logs_page(Some(u32::MAX), Some(100));
    assert_eq!(p.offset, (u32::MAX as i64 - 1) * 100);
}

#[test]
fn account_payloads() {
    let req = |name: &str, token: &str| UpsertAccountRequest {
        name: name.to_string(),
        service: Service::Hoyoverse,
        enabled: false,
        config: AccountConfig::Hoyoverse(HoyoverseConfig {
            ltoken_v2: token.to_string(),
            ltuid_v2: "1".to_string(),
            ltmid_v2: "2".to_string(),
        }),
    };
    let ok = normalize_account_payload(req("  Main ", "t")).unwrap();
    assert_eq!(ok.name, "Main");
    assert_eq!(ok.service, Service::Hoyoverse);
    assert!(!ok.enabled);
    match normalize_account_payload(req("   ", "t")) {
        Err(ApiError::BadRequest(m)) => assert_eq!(m, "account name is required"),
        other => panic!("unexpected {:?}", other),
    }
    match normalize_account_payload(req("Main", " ")) {
        Err(ApiError::BadRequest(m)) => assert_eq!(m, "ltoken_v2 is required"),
        other => panic!("unexpected {:?}", other),
    }
}

#[test]
fn ntfy_alert_requests() {
    let f = check_ntfy_alert_request(" phone ", " alerts ").unwrap();
    assert_eq!((f.name.as_str(), f.topic.as_str()), ("phone", "alerts"));
    assert!(matches!(check_ntfy_alert_request(" ", "t"), Err(ApiError::BadRequest(m)) if m == "alert name is required"));
    assert!(matches!(check_ntfy_alert_request("n", ""), Err(ApiError::BadRequest(m)) if m == "topic is required"));
}

#[test]
fn rows_become_responses() {
    let t = TaskRow {
        id: 1,
        account_id: 2,
        account_name: "a".to_string(),
        task_type: "t".to_string(),
        enabled: 0,
        next_run_at: "n".to_string(),
        last_run_at: Some("l".to_string()),
    }
    .into_response();
    assert!(!t.enabled);
    assert_eq!(t.last_run_at.as_deref(), Some("l"));
    let i = InviteRow {
        id: 3,
        code: "LAN-x".to_string(),
        created_at: "c".to_string(),
        redeemed_at: None,
        redeemed_by_username: None,
    }
    .into_response();
    assert_eq!(i.code, "LAN-x");
    let l = TaskLogRow {
        id: 4,
        account_id: Some(2),
        account_name: None,
        task_type: "t".to_string(),
        status: "failed".to_string(),
        started_at: "s".to_string(),
        finished_at: "f".to_string(),
        duration_ms: 12,
        message: "m".to_string(),
    }
    .into_response();
    assert_eq!((l.duration_ms, l.status.as_str()), (12, "failed"));
    let n = NtfyAlertRow { id: 5, name: "n".to_string(), topic: "t".to_string(), created_at: "c".to_string() }
        .into_response();
    assert_eq!(n.topic, "t");
}

#[test]
fn tasks_go_to_their_accounts() {
    let tasks = vec![task(1, 10), task(2, 20), task(3, 10), task(4, 30)];
    let ids: Vec<i64> = tasks_for_account(&tasks, 10).iter().map(|t| t.id).collect();
    assert_eq!(ids, vec![1, 3]);
    let groups = group_tasks_by_account(&vec![20, 10, 40, 10], &tasks);
    let ids: Vec<Vec<i64>> = groups.iter().map(|g| g.iter().map(|t| t.id).collect()).collect();
    assert_eq!(ids, vec![vec![2], vec![1, 3], vec![], vec![]]);
    assert_eq!(copy_task(&tasks[0]).account_name, "acc10");
}

fn request(username: &str, password: &str, code: &str) -> RegisterRequest {
    RegisterRequest {
        username: username.to_string(),
        password: password.to_string(),
        invite_code: code.to_string(),
    }
}

#[test]
fn registration_succeeds_after_redeeming() {
    let mut reg = Registration::new(request(" erin ", "long-password", " LAN-abc "));
    match reg.step(RegistrationEvent::Begin) {
        RegistrationAction::LookUpInvite { code } => assert_eq!(code, "LAN-abc"),
        other => panic!("unexpected {:?}", other),
    }
    match reg.step(RegistrationEvent::InviteLooked(Some(9))) {
        RegistrationAction::InsertUser { username, password_hash } => {
            assert_eq!(username, "erin");
            assert!(password_hash.starts_with("$argon2"));
            assert_ne!(password_hash, "long-password");
            assert_eq!(verify_password("long-password", &password_hash), Ok(true));
            assert_eq!(verify_password("other-password", &password_hash), Ok(false));
        }
        other => panic!("unexpected {:?}", other),
    }
    assert_eq!(reg.stage(), RegistrationStage::AwaitingUserInsert { invite_id: 9 });
    assert!(matches!(
        reg.step(RegistrationEvent::UserInserted(Ok(42))),
        RegistrationAction::RedeemInvite { invite_id: 9, user_id: 42 }
    ));
    assert!(matches!(
        reg.step(RegistrationEvent::InviteRedeemed(1)),
        RegistrationAction::CommitAndCreateSession { user_id: 42 }
    ));
    match reg.step(RegistrationEvent::SessionCreated("tok".to_string())) {
        RegistrationAction::Succeed(resp) => {
            assert_eq!(resp.token, "tok");
            assert_eq!(resp.user.id, 42);
            assert_eq!(resp.user.username, "erin");
        }
        other => panic!("unexpected {:?}", other),
    }
    assert_eq!(reg.stage(), RegistrationStage::Finished);
}

#[test]
fn registration_refusals() {
    let mut reg = Registration::new(request("x", "long-password", "c"));
    assert!(matches!(reg.step(RegistrationEvent::Begin),
        RegistrationAction::Fail(ApiError::BadRequest(m)) if m == "username must be at least 3 characters long"));
    let mut reg = Registration::new(request("frank", "short", "c"));
    assert!(matches!(reg.step(RegistrationEvent::Begin),
        RegistrationAction::Fail(ApiError::BadRequest(m)) if m == "password must be at least 8 characters long"));
    let mut reg = Registration::new(request("frank", "long-password", "c"));
    reg.step(RegistrationEvent::Begin);
    assert!(matches!(reg.step(RegistrationEvent::InviteLooked(None)),
        RegistrationAction::Fail(ApiError::BadRequest(m)) if m == "invite code is invalid or redeemed"));
    let mut reg = Registration::new(request("frank", "long-password", "c"));
    reg.step(RegistrationEvent::Begin);
    reg.step(RegistrationEvent::InviteLooked(Some(1)));
    assert!(matches!(
        reg.step(RegistrationEvent::UserInserted(Err(ApiError::Conflict("username is already registered".to_string())))),
        RegistrationAction::Fail(ApiError::Conflict(_))
    ));
    let mut reg = Registration::new(request("frank", "long-password", "c"));
    reg.step(RegistrationEvent::Begin);
    reg.step(RegistrationEvent::InviteLooked(Some(1)));
    reg.step(RegistrationEvent::UserInserted(Ok(5)));
    assert!(matches!(reg.step(RegistrationEvent::InviteRedeemed(0)),
        RegistrationAction::Fail(ApiError::Conflict(m)) if m == "invite code was already redeemed"));
    assert_eq!(reg.stage(), RegistrationStage::Finished);
}
