use order_ledger::auth::UserInfo;
use order_ledger::auth::login_result;

#[test]
fn matched_user_logs_in() {
    let user = UserInfo {
        id: "u1".to_string(),
        name: "Amy".to_string(),
        role: "cashier".to_string(),
    };
    let r = login_result(Some(user));
    assert!(r.success);
    assert_eq!(r.user.as_ref().map(|u| u.id.as_str()), Some("u1"));
    assert_eq!(r.user.as_ref().map(|u| u.name.as_str()), Some("Amy"));
    assert_eq!(r.error, None);
}

#[test]
fn unmatched_credentials_fail_with_a_message() {
    let r = login_result(None);
    assert!(!r.success);
    assert!(r.user.is_none());
    assert_eq!(r.error.as_deref(), Some("invalid employee id or password"));
}
