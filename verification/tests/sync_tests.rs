use tapi::database::{DatabaseManager, Timestamp};
use tapi::sync::{
    check_remote, check_remote_url, connection_report, refusal_message, store_enabled,
    sync_result, timeout_message, Credentials, StoreRefusal, SyncOperation, SyncOutcome,
    SyncSession, Transport, REMOTE_TIMEOUT_SECS,
};

#[test]
fn the_scheme_selects_the_transport() {
    let s = SyncSession::new("ws://db.example:8000", "", "", "");
    assert_eq!(s.transport, Transport::Socket);
    assert_eq!(s.endpoint, "db.example:8000");
    let s = SyncSession::new("wss://db.example", "", "", "");
    assert_eq!(s.transport, Transport::Socket);
    assert_eq!(s.endpoint, "db.example");
    let s = SyncSession::new("https://db.example/rpc", "", "", "");
    assert_eq!(s.transport, Transport::Request);
    assert_eq!(s.endpoint, "db.example/rpc");
    let s = SyncSession::new("http://http://db", "", "", "");
    assert_eq!(s.endpoint, "db");
    let s = SyncSession::new("db.example:8000", "", "", "");
    assert_eq!(s.transport, Transport::Request);
    assert_eq!(s.endpoint, "db.example:8000");
    let s = SyncSession::new("wsx", "", "", "");
    assert_eq!(s.transport, Transport::Socket);
    assert_eq!(s.endpoint, "wsx");
    assert_eq!(s.timeout_secs, 15);
    for url in ["ws://a", "wss://b", "ws://wss://c", "http://d", "https://e", "http://https://f"] {
        let want = if url.starts_with("ws") {
            url.trim_start_matches("ws://").trim_start_matches("wss://")
        } else {
            url.trim_start_matches("http://").trim_start_matches("https://")
        };
        assert_eq!(SyncSession::new(url, "", "", "").endpoint, want);
    }
}

#[test]
fn the_token_comes_before_user_and_password() {
    match SyncSession::new("ws://h", "tok", "root", "pw").credentials {
        Credentials::Token { token } => assert_eq!(token, "tok"),
        other => panic!("{other:?}"),
    }
    match SyncSession::new("ws://h", "", "root", "pw").credentials {
        Credentials::Password { user, pass } => assert_eq!((user.as_str(), pass.as_str()), ("root", "pw")),
        other => panic!("{other:?}"),
    }
    assert!(matches!(SyncSession::new("ws://h", "", "root", "").credentials, Credentials::Anonymous));
    assert!(matches!(SyncSession::new("ws://h", "", "", "pw").credentials, Credentials::Anonymous));
    assert!(matches!(
        DatabaseManager::test_remote_connection("http://h", "", "", "").credentials,
        Credentials::Anonymous
    ));
}

#[test]
fn a_timeout_has_its_own_message() {
    assert_eq!(REMOTE_TIMEOUT_SECS, 15);
    assert_eq!(timeout_message(SyncOperation::Push), "Push timeout (15s)");
    assert_eq!(timeout_message(SyncOperation::Pull), "Pull timeout (15s)");
    assert_eq!(timeout_message(SyncOperation::TestConnection), "Connection timeout (15s)");
    assert_eq!(sync_result(SyncOperation::Push, SyncOutcome::Completed), Ok(()));
    assert_eq!(
        sync_result(SyncOperation::Pull, SyncOutcome::TimedOut),
        Err("Pull timeout (15s)".to_string())
    );
    assert_eq!(
        sync_result(SyncOperation::Pull, SyncOutcome::Failed { message: "auth rejected".into() }),
        Err("auth rejected".to_string())
    );
}

#[test]
fn an_empty_store_pushes_nothing() {
    let mut db = DatabaseManager::new();
    assert!(db.entries_to_push().is_none());
    db.save_hash("h".into(), "n".into(), "f".into(), Timestamp { secs: 1, nanos: 0 });
    assert_eq!(db.entries_to_push().unwrap().len(), 1);
}

#[test]
fn remote_operations_need_the_mode_and_a_url() {
    assert_eq!(check_remote("local", "ws://h"), Err(StoreRefusal::NotRemote));
    assert_eq!(check_remote("local", ""), Err(StoreRefusal::NotRemote));
    assert_eq!(check_remote("remote", ""), Err(StoreRefusal::NoUrl));
    assert_eq!(check_remote("remote", "ws://h"), Ok(()));
    assert_eq!(check_remote_url(""), Err(StoreRefusal::NoUrl));
    assert_eq!(check_remote_url("x"), Ok(()));
    assert_eq!(refusal_message(StoreRefusal::NotRemote), "Not in remote mode");
    assert_eq!(refusal_message(StoreRefusal::NoUrl), "Remote URL not set");
    assert!(store_enabled("local") && store_enabled("") && !store_enabled("off"));
}

#[test]
fn connection_reports() {
    assert_eq!(connection_report(Ok(())), Ok("Connection successful!".to_string()));
    assert_eq!(
        connection_report(Err("Pull timeout (15s)".to_string())),
        Err("Connection failed: Pull timeout (15s)".to_string())
    );
}
