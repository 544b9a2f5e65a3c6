//! Accounts, sessions and device ownership, driven through the public
//! store operations.

use telemetry_store::database::{Database, Error};
use telemetry_store::request::{
    CreateDeviceRequest, FetchDeviceListRequest, FetchDeviceRequest, LoginRequest,
    ModifyDeviceRequest, RegisterRequest, RemoveDeviceRequest,
};
use telemetry_store::token::blake2_str;
use blake2::Digest;

fn register_req(mail: &str, name: &str, pw: &str) -> RegisterRequest {
    RegisterRequest {
        mail: mail.to_string(),
        name: name.to_string(),
        password: blake2_str(pw),
    }
}

fn login_req(mail: &str, pw: &str) -> LoginRequest {
    LoginRequest { mail: mail.to_string(), password: blake2_str(pw) }
}

fn setup_alice(db: &mut Database, now: i64) -> String {
    db.register(register_req("alice@x.com", "alice", "pw1")).unwrap();
    let (token, mail, name) = db.login(login_req("alice@x.com", "pw1"), now).unwrap();
    assert_eq!(mail, "alice@x.com");
    assert_eq!(name, "alice");
    token
}

#[test]
fn register_then_login_roundtrip() {
    let mut db = Database::new();
    let token = setup_alice(&mut db, 0);
    assert!(!token.is_empty());
    assert!(db.check_login(&token, 10));
}

#[test]
fn register_twice_same_mail_is_duplicate_mail() {
    let mut db = Database::new();
    db.register(register_req("a@x.com", "a", "pw")).unwrap();
    // Same mail, different name: still the mail duplicate that is reported.
    let r = db.register(register_req("a@x.com", "someone-else", "pw2"));
    assert_eq!(r, Err(Error::DuplicateMail));
    // Same mail and same name: mail still takes precedence.
    let r = db.register(register_req("a@x.com", "a", "pw"));
    assert_eq!(r, Err(Error::DuplicateMail));
}

#[test]
fn register_duplicate_name_is_refused() {
    let mut db = Database::new();
    db.register(register_req("a@x.com", "a", "pw")).unwrap();
    let r = db.register(register_req("b@x.com", "a", "pw"));
    assert_eq!(r, Err(Error::DuplicateName));
}

#[test]
fn login_unknown_mail_and_wrong_password() {
    let mut db = Database::new();
    db.register(register_req("a@x.com", "a", "pw")).unwrap();
    assert_eq!(db.login(login_req("nobody@x.com", "pw"), 0).unwrap_err(), Error::NoSuchUser);
    assert_eq!(db.login(login_req("a@x.com", "wrong"), 0).unwrap_err(), Error::WrongPassword);
}

#[test]
fn login_token_is_deterministic() {
    let mut db = Database::new();
    db.register(register_req("a@x.com", "a", "pw")).unwrap();
    let (t1, _, _) = db.login(login_req("a@x.com", "pw"), 0).unwrap();
    let (t2, _, _) = db.login(login_req("a@x.com", "pw"), 50).unwrap();
    assert_eq!(t1, t2);
}

#[test]
fn login_token_is_digest_of_mail() {
    let mut db = Database::new();
    db.register(register_req("a@x.com", "a", "pw")).unwrap();
    let (token, _, _) = db.login(login_req("a@x.com", "pw"), 0).unwrap();
    let digest = blake2::Blake2b512::digest("a@x.com".as_bytes());
    let mut expected = String::new();
    for byte in digest.as_slice() {
        expected.push_str(&format!("{:02x}", byte));
    }
    assert_eq!(token, expected);
    assert_ne!(token, "a@x.com");
}

#[test]
fn validate_within_ttl_and_destructive_expiry() {
    let mut db = Database::new();
    let token = setup_alice(&mut db, 0);
    // Strictly while now - issued_at <= 3600 the session is live.
    assert!(db.check_login(&token, 0));
    assert!(db.check_login(&token, 3600));
    // One second past the window the record is evicted and the check fails.
    assert!(!db.check_login(&token, 3601));
    // The record is gone now, so the same check keeps failing...
    assert!(!db.check_login(&token, 3601));
    // ...even at a time that would have been inside the window.
    assert!(!db.check_login(&token, 10));
}

#[test]
fn fresh_login_extends_expiry() {
    let mut db = Database::new();
    let token = setup_alice(&mut db, 0);
    let (t2, _, _) = db.login(login_req("alice@x.com", "pw1"), 3000).unwrap();
    assert_eq!(token, t2);
    // The newer record keeps the session alive past the first one's window.
    assert!(db.check_login(&token, 5000));
}

#[test]
fn logout_removes_all_records_for_token() {
    let mut db = Database::new();
    let token = setup_alice(&mut db, 0);
    db.login(login_req("alice@x.com", "pw1"), 100).unwrap();
    db.logout(&token).unwrap();
    assert!(!db.check_login(&token, 10));
    // Logging out an unknown token is a no-op, not an error.
    db.logout("no-such-token").unwrap();
}

#[test]
fn unknown_token_is_not_live() {
    let mut db = Database::new();
    assert!(!db.check_login("nope", 0));
}

#[test]
fn create_device_requires_session_and_user() {
    let mut db = Database::new();
    let token = setup_alice(&mut db, 0);
    let r = db.create_device(
        CreateDeviceRequest {
            login_token: "bad-token".to_string(),
            mail: "alice@x.com".to_string(),
            id: "dev1".to_string(),
        },
        0,
    );
    assert_eq!(r, Err(Error::SessionExpired));
    let r = db.create_device(
        CreateDeviceRequest {
            login_token: token.clone(),
            mail: "ghost@x.com".to_string(),
            id: "dev1".to_string(),
        },
        0,
    );
    assert_eq!(r, Err(Error::NoSuchUser));
    let r = db.create_device(
        CreateDeviceRequest {
            login_token: token,
            mail: "alice@x.com".to_string(),
            id: "dev1".to_string(),
        },
        0,
    );
    assert_eq!(r, Ok(()));
}

#[test]
fn added_device_is_listed_exactly_once_per_add() {
    let mut db = Database::new();
    let token = setup_alice(&mut db, 0);
    db.create_device(
        CreateDeviceRequest {
            login_token: token.clone(),
            mail: "alice@x.com".to_string(),
            id: "dev1".to_string(),
        },
        0,
    )
    .unwrap();
    let list = db
        .fetch_device_list(
            FetchDeviceListRequest {
                login_token: token.clone(),
                mail: "alice@x.com".to_string(),
            },
            0,
        )
        .unwrap();
    assert_eq!(list.len(), 1);
    assert_eq!(list[0].id, "dev1");
    assert_eq!(list[0].name, "dev1");
    // A second add is an unconditional append: the id is then listed twice.
    db.create_device(
        CreateDeviceRequest {
            login_token: token.clone(),
            mail: "alice@x.com".to_string(),
            id: "dev1".to_string(),
        },
        0,
    )
    .unwrap();
    let list = db
        .fetch_device_list(
            FetchDeviceListRequest { login_token: token, mail: "alice@x.com".to_string() },
            0,
        )
        .unwrap();
    assert_eq!(list.len(), 2);
    assert_eq!(list[0].id, "dev1");
    assert_eq!(list[1].id, "dev1");
}

#[test]
fn shared_device_is_created_once_and_survives_removal() {
    let mut db = Database::new();
    let token_a = setup_alice(&mut db, 0);
    db.register(register_req("bob@x.com", "bob", "pw2")).unwrap();
    let (token_b, _, _) = db.login(login_req("bob@x.com", "pw2"), 0).unwrap();
    db.create_device(
        CreateDeviceRequest {
            login_token: token_a.clone(),
            mail: "alice@x.com".to_string(),
            id: "shared".to_string(),
        },
        0,
    )
    .unwrap();
    db.create_device(
        CreateDeviceRequest {
            login_token: token_b.clone(),
            mail: "bob@x.com".to_string(),
            id: "shared".to_string(),
        },
        0,
    )
    .unwrap();
    // Alice drops the device; Bob still owns it and can fetch it.
    db.remove_device(
        RemoveDeviceRequest {
            login_token: token_a.clone(),
            mail: "alice@x.com".to_string(),
            id: "shared".to_string(),
        },
        0,
    )
    .unwrap();
    let list_a = db
        .fetch_device_list(
            FetchDeviceListRequest { login_token: token_a, mail: "alice@x.com".to_string() },
            0,
        )
        .unwrap();
    assert_eq!(list_a.len(), 0);
    let (id, name, info) = db
        .fetch_device(
            FetchDeviceRequest { login_token: token_b, id: "shared".to_string() },
            0,
        )
        .unwrap();
    assert_eq!(id, "shared");
    assert_eq!(name, "shared");
    assert_eq!(info, "");
}

#[test]
fn remove_unowned_device_fails_and_mutates_nothing() {
    let mut db = Database::new();
    let token = setup_alice(&mut db, 0);
    db.create_device(
        CreateDeviceRequest {
            login_token: token.clone(),
            mail: "alice@x.com".to_string(),
            id: "dev1".to_string(),
        },
        0,
    )
    .unwrap();
    let r = db.remove_device(
        RemoveDeviceRequest {
            login_token: token.clone(),
            mail: "alice@x.com".to_string(),
            id: "not-owned".to_string(),
        },
        0,
    );
    assert_eq!(r, Err(Error::NoSuchOwnedDevice));
    let list = db
        .fetch_device_list(
            FetchDeviceListRequest { login_token: token, mail: "alice@x.com".to_string() },
            0,
        )
        .unwrap();
    assert_eq!(list.len(), 1);
    assert_eq!(list[0].id, "dev1");
}

#[test]
fn remove_device_drops_every_entry_for_the_id() {
    let mut db = Database::new();
    let token = setup_alice(&mut db, 0);
    for _ in 0..2 {
        db.create_device(
            CreateDeviceRequest {
                login_token: token.clone(),
                mail: "alice@x.com".to_string(),
                id: "dev1".to_string(),
            },
            0,
        )
        .unwrap();
    }
    db.remove_device(
        RemoveDeviceRequest {
            login_token: token.clone(),
            mail: "alice@x.com".to_string(),
            id: "dev1".to_string(),
        },
        0,
    )
    .unwrap();
    let list = db
        .fetch_device_list(
            FetchDeviceListRequest { login_token: token, mail: "alice@x.com".to_string() },
            0,
        )
        .unwrap();
    assert_eq!(list.len(), 0);
}

#[test]
fn modify_device_rewrites_name_and_description() {
    let mut db = Database::new();
    let token = setup_alice(&mut db, 0);
    db.create_device(
        CreateDeviceRequest {
            login_token: token.clone(),
            mail: "alice@x.com".to_string(),
            id: "dev1".to_string(),
        },
        0,
    )
    .unwrap();
    db.modify_device(
        ModifyDeviceRequest {
            login_token: token.clone(),
            id: "dev1".to_string(),
            name: "Kitchen sensor".to_string(),
            info: "temperature".to_string(),
        },
        0,
    )
    .unwrap();
    let (id, name, info) = db
        .fetch_device(FetchDeviceRequest { login_token: token, id: "dev1".to_string() }, 0)
        .unwrap();
    assert_eq!(id, "dev1");
    assert_eq!(name, "Kitchen sensor");
    assert_eq!(info, "temperature");
}

#[test]
fn modify_device_needs_no_ownership() {
    // Any authenticated caller may rename any device by id.
    let mut db = Database::new();
    let token_a = setup_alice(&mut db, 0);
    db.register(register_req("bob@x.com", "bob", "pw2")).unwrap();
    let (token_b, _, _) = db.login(login_req("bob@x.com", "pw2"), 0).unwrap();
    db.create_device(
        CreateDeviceRequest {
            login_token: token_a,
            mail: "alice@x.com".to_string(),
            id: "dev1".to_string(),
        },
        0,
    )
    .unwrap();
    let r = db.modify_device(
        ModifyDeviceRequest {
            login_token: token_b,
            id: "dev1".to_string(),
            name: "renamed-by-bob".to_string(),
            info: "".to_string(),
        },
        0,
    );
    assert_eq!(r, Ok(()));
}

#[test]
fn modify_unknown_device_is_refused() {
    let mut db = Database::new();
    let token = setup_alice(&mut db, 0);
    let r = db.modify_device(
        ModifyDeviceRequest {
            login_token: token.clone(),
            id: "ghost".to_string(),
            name: "n".to_string(),
            info: "i".to_string(),
        },
        0,
    );
    assert_eq!(r, Err(Error::NoSuchDevice));
    let r = db.fetch_device(
        FetchDeviceRequest { login_token: token, id: "ghost".to_string() },
        0,
    );
    assert_eq!(r.unwrap_err(), Error::NoSuchDevice);
}

#[test]
fn gated_operations_fail_once_session_expired() {
    let mut db = Database::new();
    let token = setup_alice(&mut db, 0);
    let r = db.create_device(
        CreateDeviceRequest {
            login_token: token.clone(),
            mail: "alice@x.com".to_string(),
            id: "dev1".to_string(),
        },
        4000,
    );
    assert_eq!(r, Err(Error::SessionExpired));
    let r = db.fetch_device_list(
        FetchDeviceListRequest { login_token: token, mail: "alice@x.com".to_string() },
        4000,
    );
    assert_eq!(r.unwrap_err(), Error::SessionExpired);
}

#[test]
fn error_messages_are_stable() {
    assert_eq!(Error::DuplicateMail.message(), "Duplicated mail address");
    assert_eq!(Error::DuplicateName.message(), "Duplicated username");
    assert_eq!(Error::NoSuchUser.message(), "User doesn't exist");
    assert_eq!(Error::WrongPassword.message(), "error-wrong-password");
    assert_eq!(Error::SessionExpired.message(), "Login has expired");
    assert_eq!(Error::NoSuchDevice.message(), "Device doesn't exist");
    assert_eq!(Error::NoSuchOwnedDevice.message(), "Device doesn't exist");
}
