//! Telemetry ingestion, counting, and the time-ranged paginated query.

use telemetry_store::database::{Database, Error, Message};
use telemetry_store::mqtt::{ingest_event, message_of_event, MessageMqtt};
use telemetry_store::request::{
    CreateDeviceRequest, FetchDeviceProfileRequest, FetchMessageListRequest, LoginRequest,
    RegisterRequest,
};
use telemetry_store::token::blake2_str;

fn setup_alice(db: &mut Database) -> String {
    db.register(RegisterRequest {
        mail: "alice@x.com".to_string(),
        name: "alice".to_string(),
        password: blake2_str("pw1"),
    })
    .unwrap();
    let (token, _, _) = db
        .login(
            LoginRequest { mail: "alice@x.com".to_string(), password: blake2_str("pw1") },
            0,
        )
        .unwrap();
    db.create_device(
        CreateDeviceRequest {
            login_token: token.clone(),
            mail: "alice@x.com".to_string(),
            id: "dev1".to_string(),
        },
        0,
    )
    .unwrap();
    token
}

fn msg(id: &str, value: i32, alert: bool, ts: i64) -> Message {
    Message::new(
        id.to_string(),
        "info".to_string(),
        value,
        alert,
        4.2f64.to_bits(),
        51.9f64.to_bits(),
        ts,
    )
}

fn query(
    db: &mut Database,
    token: &str,
    id: &str,
    t0: i64,
    t1: i64,
    first_index: usize,
    limit: usize,
) -> (Vec<telemetry_store::response::MessageInfo>, usize) {
    db.fetch_message_list(
        FetchMessageListRequest {
            login_token: token.to_string(),
            id: id.to_string(),
            start_timestamp: t0,
            end_timestamp: t1,
            first_index,
            limit,
        },
        0,
    )
    .unwrap()
}

#[test]
fn profile_counts_follow_ingestion() {
    let mut db = Database::new();
    let token = setup_alice(&mut db);
    let profile = db
        .fetch_device_profile(
            FetchDeviceProfileRequest { login_token: token.clone(), id: "dev1".to_string() },
            0,
        )
        .unwrap();
    assert_eq!(profile.id, "dev1");
    assert_eq!(profile.name, "dev1");
    assert_eq!(profile.message_count, 0);
    assert_eq!(profile.alert_message_count, 0);
    // Two telemetry events arrive for dev1, one of them an alert.
    ingest_event(
        &mut db,
        Some(MessageMqtt {
            id: "dev1".to_string(),
            info: "a".to_string(),
            value: 1,
            alert: 1,
            lng: 0,
            lat: 0,
            timestamp: 100,
        }),
    );
    ingest_event(
        &mut db,
        Some(MessageMqtt {
            id: "dev1".to_string(),
            info: "b".to_string(),
            value: 2,
            alert: 0,
            lng: 0,
            lat: 0,
            timestamp: 200,
        }),
    );
    let profile = db
        .fetch_device_profile(
            FetchDeviceProfileRequest { login_token: token, id: "dev1".to_string() },
            0,
        )
        .unwrap();
    assert_eq!(profile.message_count, 2);
    assert_eq!(profile.alert_message_count, 1);
}

#[test]
fn counts_see_only_the_device_queried() {
    let mut db = Database::new();
    db.insert_message(msg("dev1", 1, true, 10)).unwrap();
    db.insert_message(msg("dev2", 2, true, 20)).unwrap();
    db.insert_message(msg("dev1", 3, false, 30)).unwrap();
    assert_eq!(db.count("dev1"), 2);
    assert_eq!(db.count_alert("dev1"), 1);
    assert_eq!(db.count("dev2"), 1);
    assert_eq!(db.count("ghost"), 0);
}

#[test]
fn ingestion_needs_no_registered_device() {
    // Telemetry may arrive for ids nobody registered yet; it is stored
    // and surfaces once a registration links the id.
    let mut db = Database::new();
    db.insert_message(msg("early", 1, false, 1)).unwrap();
    assert_eq!(db.count("early"), 1);
}

#[test]
fn malformed_payload_is_skipped() {
    let mut db = Database::new();
    let token = setup_alice(&mut db);
    ingest_event(&mut db, None);
    let (_, total) = query(&mut db, &token, "dev1", 0, i64::MAX, 0, 20);
    assert_eq!(total, 0);
}

#[test]
fn alert_wire_number_is_coerced() {
    let m = message_of_event(MessageMqtt {
        id: "d".to_string(),
        info: "i".to_string(),
        value: -5,
        alert: 7,
        lng: 1,
        lat: 2,
        timestamp: 3,
    });
    assert!(m.alert);
    assert_eq!(m.value, -5);
    let m = message_of_event(MessageMqtt {
        id: "d".to_string(),
        info: "i".to_string(),
        value: 0,
        alert: 0,
        lng: 1,
        lat: 2,
        timestamp: 3,
    });
    assert!(!m.alert);
}

#[test]
fn query_is_sorted_descending_within_range() {
    let mut db = Database::new();
    let token = setup_alice(&mut db);
    for (value, ts) in [(1, 150i64), (2, 50), (3, 180), (4, 200), (5, 199), (6, 201)] {
        db.insert_message(msg("dev1", value, false, ts)).unwrap();
    }
    db.insert_message(msg("other", 9, false, 160)).unwrap();
    let (list, total) = query(&mut db, &token, "dev1", 100, 200, 0, 20);
    assert_eq!(total, 4);
    let times: Vec<i64> = list.iter().map(|m| m.timestamp).collect();
    assert_eq!(times, vec![200, 199, 180, 150]);
    for m in &list {
        assert_eq!(m.id, "dev1");
        assert!(100 <= m.timestamp && m.timestamp <= 200);
    }
}

#[test]
fn range_bounds_are_inclusive_and_exclude_outsiders() {
    let mut db = Database::new();
    let token = setup_alice(&mut db);
    db.insert_message(msg("dev1", 1, false, 50)).unwrap();
    db.insert_message(msg("dev1", 2, false, 150)).unwrap();
    db.insert_message(msg("dev1", 3, false, 100)).unwrap();
    db.insert_message(msg("dev1", 4, false, 200)).unwrap();
    let (list, total) = query(&mut db, &token, "dev1", 100, 200, 0, 20);
    assert_eq!(total, 3);
    let times: Vec<i64> = list.iter().map(|m| m.timestamp).collect();
    assert_eq!(times, vec![200, 150, 100]);
}

#[test]
fn pagination_skips_and_limits_but_total_stays() {
    let mut db = Database::new();
    let token = setup_alice(&mut db);
    for ts in 1..=9i64 {
        db.insert_message(msg("dev1", ts as i32, false, ts)).unwrap();
    }
    let (page0, total0) = query(&mut db, &token, "dev1", 0, i64::MAX, 0, 4);
    let (page1, total1) = query(&mut db, &token, "dev1", 0, i64::MAX, 4, 4);
    let (page2, total2) = query(&mut db, &token, "dev1", 0, i64::MAX, 8, 4);
    let (page3, total3) = query(&mut db, &token, "dev1", 0, i64::MAX, 12, 4);
    assert_eq!((total0, total1, total2, total3), (9, 9, 9, 9));
    let t0: Vec<i64> = page0.iter().map(|m| m.timestamp).collect();
    let t1: Vec<i64> = page1.iter().map(|m| m.timestamp).collect();
    let t2: Vec<i64> = page2.iter().map(|m| m.timestamp).collect();
    assert_eq!(t0, vec![9, 8, 7, 6]);
    assert_eq!(t1, vec![5, 4, 3, 2]);
    assert_eq!(t2, vec![1]);
    assert_eq!(page3.len(), 0);
}

#[test]
fn limit_zero_returns_no_messages() {
    let mut db = Database::new();
    let token = setup_alice(&mut db);
    db.insert_message(msg("dev1", 1, false, 10)).unwrap();
    let (list, total) = query(&mut db, &token, "dev1", 0, i64::MAX, 0, 0);
    assert_eq!(list.len(), 0);
    assert_eq!(total, 1);
}

#[test]
fn query_preserves_payload_fields() {
    let mut db = Database::new();
    let token = setup_alice(&mut db);
    db.insert_message(Message::new(
        "dev1".to_string(),
        "hello".to_string(),
        -17,
        true,
        1.5f64.to_bits(),
        2.5f64.to_bits(),
        42,
    ))
    .unwrap();
    let (list, _) = query(&mut db, &token, "dev1", 0, i64::MAX, 0, 20);
    assert_eq!(list.len(), 1);
    assert_eq!(list[0].info, "hello");
    assert_eq!(list[0].value, -17);
    assert!(list[0].alert);
    assert_eq!(f64::from_bits(list[0].lng), 1.5);
    assert_eq!(f64::from_bits(list[0].lat), 2.5);
    assert_eq!(list[0].timestamp, 42);
}

#[test]
fn query_without_session_is_refused() {
    let mut db = Database::new();
    let r = db.fetch_message_list(FetchMessageListRequest::default(), 0);
    assert_eq!(r.unwrap_err(), Error::SessionExpired);
}

#[test]
fn default_query_window_is_everything_first_page() {
    let req = FetchMessageListRequest::default();
    assert_eq!(req.start_timestamp, 0);
    assert_eq!(req.end_timestamp, i64::MAX);
    assert_eq!(req.first_index, 0);
    assert_eq!(req.limit, 20);
}

#[test]
fn profile_of_unknown_device_is_refused() {
    let mut db = Database::new();
    let token = setup_alice(&mut db);
    let r = db.fetch_device_profile(
        FetchDeviceProfileRequest { login_token: token, id: "ghost".to_string() },
        0,
    );
    assert_eq!(r.unwrap_err(), Error::NoSuchDevice);
}
