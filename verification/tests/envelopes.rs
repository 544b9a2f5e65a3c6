//! The response envelope: `success` with an `err` string, empty on
//! success.

use telemetry_store::database::Error;
use telemetry_store::response::{
    FetchDeviceListResponse, FetchDeviceProfileResponse, FetchDeviceResponse,
    FetchMessageListResponse, LoginResponse, SimpleResponse,
};

#[test]
fn success_envelope_has_empty_error() {
    let r = SimpleResponse::ok();
    assert!(r.success);
    assert_eq!(r.err, "");
}

#[test]
fn failure_envelopes_carry_the_message_and_empty_payload() {
    let r = SimpleResponse::err(Error::SessionExpired.message());
    assert!(!r.success);
    assert_eq!(r.err, "Login has expired");

    let r = LoginResponse::err(Error::WrongPassword.message());
    assert!(!r.success);
    assert_eq!(r.err, "error-wrong-password");
    assert_eq!(r.login_token, "");
    assert_eq!(r.mail, "");
    assert_eq!(r.name, "");

    let r = FetchDeviceResponse::err(Error::NoSuchDevice.message());
    assert!(!r.success);
    assert_eq!(r.err, "Device doesn't exist");
    assert_eq!(r.id, "");

    let r = FetchDeviceProfileResponse::err(Error::NoSuchDevice.message());
    assert!(!r.success);
    assert_eq!(r.message_count, 0);
    assert_eq!(r.alert_message_count, 0);

    let r = FetchDeviceListResponse::err(Error::NoSuchUser.message());
    assert!(!r.success);
    assert_eq!(r.devices.len(), 0);

    let r = FetchMessageListResponse::err(Error::SessionExpired.message());
    assert!(!r.success);
    assert_eq!(r.messages.len(), 0);
    assert_eq!(r.total_matched_count, 0);
}
