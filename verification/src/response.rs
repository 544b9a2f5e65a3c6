//! Response records produced for the request/response envelope: every
//! envelope carries `success` and an `err` string, empty on success.

use vstd::prelude::*;
use vstd::string::StringExecFns;

verus! {

pub struct SimpleResponse {
    pub success: bool,
    pub err: String,
}

impl SimpleResponse {
    /// A success envelope with an empty error string.
    pub fn ok() -> (r: Self)
        ensures
            r.success,
            r.err@ == Seq::<char>::empty(),
    {
        SimpleResponse { success: true, err: String::new() }
    }

    /// A failure envelope carrying the error string.
    pub fn err(info: String) -> (r: Self)
        ensures
            !r.success,
            r.err@ == info@,
    {
        SimpleResponse { success: false, err: info }
    }
}

pub struct LoginResponse {
    pub success: bool,
    pub err: String,
    pub login_token: String,
    pub mail: String,
    pub name: String,
}

impl LoginResponse {
    /// A failure envelope: every payload field is empty.
    pub fn err(info: String) -> (r: Self)
        ensures
            !r.success,
            r.err@ == info@,
            r.login_token@ == Seq::<char>::empty(),
            r.mail@ == Seq::<char>::empty(),
            r.name@ == Seq::<char>::empty(),
    {
        LoginResponse {
            success: false,
            err: info,
            login_token: String::new(),
            mail: String::new(),
            name: String::new(),
        }
    }
}

pub struct FetchDeviceResponse {
    pub success: bool,
    pub err: String,
    pub id: String,
    pub name: String,
    pub info: String,
}

impl FetchDeviceResponse {
    /// A failure envelope: every payload field is empty.
    pub fn err(info: String) -> (r: Self)
        ensures
            !r.success,
            r.err@ == info@,
            r.id@ == Seq::<char>::empty(),
            r.name@ == Seq::<char>::empty(),
            r.info@ == Seq::<char>::empty(),
    {
        FetchDeviceResponse {
            success: false,
            err: info,
            id: String::new(),
            name: String::new(),
            info: String::new(),
        }
    }
}

/// A device together with its message counts, as the device-profile and
/// device-list queries report it.
#[derive(Debug)]
pub struct DeviceInfo {
    pub id: String,
    pub name: String,
    pub message_count: u32,
    pub alert_message_count: u32,
}

pub struct FetchDeviceProfileResponse {
    pub success: bool,
    pub err: String,
    pub name: String,
    pub message_count: u32,
    pub alert_message_count: u32,
}

impl FetchDeviceProfileResponse {
    /// A failure envelope: every payload field is empty or zero.
    pub fn err(info: String) -> (r: Self)
        ensures
            !r.success,
            r.err@ == info@,
            r.name@ == Seq::<char>::empty(),
            r.message_count == 0,
            r.alert_message_count == 0,
    {
        FetchDeviceProfileResponse {
            success: false,
            err: info,
            name: String::new(),
            message_count: 0,
            alert_message_count: 0,
        }
    }
}

pub struct FetchDeviceListResponse {
    pub success: bool,
    pub err: String,
    pub devices: Vec<DeviceInfo>,
}

impl FetchDeviceListResponse {
    /// A failure envelope with an empty device list.
    pub fn err(info: String) -> (r: Self)
        ensures
            !r.success,
            r.err@ == info@,
            r.devices@ == Seq::<DeviceInfo>::empty(),
    {
        FetchDeviceListResponse { success: false, err: info, devices: Vec::new() }
    }
}

/// One queried telemetry record. `lng` and `lat` carry the position as
/// raw IEEE-754 bit patterns, as stored.
#[derive(Debug)]
pub struct MessageInfo {
    pub id: String,
    pub info: String,
    pub value: i32,
    pub alert: bool,
    pub lng: u64,
    pub lat: u64,
    pub timestamp: i64,
}

pub struct FetchMessageListResponse {
    pub success: bool,
    pub err: String,
    pub messages: Vec<MessageInfo>,
    /// How many stored messages matched the query's device and time range,
    /// independent of the pagination window.
    pub total_matched_count: usize,
}

impl FetchMessageListResponse {
    /// A failure envelope with an empty message list.
    pub fn err(info: String) -> (r: Self)
        ensures
            !r.success,
            r.err@ == info@,
            r.messages@ == Seq::<MessageInfo>::empty(),
            r.total_matched_count == 0,
    {
        FetchMessageListResponse {
            success: false,
            err: info,
            messages: Vec::new(),
            total_matched_count: 0,
        }
    }
}

} // verus!
