//! Request records consumed by the store's operations.

use vstd::prelude::*;

verus! {

pub struct LoginRequest {
    pub mail: String,
    /// One-way digest of the user's password, computed at the caller's side.
    pub password: String,
}

pub struct RegisterRequest {
    pub mail: String,
    pub name: String,
    /// One-way digest of the user's password, computed at the caller's side.
    pub password: String,
}

pub struct CreateDeviceRequest {
    pub login_token: String,
    /// mail - user mail address
    pub mail: String,
    /// id - device id
    pub id: String,
}

pub struct RemoveDeviceRequest {
    pub login_token: String,
    /// mail - user mail address
    pub mail: String,
    /// id - device id
    pub id: String,
}

pub struct FetchDeviceRequest {
    pub login_token: String,
    /// id - device id
    pub id: String,
}

pub struct ModifyDeviceRequest {
    pub login_token: String,
    /// id - device id
    pub id: String,
    pub name: String,
    pub info: String,
}

pub struct FetchDeviceListRequest {
    pub login_token: String,
    /// mail - user mail address
    pub mail: String,
}

pub struct FetchDeviceProfileRequest {
    pub login_token: String,
    /// id - device id
    pub id: String,
}

pub struct FetchMessageListRequest {
    pub login_token: String,
    /// id - device id
    pub id: String,
    pub start_timestamp: i64,
    pub end_timestamp: i64,
    pub first_index: usize,
    pub limit: usize,
}

impl Default for FetchMessageListRequest {
    /// The default query window: the whole time range, first page of 20.
    fn default() -> (r: Self)
        ensures
            r.login_token@ == Seq::<char>::empty(),
            r.id@ == Seq::<char>::empty(),
            r.start_timestamp == 0,
            r.end_timestamp == i64::MAX,
            r.first_index == 0,
            r.limit == 20,
    {
        FetchMessageListRequest {
            login_token: String::new(),
            id: String::new(),
            start_timestamp: 0,
            end_timestamp: i64::MAX,
            first_index: 0,
            limit: 20,
        }
    }
}

} // verus!
