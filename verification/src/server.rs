//! The request/response envelope around the store's operations. Every
//! response carries `success` and an `err` string — empty on success,
//! the error's stable wire string otherwise.

use crate::database::{
    device_index, device_profile_ok, has_device, has_mail, info_of, login_result, msgs_in_range,
    owns_device, page_of, records_after_check, records_without, register_ok_post, register_result,
    sorted_desc, store_wf, token_live, updated_only_at, user_index, user_with_device_added,
    user_with_device_removed, Database, Error, Message,
};
use crate::request::{
    CreateDeviceRequest, FetchDeviceListRequest, FetchDeviceProfileRequest, FetchDeviceRequest,
    FetchMessageListRequest, LoginRequest, ModifyDeviceRequest, RegisterRequest,
    RemoveDeviceRequest,
};
use crate::response::{
    FetchDeviceListResponse, FetchDeviceProfileResponse, FetchDeviceResponse,
    FetchMessageListResponse, LoginResponse, SimpleResponse,
};
use crate::token::token_of;
use vstd::prelude::*;

verus! {

/// The envelope reports an outcome faithfully: success with an empty
/// error string, or failure carrying the error's stable string.
pub open spec fn envelope_ok(success: bool, err: Seq<char>, r: Result<(), Error>) -> bool {
    match r {
        Ok(_) => success && err == Seq::<char>::empty(),
        Err(e) => !success && err == e.message_spec(),
    }
}

/// The outcome linking a device owes: a live session, then an existing
/// user.
pub open spec fn create_device_result(
    s: crate::database::StoreModel,
    token: Seq<char>,
    mail: Seq<char>,
    now: int,
) -> Result<(), Error> {
    if !token_live(s.login_records, token, now) {
        Err(Error::SessionExpired)
    } else if !has_mail(s.users, mail) {
        Err(Error::NoSuchUser)
    } else {
        Ok(())
    }
}

/// The outcome unlinking a device owes: a live session, an existing
/// user, and current ownership.
pub open spec fn remove_device_result(
    s: crate::database::StoreModel,
    token: Seq<char>,
    mail: Seq<char>,
    id: Seq<char>,
    now: int,
) -> Result<(), Error> {
    if !token_live(s.login_records, token, now) {
        Err(Error::SessionExpired)
    } else if !has_mail(s.users, mail) {
        Err(Error::NoSuchUser)
    } else if !owns_device(s.users[user_index(s.users, mail)], id) {
        Err(Error::NoSuchOwnedDevice)
    } else {
        Ok(())
    }
}

/// The outcome any by-id device read or rewrite owes: a live session,
/// then an existing device.
pub open spec fn device_op_result(
    s: crate::database::StoreModel,
    token: Seq<char>,
    id: Seq<char>,
    now: int,
) -> Result<(), Error> {
    if !token_live(s.login_records, token, now) {
        Err(Error::SessionExpired)
    } else if !has_device(s.devices, id) {
        Err(Error::NoSuchDevice)
    } else {
        Ok(())
    }
}

/// The outcome the device-list query owes: a live session, an existing
/// user, and every owned id resolving to a device record.
pub open spec fn device_list_result(
    s: crate::database::StoreModel,
    token: Seq<char>,
    mail: Seq<char>,
    now: int,
) -> Result<(), Error> {
    if !token_live(s.login_records, token, now) {
        Err(Error::SessionExpired)
    } else if !has_mail(s.users, mail) {
        Err(Error::NoSuchUser)
    } else if exists|k: int|
        0 <= k < s.users[user_index(s.users, mail)].devices@.len() && !has_device(
            s.devices,
            s.users[user_index(s.users, mail)].devices@[k]@,
        ) {
        Err(Error::NoSuchOwnedDevice)
    } else {
        Ok(())
    }
}

/// The outcome the message query owes: only the session can refuse it.
pub open spec fn message_list_result(
    s: crate::database::StoreModel,
    token: Seq<char>,
    now: int,
) -> Result<(), Error> {
    if !token_live(s.login_records, token, now) {
        Err(Error::SessionExpired)
    } else {
        Ok(())
    }
}

/// Registration over the envelope.
pub fn register(db: &mut Database, info: RegisterRequest) -> (resp: SimpleResponse)
    requires
        store_wf(old(db)@),
    ensures
        store_wf(final(db)@),
        final(db)@.devices == old(db)@.devices,
        final(db)@.messages == old(db)@.messages,
        final(db)@.login_records == old(db)@.login_records,
        envelope_ok(
            resp.success,
            resp.err@,
            register_result(old(db)@.users, info.mail@, info.name@),
        ),
        register_result(old(db)@.users, info.mail@, info.name@) is Err ==> final(db)@.users == old(db)@.users,
        register_result(old(db)@.users, info.mail@, info.name@) is Ok ==> register_ok_post(
            old(db)@.users,
            final(db)@.users,
            info,
        ),
{
    match db.register(info) {
        Ok(_) => SimpleResponse::ok(),
        Err(e) => SimpleResponse::err(e.message()),
    }
}

/// Login over the envelope: on success the token, mail and display name
/// ride along.
pub fn login(db: &mut Database, info: LoginRequest, now: i64) -> (resp: LoginResponse)
    requires
        store_wf(old(db)@),
    ensures
        store_wf(final(db)@),
        final(db)@.users == old(db)@.users,
        final(db)@.devices == old(db)@.devices,
        final(db)@.messages == old(db)@.messages,
        envelope_ok(
            resp.success,
            resp.err@,
            login_result(old(db)@.users, info.mail@, info.password@),
        ),
        !resp.success ==> final(db)@.login_records == old(db)@.login_records && resp.login_token@
            == Seq::<char>::empty() && resp.mail@ == Seq::<char>::empty() && resp.name@
            == Seq::<char>::empty(),
        resp.success ==> resp.login_token@ == token_of(info.mail@) && resp.mail@ == info.mail@
            && resp.name@ == old(db)@.users[user_index(old(db)@.users, info.mail@)].name@ && final(db)@.login_records.len() == old(db)@.login_records.len() + 1
            && final(db)@.login_records.drop_last() == old(db)@.login_records
            && final(db)@.login_records.last().login_token@ == token_of(info.mail@)
            && final(db)@.login_records.last().login_time == now,
{
    match db.login(info, now) {
        Ok((login_token, mail, name)) => LoginResponse {
            success: true,
            err: String::new(),
            login_token,
            mail,
            name,
        },
        Err(e) => LoginResponse::err(e.message()),
    }
}

/// Logout over the envelope: always succeeds; every record for the
/// token is gone afterwards.
pub fn logout(db: &mut Database, login_token: &str) -> (resp: SimpleResponse)
    ensures
        resp.success,
        resp.err@ == Seq::<char>::empty(),
        final(db)@.users == old(db)@.users,
        final(db)@.devices == old(db)@.devices,
        final(db)@.messages == old(db)@.messages,
        final(db)@.login_records == records_without(old(db)@.login_records, login_token@),
{
    match db.logout(login_token) {
        Ok(_) => SimpleResponse::ok(),
        Err(e) => SimpleResponse::err(e.message()),
    }
}

/// Session probe over the envelope: reports whether the token is live,
/// evicting it if it has just expired.
pub fn check_login(db: &mut Database, login_token: &str, now: i64) -> (resp: SimpleResponse)
    ensures
        final(db)@.users == old(db)@.users,
        final(db)@.devices == old(db)@.devices,
        final(db)@.messages == old(db)@.messages,
        records_after_check(
            old(db)@.login_records,
            final(db)@.login_records,
            login_token@,
            now as int,
        ),
        resp.success == token_live(old(db)@.login_records, login_token@, now as int),
        resp.success ==> resp.err@ == Seq::<char>::empty(),
        !resp.success ==> resp.err@ == Error::SessionExpired.message_spec(),
{
    if db.check_login(login_token, now) {
        SimpleResponse::ok()
    } else {
        SimpleResponse::err(Error::SessionExpired.message())
    }
}

/// Device linking over the envelope.
pub fn create_device(db: &mut Database, info: CreateDeviceRequest, now: i64) -> (resp:
    SimpleResponse)
    requires
        store_wf(old(db)@),
    ensures
        store_wf(final(db)@),
        final(db)@.messages == old(db)@.messages,
        records_after_check(
            old(db)@.login_records,
            final(db)@.login_records,
            info.login_token@,
            now as int,
        ),
        envelope_ok(
            resp.success,
            resp.err@,
            create_device_result(old(db)@, info.login_token@, info.mail@, now as int),
        ),
        !token_live(old(db)@.login_records, info.login_token@, now as int) ==> final(db)@.users
            == old(db)@.users && final(db)@.devices == old(db)@.devices,
        token_live(old(db)@.login_records, info.login_token@, now as int) ==> ({
            let users0 = old(db)@.users;
            let devices0 = old(db)@.devices;
            &&& final(db)@.login_records == old(db)@.login_records
            &&& !has_mail(users0, info.mail@) ==> final(db)@.users == users0 && final(db)@.devices
                == devices0
            &&& has_mail(users0, info.mail@) ==> ({
                let ui = user_index(users0, info.mail@);
                &&& updated_only_at(users0, final(db)@.users, ui)
                &&& user_with_device_added(users0[ui], final(db)@.users[ui], info.id)
                &&& has_device(devices0, info.id@) ==> final(db)@.devices == devices0
                &&& !has_device(devices0, info.id@) ==> final(db)@.devices.len() == devices0.len()
                    + 1 && final(db)@.devices.drop_last() == devices0
                    && final(db)@.devices.last().id@ == info.id@
                    && final(db)@.devices.last().name@ == info.id@
                    && final(db)@.devices.last().info@ == Seq::<char>::empty()
            })
        }),
{
    match db.create_device(info, now) {
        Ok(_) => SimpleResponse::ok(),
        Err(e) => SimpleResponse::err(e.message()),
    }
}

/// Device unlinking over the envelope.
pub fn remove_device(db: &mut Database, info: RemoveDeviceRequest, now: i64) -> (resp:
    SimpleResponse)
    requires
        store_wf(old(db)@),
    ensures
        store_wf(final(db)@),
        final(db)@.messages == old(db)@.messages,
        final(db)@.devices == old(db)@.devices,
        records_after_check(
            old(db)@.login_records,
            final(db)@.login_records,
            info.login_token@,
            now as int,
        ),
        envelope_ok(
            resp.success,
            resp.err@,
            remove_device_result(old(db)@, info.login_token@, info.mail@, info.id@, now as int),
        ),
        !resp.success ==> final(db)@.users == old(db)@.users,
        resp.success ==> ({
            let users0 = old(db)@.users;
            let ui = user_index(users0, info.mail@);
            &&& final(db)@.login_records == old(db)@.login_records
            &&& updated_only_at(users0, final(db)@.users, ui)
            &&& user_with_device_removed(users0[ui], final(db)@.users[ui], info.id@)
        }),
{
    match db.remove_device(info, now) {
        Ok(_) => SimpleResponse::ok(),
        Err(e) => SimpleResponse::err(e.message()),
    }
}

/// Device rewrite over the envelope.
pub fn modify_device(db: &mut Database, info: ModifyDeviceRequest, now: i64) -> (resp:
    SimpleResponse)
    requires
        store_wf(old(db)@),
    ensures
        store_wf(final(db)@),
        final(db)@.messages == old(db)@.messages,
        final(db)@.users == old(db)@.users,
        records_after_check(
            old(db)@.login_records,
            final(db)@.login_records,
            info.login_token@,
            now as int,
        ),
        envelope_ok(
            resp.success,
            resp.err@,
            device_op_result(old(db)@, info.login_token@, info.id@, now as int),
        ),
        !resp.success ==> final(db)@.devices == old(db)@.devices,
        resp.success ==> ({
            let devices0 = old(db)@.devices;
            let di = device_index(devices0, info.id@);
            &&& final(db)@.login_records == old(db)@.login_records
            &&& updated_only_at(devices0, final(db)@.devices, di)
            &&& final(db)@.devices[di].id@ == info.id@
            &&& final(db)@.devices[di].name == info.name
            &&& final(db)@.devices[di].info == info.info
        }),
{
    match db.modify_device(info, now) {
        Ok(_) => SimpleResponse::ok(),
        Err(e) => SimpleResponse::err(e.message()),
    }
}

/// Device read over the envelope.
pub fn fetch_device(db: &mut Database, info: FetchDeviceRequest, now: i64) -> (resp:
    FetchDeviceResponse)
    requires
        store_wf(old(db)@),
    ensures
        store_wf(final(db)@),
        final(db)@.users == old(db)@.users,
        final(db)@.devices == old(db)@.devices,
        final(db)@.messages == old(db)@.messages,
        records_after_check(
            old(db)@.login_records,
            final(db)@.login_records,
            info.login_token@,
            now as int,
        ),
        envelope_ok(
            resp.success,
            resp.err@,
            device_op_result(old(db)@, info.login_token@, info.id@, now as int),
        ),
        !resp.success ==> resp.id@ == Seq::<char>::empty() && resp.name@ == Seq::<char>::empty()
            && resp.info@ == Seq::<char>::empty(),
        resp.success ==> ({
            let di = device_index(old(db)@.devices, info.id@);
            &&& resp.id@ == old(db)@.devices[di].id@
            &&& resp.name@ == old(db)@.devices[di].name@
            &&& resp.info@ == old(db)@.devices[di].info@
        }),
{
    match db.fetch_device(info, now) {
        Ok((id, name, device_info)) => FetchDeviceResponse {
            success: true,
            err: String::new(),
            id,
            name,
            info: device_info,
        },
        Err(e) => FetchDeviceResponse::err(e.message()),
    }
}

/// Device profile over the envelope: the name with both message counts.
pub fn fetch_device_profile(db: &mut Database, info: FetchDeviceProfileRequest, now: i64) -> (resp:
    FetchDeviceProfileResponse)
    requires
        store_wf(old(db)@),
    ensures
        store_wf(final(db)@),
        final(db)@.users == old(db)@.users,
        final(db)@.devices == old(db)@.devices,
        final(db)@.messages == old(db)@.messages,
        records_after_check(
            old(db)@.login_records,
            final(db)@.login_records,
            info.login_token@,
            now as int,
        ),
        envelope_ok(
            resp.success,
            resp.err@,
            device_op_result(old(db)@, info.login_token@, info.id@, now as int),
        ),
        !resp.success ==> resp.name@ == Seq::<char>::empty() && resp.message_count == 0
            && resp.alert_message_count == 0,
        resp.success ==> ({
            let di = device_index(old(db)@.devices, info.id@);
            &&& resp.name@ == old(db)@.devices[di].name@
            &&& resp.message_count as nat == crate::database::sat_u32(
                crate::database::msgs_for_device(old(db)@.messages, info.id@).len(),
            )
            &&& resp.alert_message_count as nat == crate::database::sat_u32(
                crate::database::alert_msgs_for_device(old(db)@.messages, info.id@).len(),
            )
        }),
{
    match db.fetch_device_profile(info, now) {
        Ok(profile) => FetchDeviceProfileResponse {
            success: true,
            err: String::new(),
            name: profile.name,
            message_count: profile.message_count,
            alert_message_count: profile.alert_message_count,
        },
        Err(e) => FetchDeviceProfileResponse::err(e.message()),
    }
}

/// Device list over the envelope: one profile per owned id, in stored
/// order, or no list at all.
pub fn fetch_device_list(db: &mut Database, info: FetchDeviceListRequest, now: i64) -> (resp:
    FetchDeviceListResponse)
    requires
        store_wf(old(db)@),
    ensures
        store_wf(final(db)@),
        final(db)@.users == old(db)@.users,
        final(db)@.devices == old(db)@.devices,
        final(db)@.messages == old(db)@.messages,
        records_after_check(
            old(db)@.login_records,
            final(db)@.login_records,
            info.login_token@,
            now as int,
        ),
        envelope_ok(
            resp.success,
            resp.err@,
            device_list_result(old(db)@, info.login_token@, info.mail@, now as int),
        ),
        !resp.success ==> resp.devices@ == Seq::<crate::response::DeviceInfo>::empty(),
        resp.success ==> ({
            let ids = old(db)@.users[user_index(old(db)@.users, info.mail@)].devices@;
            &&& resp.devices@.len() == ids.len()
            &&& forall|k: int|
                0 <= k < ids.len() ==> device_profile_ok(old(db)@, ids[k]@, resp.devices@[k])
        }),
{
    match db.fetch_device_list(info, now) {
        Ok(devices) => {
            proof {
                if token_live(old(db)@.login_records, info.login_token@, now as int) && has_mail(
                    old(db)@.users,
                    info.mail@,
                ) {
                    let ids = old(db)@.users[user_index(old(db)@.users, info.mail@)].devices@;
                    if exists|k: int|
                        0 <= k < ids.len() && !has_device(old(db)@.devices, ids[k]@) {
                        let k0 = choose|k: int|
                            0 <= k < ids.len() && !has_device(old(db)@.devices, ids[k]@);
                        assert(device_profile_ok(old(db)@, ids[k0]@, devices@[k0]));
                    }
                }
            }
            FetchDeviceListResponse { success: true, err: String::new(), devices }
        },
        Err(e) => FetchDeviceListResponse::err(e.message()),
    }
}

/// Message query over the envelope: the page and the total match count.
pub fn fetch_message_list(db: &mut Database, info: FetchMessageListRequest, now: i64) -> (resp:
    FetchMessageListResponse)
    requires
        store_wf(old(db)@),
    ensures
        store_wf(final(db)@),
        final(db)@.users == old(db)@.users,
        final(db)@.devices == old(db)@.devices,
        final(db)@.messages == old(db)@.messages,
        records_after_check(
            old(db)@.login_records,
            final(db)@.login_records,
            info.login_token@,
            now as int,
        ),
        envelope_ok(
            resp.success,
            resp.err@,
            message_list_result(old(db)@, info.login_token@, now as int),
        ),
        !resp.success ==> resp.messages@ == Seq::<crate::response::MessageInfo>::empty()
            && resp.total_matched_count == 0,
        resp.success ==> ({
            let matches = msgs_in_range(
                old(db)@.messages,
                info.id@,
                info.start_timestamp,
                info.end_timestamp,
            );
            &&& resp.total_matched_count == matches.len()
            &&& exists|s: Seq<Message>|
                #![auto]
                sorted_desc(s) && s.to_multiset() == matches.to_multiset() && resp.messages@
                    == page_of(s, info.first_index as int, info.limit as int).map_values(
                    |m: Message| info_of(m),
                )
            &&& forall|a: int, b: int|
                0 <= a <= b < resp.messages@.len() ==> resp.messages@[a].timestamp
                    >= resp.messages@[b].timestamp
            &&& forall|t: int|
                0 <= t < resp.messages@.len() ==> resp.messages@[t].id@ == info.id@
                    && info.start_timestamp <= resp.messages@[t].timestamp
                    && resp.messages@[t].timestamp <= info.end_timestamp
        }),
{
    match db.fetch_message_list(info, now) {
        Ok((messages, total_matched_count)) => FetchMessageListResponse {
            success: true,
            err: String::new(),
            messages,
            total_matched_count,
        },
        Err(e) => FetchMessageListResponse::err(e.message()),
    }
}

} // verus!
